use rnit::fs::types::{FileEntry, FsSortField};
use rnit::proc::types::{ProcSortField, ProcessInfo};
use rnit::query::{apply_limit, apply_query, apply_sort, QueryArgs, SortOrder};

fn file(name: &str, size: u64) -> FileEntry {
    FileEntry { name: name.to_string(), size, is_dir: false }
}

fn names(entries: &[FileEntry]) -> Vec<&str> {
    entries.iter().map(|e| e.name.as_str()).collect()
}

#[test]
fn limit_keeps_the_first_entries() {
    let mut v = vec![1, 2, 3, 4];
    apply_limit(&mut v, Some(2));
    assert_eq!(v, vec![1, 2]);
    let mut v = vec![1, 2, 3];
    apply_limit(&mut v, Some(0));
    assert_eq!(v, vec![1, 2, 3]);
    apply_limit(&mut v, None);
    assert_eq!(v, vec![1, 2, 3]);
    apply_limit(&mut v, Some(10));
    assert_eq!(v, vec![1, 2, 3]);
}

#[test]
fn sort_by_name_and_size() {
    let mut v = vec![file("b.txt", 3), file("a.txt", 9), file("C.txt", 1), file("ab", 3)];
    apply_sort(&mut v, Some(FsSortField::Name), SortOrder::Asc);
    assert_eq!(names(&v), vec!["C.txt", "a.txt", "ab", "b.txt"]);
    apply_sort(&mut v, Some(FsSortField::Size), SortOrder::Asc);
    // Equal sizes keep their order.
    assert_eq!(names(&v), vec!["C.txt", "ab", "b.txt", "a.txt"]);
}

#[test]
fn descending_reverses_the_stable_ascending_order() {
    let mut v = vec![file("x", 2), file("y", 1), file("z", 2)];
    apply_sort(&mut v, Some(FsSortField::Size), SortOrder::Desc);
    assert_eq!(names(&v), vec!["z", "x", "y"]);
}

#[test]
fn descending_by_name_reverses_ascending_with_ties() {
    let input = vec![file("a", 1), file("b", 2), file("a", 3)];
    let mut asc = input.clone();
    apply_sort(&mut asc, Some(FsSortField::Name), SortOrder::Asc);
    let mut desc = input.clone();
    apply_sort(&mut desc, Some(FsSortField::Name), SortOrder::Desc);
    let sizes = |v: &[FileEntry]| v.iter().map(|e| e.size).collect::<Vec<_>>();
    assert_eq!(sizes(&asc), vec![1, 3, 2]);
    assert_eq!(sizes(&desc), vec![2, 3, 1]);
    let mut reversed = sizes(&asc);
    reversed.reverse();
    assert_eq!(sizes(&desc), reversed);
}

#[test]
fn no_field_leaves_order() {
    let mut v = vec![file("b", 1), file("a", 2)];
    apply_sort(&mut v, None, SortOrder::Desc);
    assert_eq!(names(&v), vec!["b", "a"]);
}

#[test]
fn sort_texts_by_code_point() {
    let mut v = vec![file("é", 0), file("z", 0), file("", 0), file("Z", 0)];
    apply_sort(&mut v, Some(FsSortField::Name), SortOrder::Asc);
    assert_eq!(names(&v), vec!["", "Z", "z", "é"]);
}

#[test]
fn sort_processes() {
    let p = |pid: u32, name: &str, rss: u64| ProcessInfo { pid, name: name.to_string(), state: 'S', rss };
    let mut v = vec![p(1, "init", 300), p(2, "bash", 100), p(3, "agent", 200)];
    apply_sort(&mut v, Some(ProcSortField::Size), SortOrder::Desc);
    assert_eq!(v.iter().map(|x| x.pid).collect::<Vec<_>>(), vec![1, 3, 2]);
    apply_sort(&mut v, Some(ProcSortField::Name), SortOrder::Asc);
    assert_eq!(v.iter().map(|x| x.pid).collect::<Vec<_>>(), vec![3, 2, 1]);
}

#[test]
fn query_sorts_then_limits() {
    let mut v = vec![file("c", 1), file("a", 2), file("b", 3)];
    apply_query(&mut v, QueryArgs { sort: Some(FsSortField::Name), order: SortOrder::Desc, limit: Some(2) });
    assert_eq!(names(&v), vec!["c", "b"]);
    let mut v = vec![file("c", 1), file("a", 2), file("b", 3)];
    apply_query(&mut v, QueryArgs { sort: None, order: SortOrder::Asc, limit: Some(1) });
    assert_eq!(names(&v), vec!["c"]);
}

#[test]
fn sorting_a_sorted_listing_changes_nothing() {
    let mut v = vec![file("b", 2), file("a", 2), file("c", 1)];
    apply_sort(&mut v, Some(FsSortField::Size), SortOrder::Asc);
    let once = names(&v).iter().map(|s| s.to_string()).collect::<Vec<_>>();
    apply_sort(&mut v, Some(FsSortField::Size), SortOrder::Asc);
    assert_eq!(names(&v), once.iter().map(|s| s.as_str()).collect::<Vec<_>>());
    assert_eq!(names(&v), vec!["c", "b", "a"]);
}
