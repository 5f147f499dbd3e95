use rnit::fs::types::FileEntry;
use rnit::proc::types::ProcessInfo;
use rnit::size_format::format_human_readable_size;
use rnit::table::{render_rows, render_table, Alignment, TableRender};
use rnit::text::decimal_string;

#[test]
fn human_sizes() {
    assert_eq!(format_human_readable_size(0), "0 B");
    assert_eq!(format_human_readable_size(512), "512 B");
    assert_eq!(format_human_readable_size(1023), "1023 B");
    assert_eq!(format_human_readable_size(1024), "1.0 KB");
    assert_eq!(format_human_readable_size(1536), "1.5 KB");
    // 1.25 KB lies halfway between 1.2 and 1.3: the even digit wins.
    assert_eq!(format_human_readable_size(1280), "1.2 KB");
    assert_eq!(format_human_readable_size(1331), "1.3 KB");
    assert_eq!(format_human_readable_size(1_048_575), "1024.0 KB");
    assert_eq!(format_human_readable_size(1_048_576), "1.0 MB");
    assert_eq!(format_human_readable_size(5 * 1_073_741_824), "5.0 GB");
    assert_eq!(format_human_readable_size(1_099_511_627_776), "1.0 TB");
    assert_eq!(format_human_readable_size(1_125_899_906_842_624), "1.0 PB");
    assert_eq!(format_human_readable_size(u64::MAX), "16384.0 PB");
}

#[test]
fn human_sizes_match_float_formatting() {
    let units = ["B", "KB", "MB", "GB", "TB", "PB"];
    let reference = |bytes: u64| {
        let mut size = bytes as f64;
        let mut unit_index = 0;
        while size >= 1024.0 && unit_index < units.len() - 1 {
            size /= 1024.0;
            unit_index += 1;
        }
        if unit_index == 0 {
            format!("{} {}", size.trunc() as u64, units[unit_index])
        } else {
            format!("{:.1} {}", size, units[unit_index])
        }
    };
    let mut samples: Vec<u64> = vec![0, 1, 1023, 1024, 1075, 1076, 1280, 1331, 2047, 10_239, 10_240];
    let mut x: u64 = 0x9E37_79B9_7F4A_7C15;
    for _ in 0..2000 {
        x ^= x << 13;
        x ^= x >> 7;
        x ^= x << 17;
        samples.push(x >> (x % 64));
    }
    for k in 1..6u32 {
        let base = 1024u64.pow(k);
        for d in 0..40u64 {
            samples.push(base / 20 * d + base / 20 / 2);
            samples.push(base * 3 + base / 20 * d);
        }
    }
    samples.push((1u64 << 53) + 1);
    samples.push((1u64 << 54) + 3);
    samples.push(u64::MAX - 1024);
    for b in samples {
        assert_eq!(format_human_readable_size(b), reference(b), "bytes = {}", b);
    }
}

#[test]
fn decimal_texts() {
    assert_eq!(decimal_string(0), "0");
    assert_eq!(decimal_string(42), "42");
    assert_eq!(decimal_string(u64::MAX), "18446744073709551615");
}

#[test]
fn file_rows() {
    let f = FileEntry { name: "a.txt".to_string(), size: 12, is_dir: false };
    let d = FileEntry { name: "src".to_string(), size: 4096, is_dir: true };
    assert_eq!(f.row(), vec!["a.txt", "12B", "FILE"]);
    assert_eq!(d.row(), vec!["src", "-", "DIR"]);
    assert_eq!(FileEntry::headers(), vec!["NAME", "SIZE", "TYPE"]);
    assert!(FileEntry::alignments().is_empty());
}

#[test]
fn process_rows() {
    let p = ProcessInfo { pid: 42, name: "bash".to_string(), state: 'S', rss: 1536 };
    assert_eq!(p.row(), vec!["42", "bash", "S", "1.5 KB"]);
    assert_eq!(ProcessInfo::headers(), vec!["PID", "NAME", "STATE", "MEMORY"]);
    assert_eq!(
        ProcessInfo::alignments(),
        vec![Alignment::Left, Alignment::Left, Alignment::Left, Alignment::Right]
    );
}

#[test]
fn table_of_files() {
    let entries = vec![
        FileEntry { name: "notes.md".to_string(), size: 120, is_dir: false },
        FileEntry { name: "src".to_string(), size: 4096, is_dir: true },
    ];
    let t = render_table(&entries).unwrap();
    assert_eq!(t.header, "NAME      SIZE  TYPE");
    assert_eq!(t.separator, "--------  ----  ----");
    assert_eq!(t.rows, vec!["notes.md  120B  FILE", "src       -     DIR "]);
}

#[test]
fn table_of_processes_aligns_memory_right() {
    let entries = vec![
        ProcessInfo { pid: 1, name: "init".to_string(), state: 'S', rss: 2_097_152 },
        ProcessInfo { pid: 1234, name: "sh".to_string(), state: 'R', rss: 512 },
    ];
    let t = render_table(&entries).unwrap();
    assert_eq!(t.header, "PID   NAME  STATE  MEMORY");
    assert_eq!(t.separator, "----  ----  -----  ------");
    assert_eq!(t.rows, vec!["1     init  S      2.0 MB", "1234  sh    R       512 B"]);
}

#[test]
fn empty_table_has_header_and_separator() {
    let entries: Vec<FileEntry> = Vec::new();
    let t = render_table(&entries).unwrap();
    assert_eq!(t.header, "NAME  SIZE  TYPE");
    assert_eq!(t.separator, "----  ----  ----");
    assert!(t.rows.is_empty());
}

#[test]
fn table_widths_count_bytes_and_padding_counts_chars() {
    let headers = vec!["N".to_string(), "X".to_string()];
    let rows = vec![vec!["é".to_string(), "1".to_string(), "extra".to_string()], vec!["a".to_string()]];
    let t = render_rows(&headers, &vec![Alignment::Right], &rows).unwrap();
    // "é" is two bytes wide: the column is 2 wide, "é" is padded by one space.
    assert_eq!(t.header, " N  X");
    assert_eq!(t.separator, "--  -");
    assert_eq!(t.rows, vec![" é  1  extra", " a"]);
    assert!(render_rows(&Vec::new(), &Vec::new(), &rows).is_none());
}
