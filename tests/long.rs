use rsls::long::{long_line, render_long};
use rsls::record::{DirEntryRecord, LocalTime};

fn record(name: &str, is_directory: bool, size_bytes: u64, mode: u32) -> DirEntryRecord {
    DirEntryRecord {
        name: name.to_string(),
        is_directory,
        size_bytes,
        modified: LocalTime::new(2024, 3, 5, 9, 7).unwrap(),
        permission_bits: mode,
    }
}

#[test]
fn one_megabyte_is_shown_in_decimal_units() {
    let out = render_long(&vec![record("file.txt", false, 1_000_000, 0o644)], false);
    assert_eq!(out, "-rw-r--r--  1 MB  5 Mar 09:07 file.txt\n");
}

#[test]
fn long_lines_for_small_sizes_and_directories() {
    let out = render_long(&vec![record("a", false, 0, 0o600), record("dir", true, 4096, 0o755)], false);
    assert_eq!(out, "-rw-------   0 B  5 Mar 09:07 a\ndrwxr-xr-x 4.10 kB  5 Mar 09:07 dir\n");
}

#[test]
fn long_leaves_out_hidden_entries_unless_asked() {
    let records = vec![record(".hidden", false, 512, 0o644), record("shown", false, 512, 0o644)];
    assert_eq!(render_long(&records, false), "-rw-r--r-- 512 B  5 Mar 09:07 shown\n");
    assert_eq!(
        render_long(&records, true),
        "-rw-r--r-- 512 B  5 Mar 09:07 .hidden\n-rw-r--r-- 512 B  5 Mar 09:07 shown\n"
    );
}

#[test]
fn long_line_takes_the_size_text_as_given() {
    let r = DirEntryRecord {
        name: "x".to_string(),
        is_directory: false,
        size_bytes: 0,
        modified: LocalTime::new(1999, 12, 31, 23, 59).unwrap(),
        permission_bits: 0o4755,
    };
    assert_eq!(long_line(&r, "7"), "-rwxr-xr-x     7 31 Dec 23:59 x\n");
    assert_eq!(long_line(&r, "123456"), "-rwxr-xr-x 123456 31 Dec 23:59 x\n");
}

#[test]
fn local_time_rejects_days_that_do_not_exist() {
    assert!(LocalTime::new(2023, 2, 29, 0, 0).is_none());
    assert!(LocalTime::new(2024, 2, 29, 0, 0).is_some());
    assert!(LocalTime::new(1900, 2, 29, 0, 0).is_none());
    assert!(LocalTime::new(2000, 2, 29, 0, 0).is_some());
    assert!(LocalTime::new(2024, 4, 31, 0, 0).is_none());
    assert!(LocalTime::new(2024, 13, 1, 0, 0).is_none());
    assert!(LocalTime::new(2024, 0, 1, 0, 0).is_none());
    assert!(LocalTime::new(2024, 1, 0, 0, 0).is_none());
    assert!(LocalTime::new(2024, 1, 1, 24, 0).is_none());
    assert!(LocalTime::new(2024, 1, 1, 0, 60).is_none());
    assert!(LocalTime::new(300000, 1, 1, 0, 0).is_none());
    let t = LocalTime::new(-4, 2, 29, 1, 2).unwrap();
    assert_eq!((t.year, t.month, t.day, t.hour, t.minute), (-4, 2, 29, 1, 2));
}

#[test]
fn largest_size_is_shown_in_exabytes() {
    let out = render_long(&vec![record("huge", false, u64::MAX, 0o644)], false);
    assert_eq!(out, "-rw-r--r-- 18.45 EB  5 Mar 09:07 huge\n");
}
