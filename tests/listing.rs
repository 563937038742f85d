use rsls::grid::render_grid;
use rsls::listing::render_listing;
use rsls::long::render_long;
use rsls::record::{DirEntryRecord, LocalTime, RsArgs};
use rsls::style::create_icon_hashmap;

fn records() -> Vec<DirEntryRecord> {
    ["b.py", ".env", "a"]
        .iter()
        .map(|n| DirEntryRecord {
            name: n.to_string(),
            is_directory: *n == "a",
            size_bytes: 2048,
            modified: LocalTime::new(2021, 11, 14, 18, 30).unwrap(),
            permission_bits: 0o40750,
        })
        .collect()
}

fn args(long: bool, all: bool, force_col: bool) -> RsArgs {
    RsArgs { dir: ".".to_string(), long, all, force_col }
}

#[test]
fn long_format_takes_precedence_over_columns() {
    let table = create_icon_hashmap();
    let out = render_listing(&args(true, false, true), &records(), &table, 80);
    assert_eq!(out, render_long(&records(), false));
    assert_eq!(out, "-rwxr-x--- 2.05 kB 14 Nov 18:30 b.py\ndrwxr-x--- 2.05 kB 14 Nov 18:30 a\n");
}

#[test]
fn grid_when_long_is_not_asked() {
    let table = create_icon_hashmap();
    let out = render_listing(&args(false, true, false), &records(), &table, 80);
    assert_eq!(out, render_grid(&records(), &table, true, false, 80));
    assert!(out.contains(".env"));
    assert!(out.contains("a/"));
}

fn without_hidden(records: &[DirEntryRecord]) -> Vec<DirEntryRecord> {
    records.iter().filter(|r| !r.name.starts_with('.')).cloned().collect()
}

#[test]
fn prefiltered_records_give_the_same_grid() {
    let table = create_icon_hashmap();
    let all = records();
    let shown = without_hidden(&all);
    let expected = render_grid(&all, &table, false, false, 80);
    assert_eq!(render_grid(&shown, &table, false, false, 80), expected);
    assert_eq!(render_grid(&shown, &table, true, false, 80), expected);
}

#[test]
fn prefiltered_records_give_the_same_report() {
    let all = records();
    let shown = without_hidden(&all);
    let expected = render_long(&all, false);
    assert_eq!(render_long(&shown, false), expected);
    assert_eq!(render_long(&shown, true), expected);
}
