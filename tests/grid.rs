use rsls::grid::{
    columns_per_row, display_names_of, filter_hidden, longest_name_width, output_to_term,
    render_entry, render_grid,
};
use rsls::order::sort_names;
use rsls::record::{DirEntryRecord, LocalTime};
use rsls::style::create_icon_hashmap;

fn chars(s: &str) -> Vec<char> {
    s.chars().collect()
}

fn record(name: &str, is_directory: bool) -> DirEntryRecord {
    DirEntryRecord {
        name: name.to_string(),
        is_directory,
        size_bytes: 0,
        modified: LocalTime::new(2024, 1, 1, 0, 0).unwrap(),
        permission_bits: 0o644,
    }
}

fn grid(records: &[DirEntryRecord], include_hidden: bool, force: bool, cols: usize) -> String {
    let table = create_icon_hashmap();
    render_grid(&records.to_vec(), &table, include_hidden, force, cols)
}

#[test]
fn hidden_entries_left_out_and_directories_marked() {
    let out = grid(&[record("a.txt", false), record(".hidden", false), record("sub", true)], false, false, 80);
    assert!(out.contains("a.txt"));
    assert!(out.contains("sub/"));
    assert!(!out.contains(".hidden"));
}

#[test]
fn hidden_entries_listed_when_included() {
    let out = grid(&[record("a.txt", false), record(".hidden", false)], true, false, 80);
    assert!(out.contains("a.txt"));
    assert!(out.contains(".hidden"));
}

#[test]
fn grid_exact_text_with_icon_and_bare_name() {
    let out = grid(&[record("b.rs", false), record("a", false)], false, false, 80);
    let expected = format!("a{}\x1b[90m\u{e7a8} \x1b[0mb.rs{}\n", " ".repeat(9), " ".repeat(4));
    assert_eq!(out, expected);
}

#[test]
fn grid_wraps_after_columns_per_row() {
    let out = grid(&[record("cc", false), record("aa", false), record("bb", false)], false, false, 16);
    assert_eq!(out, "aa      bb\ncc      \n");
}

#[test]
fn grid_forced_single_column() {
    let out = grid(&[record("b", false), record("a", false)], false, true, 80);
    assert_eq!(out, "a\nb\n\n");
}

#[test]
fn grid_of_nothing_is_a_blank_line() {
    assert_eq!(grid(&[], false, false, 80), "\n");
    assert_eq!(grid(&[record(".only", false)], false, false, 80), "\n");
}

#[test]
fn grid_draws_directories_with_their_icon() {
    let out = grid(&[record("sub", true)], false, false, 80);
    assert_eq!(out, format!("\x1b[34msub/ \u{e5ff}\x1b[0m{}\n", " ".repeat(4)));
}

#[test]
fn grid_marks_unknown_extensions_with_two_spaces() {
    let out = grid(&[record("x.zzz", false)], false, false, 80);
    assert_eq!(out, format!("x.zzz  {}\n", " ".repeat(4)));
}

#[test]
fn grid_on_narrow_terminal_puts_one_entry_per_line() {
    let out = grid(&[record("bb", false), record("aa", false)], false, false, 3);
    assert_eq!(out, "aa\nbb\n\n");
}

#[test]
fn grid_order_does_not_depend_on_input_order() {
    let names = ["zeta.rs", "Alpha", "beta.md", "sub", ".git", "alpha.txt"];
    let forward: Vec<DirEntryRecord> = names.iter().map(|n| record(n, *n == "sub")).collect();
    let backward: Vec<DirEntryRecord> = names.iter().rev().map(|n| record(n, *n == "sub")).collect();
    for include_hidden in [false, true] {
        assert_eq!(grid(&forward, include_hidden, false, 40), grid(&backward, include_hidden, false, 40));
    }
}

#[test]
fn bashrc_is_drawn_bare() {
    let table = create_icon_hashmap();
    let (text, plain) = render_entry(&table, &chars(".bashrc"));
    assert_eq!(text, chars(".bashrc"));
    assert!(plain);
}

#[test]
fn archive_is_drawn_with_the_gz_icon() {
    let table = create_icon_hashmap();
    let (text, plain) = render_entry(&table, &chars("archive.tar.gz"));
    let text: String = text.into_iter().collect();
    assert_eq!(text, "\x1b[38;5;141m\u{f06eb} \x1b[0marchive.tar.gz");
    assert!(!plain);
}

#[test]
fn columns_per_row_is_never_zero() {
    assert_eq!(columns_per_row(80, 6), 8);
    assert_eq!(columns_per_row(10, 100), 1);
    assert_eq!(columns_per_row(0, 0), 1);
    assert_eq!(columns_per_row(usize::MAX, usize::MAX), 1);
    assert_eq!(columns_per_row(usize::MAX, 0), usize::MAX / 4);
}

#[test]
fn hidden_filter_is_idempotent() {
    let names: Vec<Vec<char>> = ["a", ".b", "c.rs", ".d/", "e/"].iter().map(|s| chars(s)).collect();
    for include_hidden in [false, true] {
        let once = filter_hidden(names.clone(), include_hidden);
        let twice = filter_hidden(once.clone(), include_hidden);
        assert_eq!(once, twice);
    }
    let once = filter_hidden(names.clone(), false);
    assert_eq!(once, vec![chars("a"), chars("c.rs"), chars("e/")]);
    assert_eq!(filter_hidden(names.clone(), true), names);
}

#[test]
fn display_names_append_separator_to_directories() {
    let names = display_names_of(&vec![record("src", true), record("a.rs", false)]);
    assert_eq!(names, vec![chars("src/"), chars("a.rs")]);
}

#[test]
fn longest_width_counts_characters_not_bytes() {
    assert_eq!(longest_name_width(&vec![chars("ab"), chars("\u{e9}\u{e9}\u{e9}")]), 3);
    assert_eq!(longest_name_width(&vec![]), 0);
}

#[test]
fn sort_is_lexicographic_by_code_point() {
    let sorted = sort_names(vec![chars("b"), chars("a/"), chars("a.txt"), chars("B"), chars("a")]);
    let expected: Vec<Vec<char>> = ["B", "a", "a.txt", "a/", "b"].iter().map(|s| chars(s)).collect();
    assert_eq!(sorted, expected);
    let mut by_std: Vec<String> = ["b", "a/", "a.txt", "B", "a", "\u{e9}", "z"].iter().map(|s| s.to_string()).collect();
    let ours = sort_names(by_std.iter().map(|s| chars(s)).collect());
    by_std.sort();
    let ours: Vec<String> = ours.into_iter().map(|v| v.into_iter().collect()).collect();
    assert_eq!(ours, by_std);
}

#[test]
fn output_to_term_sorts_and_pads() {
    let table = create_icon_hashmap();
    let out = output_to_term(vec![chars("bb"), chars("aa")], false, 2, &table, 80);
    assert_eq!(out, format!("aa{}bb{}", " ".repeat(6), " ".repeat(6)));
}

#[test]
fn sort_keeps_equal_names() {
    let sorted = sort_names(vec![chars("b"), chars("a"), chars("b"), chars("")]);
    assert_eq!(sorted, vec![chars(""), chars("a"), chars("b"), chars("b")]);
}

#[test]
fn forced_directory_bypasses_the_extension_table() {
    let table = create_icon_hashmap();
    let out = output_to_term(vec![chars("x.rs/")], true, 5, &table, 80);
    assert_eq!(out, "\x1b[34mx.rs/ \u{e5ff}\x1b[0m\n");
}

#[test]
fn grid_exact_text_for_file_hidden_and_directory() {
    let out = grid(&[record("a.txt", false), record(".hidden", false), record("sub", true)], false, false, 80);
    assert_eq!(
        out,
        "\x1b[37m\u{f15c} \x1b[0ma.txt    \x1b[34msub/ \u{e5ff}\x1b[0m     \n"
    );
}

#[test]
fn output_to_term_on_a_too_narrow_terminal() {
    let table = create_icon_hashmap();
    assert_eq!(output_to_term(vec![chars("x"), chars("y")], false, 20, &table, 10), "x\ny\n");
}

#[test]
fn output_to_term_ends_a_row_after_an_overlong_name() {
    let table = create_icon_hashmap();
    assert_eq!(output_to_term(vec![chars("abc")], false, 2, &table, 80), "abc\n");
}

#[test]
fn output_to_term_pads_bare_and_unknown_names() {
    let table = create_icon_hashmap();
    assert_eq!(output_to_term(vec![chars(".bashrc")], false, 7, &table, 80), ".bashrc      ");
    assert_eq!(output_to_term(vec![chars("notes.xyz")], false, 9, &table, 80), "notes.xyz      ");
}

#[test]
fn output_to_term_wraps_styled_entries() {
    let table = create_icon_hashmap();
    let c = "\x1b[34m\u{e61e} \x1b[0m";
    let out = output_to_term(vec![chars("c.c"), chars("a.c"), chars("b.c")], false, 3, &table, 14);
    assert_eq!(out, format!("{c}a.c    {c}b.c\n{c}c.c    "));
}

#[test]
fn output_to_term_styles_by_lower_cased_extension() {
    let table = create_icon_hashmap();
    let out = output_to_term(vec![chars("PHOTO.PNG")], true, 9, &table, 80);
    assert_eq!(out, "\x1b[95m\u{f03e} \x1b[0mPHOTO.PNG\n");
    let archive = output_to_term(vec![chars("archive.tar.gz")], true, 14, &table, 80);
    assert_eq!(archive, "\x1b[38;5;141m\u{f06eb} \x1b[0marchive.tar.gz\n");
}

#[test]
fn forced_single_column_has_one_newline_per_entry() {
    let table = create_icon_hashmap();
    let out = output_to_term(vec![chars("b"), chars("a"), chars("c")], true, 1, &table, 80);
    assert_eq!(out, "a\nb\nc\n");
    assert_eq!(out.matches('\n').count(), 3);
}
