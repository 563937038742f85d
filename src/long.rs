//! The detailed listing: one line per entry with its type, permissions,
//! size, modification time and name.

use vstd::prelude::*;

use crate::grid::{is_hidden_name, is_shown, visible_records};
use crate::permissions::{mode_string, mode_text};
use crate::record::{DirEntryRecord, LocalTime};
use crate::text::{append, append_str, chars_of, push_spaces, spaces, string_of};

verus! {

/// The width that the size column is right-aligned to.
pub const SIZE_WIDTH: usize = 5;

/// The human-readable size that humansize gives `bytes` in decimal (SI)
/// units, such as `1 MB` for 1,000,000.
pub uninterp spec fn decimal_size_text(bytes: u64) -> Seq<char>;

/// Relies on `humansize::format_size` with the `DECIMAL` options: the text
/// depends on the byte count alone.
#[verifier::external_body]
fn human_size(bytes: u64) -> (r: String)
    ensures
        r@ == decimal_size_text(bytes),
{
    humansize::format_size(bytes, humansize::DECIMAL)
}

/// The character of the decimal digit `d`.
pub open spec fn digit(d: int) -> char {
    (48 + d) as char
}

/// `v` (below 100) in two digits, zero-padded.
pub open spec fn two_digits(v: int) -> Seq<char> {
    seq![digit(v / 10), digit(v % 10)]
}

/// `v` (below 100) in two columns, space-padded.
pub open spec fn space_padded(v: int) -> Seq<char> {
    seq![if v < 10 { ' ' } else { digit(v / 10) }, digit(v % 10)]
}

/// The three-letter English name of `month` (1 to 12).
pub open spec fn month_abbrev(month: int) -> Seq<char> {
    if month == 1 {
        seq!['J', 'a', 'n']
    } else if month == 2 {
        seq!['F', 'e', 'b']
    } else if month == 3 {
        seq!['M', 'a', 'r']
    } else if month == 4 {
        seq!['A', 'p', 'r']
    } else if month == 5 {
        seq!['M', 'a', 'y']
    } else if month == 6 {
        seq!['J', 'u', 'n']
    } else if month == 7 {
        seq!['J', 'u', 'l']
    } else if month == 8 {
        seq!['A', 'u', 'g']
    } else if month == 9 {
        seq!['S', 'e', 'p']
    } else if month == 10 {
        seq!['O', 'c', 't']
    } else if month == 11 {
        seq!['N', 'o', 'v']
    } else {
        seq!['D', 'e', 'c']
    }
}

/// A time as the listing shows it: space-padded day of the month, month
/// name, and 24-hour `HH:MM`.
pub open spec fn stamp_text(t: LocalTime) -> Seq<char> {
    space_padded(t.day as int) + seq![' '] + month_abbrev(t.month as int) + seq![' ']
        + two_digits(t.hour as int) + seq![':'] + two_digits(t.minute as int)
}

/// Relies on chrono's `NaiveDate::from_ymd_opt` and `NaiveDate::and_hms_opt`,
/// which accept every valid date and time in chrono's year range, and on
/// `NaiveDateTime::format` with `%_d %b %H:%M`: the day space-padded to two
/// columns, the three-letter English month, hour and minute zero-padded to two
/// digits.
#[verifier::external_body]
fn format_local_time(t: &LocalTime) -> (r: String)
    requires
        t.wf(),
    ensures
        r@ == stamp_text(*t),
{
    let date = chrono::NaiveDate::from_ymd_opt(t.year, t.month, t.day).unwrap();
    let time = date.and_hms_opt(t.hour, t.minute, 0).unwrap();
    time.format("%_d %b %H:%M").to_string()
}

/// `s`, with spaces before it up to `width` characters.
pub open spec fn right_aligned(s: Seq<char>, width: nat) -> Seq<char> {
    if s.len() >= width {
        s
    } else {
        spaces((width - s.len()) as nat) + s
    }
}

/// The report line of `record`, given the text of its size.
pub open spec fn long_line_text(record: DirEntryRecord, size_text: Seq<char>) -> Seq<char> {
    mode_text(record.is_directory, record.permission_bits) + seq![' '] + right_aligned(
        size_text,
        SIZE_WIDTH as nat,
    ) + seq![' '] + stamp_text(record.modified) + seq![' '] + record.name@ + seq!['\n']
}

/// The report of `records`, in their order, hidden entries left out unless
/// `include_hidden`.
pub open spec fn long_text(records: Seq<DirEntryRecord>, include_hidden: bool) -> Seq<char>
    decreases records.len(),
{
    if records.len() == 0 {
        Seq::empty()
    } else {
        let prev = long_text(records.drop_last(), include_hidden);
        let r = records.last();
        if is_shown(r.name@, include_hidden) {
            prev + long_line_text(r, decimal_size_text(r.size_bytes))
        } else {
            prev
        }
    }
}

/// Appends `s` to `out`, right-aligned to `width` characters.
pub fn append_right_aligned(out: &mut Vec<char>, s: &Vec<char>, width: usize)
    ensures
        final(out)@ == old(out)@ + right_aligned(s@, width as nat),
{
    if s.len() < width {
        push_spaces(out, (width - s.len()) as u128);
    }
    append(out, s);
}

/// Renders the report line of `record`, given the text of its size.
pub fn long_line(record: &DirEntryRecord, size_text: &str) -> (r: String)
    requires
        record.modified.wf(),
    ensures
        r@ == long_line_text(*record, size_text@),
{
    let mut out: Vec<char> = Vec::new();
    let mode = mode_string(record.is_directory, record.permission_bits);
    append_str(&mut out, mode.as_str());
    out.push(' ');
    let size = chars_of(size_text);
    append_right_aligned(&mut out, &size, SIZE_WIDTH);
    out.push(' ');
    let stamp = format_local_time(&record.modified);
    append_str(&mut out, stamp.as_str());
    out.push(' ');
    append_str(&mut out, record.name.as_str());
    out.push('\n');
    string_of(&out)
}

/// Renders the detailed report of `records`, one line per listed entry, in
/// the order given.
pub fn render_long(records: &Vec<DirEntryRecord>, include_hidden: bool) -> (r: String)
    requires
        forall|i: int| 0 <= i < records.len() ==> (#[trigger] records@[i]).modified.wf(),
    ensures
        r@ == long_text(records@, include_hidden),
{
    let mut out: Vec<char> = Vec::new();
    let mut i: usize = 0;
    while i < records.len()
        invariant
            i <= records.len(),
            forall|j: int| 0 <= j < records.len() ==> (#[trigger] records@[j]).modified.wf(),
            out@ == long_text(records@.take(i as int), include_hidden),
        decreases records.len() - i,
    {
        let record = &records[i];
        assert(records@.take(i + 1).drop_last() =~= records@.take(i as int));
        let name = chars_of(record.name.as_str());
        if include_hidden || !is_hidden_name(&name) {
            let size = human_size(record.size_bytes);
            let line = long_line(record, size.as_str());
            append_str(&mut out, line.as_str());
        }
        i = i + 1;
    }
    assert(records@.take(records.len() as int) =~= records@);
    string_of(&out)
}

/// Leaving hidden entries out before the report is made changes nothing:
/// the records without their hidden entries give, with or without
/// `include_hidden`, the report that all the records give without it.
pub proof fn lemma_long_of_prefiltered_records(
    records: Seq<DirEntryRecord>,
    include_hidden: bool,
)
    ensures
        long_text(visible_records(records, false), include_hidden) == long_text(records, false),
    decreases records.len(),
{
    if records.len() > 0 {
        let rest = records.drop_last();
        let r = records.last();
        lemma_long_of_prefiltered_records(rest, include_hidden);
        if is_shown(r.name@, false) {
            assert(visible_records(rest, false).push(r).drop_last() =~= visible_records(rest, false));
        }
    }
}

} // verus!
