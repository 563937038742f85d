//! The multi-column listing: names decorated, filtered, sorted, styled and
//! wrapped to the terminal's width.

use vstd::multiset::Multiset;
use vstd::prelude::*;

use crate::order::{lemma_listing_order_independent, names_of, sort_names, sorted_names};
use crate::record::DirEntryRecord;
use crate::style::{
    ansi_code, extension, extension_of, lookup, lookup_style, Color, StyleEntry, StyleTable,
    RESET,
};
use crate::text::{append, append_str, chars_of, push_spaces, spaces, string_of};

verus! {

/// The mark drawn after a directory's name: a space and the folder glyph.
pub const DIRECTORY_ICON: &'static str = " \u{e5ff}";

/// A hidden entry's name begins with a dot.
pub open spec fn is_hidden(name: Seq<char>) -> bool {
    name.len() > 0 && name[0] == '.'
}

/// The entry named `name` is listed.
pub open spec fn is_shown(name: Seq<char>, include_hidden: bool) -> bool {
    include_hidden || !is_hidden(name)
}

/// The names of `names` that are listed, in their order.
pub open spec fn visible_names(names: Seq<Seq<char>>, include_hidden: bool) -> Seq<Seq<char>>
    decreases names.len(),
{
    if names.len() == 0 {
        names
    } else {
        let rest = visible_names(names.drop_last(), include_hidden);
        if is_shown(names.last(), include_hidden) {
            rest.push(names.last())
        } else {
            rest
        }
    }
}

/// The name shown for an entry: a directory's carries a trailing `/`.
pub open spec fn display_name(name: Seq<char>, is_directory: bool) -> Seq<char> {
    if is_directory {
        name.push('/')
    } else {
        name
    }
}

/// The display names of `records`, in their order.
pub open spec fn display_names(records: Seq<DirEntryRecord>) -> Seq<Seq<char>> {
    records.map_values(|r: DirEntryRecord| display_name(r.name@, r.is_directory))
}

/// The greatest length (in characters) of the names, 0 for none.
pub open spec fn max_width(names: Seq<Seq<char>>) -> nat
    decreases names.len(),
{
    if names.len() == 0 {
        0
    } else {
        let m = max_width(names.drop_last());
        if names.last().len() > m {
            names.last().len()
        } else {
            m
        }
    }
}

/// How many entries fit on a line: four columns of padding plus the longest
/// name, divided into the terminal's width, and never fewer than one.
pub open spec fn columns_for(terminal_columns: int, longest: int) -> int {
    let c = terminal_columns / (4 + longest);
    if c < 1 {
        1
    } else {
        c
    }
}

/// A directory's display name: one path segment followed by `/`.
pub open spec fn is_directory_name(name: Seq<char>) -> bool {
    name.len() > 0 && name.last() == '/' && !name.drop_last().contains('/')
}

/// The entry has neither directory mark nor extension, and is shown bare.
pub open spec fn is_plain(name: Seq<char>) -> bool {
    !is_directory_name(name) && extension_of(name) is None
}

/// How an entry is drawn: a directory's name in its color, followed by a
/// space and the folder glyph; a file
/// whose extension the table knows with that icon in that color; a file
/// with an unknown extension followed by two spaces where the icon would be;
/// any other name bare.
pub open spec fn entry_text(table: Seq<StyleEntry>, name: Seq<char>) -> Seq<char> {
    if is_directory_name(name) {
        ansi_code(Color::Blue)@ + name + DIRECTORY_ICON@ + RESET@
    } else {
        match extension_of(name) {
            None => name,
            Some(ext) => match lookup(table, ext) {
                Some(style) => ansi_code(style.color)@ + style.icon@ + RESET@ + name,
                None => name + seq![' ', ' '],
            },
        }
    }
}

/// The spaces after an entry that does not end its line: bare names reserve
/// two more columns, as the others carry an icon or its two spaces.
pub open spec fn pad_width(name: Seq<char>, longest: int) -> int {
    if is_plain(name) {
        6 + longest - name.len()
    } else {
        4 + longest - name.len()
    }
}

/// The text of the entries `names`, in order, and the column the next entry
/// starts in.
pub open spec fn layout(
    table: Seq<StyleEntry>,
    names: Seq<Seq<char>>,
    longest: int,
    columns: int,
    force_single_column: bool,
) -> (Seq<char>, int)
    decreases names.len(),
{
    if names.len() == 0 {
        (Seq::empty(), 0)
    } else {
        let prev = layout(table, names.drop_last(), longest, columns, force_single_column);
        let name = names.last();
        let text = prev.0 + entry_text(table, name);
        if force_single_column {
            (text.push('\n'), prev.1)
        } else if prev.1 + 1 >= columns || name.len() > longest {
            (text.push('\n'), 0)
        } else {
            (text + spaces(pad_width(name, longest) as nat), prev.1 + 1)
        }
    }
}

/// The text of sorted names laid out in a grid.
pub open spec fn sorted_grid_text(
    table: Seq<StyleEntry>,
    names: Seq<Seq<char>>,
    longest: int,
    force_single_column: bool,
    terminal_columns: int,
) -> Seq<char> {
    layout(
        table,
        sorted_names(names),
        longest,
        columns_for(terminal_columns, longest),
        force_single_column,
    ).0
}

/// The whole grid listing of `records`, followed by a newline that ends the
/// listing (a blank line where the last row already ended).
pub open spec fn grid_text(
    table: Seq<StyleEntry>,
    records: Seq<DirEntryRecord>,
    include_hidden: bool,
    force_single_column: bool,
    terminal_columns: int,
) -> Seq<char> {
    let names = visible_names(display_names(records), include_hidden);
    sorted_grid_text(
        table,
        names,
        max_width(names) as int,
        force_single_column,
        terminal_columns,
    ).push('\n')
}

/// Filtering hidden entries twice is filtering them once.
pub proof fn lemma_hidden_filter_idempotent(names: Seq<Seq<char>>, include_hidden: bool)
    ensures
        visible_names(visible_names(names, include_hidden), include_hidden) == visible_names(
            names,
            include_hidden,
        ),
    decreases names.len(),
{
    if names.len() > 0 {
        let rest = visible_names(names.drop_last(), include_hidden);
        lemma_hidden_filter_idempotent(names.drop_last(), include_hidden);
        if is_shown(names.last(), include_hidden) {
            assert(rest.push(names.last()).drop_last() =~= rest);
        }
    }
}

/// The grid does not depend on the order in which the names arrive: the same
/// names, in any order, give the same text.
pub proof fn lemma_grid_order_independent(
    table: Seq<StyleEntry>,
    a: Seq<Seq<char>>,
    b: Seq<Seq<char>>,
    longest: int,
    force_single_column: bool,
    terminal_columns: int,
)
    requires
        a.to_multiset() == b.to_multiset(),
    ensures
        sorted_grid_text(table, a, longest, force_single_column, terminal_columns)
            == sorted_grid_text(table, b, longest, force_single_column, terminal_columns),
{
    lemma_listing_order_independent(a, b);
}

/// Where a name holds no path separator, as an entry's name never does, its
/// display name is drawn as a directory exactly when the entry is one.
pub proof fn lemma_display_name_marks_directory(name: Seq<char>, is_directory: bool)
    requires
        !name.contains('/'),
    ensures
        is_directory_name(display_name(name, is_directory)) == is_directory,
{
    if is_directory {
        assert(name.push('/').drop_last() =~= name);
    } else if name.len() > 0 && name.last() == '/' {
        assert(name.contains(name.last()));
    }
}

/// The display names of `records`: a directory's name with `/` appended.
pub fn display_names_of(records: &Vec<DirEntryRecord>) -> (r: Vec<Vec<char>>)
    ensures
        names_of(r@) == display_names(records@),
{
    let mut out: Vec<Vec<char>> = Vec::new();
    let mut i: usize = 0;
    while i < records.len()
        invariant
            i <= records.len(),
            names_of(out@) == display_names(records@).take(i as int),
        decreases records.len() - i,
    {
        let mut name = chars_of(records[i].name.as_str());
        if records[i].is_directory {
            name.push('/');
        }
        assert(name@ == display_name(records@[i as int].name@, records@[i as int].is_directory));
        let ghost out_before = names_of(out@);
        out.push(name);
        assert(names_of(out@) =~= out_before.push(name@));
        assert(names_of(out@) =~= display_names(records@).take(i + 1));
        i = i + 1;
    }
    assert(display_names(records@).take(records.len() as int) =~= display_names(records@));
    out
}

/// Tells whether the entry named `name` is hidden.
pub fn is_hidden_name(name: &Vec<char>) -> (r: bool)
    ensures
        r == is_hidden(name@),
{
    name.len() > 0 && name[0] == '.'
}

/// Keeps the names that are listed: all of them where hidden entries are
/// included, else those that do not begin with a dot.
pub fn filter_hidden(names: Vec<Vec<char>>, include_hidden: bool) -> (r: Vec<Vec<char>>)
    ensures
        names_of(r@) == visible_names(names_of(names@), include_hidden),
{
    let ghost all = names_of(names@);
    let mut out: Vec<Vec<char>> = Vec::new();
    let mut rest = names;
    let mut kept: Vec<Vec<char>> = Vec::new();
    // Take the names from the back, then restore their order.
    while rest.len() > 0
        invariant
            rest.len() <= all.len(),
            names_of(rest@) == all.take(rest.len() as int),
            visible_names(all, include_hidden) == visible_names(names_of(rest@), include_hidden)
                + names_of(kept@).reverse(),
        decreases rest.len(),
    {
        let ghost before = names_of(rest@);
        let name = rest.pop().unwrap();
        assert(names_of(rest@) =~= before.drop_last());
        assert(all.take(rest.len() as int) =~= before.drop_last());
        let ghost kept_before = names_of(kept@);
        if include_hidden || !is_hidden_name(&name) {
            kept.push(name);
            assert(names_of(kept@).reverse() =~= seq![before.last()] + kept_before.reverse());
        }
    }
    while kept.len() > 0
        invariant
            visible_names(all, include_hidden) == names_of(out@) + names_of(kept@).reverse(),
        decreases kept.len(),
    {
        let ghost kept_before = names_of(kept@);
        let ghost out_before = names_of(out@);
        let name = kept.pop().unwrap();
        out.push(name);
        assert(names_of(kept@) =~= kept_before.drop_last());
        assert(kept_before.reverse() =~= seq![kept_before.last()] + kept_before.drop_last().reverse());
        assert(names_of(out@) =~= out_before.push(kept_before.last()));
    }
    assert(names_of(kept@).reverse() =~= Seq::<Seq<char>>::empty());
    assert(visible_names(all, include_hidden) =~= names_of(out@));
    out
}

/// The greatest length, in characters, of the names: what every column is
/// sized by.
pub fn longest_name_width(names: &Vec<Vec<char>>) -> (r: usize)
    ensures
        r == max_width(names_of(names@)),
{
    let mut m: usize = 0;
    let mut i: usize = 0;
    while i < names.len()
        invariant
            i <= names.len(),
            m == max_width(names_of(names@).take(i as int)),
        decreases names.len() - i,
    {
        assert(names_of(names@).take(i + 1).drop_last() =~= names_of(names@).take(i as int));
        if names[i].len() > m {
            m = names[i].len();
        }
        i = i + 1;
    }
    assert(names_of(names@).take(names.len() as int) =~= names_of(names@));
    m
}

/// How many entries go on one line; always at least one.
pub fn columns_per_row(terminal_columns: usize, longest: usize) -> (r: usize)
    ensures
        r == columns_for(terminal_columns as int, longest as int),
        r >= 1,
        r <= terminal_columns || r == 1,
{
    let c: u128 = terminal_columns as u128 / (4 + longest as u128);
    assert(c <= terminal_columns) by (nonlinear_arith)
        requires
            c == terminal_columns as int / (4 + longest as int),
            longest >= 0,
    {
    }
    if c < 1 {
        1
    } else {
        c as usize
    }
}

/// Tells whether a display name marks a directory.
fn is_directory_name_exec(name: &Vec<char>) -> (r: bool)
    ensures
        r == is_directory_name(name@),
{
    let n = name.len();
    if n == 0 || name[n - 1] != '/' {
        return false;
    }
    let mut i: usize = 0;
    while i < n - 1
        invariant
            n == name.len(),
            n > 0,
            i <= n - 1,
            forall|j: int| 0 <= j < i ==> name@[j] != '/',
        decreases n - 1 - i,
    {
        if name[i] == '/' {
            assert(name@.drop_last()[i as int] == '/');
            return false;
        }
        i = i + 1;
    }
    assert(!name@.drop_last().contains('/')) by {
        if name@.drop_last().contains('/') {
            let j = choose|j: int| 0 <= j < n - 1 && name@.drop_last()[j] == '/';
            assert(name@[j] == '/');
        }
    }
    true
}

/// Draws one entry; also tells whether it was drawn bare.
pub fn render_entry(table: &StyleTable, name: &Vec<char>) -> (r: (Vec<char>, bool))
    ensures
        r.0@ == entry_text(table@, name@),
        r.1 == is_plain(name@),
{
    let mut out: Vec<char> = Vec::new();
    if is_directory_name_exec(name) {
        append_str(&mut out, Color::Blue.code());
        append(&mut out, name);
        append_str(&mut out, DIRECTORY_ICON);
        append_str(&mut out, RESET);
        return (out, false);
    }
    match extension(name) {
        None => {
            append(&mut out, name);
            (out, true)
        },
        Some(ext) => {
            match lookup_style(table, &ext) {
                Some(style) => {
                    append_str(&mut out, style.color.code());
                    append_str(&mut out, style.icon);
                    append_str(&mut out, RESET);
                    append(&mut out, name);
                },
                None => {
                    append(&mut out, name);
                    out.push(' ');
                    out.push(' ');
                    assert(out@ =~= name@ + seq![' ', ' ']);
                },
            }
            (out, false)
        },
    }
}

/// Lays out names in a grid: sorts them, draws each, and ends a line after
/// `columns_per_row` entries, after an entry longer than `longest`, or after
/// every entry where `force_col` holds; entries that do not end a line are
/// padded so that the next starts in its column. Widths are counted in
/// characters (Unicode scalar values), the unit `longest` is measured in, so
/// the length guard fires only where `longest` is smaller than a name.
pub fn output_to_term(
    files: Vec<Vec<char>>,
    force_col: bool,
    longest: usize,
    file_icons: &StyleTable,
    terminal_columns: usize,
) -> (r: String)
    ensures
        r@ == sorted_grid_text(
            file_icons@,
            names_of(files@),
            longest as int,
            force_col,
            terminal_columns as int,
        ),
{
    let ghost table = file_icons@;
    let sorted = sort_names(files);
    let ghost names = names_of(sorted@);
    let ncol = columns_per_row(terminal_columns, longest);
    let mut out: Vec<char> = Vec::new();
    let mut col: usize = 0;
    let mut i: usize = 0;
    while i < sorted.len()
        invariant
            i <= sorted.len(),
            names == names_of(sorted@),
            table == file_icons@,
            ncol >= 1,
            ncol == columns_for(terminal_columns as int, longest as int),
            col < ncol,
            (out@, col as int) == layout(table, names.take(i as int), longest as int, ncol as int, force_col),
        decreases sorted.len() - i,
    {
        let name = &sorted[i];
        assert(names.take(i + 1).drop_last() =~= names.take(i as int));
        assert(names.take(i + 1).last() == name@);
        let (text, plain) = render_entry(file_icons, name);
        append(&mut out, &text);
        if force_col {
            out.push('\n');
        } else if col + 1 >= ncol || name.len() > longest {
            out.push('\n');
            col = 0;
        } else {
            let pad: u128 = if plain {
                6 + longest as u128 - name.len() as u128
            } else {
                4 + longest as u128 - name.len() as u128
            };
            push_spaces(&mut out, pad);
            col = col + 1;
        }
        i = i + 1;
    }
    assert(names.take(sorted.len() as int) =~= names);
    string_of(&out)
}

/// Renders the grid listing of `records`: hidden entries left out unless
/// `include_hidden`, directories marked with `/`, columns sized by the
/// longest listed name and fitted to `terminal_columns`.
pub fn render_grid(
    records: &Vec<DirEntryRecord>,
    table: &StyleTable,
    include_hidden: bool,
    force_single_column: bool,
    terminal_columns: usize,
) -> (r: String)
    ensures
        r@ == grid_text(table@, records@, include_hidden, force_single_column, terminal_columns as int),
{
    let names = display_names_of(records);
    let shown = filter_hidden(names, include_hidden);
    let longest = longest_name_width(&shown);
    let grid = output_to_term(shown, force_single_column, longest, table, terminal_columns);
    let mut out = chars_of(grid.as_str());
    out.push('\n');
    string_of(&out)
}

proof fn lemma_map_keeps_multiset<A, B>(s: Seq<A>, t: Seq<A>, f: spec_fn(A) -> B)
    requires
        s.to_multiset() == t.to_multiset(),
    ensures
        s.map_values(f).to_multiset() == t.map_values(f).to_multiset(),
    decreases s.len(),
{
    broadcast use vstd::seq_lib::group_to_multiset_ensures;
    broadcast use vstd::multiset::group_multiset_axioms;

    if s.len() == 0 {
        vstd::seq_lib::to_multiset_len(s);
        vstd::seq_lib::to_multiset_len(t);
        assert(t.len() == 0);
        assert(s.map_values(f) =~= t.map_values(f));
    } else {
        let x = s.last();
        assert(s.contains(x));
        assert(t.to_multiset().count(x) > 0);
        let j = choose|j: int| 0 <= j < t.len() && t[j] == x;
        assert(s =~= s.drop_last().push(x));
        assert(s.drop_last().to_multiset() =~= s.to_multiset().remove(x));
        assert(t.remove(j).to_multiset() == t.to_multiset().remove(x));
        lemma_map_keeps_multiset(s.drop_last(), t.remove(j), f);
        let ms = s.map_values(f);
        let mt = t.map_values(f);
        assert(ms =~= s.drop_last().map_values(f).push(f(x)));
        assert(mt.remove(j) =~= t.remove(j).map_values(f));
        assert(mt.remove(j).to_multiset() == mt.to_multiset().remove(f(x)));
        assert(mt.contains(f(x)));
        assert(mt.to_multiset().count(f(x)) > 0);
        assert(ms.to_multiset() =~= mt.to_multiset());
    }
}

proof fn lemma_visible_count(names: Seq<Seq<char>>, include_hidden: bool, x: Seq<char>)
    ensures
        visible_names(names, include_hidden).to_multiset().count(x) == if is_shown(
            x,
            include_hidden,
        ) {
            names.to_multiset().count(x)
        } else {
            0
        },
    decreases names.len(),
{
    broadcast use vstd::seq_lib::group_to_multiset_ensures;
    broadcast use vstd::multiset::group_multiset_axioms;

    if names.len() == 0 {
        assert(names.to_multiset() =~= Multiset::empty());
    } else {
        lemma_visible_count(names.drop_last(), include_hidden, x);
        assert(names =~= names.drop_last().push(names.last()));
    }
}

proof fn lemma_max_width_bounds(names: Seq<Seq<char>>)
    ensures
        forall|i: int| 0 <= i < names.len() ==> (#[trigger] names[i]).len() <= max_width(names),
        names.len() > 0 ==> exists|i: int|
            0 <= i < names.len() && (#[trigger] names[i]).len() == max_width(names),
        names.len() == 0 ==> max_width(names) == 0,
    decreases names.len(),
{
    if names.len() > 0 {
        let rest = names.drop_last();
        lemma_max_width_bounds(rest);
        assert forall|i: int| 0 <= i < names.len() implies (#[trigger] names[i]).len() <= max_width(
            names,
        ) by {
            if i < names.len() - 1 {
                assert(names[i] == rest[i]);
            }
        }
        if names.last().len() <= max_width(rest) && rest.len() > 0 {
            let i = choose|i: int| 0 <= i < rest.len() && (#[trigger] rest[i]).len() == max_width(rest);
            assert(names[i] == rest[i]);
        } else {
            assert(names[names.len() - 1].len() == max_width(names));
        }
    }
}

proof fn lemma_max_width_by_multiset(a: Seq<Seq<char>>, b: Seq<Seq<char>>)
    requires
        a.to_multiset() == b.to_multiset(),
    ensures
        max_width(a) == max_width(b),
{
    broadcast use vstd::seq_lib::group_to_multiset_ensures;

    lemma_max_width_bounds(a);
    lemma_max_width_bounds(b);
    if a.len() > 0 {
        let i = choose|i: int| 0 <= i < a.len() && (#[trigger] a[i]).len() == max_width(a);
        assert(a.contains(a[i]));
        assert(b.to_multiset().count(a[i]) > 0);
        let k = choose|k: int| 0 <= k < b.len() && b[k] == a[i];
        let j = choose|j: int| 0 <= j < b.len() && (#[trigger] b[j]).len() == max_width(b);
        assert(b.contains(b[j]));
        assert(a.to_multiset().count(b[j]) > 0);
        let l = choose|l: int| 0 <= l < a.len() && a[l] == b[j];
        assert(a[l].len() <= max_width(a));
        assert(b[k].len() <= max_width(b));
    } else {
        vstd::seq_lib::to_multiset_len(a);
        vstd::seq_lib::to_multiset_len(b);
        assert(b.len() == 0);
    }
}

/// The grid listing does not depend on the order in which the records
/// arrive: the same records, in any order, are listed identically.
pub proof fn lemma_listing_same_for_any_order(
    table: Seq<StyleEntry>,
    a: Seq<DirEntryRecord>,
    b: Seq<DirEntryRecord>,
    include_hidden: bool,
    force_single_column: bool,
    terminal_columns: int,
)
    requires
        a.to_multiset() == b.to_multiset(),
    ensures
        grid_text(table, a, include_hidden, force_single_column, terminal_columns) == grid_text(
            table,
            b,
            include_hidden,
            force_single_column,
            terminal_columns,
        ),
{
    lemma_map_keeps_multiset(
        a,
        b,
        |r: DirEntryRecord| display_name(r.name@, r.is_directory),
    );
    let na = visible_names(display_names(a), include_hidden);
    let nb = visible_names(display_names(b), include_hidden);
    assert forall|x: Seq<char>| na.to_multiset().count(x) == nb.to_multiset().count(x) by {
        lemma_visible_count(display_names(a), include_hidden, x);
        lemma_visible_count(display_names(b), include_hidden, x);
    }
    assert(na.to_multiset() =~= nb.to_multiset());
    lemma_max_width_by_multiset(na, nb);
    lemma_grid_order_independent(
        table,
        na,
        nb,
        max_width(na) as int,
        force_single_column,
        terminal_columns,
    );
}

proof fn lemma_open_row_below_columns(
    table: Seq<StyleEntry>,
    names: Seq<Seq<char>>,
    longest: int,
    columns: int,
    force_single_column: bool,
)
    requires
        columns >= 1,
    ensures
        0 <= layout(table, names, longest, columns, force_single_column).1 < columns,
        force_single_column ==> layout(table, names, longest, columns, force_single_column).1 == 0,
    decreases names.len(),
{
    if names.len() > 0 {
        lemma_open_row_below_columns(table, names.drop_last(), longest, columns, force_single_column);
    }
}

/// The records that are listed, in their order.
pub open spec fn visible_records(records: Seq<DirEntryRecord>, include_hidden: bool) -> Seq<
    DirEntryRecord,
>
    decreases records.len(),
{
    if records.len() == 0 {
        records
    } else {
        let rest = visible_records(records.drop_last(), include_hidden);
        if is_shown(records.last().name@, include_hidden) {
            rest.push(records.last())
        } else {
            rest
        }
    }
}

/// Filtering hidden records twice is filtering them once.
pub proof fn lemma_visible_records_idempotent(records: Seq<DirEntryRecord>, include_hidden: bool)
    ensures
        visible_records(visible_records(records, include_hidden), include_hidden)
            == visible_records(records, include_hidden),
    decreases records.len(),
{
    if records.len() > 0 {
        let rest = visible_records(records.drop_last(), include_hidden);
        lemma_visible_records_idempotent(records.drop_last(), include_hidden);
        if is_shown(records.last().name@, include_hidden) {
            assert(rest.push(records.last()).drop_last() =~= rest);
        }
    }
}

proof fn lemma_display_keeps_hidden(name: Seq<char>, is_directory: bool)
    ensures
        is_hidden(display_name(name, is_directory)) == is_hidden(name),
{
    if is_directory && name.len() > 0 {
        assert(name.push('/')[0] == name[0]);
    }
}

proof fn lemma_display_names_push(records: Seq<DirEntryRecord>, r: DirEntryRecord)
    ensures
        display_names(records.push(r)) == display_names(records).push(
            display_name(r.name@, r.is_directory),
        ),
{
    assert(display_names(records.push(r)) =~= display_names(records).push(
        display_name(r.name@, r.is_directory),
    ));
}

proof fn lemma_prefiltered_names(records: Seq<DirEntryRecord>, include_hidden: bool)
    ensures
        visible_names(display_names(visible_records(records, false)), include_hidden)
            == visible_names(display_names(records), false),
    decreases records.len(),
{
    if records.len() > 0 {
        let rest = records.drop_last();
        let r = records.last();
        lemma_prefiltered_names(rest, include_hidden);
        assert(records =~= rest.push(r));
        lemma_display_names_push(rest, r);
        lemma_display_names_push(visible_records(rest, false), r);
        lemma_display_keeps_hidden(r.name@, r.is_directory);
        let d = display_name(r.name@, r.is_directory);
        assert(display_names(records).drop_last() =~= display_names(rest));
        if is_shown(r.name@, false) {
            assert(display_names(visible_records(rest, false)).push(d).drop_last() =~= display_names(
                visible_records(rest, false),
            ));
        }
    }
}

/// Leaving hidden entries out before the grid is drawn changes nothing: the
/// records without their hidden entries give, with or without
/// `include_hidden`, the grid that all the records give without it.
pub proof fn lemma_grid_of_prefiltered_records(
    table: Seq<StyleEntry>,
    records: Seq<DirEntryRecord>,
    include_hidden: bool,
    force_single_column: bool,
    terminal_columns: int,
)
    ensures
        grid_text(
            table,
            visible_records(records, false),
            include_hidden,
            force_single_column,
            terminal_columns,
        ) == grid_text(table, records, false, force_single_column, terminal_columns),
{
    lemma_prefiltered_names(records, include_hidden);
}

/// The last of `names` ends its row: `layout` writes a newline after it.
pub open spec fn ends_row(
    table: Seq<StyleEntry>,
    names: Seq<Seq<char>>,
    longest: int,
    columns: int,
    force_single_column: bool,
) -> bool {
    names.len() > 0 && (force_single_column || layout(
        table,
        names.drop_last(),
        longest,
        columns,
        force_single_column,
    ).1 + 1 >= columns || names.last().len() > longest)
}

/// How many entries each ended row of the layout holds, in order.
pub open spec fn row_sizes(
    table: Seq<StyleEntry>,
    names: Seq<Seq<char>>,
    longest: int,
    columns: int,
    force_single_column: bool,
) -> Seq<int>
    decreases names.len(),
{
    if names.len() == 0 {
        Seq::empty()
    } else {
        let prev = row_sizes(table, names.drop_last(), longest, columns, force_single_column);
        if ends_row(table, names, longest, columns, force_single_column) {
            prev.push(
                layout(table, names.drop_last(), longest, columns, force_single_column).1 + 1,
            )
        } else {
            prev
        }
    }
}

proof fn lemma_row_sizes_bounded(
    table: Seq<StyleEntry>,
    names: Seq<Seq<char>>,
    longest: int,
    columns: int,
    force_single_column: bool,
)
    requires
        columns >= 1,
    ensures
        forall|i: int|
            0 <= i < row_sizes(table, names, longest, columns, force_single_column).len() ==> 1
                <= #[trigger] row_sizes(table, names, longest, columns, force_single_column)[i]
                <= columns,
    decreases names.len(),
{
    if names.len() > 0 {
        lemma_row_sizes_bounded(table, names.drop_last(), longest, columns, force_single_column);
        lemma_open_row_below_columns(table, names.drop_last(), longest, columns, force_single_column);
        let prev = row_sizes(table, names.drop_last(), longest, columns, force_single_column);
        let rows = row_sizes(table, names, longest, columns, force_single_column);
        assert forall|i: int| 0 <= i < rows.len() implies 1 <= #[trigger] rows[i] <= columns by {
            if i < prev.len() {
                assert(rows[i] == prev[i]);
            }
        }
    }
}

/// Every row of the grid holds at least one and at most `columns_for`
/// entries (the layout writes a newline exactly after the entries that end
/// a row); where the terminal is narrower than one column, every row holds
/// exactly one entry.
pub proof fn lemma_row_sizes_fit_columns(
    table: Seq<StyleEntry>,
    names: Seq<Seq<char>>,
    longest: int,
    force_single_column: bool,
    terminal_columns: int,
)
    requires
        longest >= 0,
        terminal_columns >= 0,
    ensures
        ({
            let c = columns_for(terminal_columns, longest);
            let rows = row_sizes(table, names, longest, c, force_single_column);
            &&& forall|i: int| 0 <= i < rows.len() ==> 1 <= #[trigger] rows[i] <= c
            &&& 0 <= layout(table, names, longest, c, force_single_column).1 < c
            &&& terminal_columns < 4 + longest ==> (forall|i: int|
                0 <= i < rows.len() ==> #[trigger] rows[i] == 1) && layout(
                table,
                names,
                longest,
                c,
                force_single_column,
            ).1 == 0
        }),
{
    let c = columns_for(terminal_columns, longest);
    if terminal_columns < 4 + longest {
        assert(terminal_columns / (4 + longest) == 0) by (nonlinear_arith)
            requires
                0 <= terminal_columns < 4 + longest,
        {
        }
    }
    lemma_row_sizes_bounded(table, names, longest, c, force_single_column);
    lemma_open_row_below_columns(table, names, longest, c, force_single_column);
}

} // verus!
