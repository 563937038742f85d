//! The extension style table: which icon and color an entry is shown with.

use vstd::prelude::*;

use crate::order::{lemma_name_le_antisymmetric, lemma_name_le_transitive, name_le};

verus! {

/// The terminal colors that entries are drawn in.
#[derive(Clone, Copy, Debug, PartialEq, Eq, Structural)]
pub enum Color {
    Red,
    BrightRed,
    LightRed,
    DarkGreen,
    BrightGreen,
    LightGreen,
    Yellow,
    BrightYellow,
    DarkYellow,
    Blue,
    BrightBlue,
    LightBlue,
    Magenta,
    BrightMagenta,
    DarkMagenta,
    Purple,
    LightPurple,
    Cyan,
    BrightCyan,
    LightCyan,
    Orange,
    DarkOrange,
    White,
    Gray,
    DarkGray,
}

/// The escape sequence that switches the terminal to `c`.
pub open spec fn ansi_code(c: Color) -> &'static str {
    match c {
        Color::Red => "\x1b[31m",
        Color::BrightRed => "\x1b[91m",
        Color::LightRed => "\x1b[38;5;203m",
        Color::DarkGreen => "\x1b[38;5;28m",
        Color::BrightGreen => "\x1b[92m",
        Color::LightGreen => "\x1b[38;5;120m",
        Color::Yellow => "\x1b[33m",
        Color::BrightYellow => "\x1b[93m",
        Color::DarkYellow => "\x1b[38;5;136m",
        Color::Blue => "\x1b[34m",
        Color::BrightBlue => "\x1b[94m",
        Color::LightBlue => "\x1b[38;5;117m",
        Color::Magenta => "\x1b[35m",
        Color::BrightMagenta => "\x1b[95m",
        Color::DarkMagenta => "\x1b[38;5;90m",
        Color::Purple => "\x1b[38;5;93m",
        Color::LightPurple => "\x1b[38;5;141m",
        Color::Cyan => "\x1b[36m",
        Color::BrightCyan => "\x1b[96m",
        Color::LightCyan => "\x1b[38;5;159m",
        Color::Orange => "\x1b[38;5;208m",
        Color::DarkOrange => "\x1b[38;5;166m",
        Color::White => "\x1b[37m",
        Color::Gray => "\x1b[38;5;250m",
        Color::DarkGray => "\x1b[90m",
    }
}

/// The escape sequence that restores the terminal's default color.
pub const RESET: &'static str = "\x1b[0m";

impl Color {
    /// The escape sequence that switches the terminal to this color.
    pub fn code(&self) -> (r: &'static str)
        ensures
            r == ansi_code(*self),
    {
        match self {
            Color::Red => "\x1b[31m",
            Color::BrightRed => "\x1b[91m",
            Color::LightRed => "\x1b[38;5;203m",
            Color::DarkGreen => "\x1b[38;5;28m",
            Color::BrightGreen => "\x1b[92m",
            Color::LightGreen => "\x1b[38;5;120m",
            Color::Yellow => "\x1b[33m",
            Color::BrightYellow => "\x1b[93m",
            Color::DarkYellow => "\x1b[38;5;136m",
            Color::Blue => "\x1b[34m",
            Color::BrightBlue => "\x1b[94m",
            Color::LightBlue => "\x1b[38;5;117m",
            Color::Magenta => "\x1b[35m",
            Color::BrightMagenta => "\x1b[95m",
            Color::DarkMagenta => "\x1b[38;5;90m",
            Color::Purple => "\x1b[38;5;93m",
            Color::LightPurple => "\x1b[38;5;141m",
            Color::Cyan => "\x1b[36m",
            Color::BrightCyan => "\x1b[96m",
            Color::LightCyan => "\x1b[38;5;159m",
            Color::Orange => "\x1b[38;5;208m",
            Color::DarkOrange => "\x1b[38;5;166m",
            Color::White => "\x1b[37m",
            Color::Gray => "\x1b[38;5;250m",
            Color::DarkGray => "\x1b[90m",
        }
    }
}

/// How entries with one extension are shown.
#[derive(Clone, Copy, Debug)]
pub struct StyleEntry {
    /// The extension, in lower case, without the dot.
    pub extension: &'static str,
    /// The icon glyph, followed by a space.
    pub icon: &'static str,
    /// The color the icon is drawn in.
    pub color: Color,
}

/// The extension style table.
pub struct StyleTable {
    pub entries: Vec<StyleEntry>,
}

impl StyleTable {
    /// Keys are non-empty, lower case letters and digits only (so no dot),
    /// and no two rows share one.
    pub open spec fn wf(&self) -> bool {
        table_wf(self@)
    }
}

impl View for StyleTable {
    type V = Seq<StyleEntry>;

    open spec fn view(&self) -> Seq<StyleEntry> {
        self.entries@
    }
}

/// A row of the table.
pub open spec fn row(extension: &'static str, icon: &'static str, color: Color) -> StyleEntry {
    StyleEntry { extension, icon, color }
}

/// The rows of the extension style table, ordered by key.
pub open spec fn style_rows() -> Seq<StyleEntry> {
    seq![
        row("7z", "\u{e6aa} ", Color::LightPurple),
        row("app", "\u{f0bd} ", Color::White),
        row("bat", "\u{eb60} ", Color::DarkGray),
        row("bz2", "\u{f0ffa} ", Color::LightPurple),
        row("c", "\u{e61e} ", Color::Blue),
        row("conf", "\u{e615} ", Color::DarkGray),
        row("cpp", "\u{e61d} ", Color::Blue),
        row("cs", "\u{f031b} ", Color::DarkMagenta),
        row("css", "\u{f13c} ", Color::LightBlue),
        row("csv", "\u{f0e26} ", Color::Cyan),
        row("cxx", "\u{e61d} ", Color::Blue),
        row("db", "\u{e64d} ", Color::BrightRed),
        row("deb", "\u{e77d} ", Color::LightRed),
        row("doc", "\u{f09ee} ", Color::LightCyan),
        row("docx", "\u{f09ee} ", Color::LightCyan),
        row("el", "\u{e632} ", Color::Purple),
        row("eps", "\u{f1c5} ", Color::Orange),
        row("epub", "\u{f00ba} ", Color::Cyan),
        row("exe", "\u{f17a} ", Color::BrightCyan),
        row("flac", "\u{f1c7} ", Color::BrightBlue),
        row("gif", "\u{f0d78} ", Color::Magenta),
        row("git", "\u{e702} ", Color::Orange),
        row("go", "\u{e627} ", Color::Cyan),
        row("gz", "\u{f06eb} ", Color::LightPurple),
        row("h", "\u{e61e} ", Color::Blue),
        row("hpp", "\u{e61d} ", Color::Blue),
        row("htm", "\u{eae9} ", Color::Orange),
        row("html", "\u{e736} ", Color::Orange),
        row("hxx", "\u{e61d} ", Color::Blue),
        row("ipynb", "\u{ebaf} ", Color::Yellow),
        row("iso", "\u{e271} ", Color::Gray),
        row("jar", "\u{e738} ", Color::Orange),
        row("java", "\u{e738} ", Color::Orange),
        row("jpeg", "\u{f03e} ", Color::BrightMagenta),
        row("jpg", "\u{f03e} ", Color::BrightMagenta),
        row("js", "\u{e781} ", Color::Yellow),
        row("json", "\u{eb0f} ", Color::BrightYellow),
        row("log", "\u{f4ed} ", Color::Gray),
        row("lua", "\u{e620} ", Color::BrightBlue),
        row("m4a", "\u{e638} ", Color::BrightBlue),
        row("md", "\u{e73e} ", Color::Cyan),
        row("mkv", "\u{f03d} ", Color::BrightMagenta),
        row("mp3", "\u{e638} ", Color::BrightBlue),
        row("mp4", "\u{f03d} ", Color::BrightMagenta),
        row("ogg", "\u{e638} ", Color::BrightBlue),
        row("pdf", "\u{eaeb} ", Color::BrightRed),
        row("php", "\u{e608} ", Color::BrightBlue),
        row("pl", "\u{e769} ", Color::Red),
        row("png", "\u{f03e} ", Color::BrightMagenta),
        row("ps", "\u{f1c5} ", Color::Orange),
        row("py", "\u{e73c} ", Color::DarkYellow),
        row("r", "\u{e68a} ", Color::Blue),
        row("rb", "\u{e791} ", Color::Red),
        row("rs", "\u{e7a8} ", Color::DarkGray),
        row("sh", "\u{e795} ", Color::BrightGreen),
        row("sql", "\u{e7c4} ", Color::BrightBlue),
        row("svg", "\u{f0721} ", Color::LightPurple),
        row("tar", "\u{f06eb} ", Color::LightPurple),
        row("tiff", "\u{f02ea} ", Color::BrightYellow),
        row("toml", "\u{e6b2} ", Color::DarkOrange),
        row("txt", "\u{f15c} ", Color::White),
        row("vim", "\u{e7c5} ", Color::DarkGreen),
        row("webm", "\u{f03d} ", Color::BrightMagenta),
        row("webp", "\u{f03e} ", Color::BrightMagenta),
        row("xbps", "\u{f32e} ", Color::DarkGreen),
        row("xcf", "\u{f338} ", Color::Purple),
        row("xls", "\u{f0c7e} ", Color::LightGreen),
        row("xlsx", "\u{f0c7e} ", Color::LightGreen),
        row("xml", "\u{f05c0} ", Color::LightCyan),
        row("xz", "\u{f0ffa} ", Color::LightPurple),
        row("yaml", "\u{e6a8} ", Color::BrightRed),
        row("yml", "\u{e6a8} ", Color::BrightRed),
        row("zig", "\u{e6a9} ", Color::DarkOrange),
        row("zip", "\u{f0ffa} ", Color::LightPurple),
    ]
}

/// Builds the extension style table.
pub fn create_icon_hashmap() -> (r: StyleTable)
    ensures
        r@ == style_rows(),
        r.wf(),
{
    proof {
        lemma_style_rows_wf();
    }
    let t: Vec<StyleEntry> = vec![
        StyleEntry { extension: "7z", icon: "\u{e6aa} ", color: Color::LightPurple },
        StyleEntry { extension: "app", icon: "\u{f0bd} ", color: Color::White },
        StyleEntry { extension: "bat", icon: "\u{eb60} ", color: Color::DarkGray },
        StyleEntry { extension: "bz2", icon: "\u{f0ffa} ", color: Color::LightPurple },
        StyleEntry { extension: "c", icon: "\u{e61e} ", color: Color::Blue },
        StyleEntry { extension: "conf", icon: "\u{e615} ", color: Color::DarkGray },
        StyleEntry { extension: "cpp", icon: "\u{e61d} ", color: Color::Blue },
        StyleEntry { extension: "cs", icon: "\u{f031b} ", color: Color::DarkMagenta },
        StyleEntry { extension: "css", icon: "\u{f13c} ", color: Color::LightBlue },
        StyleEntry { extension: "csv", icon: "\u{f0e26} ", color: Color::Cyan },
        StyleEntry { extension: "cxx", icon: "\u{e61d} ", color: Color::Blue },
        StyleEntry { extension: "db", icon: "\u{e64d} ", color: Color::BrightRed },
        StyleEntry { extension: "deb", icon: "\u{e77d} ", color: Color::LightRed },
        StyleEntry { extension: "doc", icon: "\u{f09ee} ", color: Color::LightCyan },
        StyleEntry { extension: "docx", icon: "\u{f09ee} ", color: Color::LightCyan },
        StyleEntry { extension: "el", icon: "\u{e632} ", color: Color::Purple },
        StyleEntry { extension: "eps", icon: "\u{f1c5} ", color: Color::Orange },
        StyleEntry { extension: "epub", icon: "\u{f00ba} ", color: Color::Cyan },
        StyleEntry { extension: "exe", icon: "\u{f17a} ", color: Color::BrightCyan },
        StyleEntry { extension: "flac", icon: "\u{f1c7} ", color: Color::BrightBlue },
        StyleEntry { extension: "gif", icon: "\u{f0d78} ", color: Color::Magenta },
        StyleEntry { extension: "git", icon: "\u{e702} ", color: Color::Orange },
        StyleEntry { extension: "go", icon: "\u{e627} ", color: Color::Cyan },
        StyleEntry { extension: "gz", icon: "\u{f06eb} ", color: Color::LightPurple },
        StyleEntry { extension: "h", icon: "\u{e61e} ", color: Color::Blue },
        StyleEntry { extension: "hpp", icon: "\u{e61d} ", color: Color::Blue },
        StyleEntry { extension: "htm", icon: "\u{eae9} ", color: Color::Orange },
        StyleEntry { extension: "html", icon: "\u{e736} ", color: Color::Orange },
        StyleEntry { extension: "hxx", icon: "\u{e61d} ", color: Color::Blue },
        StyleEntry { extension: "ipynb", icon: "\u{ebaf} ", color: Color::Yellow },
        StyleEntry { extension: "iso", icon: "\u{e271} ", color: Color::Gray },
        StyleEntry { extension: "jar", icon: "\u{e738} ", color: Color::Orange },
        StyleEntry { extension: "java", icon: "\u{e738} ", color: Color::Orange },
        StyleEntry { extension: "jpeg", icon: "\u{f03e} ", color: Color::BrightMagenta },
        StyleEntry { extension: "jpg", icon: "\u{f03e} ", color: Color::BrightMagenta },
        StyleEntry { extension: "js", icon: "\u{e781} ", color: Color::Yellow },
        StyleEntry { extension: "json", icon: "\u{eb0f} ", color: Color::BrightYellow },
        StyleEntry { extension: "log", icon: "\u{f4ed} ", color: Color::Gray },
        StyleEntry { extension: "lua", icon: "\u{e620} ", color: Color::BrightBlue },
        StyleEntry { extension: "m4a", icon: "\u{e638} ", color: Color::BrightBlue },
        StyleEntry { extension: "md", icon: "\u{e73e} ", color: Color::Cyan },
        StyleEntry { extension: "mkv", icon: "\u{f03d} ", color: Color::BrightMagenta },
        StyleEntry { extension: "mp3", icon: "\u{e638} ", color: Color::BrightBlue },
        StyleEntry { extension: "mp4", icon: "\u{f03d} ", color: Color::BrightMagenta },
        StyleEntry { extension: "ogg", icon: "\u{e638} ", color: Color::BrightBlue },
        StyleEntry { extension: "pdf", icon: "\u{eaeb} ", color: Color::BrightRed },
        StyleEntry { extension: "php", icon: "\u{e608} ", color: Color::BrightBlue },
        StyleEntry { extension: "pl", icon: "\u{e769} ", color: Color::Red },
        StyleEntry { extension: "png", icon: "\u{f03e} ", color: Color::BrightMagenta },
        StyleEntry { extension: "ps", icon: "\u{f1c5} ", color: Color::Orange },
        StyleEntry { extension: "py", icon: "\u{e73c} ", color: Color::DarkYellow },
        StyleEntry { extension: "r", icon: "\u{e68a} ", color: Color::Blue },
        StyleEntry { extension: "rb", icon: "\u{e791} ", color: Color::Red },
        StyleEntry { extension: "rs", icon: "\u{e7a8} ", color: Color::DarkGray },
        StyleEntry { extension: "sh", icon: "\u{e795} ", color: Color::BrightGreen },
        StyleEntry { extension: "sql", icon: "\u{e7c4} ", color: Color::BrightBlue },
        StyleEntry { extension: "svg", icon: "\u{f0721} ", color: Color::LightPurple },
        StyleEntry { extension: "tar", icon: "\u{f06eb} ", color: Color::LightPurple },
        StyleEntry { extension: "tiff", icon: "\u{f02ea} ", color: Color::BrightYellow },
        StyleEntry { extension: "toml", icon: "\u{e6b2} ", color: Color::DarkOrange },
        StyleEntry { extension: "txt", icon: "\u{f15c} ", color: Color::White },
        StyleEntry { extension: "vim", icon: "\u{e7c5} ", color: Color::DarkGreen },
        StyleEntry { extension: "webm", icon: "\u{f03d} ", color: Color::BrightMagenta },
        StyleEntry { extension: "webp", icon: "\u{f03e} ", color: Color::BrightMagenta },
        StyleEntry { extension: "xbps", icon: "\u{f32e} ", color: Color::DarkGreen },
        StyleEntry { extension: "xcf", icon: "\u{f338} ", color: Color::Purple },
        StyleEntry { extension: "xls", icon: "\u{f0c7e} ", color: Color::LightGreen },
        StyleEntry { extension: "xlsx", icon: "\u{f0c7e} ", color: Color::LightGreen },
        StyleEntry { extension: "xml", icon: "\u{f05c0} ", color: Color::LightCyan },
        StyleEntry { extension: "xz", icon: "\u{f0ffa} ", color: Color::LightPurple },
        StyleEntry { extension: "yaml", icon: "\u{e6a8} ", color: Color::BrightRed },
        StyleEntry { extension: "yml", icon: "\u{e6a8} ", color: Color::BrightRed },
        StyleEntry { extension: "zig", icon: "\u{e6a9} ", color: Color::DarkOrange },
        StyleEntry { extension: "zip", icon: "\u{f0ffa} ", color: Color::LightPurple },
    ];
    assert(t@ =~= style_rows());
    StyleTable { entries: t }
}

/// `c`, with an ASCII upper-case letter taken to lower case.
pub open spec fn ascii_lower(c: char) -> char {
    if 'A' <= c && c <= 'Z' {
        ((c as int) + 32) as char
    } else {
        c
    }
}

/// The table key `key` names the extension `ext`, ASCII letters compared
/// without regard to case.
pub open spec fn key_matches(key: Seq<char>, ext: Seq<char>) -> bool {
    key.len() == ext.len() && forall|i: int| 0 <= i < ext.len() ==> key[i] == ascii_lower(#[trigger] ext[i])
}

/// The first row of `table` whose key names `ext`.
pub open spec fn lookup(table: Seq<StyleEntry>, ext: Seq<char>) -> Option<StyleEntry>
    decreases table.len(),
{
    if table.len() == 0 {
        None
    } else if key_matches(table[0].extension@, ext) {
        Some(table[0])
    } else {
        lookup(table.drop_first(), ext)
    }
}

/// The position of the last `.` in `name`, or -1 where it has none.
pub open spec fn last_dot(name: Seq<char>) -> int
    decreases name.len(),
{
    if name.len() == 0 {
        -1
    } else if name.last() == '.' {
        name.len() - 1
    } else {
        last_dot(name.drop_last())
    }
}

/// The extension of `name`: what follows its last `.`. A name without a dot,
/// or with nothing before its last dot (`.bashrc`), has none.
pub open spec fn extension_of(name: Seq<char>) -> Option<Seq<char>> {
    let d = last_dot(name);
    if d <= 0 {
        None
    } else {
        Some(name.subrange(d + 1, name.len() as int))
    }
}

proof fn lemma_last_dot_bounds(name: Seq<char>)
    ensures
        -1 <= last_dot(name) < name.len(),
        last_dot(name) >= 0 ==> name[last_dot(name)] == '.',
        forall|i: int| last_dot(name) < i < name.len() ==> name[i] != '.',
    decreases name.len(),
{
    if name.len() > 0 && name.last() != '.' {
        lemma_last_dot_bounds(name.drop_last());
        assert forall|i: int| last_dot(name) < i < name.len() implies name[i] != '.' by {
            if i < name.len() - 1 {
                assert(name[i] == name.drop_last()[i]);
            }
        }
    }
}

/// An extension never holds a dot: only the segment after the last dot counts.
pub proof fn lemma_extension_is_last_segment(name: Seq<char>)
    ensures
        extension_of(name) matches Some(ext) ==> !ext.contains('.') && name == name.subrange(
            0,
            name.len() - ext.len() - 1,
        ) + seq!['.'] + ext,
{
    lemma_last_dot_bounds(name);
    if let Some(ext) = extension_of(name) {
        let d = last_dot(name);
        assert(name =~= name.subrange(0, d) + seq!['.'] + ext);
        if ext.contains('.') {
            let j = choose|j: int| 0 <= j < ext.len() && ext[j] == '.';
            assert(name[d + 1 + j] == '.');
        }
    }
}

/// Finds the extension of `name`.
pub fn extension(name: &Vec<char>) -> (r: Option<Vec<char>>)
    ensures
        r is None <==> extension_of(name@) is None,
        r matches Some(e) ==> extension_of(name@) == Some(e@),
{
    let mut i: usize = name.len();
    assert(name@.take(name.len() as int) =~= name@);
    while i > 0
        invariant
            i <= name.len(),
            last_dot(name@) == last_dot(name@.take(i as int)),
        ensures
            i <= name.len(),
            last_dot(name@) == last_dot(name@.take(i as int)),
            i == 0 || name@[i - 1] == '.',
        decreases i,
    {
        if name[i - 1] == '.' {
            break;
        }
        assert(name@.take(i as int).drop_last() =~= name@.take(i - 1));
        i = i - 1;
    }
    assert(i > 0 ==> name@.take(i as int).last() == '.');
    if i <= 1 {
        return None;
    }
    let mut e: Vec<char> = Vec::new();
    let mut j: usize = i;
    while j < name.len()
        invariant
            i <= j <= name.len(),
            e@ == name@.subrange(i as int, j as int),
        decreases name.len() - j,
    {
        e.push(name[j]);
        assert(e@ =~= name@.subrange(i as int, j + 1));
        j = j + 1;
    }
    Some(e)
}

/// Compares a table key with an extension, ASCII letters without regard to case.
fn key_matches_exec(key: &str, ext: &Vec<char>) -> (r: bool)
    ensures
        r == key_matches(key@, ext@),
{
    let k = crate::text::chars_of(key);
    if k.len() != ext.len() {
        return false;
    }
    let mut i: usize = 0;
    while i < ext.len()
        invariant
            k@ == key@,
            k.len() == ext.len(),
            i <= ext.len(),
            forall|j: int| 0 <= j < i ==> k@[j] == ascii_lower(#[trigger] ext@[j]),
        decreases ext.len() - i,
    {
        let c = ext[i];
        let lower = if 'A' <= c && c <= 'Z' {
            'a' <= k[i] && k[i] <= 'z' && k[i] as u32 == c as u32 + 32
        } else {
            k[i] == c
        };
        if !lower {
            return false;
        }
        i = i + 1;
    }
    true
}

/// Finds the style of the extension `ext` in `table`.
pub fn lookup_style(table: &StyleTable, ext: &Vec<char>) -> (r: Option<StyleEntry>)
    ensures
        r == lookup(table@, ext@),
{
    let mut i: usize = 0;
    assert(table@.skip(0) =~= table@);
    while i < table.entries.len()
        invariant
            i <= table@.len(),
            lookup(table@, ext@) == lookup(table@.skip(i as int), ext@),
        decreases table@.len() - i,
    {
        assert(table@.skip(i as int).drop_first() =~= table@.skip(i + 1));
        let entry = table.entries[i];
        if key_matches_exec(entry.extension, ext) {
            return Some(entry);
        }
        i = i + 1;
    }
    None
}

/// A character of a table key: an ASCII lower-case letter or a digit.
pub open spec fn is_key_char(c: char) -> bool {
    ('a' <= c && c <= 'z') || ('0' <= c && c <= '9')
}

/// The first `n` characters of `key` are key characters.
pub open spec fn key_prefix_ok(key: Seq<char>, n: int) -> bool
    decreases n,
{
    if n <= 0 {
        true
    } else {
        is_key_char(key[n - 1]) && key_prefix_ok(key, n - 1)
    }
}

/// A table key: non-empty, key characters only.
pub open spec fn is_table_key(key: Seq<char>) -> bool {
    key.len() > 0 && forall|j: int| 0 <= j < key.len() ==> is_key_char(#[trigger] key[j])
}

/// Every key is a table key and no two rows share a key.
pub open spec fn table_wf(rows: Seq<StyleEntry>) -> bool {
    &&& forall|i: int| 0 <= i < rows.len() ==> is_table_key(#[trigger] rows[i].extension@)
    &&& forall|i: int, j: int|
        0 <= i < j < rows.len() ==> #[trigger] rows[i].extension@ != #[trigger] rows[j].extension@
}

/// `a` sorts strictly before `b`.
pub open spec fn key_before(a: Seq<char>, b: Seq<char>) -> bool {
    name_le(a, b) && !name_le(b, a)
}

proof fn lemma_key_prefix(key: Seq<char>, n: int)
    requires
        key_prefix_ok(key, n),
        n <= key.len(),
    ensures
        forall|j: int| 0 <= j < n ==> is_key_char(#[trigger] key[j]),
    decreases n,
{
    if n > 0 {
        lemma_key_prefix(key, n - 1);
    }
}

proof fn lemma_row_key(i: int)
    requires
        0 <= i < style_rows().len(),
    ensures
        style_rows()[i].extension@.len() > 0,
        key_prefix_ok(style_rows()[i].extension@, style_rows()[i].extension@.len() as int),
        i + 1 < style_rows().len() ==> key_before(
            style_rows()[i].extension@,
            style_rows()[i + 1].extension@,
        ),
{
    reveal_strlit("7z");
    reveal_strlit("app");
    reveal_strlit("bat");
    reveal_strlit("bz2");
    reveal_strlit("c");
    reveal_strlit("conf");
    reveal_strlit("cpp");
    reveal_strlit("cs");
    reveal_strlit("css");
    reveal_strlit("csv");
    reveal_strlit("cxx");
    reveal_strlit("db");
    reveal_strlit("deb");
    reveal_strlit("doc");
    reveal_strlit("docx");
    reveal_strlit("el");
    reveal_strlit("eps");
    reveal_strlit("epub");
    reveal_strlit("exe");
    reveal_strlit("flac");
    reveal_strlit("gif");
    reveal_strlit("git");
    reveal_strlit("go");
    reveal_strlit("gz");
    reveal_strlit("h");
    reveal_strlit("hpp");
    reveal_strlit("htm");
    reveal_strlit("html");
    reveal_strlit("hxx");
    reveal_strlit("ipynb");
    reveal_strlit("iso");
    reveal_strlit("jar");
    reveal_strlit("java");
    reveal_strlit("jpeg");
    reveal_strlit("jpg");
    reveal_strlit("js");
    reveal_strlit("json");
    reveal_strlit("log");
    reveal_strlit("lua");
    reveal_strlit("m4a");
    reveal_strlit("md");
    reveal_strlit("mkv");
    reveal_strlit("mp3");
    reveal_strlit("mp4");
    reveal_strlit("ogg");
    reveal_strlit("pdf");
    reveal_strlit("php");
    reveal_strlit("pl");
    reveal_strlit("png");
    reveal_strlit("ps");
    reveal_strlit("py");
    reveal_strlit("r");
    reveal_strlit("rb");
    reveal_strlit("rs");
    reveal_strlit("sh");
    reveal_strlit("sql");
    reveal_strlit("svg");
    reveal_strlit("tar");
    reveal_strlit("tiff");
    reveal_strlit("toml");
    reveal_strlit("txt");
    reveal_strlit("vim");
    reveal_strlit("webm");
    reveal_strlit("webp");
    reveal_strlit("xbps");
    reveal_strlit("xcf");
    reveal_strlit("xls");
    reveal_strlit("xlsx");
    reveal_strlit("xml");
    reveal_strlit("xz");
    reveal_strlit("yaml");
    reveal_strlit("yml");
    reveal_strlit("zig");
    reveal_strlit("zip");
    reveal_with_fuel(name_le, 6);
    reveal_with_fuel(key_prefix_ok, 6);
    assert(style_rows().len() == 74);
    if i == 0 {
    } else if i == 1 {
    } else if i == 2 {
    } else if i == 3 {
    } else if i == 4 {
    } else if i == 5 {
    } else if i == 6 {
    } else if i == 7 {
    } else if i == 8 {
    } else if i == 9 {
    } else if i == 10 {
    } else if i == 11 {
    } else if i == 12 {
    } else if i == 13 {
    } else if i == 14 {
    } else if i == 15 {
    } else if i == 16 {
    } else if i == 17 {
    } else if i == 18 {
    } else if i == 19 {
    } else if i == 20 {
    } else if i == 21 {
    } else if i == 22 {
    } else if i == 23 {
    } else if i == 24 {
    } else if i == 25 {
    } else if i == 26 {
    } else if i == 27 {
    } else if i == 28 {
    } else if i == 29 {
    } else if i == 30 {
    } else if i == 31 {
    } else if i == 32 {
    } else if i == 33 {
    } else if i == 34 {
    } else if i == 35 {
    } else if i == 36 {
    } else if i == 37 {
    } else if i == 38 {
    } else if i == 39 {
    } else if i == 40 {
    } else if i == 41 {
    } else if i == 42 {
    } else if i == 43 {
    } else if i == 44 {
    } else if i == 45 {
    } else if i == 46 {
    } else if i == 47 {
    } else if i == 48 {
    } else if i == 49 {
    } else if i == 50 {
    } else if i == 51 {
    } else if i == 52 {
    } else if i == 53 {
    } else if i == 54 {
    } else if i == 55 {
    } else if i == 56 {
    } else if i == 57 {
    } else if i == 58 {
    } else if i == 59 {
    } else if i == 60 {
    } else if i == 61 {
    } else if i == 62 {
    } else if i == 63 {
    } else if i == 64 {
    } else if i == 65 {
    } else if i == 66 {
    } else if i == 67 {
    } else if i == 68 {
    } else if i == 69 {
    } else if i == 70 {
    } else if i == 71 {
    } else if i == 72 {
    } else if i == 73 {
    }
}

proof fn lemma_rows_ordered(i: int, j: int)
    requires
        0 <= i < j < style_rows().len(),
    ensures
        name_le(style_rows()[i].extension@, style_rows()[j].extension@),
        style_rows()[i].extension@ != style_rows()[j].extension@,
    decreases j - i,
{
    let k = |n: int| style_rows()[n].extension@;
    lemma_row_key(j - 1);
    if j > i + 1 {
        lemma_rows_ordered(i, j - 1);
        lemma_name_le_transitive(k(i), k(j - 1), k(j));
        if k(i) == k(j) {
            lemma_name_le_antisymmetric(k(j - 1), k(j));
        }
    }
}

/// The extension style table is well formed.
pub proof fn lemma_style_rows_wf()
    ensures
        table_wf(style_rows()),
{
    assert forall|i: int| 0 <= i < style_rows().len() implies is_table_key(
        #[trigger] style_rows()[i].extension@,
    ) by {
        lemma_row_key(i);
        lemma_key_prefix(style_rows()[i].extension@, style_rows()[i].extension@.len() as int);
    }
    assert forall|i: int, j: int| 0 <= i < j < style_rows().len() implies #[trigger] style_rows()[i].extension@
        != #[trigger] style_rows()[j].extension@ by {
        lemma_rows_ordered(i, j);
    }
}

} // verus!
