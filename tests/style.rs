use rsls::style::{create_icon_hashmap, extension, lookup_style, Color, RESET};

fn chars(s: &str) -> Vec<char> {
    s.chars().collect()
}

fn ext_of(name: &str) -> Option<String> {
    extension(&chars(name)).map(|e| e.into_iter().collect())
}

#[test]
fn extension_is_the_last_dot_segment() {
    assert_eq!(ext_of("archive.tar.gz"), Some("gz".to_string()));
    assert_eq!(ext_of("main.rs"), Some("rs".to_string()));
    assert_eq!(ext_of("notes."), Some(String::new()));
}

#[test]
fn dotfiles_and_bare_names_have_no_extension() {
    assert_eq!(ext_of(".bashrc"), None);
    assert_eq!(ext_of("Makefile"), None);
    assert_eq!(ext_of(""), None);
    assert_eq!(ext_of("."), None);
}

#[test]
fn archive_tar_gz_resolves_by_gz() {
    let table = create_icon_hashmap();
    let gz = lookup_style(&table, &chars("gz")).unwrap();
    let ext = extension(&chars("archive.tar.gz")).unwrap();
    let found = lookup_style(&table, &ext).unwrap();
    assert_eq!(found.extension, "gz");
    assert_eq!(found.icon, gz.icon);
    assert_eq!(found.color, Color::LightPurple);
    assert!(lookup_style(&table, &chars("tar.gz")).is_none());
}

#[test]
fn lookup_folds_ascii_case() {
    let table = create_icon_hashmap();
    let upper = lookup_style(&table, &chars("JPG")).unwrap();
    assert_eq!(upper.extension, "jpg");
    assert_eq!(upper.color, Color::BrightMagenta);
    let r = lookup_style(&table, &chars("R")).unwrap();
    assert_eq!(r.extension, "r");
    assert_eq!(r.color, Color::Blue);
}

#[test]
fn unknown_extensions_have_no_style() {
    let table = create_icon_hashmap();
    assert!(lookup_style(&table, &chars("xyz")).is_none());
    assert!(lookup_style(&table, &chars("")).is_none());
    assert!(lookup_style(&table, &chars("rss")).is_none());
}

#[test]
fn table_keys_are_lower_case_and_distinct() {
    let table = create_icon_hashmap();
    assert_eq!(table.entries.len(), 74);
    for (i, a) in table.entries.iter().enumerate() {
        assert_eq!(a.extension, a.extension.to_ascii_lowercase());
        assert!(a.icon.ends_with(' '));
        for b in &table.entries[i + 1..] {
            assert_ne!(a.extension, b.extension);
        }
    }
}

#[test]
fn color_codes_are_escape_sequences() {
    assert_eq!(Color::Blue.code(), "\x1b[34m");
    assert_eq!(Color::Red.code(), "\x1b[31m");
    assert_eq!(RESET, "\x1b[0m");
}
