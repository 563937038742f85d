use rsls::permissions::{
    mode_string, parse_permissions, triplet, GROUP_EXECUTE, GROUP_READ, GROUP_WRITE,
    OTHER_EXECUTE, OTHER_READ, OTHER_WRITE, OWNER_EXECUTE, OWNER_READ, OWNER_WRITE,
};

#[test]
fn triplet_gives_each_of_the_eight_texts() {
    let expected = ["---", "--x", "-w-", "-wx", "r--", "r-x", "rw-", "rwx"];
    for bits in 0u32..8 {
        assert_eq!(triplet(bits, 4, 2, 1), expected[bits as usize]);
    }
}

#[test]
fn triplet_reads_only_its_own_masks() {
    assert_eq!(triplet(0o750, OWNER_READ, OWNER_WRITE, OWNER_EXECUTE), "rwx");
    assert_eq!(triplet(0o750, GROUP_READ, GROUP_WRITE, GROUP_EXECUTE), "r-x");
    assert_eq!(triplet(0o750, OTHER_READ, OTHER_WRITE, OTHER_EXECUTE), "---");
}

#[test]
fn permissions_are_nine_characters_for_every_class_mix() {
    for mode in 0u32..0o1000 {
        let text = parse_permissions(mode | 0o100000);
        assert_eq!(text.chars().count(), 9);
        let bits = ["---", "--x", "-w-", "-wx", "r--", "r-x", "rw-", "rwx"];
        assert!(bits.contains(&&text[0..3]));
        assert!(bits.contains(&&text[3..6]));
        assert!(bits.contains(&&text[6..9]));
    }
}

#[test]
fn permissions_of_common_modes() {
    assert_eq!(parse_permissions(0o644), "rw-r--r--");
    assert_eq!(parse_permissions(0o100755), "rwxr-xr-x");
    assert_eq!(parse_permissions(0), "---------");
    assert_eq!(parse_permissions(0o777), "rwxrwxrwx");
}

#[test]
fn mode_string_marks_directories() {
    assert_eq!(mode_string(true, 0o40755), "drwxr-xr-x");
    assert_eq!(mode_string(false, 0o640), "-rw-r-----");
}

#[test]
fn permission_masks_match_libc() {
    assert_eq!(OWNER_READ, libc::S_IRUSR as u32);
    assert_eq!(OWNER_WRITE, libc::S_IWUSR as u32);
    assert_eq!(OWNER_EXECUTE, libc::S_IXUSR as u32);
    assert_eq!(GROUP_READ, libc::S_IRGRP as u32);
    assert_eq!(GROUP_WRITE, libc::S_IWGRP as u32);
    assert_eq!(GROUP_EXECUTE, libc::S_IXGRP as u32);
    assert_eq!(OTHER_READ, libc::S_IROTH as u32);
    assert_eq!(OTHER_WRITE, libc::S_IWOTH as u32);
    assert_eq!(OTHER_EXECUTE, libc::S_IXOTH as u32);
}
