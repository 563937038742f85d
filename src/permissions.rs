//! Decoding of Unix permission bits into `rwx` text.

use vstd::prelude::*;

use crate::text::{append_str, string_of};

verus! {

/// Read permission, owner (`S_IRUSR`).
pub const OWNER_READ: u32 = 0o400;
/// Write permission, owner (`S_IWUSR`).
pub const OWNER_WRITE: u32 = 0o200;
/// Execute permission, owner (`S_IXUSR`).
pub const OWNER_EXECUTE: u32 = 0o100;
/// Read permission, group (`S_IRGRP`).
pub const GROUP_READ: u32 = 0o040;
/// Write permission, group (`S_IWGRP`).
pub const GROUP_WRITE: u32 = 0o020;
/// Execute permission, group (`S_IXGRP`).
pub const GROUP_EXECUTE: u32 = 0o010;
/// Read permission, others (`S_IROTH`).
pub const OTHER_READ: u32 = 0o004;
/// Write permission, others (`S_IWOTH`).
pub const OTHER_WRITE: u32 = 0o002;
/// Execute permission, others (`S_IXOTH`).
pub const OTHER_EXECUTE: u32 = 0o001;

/// The three characters shown for one class of users.
pub open spec fn rwx_text(read: bool, write: bool, execute: bool) -> Seq<char> {
    seq![
        if read { 'r' } else { '-' },
        if write { 'w' } else { '-' },
        if execute { 'x' } else { '-' },
    ]
}

/// The text of one class, given the mode and that class's three bit masks.
pub open spec fn triplet_text(mode: u32, read: u32, write: u32, execute: u32) -> Seq<char> {
    rwx_text(mode & read != 0, mode & write != 0, mode & execute != 0)
}

/// Renders the permissions that `mode` grants for one class of users.
pub fn triplet(mode: u32, read: u32, write: u32, execute: u32) -> (r: String)
    ensures
        r@ == triplet_text(mode, read, write, execute),
{
    let s = match (mode & read != 0, mode & write != 0, mode & execute != 0) {
        (false, false, false) => "---",
        (true, false, false) => "r--",
        (false, true, false) => "-w-",
        (false, false, true) => "--x",
        (true, true, false) => "rw-",
        (true, false, true) => "r-x",
        (false, true, true) => "-wx",
        (true, true, true) => "rwx",
    };
    proof {
        reveal_strlit("---");
        reveal_strlit("r--");
        reveal_strlit("-w-");
        reveal_strlit("--x");
        reveal_strlit("rw-");
        reveal_strlit("r-x");
        reveal_strlit("-wx");
        reveal_strlit("rwx");
    }
    let r = s.to_owned();
    assert(r@ =~= triplet_text(mode, read, write, execute));
    r
}

/// The nine characters for owner, group and others.
pub open spec fn permission_text(mode: u32) -> Seq<char> {
    triplet_text(mode, OWNER_READ, OWNER_WRITE, OWNER_EXECUTE) + triplet_text(
        mode,
        GROUP_READ,
        GROUP_WRITE,
        GROUP_EXECUTE,
    ) + triplet_text(mode, OTHER_READ, OTHER_WRITE, OTHER_EXECUTE)
}

/// The type character (`d` for a directory, `-` otherwise) and the nine
/// permission characters.
pub open spec fn mode_text(is_directory: bool, mode: u32) -> Seq<char> {
    seq![if is_directory { 'd' } else { '-' }] + permission_text(mode)
}

/// Renders the owner, group and other permissions of `mode`.
pub fn parse_permissions(mode: u32) -> (r: String)
    ensures
        r@ == permission_text(mode),
{
    let mut out: Vec<char> = Vec::new();
    let user = triplet(mode, OWNER_READ, OWNER_WRITE, OWNER_EXECUTE);
    let group = triplet(mode, GROUP_READ, GROUP_WRITE, GROUP_EXECUTE);
    let other = triplet(mode, OTHER_READ, OTHER_WRITE, OTHER_EXECUTE);
    append_str(&mut out, user.as_str());
    append_str(&mut out, group.as_str());
    append_str(&mut out, other.as_str());
    string_of(&out)
}

/// Renders the type character followed by the permissions of `mode`.
pub fn mode_string(is_directory: bool, mode: u32) -> (r: String)
    ensures
        r@ == mode_text(is_directory, mode),
{
    let mut out: Vec<char> = Vec::new();
    out.push(if is_directory { 'd' } else { '-' });
    let perms = parse_permissions(mode);
    append_str(&mut out, perms.as_str());
    string_of(&out)
}

/// Each class of users is shown as one of exactly eight texts.
pub proof fn lemma_triplet_is_one_of_eight(mode: u32, read: u32, write: u32, execute: u32)
    ensures
        ({
            let t = triplet_text(mode, read, write, execute);
            ||| t == seq!['-', '-', '-']
            ||| t == seq!['r', '-', '-']
            ||| t == seq!['-', 'w', '-']
            ||| t == seq!['-', '-', 'x']
            ||| t == seq!['r', 'w', '-']
            ||| t == seq!['r', '-', 'x']
            ||| t == seq!['-', 'w', 'x']
            ||| t == seq!['r', 'w', 'x']
        }),
{
}

/// The permission text is always nine characters long.
pub proof fn lemma_permission_text_len(mode: u32)
    ensures
        permission_text(mode).len() == 9,
        mode_text(false, mode).len() == 10,
        mode_text(true, mode).len() == 10,
{
}

} // verus!
