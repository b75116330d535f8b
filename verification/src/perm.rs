//! Unix permission bits as the nine characters that `ls -l` shows.

use vstd::prelude::*;

verus! {

/// The letter for one permission: `letter` where `mode` has a bit of
/// `mask`, a dash otherwise.
pub open spec fn flag(mode: u16, mask: u16, letter: char) -> char {
    if mode & mask == 0 {
        '-'
    } else {
        letter
    }
}

/// The three characters for one class of users, picked out of `mode` by the
/// masks for reading, writing and executing.
pub open spec fn triple(mode: u16, read: u16, write: u16, execute: u16) -> Seq<char> {
    seq![flag(mode, read, 'r'), flag(mode, write, 'w'), flag(mode, execute, 'x')]
}

/// The nine characters of a mode: owner, group, others.
pub open spec fn mode_text(mode: u16) -> Seq<char> {
    triple(mode, 0o400, 0o200, 0o100) + triple(mode, 0o040, 0o020, 0o010) + triple(
        mode,
        0o004,
        0o002,
        0o001,
    )
}

/// Appends the three characters for one class of users to `out`.
fn push_triple(out: &mut String, mode: u16, read: u16, write: u16, execute: u16)
    ensures
        final(out)@ == old(out)@ + triple(mode, read, write, execute),
{
    out.push(if mode & read == 0 { '-' } else { 'r' });
    out.push(if mode & write == 0 { '-' } else { 'w' });
    out.push(if mode & execute == 0 { '-' } else { 'x' });
}

/// Given a mode like `0o500` and three mask values, returns a string like
/// `r-x`.
pub fn mk_triple(mode: u16, read: u16, write: u16, execute: u16) -> (s: String)
    ensures
        s@ == triple(mode, read, write, execute),
{
    let mut s = String::new();
    push_triple(&mut s, mode, read, write, execute);
    s
}

/// Given a file mode like `0o751`, returns a string like `rwxr-x--x`.
pub fn format_mode(mode: u16) -> (s: String)
    ensures
        s@ == mode_text(mode),
{
    let mut s = String::new();
    push_triple(&mut s, mode, 0o400, 0o200, 0o100);
    push_triple(&mut s, mode, 0o040, 0o020, 0o010);
    push_triple(&mut s, mode, 0o004, 0o002, 0o001);
    s
}

/// A mode always shows as nine characters, and bits above the lowest nine
/// do not show.
pub proof fn lemma_mode_text_shape(mode: u16)
    ensures
        mode_text(mode).len() == 9,
        mode_text(mode) == mode_text(mode & 0o777),
{
    assert(mode & 0o400 == (mode & 0o777) & 0o400) by (bit_vector);
    assert(mode & 0o200 == (mode & 0o777) & 0o200) by (bit_vector);
    assert(mode & 0o100 == (mode & 0o777) & 0o100) by (bit_vector);
    assert(mode & 0o040 == (mode & 0o777) & 0o040) by (bit_vector);
    assert(mode & 0o020 == (mode & 0o777) & 0o020) by (bit_vector);
    assert(mode & 0o010 == (mode & 0o777) & 0o010) by (bit_vector);
    assert(mode & 0o004 == (mode & 0o777) & 0o004) by (bit_vector);
    assert(mode & 0o002 == (mode & 0o777) & 0o002) by (bit_vector);
    assert(mode & 0o001 == (mode & 0o777) & 0o001) by (bit_vector);
}

} // verus!
