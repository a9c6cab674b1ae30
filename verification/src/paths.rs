//! Paths as byte strings, joined as on a system whose separator is `/`.

use vstd::prelude::*;

verus! {

/// The byte that separates the parts of a path.
pub const SEPARATOR: u8 = 47;

/// A path is absolute when it starts at the root.
pub open spec fn is_absolute(p: Seq<u8>) -> bool {
    p.len() > 0 && p[0] == SEPARATOR
}

/// `base` extended by `p`: an absolute `p` replaces `base`; else `p` follows
/// `base`, with a separator between them unless `base` is empty or ends in
/// one.
pub open spec fn pushed(base: Seq<u8>, p: Seq<u8>) -> Seq<u8> {
    if is_absolute(p) {
        p
    } else if base.len() == 0 || base.last() == SEPARATOR {
        base + p
    } else {
        base + seq![SEPARATOR] + p
    }
}

/// Whether the path starts at the root.
pub fn path_is_absolute(p: &[u8]) -> (r: bool)
    ensures
        r == is_absolute(p@),
{
    p.len() > 0 && p[0] == SEPARATOR
}

/// Appends the bytes of `p` to `buf`.
pub fn append_bytes(buf: &mut Vec<u8>, p: &[u8])
    ensures
        final(buf)@ == old(buf)@ + p@,
{
    let ghost start = buf@;
    let mut i: usize = 0;
    while i < p.len()
        invariant
            i <= p.len(),
            buf@ == start + p@.take(i as int),
        decreases p.len() - i,
    {
        buf.push(p[i]);
        i += 1;
        assert(buf@ =~= start + p@.take(i as int));
    }
    assert(p@.take(p.len() as int) =~= p@);
}

/// Extends the path in `base` by `p`.
pub fn path_push(base: &mut Vec<u8>, p: &[u8])
    ensures
        final(base)@ == pushed(old(base)@, p@),
{
    if path_is_absolute(p) {
        base.clear();
        assert(base@ + p@ =~= p@);
    } else if base.len() > 0 && base[base.len() - 1] != SEPARATOR {
        base.push(SEPARATOR);
    }
    append_bytes(base, p);
}

/// A copy of the bytes, owned.
pub fn owned_bytes(p: &[u8]) -> (r: Vec<u8>)
    ensures
        r@ == p@,
{
    let mut r: Vec<u8> = Vec::new();
    append_bytes(&mut r, p);
    assert(Seq::<u8>::empty() + p@ =~= p@);
    r
}

} // verus!
