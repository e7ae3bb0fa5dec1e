//! Where a requested path lands under the root, and whether it stays inside.
use vstd::prelude::*;
use crate::bytes::push_all;

verus! {

pub open spec fn is_separator(b: u8) -> bool {
    b == 0x2f
}

/// A decoded path with a single leading separator removed, so that it reads relative to the root.
pub open spec fn relative_part(p: Seq<u8>) -> Seq<u8> {
    if p.len() > 0 && is_separator(p[0]) {
        p.subrange(1, p.len() as int)
    } else {
        p
    }
}

/// `rel` appended to `root`, with one separator between them.
pub open spec fn joined(root: Seq<u8>, rel: Seq<u8>) -> Seq<u8> {
    if root.len() > 0 && is_separator(root.last()) {
        root + rel
    } else {
        root + seq![0x2fu8] + rel
    }
}

/// The location, before canonicalization, that a decoded path names under `root`.
pub open spec fn candidate(root: Seq<u8>, decoded: Seq<u8>) -> Seq<u8> {
    joined(root, relative_part(decoded))
}

/// `root` is a prefix of `path` that ends on a segment boundary: `path` is `root` itself,
/// or the byte after the prefix is a separator, or `root` ends in one.
pub open spec fn within(root: Seq<u8>, path: Seq<u8>) -> bool {
    &&& root.len() <= path.len()
    &&& path.subrange(0, root.len() as int) == root
    &&& (path.len() == root.len() || (root.len() > 0 && is_separator(root.last()))
        || is_separator(path[root.len() as int]))
}

/// Builds the location that `decoded` names under `root`.
pub fn candidate_path(root: &[u8], decoded: &[u8]) -> (r: Vec<u8>)
    ensures
        r@ == candidate(root@, decoded@),
{
    let mut r: Vec<u8> = Vec::new();
    push_all(&mut r, root);
    if root.len() == 0 || root[root.len() - 1] != 0x2f {
        r.push(0x2f);
    }
    if decoded.len() > 0 && decoded[0] == 0x2f {
        let ghost before = r@;
        let mut i: usize = 1;
        while i < decoded.len()
            invariant
                1 <= i <= decoded@.len(),
                r@ == before + decoded@.subrange(1, i as int),
            decreases decoded@.len() - i,
        {
            r.push(decoded[i]);
            i = i + 1;
            assert(decoded@.subrange(1, i as int) == decoded@.subrange(1, i - 1 as int).push(decoded@[i - 1]));
        }
    } else {
        push_all(&mut r, decoded);
    }
    assert(r@ == candidate(root@, decoded@));
    r
}

/// Whether `path` lies inside `root`, compared as whole path segments.
pub fn is_within(root: &[u8], path: &[u8]) -> (r: bool)
    ensures
        r == within(root@, path@),
{
    if root.len() > path.len() {
        return false;
    }
    let mut i: usize = 0;
    while i < root.len()
        invariant
            i <= root@.len() <= path@.len(),
            forall|k: int| 0 <= k < i ==> path@[k] == root@[k],
        decreases root@.len() - i,
    {
        if path[i] != root[i] {
            assert(path@.subrange(0, root@.len() as int)[i as int] != root@[i as int]);
            return false;
        }
        i = i + 1;
    }
    assert(path@.subrange(0, root@.len() as int) == root@);
    path.len() == root.len() || (root.len() > 0 && root[root.len() - 1] == 0x2f)
        || path[root.len()] == 0x2f
}

} // verus!
