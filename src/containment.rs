//! Keeping a requested path inside the served root.
//!
//! The server joins the requested path onto its root, has the result
//! resolved to its canonical form by the filesystem (symlinks followed, `.`
//! and `..` removed), and accepts it only where that form lies at or under
//! the root. Paths here are the raw bytes of canonical Unix paths.
use vstd::prelude::*;

use crate::error::TransferError;

verus! {

/// The path separator.
pub const SLASH: u8 = 0x2f;

/// `rel` joined onto `base`: an absolute `rel` replaces `base`, and
/// otherwise one separator stands between the two.
pub open spec fn joined(base: Seq<u8>, rel: Seq<u8>) -> Seq<u8> {
    if rel.len() > 0 && rel[0] == SLASH {
        rel
    } else if base.len() == 0 || base.last() == SLASH {
        base + rel
    } else {
        base + seq![SLASH] + rel
    }
}

/// `path` is `root` itself or lies under it: `root`'s components begin
/// `path`, so `/srv/data2` does not lie under `/srv/data`.
pub open spec fn within(root: Seq<u8>, path: Seq<u8>) -> bool {
    root.len() == 0 || (root.len() <= path.len() && path.take(root.len() as int) == root && (
    path.len() == root.len() || root.last() == SLASH || path[root.len() as int] == SLASH))
}

/// What the server does with a request once the joined path has been
/// resolved: `canonical` is its canonical form, or `None` where it could not
/// be resolved.
pub open spec fn resolution(root: Seq<u8>, canonical: Option<Seq<u8>>) -> Result<
    Seq<u8>,
    TransferError,
> {
    match canonical {
        None => Err(TransferError::NotFound),
        Some(p) => if within(root, p) {
            Ok(p)
        } else {
            Err(TransferError::PathEscape)
        },
    }
}

/// The bytes of an optional path.
pub open spec fn seq_of(o: Option<Vec<u8>>) -> Option<Seq<u8>> {
    match o {
        Some(v) => Some(v@),
        None => None,
    }
}

/// Appends the bytes of `s` to `out`.
pub(crate) fn append(out: &mut Vec<u8>, s: &[u8])
    ensures
        final(out)@ == old(out)@ + s@,
{
    let mut i: usize = 0;
    while i < s.len()
        invariant
            i <= s@.len(),
            out@ == old(out)@ + s@.take(i as int),
        decreases s@.len() - i,
    {
        out.push(s[i]);
        i = i + 1;
        assert(out@ =~= old(out)@ + s@.take(i as int));
    }
    assert(s@.take(s@.len() as int) =~= s@);
}

/// The path that a request for `rel` names under `root`, before it is
/// resolved.
pub fn join_request_path(root: &[u8], rel: &[u8]) -> (r: Vec<u8>)
    ensures
        r@ == joined(root@, rel@),
{
    let mut out: Vec<u8> = Vec::new();
    if rel.len() > 0 && rel[0] == SLASH {
        append(&mut out, rel);
        assert(out@ =~= rel@);
        return out;
    }
    append(&mut out, root);
    if root.len() > 0 && root[root.len() - 1] != SLASH {
        out.push(SLASH);
    }
    append(&mut out, rel);
    assert(out@ =~= joined(root@, rel@));
    out
}

/// Whether `path` is `root` or lies under it.
pub fn is_within(root: &[u8], path: &[u8]) -> (r: bool)
    ensures
        r == within(root@, path@),
{
    let n = root.len();
    if n == 0 {
        return true;
    }
    if path.len() < n {
        return false;
    }
    let mut i: usize = 0;
    while i < n
        invariant
            i <= n == root@.len() <= path@.len(),
            path@.take(i as int) == root@.take(i as int),
        decreases n - i,
    {
        if path[i] != root[i] {
            assert(path@.take(n as int)[i as int] != root@[i as int]);
            return false;
        }
        i = i + 1;
        assert(path@.take(i as int) =~= root@.take(i as int));
    }
    assert(root@.take(n as int) =~= root@);
    path.len() == n || root[n - 1] == SLASH || path[n] == SLASH
}

/// Decides a request from the canonical form of its joined path:
/// `NotFound` where the path could not be resolved, `PathEscape` where it
/// lies outside `root`, and the path itself otherwise.
pub fn resolve_request(root: &[u8], canonical: Option<Vec<u8>>) -> (r: Result<
    Vec<u8>,
    TransferError,
>)
    ensures
        match r {
            Ok(p) => resolution(root@, seq_of(canonical)) == Ok::<
                Seq<u8>,
                TransferError,
            >(p@),
            Err(e) => resolution(root@, seq_of(canonical)) == Err::<
                Seq<u8>,
                TransferError,
            >(e),
        },
{
    match canonical {
        None => Err(TransferError::NotFound),
        Some(p) => {
            if is_within(root, p.as_slice()) {
                Ok(p)
            } else {
                Err(TransferError::PathEscape)
            }
        },
    }
}

/// A path that the server accepts lies under its root: the root's bytes
/// begin it.
pub proof fn lemma_accepted_within_root(root: Seq<u8>, canonical: Option<Seq<u8>>)
    ensures
        resolution(root, canonical) is Ok ==> within(root, resolution(root, canonical)->Ok_0)
            && resolution(root, canonical)->Ok_0.take(root.len() as int) == root,
{
    if resolution(root, canonical) is Ok {
        let p = resolution(root, canonical)->Ok_0;
        if root.len() == 0 {
            assert(p.take(0) =~= root);
        }
    }
}

} // verus!
