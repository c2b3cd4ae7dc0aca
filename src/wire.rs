//! Little-endian integers and the two frames of the protocol.
//!
//! A request is a 2-byte little-endian length followed by that many path
//! bytes. A response starts with an 8-byte little-endian length, followed by
//! the file's bytes.
use vstd::prelude::*;

use crate::error::TransferError;

verus! {

/// Bytes in a request's length prefix.
pub const PREFIX_LEN: usize = 2;

/// Bytes in a response's length header.
pub const HEADER_LEN: usize = 8;

/// The longest path that a request can carry.
pub const MAX_PATH_LEN: usize = 65535;

/// `256` to the power `n`.
pub open spec fn pow256(n: nat) -> nat
    decreases n,
{
    if n == 0 {
        1
    } else {
        256 * pow256((n - 1) as nat)
    }
}

/// The `n` low bytes of `v`, least significant first.
pub open spec fn le_bytes(v: nat, n: nat) -> Seq<u8>
    decreases n,
{
    if n == 0 {
        seq![]
    } else {
        seq![(v % 256) as u8] + le_bytes(v / 256, (n - 1) as nat)
    }
}

/// The number that `s` writes, least significant byte first.
pub open spec fn le_value(s: Seq<u8>) -> nat
    decreases s.len(),
{
    if s.len() == 0 {
        0
    } else {
        s[0] as nat + 256 * le_value(s.drop_first())
    }
}

/// The frame that carries `path` in a request.
pub open spec fn request_frame(path: Seq<u8>) -> Seq<u8> {
    le_bytes(path.len(), PREFIX_LEN as nat) + path
}

/// The path that a request frame at the start of `s` carries, if `s` holds a
/// whole one.
pub open spec fn request_path(s: Seq<u8>) -> Option<Seq<u8>> {
    if s.len() < PREFIX_LEN {
        None
    } else {
        let n = le_value(s.take(PREFIX_LEN as int));
        if s.len() < PREFIX_LEN + n {
            None
        } else {
            Some(s.subrange(PREFIX_LEN as int, PREFIX_LEN + n as int))
        }
    }
}

/// The response for a file whose content is `content`.
pub open spec fn response_frame(content: Seq<u8>) -> Seq<u8> {
    le_bytes(content.len(), HEADER_LEN as nat) + content
}

/// Powers of `256` grow with the exponent.
pub proof fn lemma_pow256_grows(a: nat, b: nat)
    requires
        a <= b,
    ensures
        1 <= pow256(a) <= pow256(b),
    decreases b,
{
    if b > a {
        lemma_pow256_grows(a, (b - 1) as nat);
    } else if a > 0 {
        lemma_pow256_grows((a - 1) as nat, (a - 1) as nat);
    }
}

/// What `s` writes is below `256` to the power of its length.
pub proof fn lemma_le_value_bound(s: Seq<u8>)
    ensures
        le_value(s) < pow256(s.len()),
    decreases s.len(),
{
    if s.len() > 0 {
        let r = s.drop_first();
        lemma_le_value_bound(r);
        let a = s[0] as nat;
        let v = le_value(r);
        let p = pow256(r.len());
        assert(a + 256 * v < 256 * p) by (nonlinear_arith)
            requires
                a < 256,
                v < p,
        ;
    }
}

/// A number below `256` to the power `n`, written in `n` bytes, reads back
/// as itself.
pub proof fn lemma_le_value_of_bytes(v: nat, n: nat)
    requires
        v < pow256(n),
    ensures
        le_bytes(v, n).len() == n,
        le_value(le_bytes(v, n)) == v,
    decreases n,
{
    if n > 0 {
        let q = v / 256;
        let p = pow256((n - 1) as nat);
        assert(q < p) by (nonlinear_arith)
            requires
                v < 256 * p,
                q == v / 256,
        ;
        lemma_le_value_of_bytes(q, (n - 1) as nat);
        let s = le_bytes(v, n);
        assert(s.drop_first() =~= le_bytes(q, (n - 1) as nat));
        assert(v == (v % 256) + 256 * q) by (nonlinear_arith)
            requires
                q == v / 256,
        ;
    }
}

/// A path of at most `MAX_PATH_LEN` bytes, framed as a request, parses back
/// to the same path, whatever follows the frame.
pub proof fn lemma_request_round_trip(path: Seq<u8>, rest: Seq<u8>)
    requires
        path.len() <= MAX_PATH_LEN,
    ensures
        request_path(request_frame(path) + rest) == Some(path),
{
    reveal_with_fuel(pow256, 3);
    lemma_le_value_of_bytes(path.len(), 2);
    let s = request_frame(path) + rest;
    assert(s.take(2) =~= le_bytes(path.len(), 2));
    assert(s.subrange(2, 2 + path.len() as int) =~= path);
}

/// Writes the `n` low bytes of `v`, least significant first.
pub fn encode_le(v: u64, n: usize) -> (r: Vec<u8>)
    ensures
        r@ == le_bytes(v as nat, n as nat),
{
    let mut out: Vec<u8> = Vec::new();
    let mut x: u64 = v;
    let mut i: usize = 0;
    while i < n
        invariant
            i <= n,
            le_bytes(v as nat, n as nat) == out@ + le_bytes(x as nat, (n - i) as nat),
        decreases n - i,
    {
        let ghost rest = le_bytes((x / 256) as nat, (n - i - 1) as nat);
        assert(le_bytes(x as nat, (n - i) as nat) == seq![(x % 256) as u8] + rest);
        out.push((x % 256) as u8);
        x = x / 256;
        i = i + 1;
    }
    assert(out@ + le_bytes(x as nat, 0) =~= out@);
    out
}

/// Reads the number that `b` writes, least significant byte first.
pub fn decode_le(b: &[u8]) -> (r: u64)
    requires
        b@.len() <= 8,
    ensures
        r as nat == le_value(b@),
{
    let len = b.len();
    let mut acc: u64 = 0;
    let mut i: usize = len;
    proof {
        reveal_with_fuel(pow256, 9);
        assert(pow256(8) == 0x1_0000_0000_0000_0000);
        assert(b@.subrange(len as int, len as int) =~= Seq::<u8>::empty());
    }
    while i > 0
        invariant
            i <= len == b@.len() <= 8,
            acc as nat == le_value(b@.subrange(i as int, len as int)),
            pow256(8) == 0x1_0000_0000_0000_0000,
        decreases i,
    {
        let ghost tail = b@.subrange(i as int, len as int);
        let ghost s = b@.subrange(i - 1, len as int);
        proof {
            assert(s.drop_first() =~= tail);
            lemma_le_value_bound(tail);
            lemma_pow256_grows((len - i + 1) as nat, 8);
            let p = pow256(tail.len());
            assert(pow256((len - i + 1) as nat) == 256 * p);
            let a = acc as nat;
            let c = b[i - 1] as nat;
            assert(c + 256 * a < 256 * p) by (nonlinear_arith)
                requires
                    a < p,
                    c < 256,
            ;
        }
        acc = (b[i - 1] as u64) + 256 * acc;
        i = i - 1;
    }
    assert(b@.subrange(0, len as int) =~= b@);
    acc
}

/// The request frame for `path`; `PathTooLong` where the path does not fit
/// in the length prefix.
pub fn encode_request(path: &[u8]) -> (r: Result<Vec<u8>, TransferError>)
    ensures
        match r {
            Ok(frame) => path@.len() <= MAX_PATH_LEN && frame@ == request_frame(path@),
            Err(e) => path@.len() > MAX_PATH_LEN && e == TransferError::PathTooLong,
        },
{
    if path.len() > MAX_PATH_LEN {
        return Err(TransferError::PathTooLong);
    }
    let mut frame = encode_le(path.len() as u64, PREFIX_LEN);
    let mut i: usize = 0;
    while i < path.len()
        invariant
            i <= path@.len(),
            frame@ == le_bytes(path@.len(), PREFIX_LEN as nat) + path@.take(i as int),
        decreases path@.len() - i,
    {
        frame.push(path[i]);
        i = i + 1;
        assert(frame@ =~= le_bytes(path@.len(), PREFIX_LEN as nat) + path@.take(i as int));
    }
    assert(path@.take(path@.len() as int) =~= path@);
    Ok(frame)
}

/// The path length that a request's 2-byte prefix announces;
/// `ProtocolError` where `prefix` is not 2 bytes long.
pub fn decode_length_prefix(prefix: &[u8]) -> (r: Result<usize, TransferError>)
    ensures
        match r {
            Ok(n) => prefix@.len() == PREFIX_LEN && n == le_value(prefix@),
            Err(e) => prefix@.len() != PREFIX_LEN && e == TransferError::ProtocolError,
        },
{
    if prefix.len() != PREFIX_LEN {
        return Err(TransferError::ProtocolError);
    }
    let n = decode_le(prefix);
    proof {
        reveal_with_fuel(pow256, 3);
        lemma_le_value_bound(prefix@);
    }
    Ok(n as usize)
}

/// The path that the request frame at the start of `frame` carries;
/// `ProtocolError` where `frame` is cut short.
pub fn parse_request(frame: &[u8]) -> (r: Result<Vec<u8>, TransferError>)
    ensures
        match r {
            Ok(path) => request_path(frame@) == Some(path@),
            Err(e) => request_path(frame@) is None && e == TransferError::ProtocolError,
        },
{
    if frame.len() < PREFIX_LEN {
        return Err(TransferError::ProtocolError);
    }
    let prefix: Vec<u8> = vec![frame[0], frame[1]];
    assert(prefix@ =~= frame@.take(PREFIX_LEN as int));
    let n = decode_length_prefix(prefix.as_slice())?;
    let flen = frame.len();
    if flen - PREFIX_LEN < n {
        return Err(TransferError::ProtocolError);
    }
    let mut path: Vec<u8> = Vec::new();
    let mut i: usize = 0;
    while i < n
        invariant
            i <= n,
            PREFIX_LEN + n <= flen == frame@.len(),
            path@ == frame@.subrange(PREFIX_LEN as int, PREFIX_LEN + i),
        decreases n - i,
    {
        path.push(frame[PREFIX_LEN + i]);
        i = i + 1;
        assert(path@ =~= frame@.subrange(PREFIX_LEN as int, PREFIX_LEN + i));
    }
    Ok(path)
}

/// The 8-byte header that announces a file of `len` bytes.
pub fn encode_header(len: u64) -> (r: Vec<u8>)
    ensures
        r@ == le_bytes(len as nat, HEADER_LEN as nat),
        r@.len() == HEADER_LEN,
{
    proof {
        reveal_with_fuel(pow256, 9);
        lemma_le_value_of_bytes(len as nat, HEADER_LEN as nat);
    }
    encode_le(len, HEADER_LEN)
}

/// The file length that a response's 8-byte header announces;
/// `ProtocolError` where `header` is not 8 bytes long.
pub fn decode_header(header: &[u8]) -> (r: Result<u64, TransferError>)
    ensures
        match r {
            Ok(n) => header@.len() == HEADER_LEN && n == le_value(header@),
            Err(e) => header@.len() != HEADER_LEN && e == TransferError::ProtocolError,
        },
{
    if header.len() != HEADER_LEN {
        return Err(TransferError::ProtocolError);
    }
    Ok(decode_le(header))
}

/// An announced file length, written as a header, reads back as itself.
pub proof fn lemma_header_round_trip(len: u64)
    ensures
        le_value(le_bytes(len as nat, HEADER_LEN as nat)) == len,
{
    reveal_with_fuel(pow256, 9);
    lemma_le_value_of_bytes(len as nat, HEADER_LEN as nat);
}

} // verus!
