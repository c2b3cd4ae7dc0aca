//! The client's side of a response: the 8-byte length header, then the file's
//! bytes until the server closes the connection, with the count of received
//! bytes held against the announced length.
//!
//! The socket's reads are handed to a `ResponseReader` as they come, whatever
//! their sizes; for each one it says where the file's bytes begin.
use vstd::prelude::*;

use crate::error::TransferError;
use crate::wire::{
    decode_le, le_bytes, le_value, lemma_le_value_of_bytes, pow256, response_frame, HEADER_LEN,
};

verus! {

/// The file's bytes in a response stream `s` read so far.
pub open spec fn payload_of(s: Seq<u8>) -> Seq<u8> {
    if s.len() >= HEADER_LEN {
        s.skip(HEADER_LEN as int)
    } else {
        seq![]
    }
}

/// How many bytes at the start of `chunk` still belong to the header when
/// it follows the stream `s`.
pub open spec fn header_overlap(s: Seq<u8>, chunk: Seq<u8>) -> nat {
    if s.len() >= HEADER_LEN {
        0
    } else if s.len() + chunk.len() <= HEADER_LEN {
        chunk.len()
    } else {
        (HEADER_LEN - s.len()) as nat
    }
}

/// The length that the header of `s` announces (`s` holds a whole header).
pub open spec fn announced(s: Seq<u8>) -> nat {
    le_value(s.take(HEADER_LEN as int))
}

/// How a response that the server ended after the bytes `s` turns out: the
/// announced length where exactly that many bytes followed the header,
/// `ProtocolError` where the header was cut short, and `TruncatedTransfer`
/// where the count differs.
pub open spec fn response_outcome(s: Seq<u8>) -> Result<u64, TransferError> {
    if s.len() < HEADER_LEN {
        Err(TransferError::ProtocolError)
    } else if payload_of(s).len() == announced(s) {
        Ok(announced(s) as u64)
    } else {
        Err(TransferError::TruncatedTransfer)
    }
}

/// Reads a response from the chunks that the socket hands over.
pub struct ResponseReader {
    header: Vec<u8>,
    declared: u64,
    received: u64,
    excess: bool,
    stream: Ghost<Seq<u8>>,
}

impl View for ResponseReader {
    type V = Seq<u8>;

    /// Every byte handed over so far.
    closed spec fn view(&self) -> Seq<u8> {
        self.stream@
    }
}

impl ResponseReader {
    pub closed spec fn wf(&self) -> bool {
        let s = self.stream@;
        &&& s.len() < HEADER_LEN ==> self.header@ == s && self.received == 0 && !self.excess
        &&& s.len() >= HEADER_LEN ==> {
            &&& self.header@ == s.take(HEADER_LEN as int)
            &&& self.declared == announced(s)
            &&& self.excess <==> payload_of(s).len() > self.declared
            &&& !self.excess ==> self.received == payload_of(s).len()
        }
    }

    /// A reader that has been handed nothing.
    pub fn new() -> (r: ResponseReader)
        ensures
            r.wf(),
            r@ == Seq::<u8>::empty(),
    {
        ResponseReader {
            header: Vec::new(),
            declared: 0,
            received: 0,
            excess: false,
            stream: Ghost(Seq::empty()),
        }
    }

    /// Takes the next chunk that the socket read. The file's bytes in it are
    /// those from `start` on: the header's come before them.
    pub fn feed(&mut self, chunk: &[u8]) -> (start: usize)
        requires
            old(self).wf(),
        ensures
            final(self).wf(),
            final(self)@ == old(self)@ + chunk@,
            start <= chunk@.len(),
            start == header_overlap(old(self)@, chunk@),
            payload_of(final(self)@) == payload_of(old(self)@) + chunk@.skip(start as int),
    {
        let ghost s0 = self.stream@;
        let ghost s1 = s0 + chunk@;
        let had_header = self.header.len() == HEADER_LEN;
        let mut start: usize = 0;
        while self.header.len() < HEADER_LEN && start < chunk.len()
            invariant
                start <= chunk@.len(),
                s1 == s0 + chunk@,
                s0 == self.stream@,
                self.header@ == s1.take(self.header@.len() as int),
                s0.len() < HEADER_LEN ==> self.header@.len() == s0.len() + start,
                s0.len() >= HEADER_LEN ==> start == 0 && self.header@.len() == HEADER_LEN,
                self.header@.len() <= HEADER_LEN,
                self.declared == old(self).declared,
                self.received == old(self).received,
                self.excess == old(self).excess,
                self.stream == old(self).stream,
            decreases chunk@.len() - start,
        {
            assert(s1[s0.len() + start] == chunk@[start as int]);
            self.header.push(chunk[start]);
            start = start + 1;
            assert(self.header@ =~= s1.take(self.header@.len() as int));
        }
        self.stream = Ghost(s1);
        if self.header.len() < HEADER_LEN {
            assert(self.header@ =~= s1);
            assert(chunk@.skip(start as int) =~= Seq::<u8>::empty());
            return start;
        }
        assert(payload_of(s1) =~= payload_of(s0) + chunk@.skip(start as int));
        if !had_header {
            self.declared = decode_le(self.header.as_slice());
        } else {
            assert(s1.take(HEADER_LEN as int) =~= s0.take(HEADER_LEN as int));
        }
        assert(self.header@ =~= s1.take(HEADER_LEN as int));
        assert(payload_of(s1).len() == payload_of(s0).len() + (chunk@.len() - start));
        let rest = chunk.len() - start;
        if !self.excess {
            if (rest as u64) > self.declared - self.received {
                self.excess = true;
            } else {
                self.received = self.received + rest as u64;
            }
        }
        start
    }

    /// Whether the whole header has arrived.
    pub fn header_complete(&self) -> (r: bool)
        requires
            self.wf(),
        ensures
            r == (self@.len() >= HEADER_LEN),
    {
        self.header.len() == HEADER_LEN
    }

    /// The announced length, once the whole header has arrived.
    pub fn declared_len(&self) -> (r: Option<u64>)
        requires
            self.wf(),
        ensures
            match r {
                Some(n) => self@.len() >= HEADER_LEN && n == announced(self@),
                None => self@.len() < HEADER_LEN,
            },
    {
        if self.header.len() == HEADER_LEN {
            Some(self.declared)
        } else {
            None
        }
    }

    /// How the response turns out, given that the server has closed the
    /// connection after the bytes handed over so far.
    pub fn finish(&self) -> (r: Result<u64, TransferError>)
        requires
            self.wf(),
        ensures
            r == response_outcome(self@),
    {
        if self.header.len() < HEADER_LEN {
            return Err(TransferError::ProtocolError);
        }
        if self.excess || self.received != self.declared {
            Err(TransferError::TruncatedTransfer)
        } else {
            Ok(self.declared)
        }
    }
}

/// A response for a file, read to its end, yields the file's bytes and
/// succeeds with the file's length.
pub proof fn lemma_response_round_trip(content: Seq<u8>)
    requires
        content.len() <= u64::MAX,
    ensures
        payload_of(response_frame(content)) == content,
        response_outcome(response_frame(content)) == Ok::<u64, TransferError>(
            content.len() as u64,
        ),
{
    let s = response_frame(content);
    reveal_with_fuel(pow256, 9);
    lemma_le_value_of_bytes(content.len(), HEADER_LEN as nat);
    assert(s.take(HEADER_LEN as int) =~= le_bytes(content.len(), HEADER_LEN as nat));
    assert(s.skip(HEADER_LEN as int) =~= content);
}

/// Wherever a response is cut into a first read `a` and a second `b`, the
/// file's bytes of `a` followed by those of `b` past its header bytes are the
/// whole file.
pub proof fn lemma_split_response(content: Seq<u8>, k: int)
    requires
        content.len() <= u64::MAX,
        0 <= k <= response_frame(content).len(),
    ensures
        ({
            let a = response_frame(content).take(k);
            let b = response_frame(content).skip(k);
            payload_of(a) + b.skip(header_overlap(a, b) as int) == content
        }),
{
    let s = response_frame(content);
    let a = s.take(k);
    let b = s.skip(k);
    lemma_response_round_trip(content);
    assert(a + b =~= s);
    assert(payload_of(a) + b.skip(header_overlap(a, b) as int) =~= payload_of(s));
}

/// A response whose count of file bytes differs from the announced length
/// fails with `TruncatedTransfer`; so does one that the server ends early.
pub proof fn lemma_count_mismatch_fails(s: Seq<u8>)
    requires
        s.len() >= HEADER_LEN,
        payload_of(s).len() != announced(s),
    ensures
        response_outcome(s) == Err::<u64, TransferError>(TransferError::TruncatedTransfer),
{
}

} // verus!
