//! The server's decisions for one connection.
//!
//! The program around a `ServerConnection` performs each `ServerAction` it
//! is given (read from the socket, resolve a path on the filesystem, open the
//! file, read from it, write to the socket) and reports how that went through
//! the matching method, which returns the next action. Nothing is written to
//! the socket before the requested path has been resolved and found inside
//! the served root; a failure only closes the connection.
use vstd::prelude::*;

use crate::containment::{append, join_request_path, joined, resolution, resolve_request, seq_of};
use crate::error::TransferError;
use crate::wire::{
    decode_length_prefix, encode_header, le_bytes, le_value, response_frame, HEADER_LEN, PREFIX_LEN,
};

verus! {

/// Where a connection stands: each phase waits for the outcome of the action
/// that led to it.
#[derive(Debug, Clone, Copy, PartialEq, Eq, Structural)]
pub enum ServerPhase {
    /// Waiting for the request's length prefix.
    AwaitingPrefix,
    /// Waiting for the request's path.
    AwaitingPath,
    /// Waiting for the joined path's canonical form.
    Resolving,
    /// Waiting for the resolved file to be opened and measured.
    Opening,
    /// Waiting for the length header to be written.
    SendingHeader,
    /// Waiting for the next read from the file.
    Reading,
    /// Waiting for a chunk of the file to be written to the socket.
    Sending,
    /// The connection is over.
    Closed,
}

/// What the program around the server does next.
#[derive(Debug)]
pub enum ServerAction {
    /// Read exactly this many bytes from the socket.
    ReadExact(usize),
    /// Resolve this path to its canonical form.
    Resolve(Vec<u8>),
    /// Open the file at this path, which lies in the served root, and
    /// measure its length.
    Open(Vec<u8>),
    /// Write these bytes, the length header, to the socket.
    SendHeader(Vec<u8>),
    /// Read the next chunk from the file.
    ReadFile,
    /// Write the chunk just read from the file, all of it (this many
    /// bytes), to the socket.
    SendChunk(usize),
    /// Close the connection, reporting the number of file bytes sent or the
    /// failure.
    Close(Result<u64, TransferError>),
}

/// One connection, from the server's side.
pub struct ServerConnection {
    phase: ServerPhase,
    root: Vec<u8>,
    size: u64,
    sent: u64,
    out: Ghost<Seq<u8>>,
    file_out: Ghost<Seq<u8>>,
}

impl ServerConnection {
    /// The phase the connection is in.
    pub closed spec fn phase_spec(&self) -> ServerPhase {
        self.phase
    }

    /// The served root.
    pub closed spec fn root_spec(&self) -> Seq<u8> {
        self.root@
    }

    /// Every byte the connection has asked to be written to the socket, once
    /// the pending write is done.
    pub closed spec fn written(&self) -> Seq<u8> {
        self.out@
    }

    /// The file's bytes among them.
    pub closed spec fn file_sent(&self) -> Seq<u8> {
        self.file_out@
    }

    /// The file length that the header announces.
    pub closed spec fn file_size(&self) -> nat {
        self.size as nat
    }

    pub closed spec fn wf(&self) -> bool {
        match self.phase {
            ServerPhase::AwaitingPrefix | ServerPhase::AwaitingPath | ServerPhase::Resolving
            | ServerPhase::Opening => self.out@.len() == 0 && self.file_out@.len() == 0
                && self.sent == 0,
            ServerPhase::SendingHeader => self.out@ == le_bytes(self.size as nat, HEADER_LEN as nat)
                && self.file_out@.len() == 0 && self.sent == 0,
            ServerPhase::Reading | ServerPhase::Sending => self.out@ == le_bytes(
                self.size as nat,
                HEADER_LEN as nat,
            ) + self.file_out@ && self.sent == self.file_out@.len(),
            ServerPhase::Closed => true,
        }
    }

    /// A connection to a server whose root is `root`; its first action is
    /// to read the request's length prefix.
    pub fn new(root: &[u8]) -> (r: (ServerConnection, ServerAction))
        ensures
            r.0.wf(),
            r.0.phase_spec() == ServerPhase::AwaitingPrefix,
            r.0.root_spec() == root@,
            r.0.written().len() == 0,
            r.1 == ServerAction::ReadExact(PREFIX_LEN),
    {
        let mut copy: Vec<u8> = Vec::new();
        append(&mut copy, root);
        let conn = ServerConnection {
            phase: ServerPhase::AwaitingPrefix,
            root: copy,
            size: 0,
            sent: 0,
            out: Ghost(Seq::empty()),
            file_out: Ghost(Seq::empty()),
        };
        (conn, ServerAction::ReadExact(PREFIX_LEN))
    }

    /// The phase the connection is in.
    pub fn phase(&self) -> (r: ServerPhase)
        ensures
            r == self.phase_spec(),
    {
        self.phase
    }

    /// The length prefix was read, or the connection ended before it
    /// (`None`); then the request is truncated.
    pub fn on_prefix(&mut self, prefix: Option<&[u8]>) -> (action: ServerAction)
        requires
            old(self).wf(),
            old(self).phase_spec() == ServerPhase::AwaitingPrefix,
        ensures
            final(self).wf(),
            final(self).root_spec() == old(self).root_spec(),
            final(self).written().len() == 0,
            match prefix {
                Some(b) if b@.len() == PREFIX_LEN => action == ServerAction::ReadExact(
                    le_value(b@) as usize,
                ) && final(self).phase_spec() == ServerPhase::AwaitingPath,
                _ => action == ServerAction::Close(Err(TransferError::ProtocolError))
                    && final(self).phase_spec() == ServerPhase::Closed,
            },
    {
        let decoded = match prefix {
            Some(b) => decode_length_prefix(b),
            None => Err(TransferError::ProtocolError),
        };
        match decoded {
            Ok(n) => {
                self.phase = ServerPhase::AwaitingPath;
                ServerAction::ReadExact(n)
            },
            Err(e) => {
                self.phase = ServerPhase::Closed;
                ServerAction::Close(Err(e))
            },
        }
    }

    /// The path was read, or the connection ended before all of it
    /// (`None`). The path is joined onto the root, to be resolved.
    pub fn on_path(&mut self, path: Option<&[u8]>) -> (action: ServerAction)
        requires
            old(self).wf(),
            old(self).phase_spec() == ServerPhase::AwaitingPath,
        ensures
            final(self).wf(),
            final(self).root_spec() == old(self).root_spec(),
            final(self).written().len() == 0,
            match path {
                Some(p) => action is Resolve && action->Resolve_0@ == joined(
                    old(self).root_spec(),
                    p@,
                ) && final(self).phase_spec() == ServerPhase::Resolving,
                None => action == ServerAction::Close(Err(TransferError::ProtocolError))
                    && final(self).phase_spec() == ServerPhase::Closed,
            },
    {
        match path {
            Some(p) => {
                let full = join_request_path(self.root.as_slice(), p);
                self.phase = ServerPhase::Resolving;
                ServerAction::Resolve(full)
            },
            None => {
                self.phase = ServerPhase::Closed;
                ServerAction::Close(Err(TransferError::ProtocolError))
            },
        }
    }

    /// The joined path resolved to `canonical`, or could not be resolved
    /// (`None`). Only a path inside the root is opened; otherwise the
    /// connection closes with nothing written.
    pub fn on_resolved(&mut self, canonical: Option<Vec<u8>>) -> (action: ServerAction)
        requires
            old(self).wf(),
            old(self).phase_spec() == ServerPhase::Resolving,
        ensures
            final(self).wf(),
            final(self).root_spec() == old(self).root_spec(),
            final(self).written().len() == 0,
            match resolution(old(self).root_spec(), seq_of(canonical)) {
                Ok(p) => action is Open && action->Open_0@ == p && final(self).phase_spec()
                    == ServerPhase::Opening,
                Err(e) => action == ServerAction::Close(Err(e)) && final(self).phase_spec()
                    == ServerPhase::Closed,
            },
    {
        match resolve_request(self.root.as_slice(), canonical) {
            Ok(p) => {
                self.phase = ServerPhase::Opening;
                ServerAction::Open(p)
            },
            Err(e) => {
                self.phase = ServerPhase::Closed;
                ServerAction::Close(Err(e))
            },
        }
    }

    /// The file was opened and holds `size` bytes, or could not be opened
    /// (`None`). The length header goes out first.
    pub fn on_opened(&mut self, size: Option<u64>) -> (action: ServerAction)
        requires
            old(self).wf(),
            old(self).phase_spec() == ServerPhase::Opening,
        ensures
            final(self).wf(),
            final(self).root_spec() == old(self).root_spec(),
            match size {
                Some(n) => action is SendHeader && action->SendHeader_0@ == le_bytes(
                    n as nat,
                    HEADER_LEN as nat,
                ) && final(self).phase_spec() == ServerPhase::SendingHeader
                    && final(self).file_size() == n && final(self).written() == le_bytes(
                    n as nat,
                    HEADER_LEN as nat,
                ) && final(self).file_sent().len() == 0,
                None => action == ServerAction::Close(Err(TransferError::IOError))
                    && final(self).phase_spec() == ServerPhase::Closed
                    && final(self).written().len() == 0,
            },
    {
        match size {
            Some(n) => {
                self.size = n;
                self.out = Ghost(le_bytes(n as nat, HEADER_LEN as nat));
                self.phase = ServerPhase::SendingHeader;
                ServerAction::SendHeader(encode_header(n))
            },
            None => {
                self.phase = ServerPhase::Closed;
                ServerAction::Close(Err(TransferError::IOError))
            },
        }
    }

    /// The header was written (`ok`), or the write failed.
    pub fn on_header_sent(&mut self, ok: bool) -> (action: ServerAction)
        requires
            old(self).wf(),
            old(self).phase_spec() == ServerPhase::SendingHeader,
        ensures
            final(self).wf(),
            final(self).root_spec() == old(self).root_spec(),
            final(self).written() == old(self).written(),
            final(self).file_sent() == old(self).file_sent(),
            final(self).file_size() == old(self).file_size(),
            ok ==> action == ServerAction::ReadFile && final(self).phase_spec()
                == ServerPhase::Reading,
            !ok ==> action == ServerAction::Close(Err(TransferError::IOError))
                && final(self).phase_spec() == ServerPhase::Closed,
    {
        if ok {
            self.phase = ServerPhase::Reading;
            ServerAction::ReadFile
        } else {
            self.phase = ServerPhase::Closed;
            ServerAction::Close(Err(TransferError::IOError))
        }
    }

    /// The file read gave `chunk` (empty at the file's end), or failed
    /// (`None`). A chunk goes to the socket whole; at the end the connection
    /// closes with the count of file bytes sent.
    pub fn on_file_read(&mut self, chunk: Option<&[u8]>) -> (action: ServerAction)
        requires
            old(self).wf(),
            old(self).phase_spec() == ServerPhase::Reading,
        ensures
            final(self).wf(),
            final(self).root_spec() == old(self).root_spec(),
            final(self).file_size() == old(self).file_size(),
            match chunk {
                Some(c) => if c@.len() == 0 {
                    action == ServerAction::Close(Ok(old(self).file_sent().len() as u64))
                        && final(self).phase_spec() == ServerPhase::Closed
                        && final(self).written() == le_bytes(
                        old(self).file_size(),
                        HEADER_LEN as nat,
                    ) + old(self).file_sent() && final(self).file_sent() == old(
                        self,
                    ).file_sent()
                } else if old(self).file_sent().len() + c@.len() <= u64::MAX {
                    action == ServerAction::SendChunk(c@.len() as usize)
                        && final(self).phase_spec() == ServerPhase::Sending
                        && final(self).file_sent() == old(self).file_sent() + c@
                        && final(self).written() == old(self).written() + c@
                } else {
                    action == ServerAction::Close(Err(TransferError::IOError))
                        && final(self).phase_spec() == ServerPhase::Closed
                },
                None => action == ServerAction::Close(Err(TransferError::IOError))
                    && final(self).phase_spec() == ServerPhase::Closed,
            },
    {
        match chunk {
            Some(c) => {
                let k = c.len();
                if k == 0 {
                    self.phase = ServerPhase::Closed;
                    ServerAction::Close(Ok(self.sent))
                } else if k as u64 <= u64::MAX - self.sent {
                    self.sent = self.sent + k as u64;
                    self.out = Ghost(self.out@ + c@);
                    self.file_out = Ghost(self.file_out@ + c@);
                    assert(self.out@ =~= le_bytes(self.size as nat, HEADER_LEN as nat)
                        + self.file_out@);
                    self.phase = ServerPhase::Sending;
                    ServerAction::SendChunk(k)
                } else {
                    self.phase = ServerPhase::Closed;
                    ServerAction::Close(Err(TransferError::IOError))
                }
            },
            None => {
                self.phase = ServerPhase::Closed;
                ServerAction::Close(Err(TransferError::IOError))
            },
        }
    }

    /// Once the reads of the file have given as many bytes as the header
    /// announced, everything the connection wrote is the response for those
    /// bytes: the header, then the file's bytes in the order they were read,
    /// however the reads cut them.
    pub proof fn lemma_complete_response(&self)
        requires
            self.wf(),
            self.phase_spec() == ServerPhase::Reading,
            self.file_sent().len() == self.file_size(),
        ensures
            self.written() == response_frame(self.file_sent()),
    {
    }

    /// The chunk was written to the socket (`ok`), or the write failed.
    pub fn on_chunk_sent(&mut self, ok: bool) -> (action: ServerAction)
        requires
            old(self).wf(),
            old(self).phase_spec() == ServerPhase::Sending,
        ensures
            final(self).wf(),
            final(self).root_spec() == old(self).root_spec(),
            final(self).written() == old(self).written(),
            final(self).file_sent() == old(self).file_sent(),
            final(self).file_size() == old(self).file_size(),
            ok ==> action == ServerAction::ReadFile && final(self).phase_spec()
                == ServerPhase::Reading,
            !ok ==> action == ServerAction::Close(Err(TransferError::IOError))
                && final(self).phase_spec() == ServerPhase::Closed,
    {
        if ok {
            self.phase = ServerPhase::Reading;
            ServerAction::ReadFile
        } else {
            self.phase = ServerPhase::Closed;
            ServerAction::Close(Err(TransferError::IOError))
        }
    }
}

} // verus!
