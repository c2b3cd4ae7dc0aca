//! The client's decisions for one transfer.
//!
//! The program around a `Client` performs each `ClientAction` it is given
//! (connect, send, read, create the local file, write to it) and reports how
//! that went through the matching method, which returns the next action. The
//! transfer ends with `ClientAction::Finish`, which says whether the local
//! file must be removed: after any failure that came once the file was
//! created, it must.
use vstd::prelude::*;

use crate::containment::append;
use crate::error::TransferError;
use crate::receiver::{announced, header_overlap, payload_of, response_outcome, ResponseReader};
use crate::wire::{encode_request, request_frame, HEADER_LEN, MAX_PATH_LEN};

verus! {

/// Where a transfer stands: each phase waits for the outcome of the action
/// that led to it.
#[derive(Debug, Clone, Copy, PartialEq, Eq, Structural)]
pub enum ClientPhase {
    /// Nothing has been done yet.
    Idle,
    /// Waiting for the connection.
    Connecting,
    /// Waiting for the request to be written.
    Sending,
    /// Waiting for the next read from the socket.
    Reading,
    /// Waiting for the local file to be created.
    Creating,
    /// Waiting for a chunk to be written to the local file.
    Writing,
    /// The transfer is over.
    Finished,
}

/// What the program around the client does next.
#[derive(Debug)]
pub enum ClientAction {
    /// Connect to the server.
    Connect,
    /// Write these bytes, the request, to the socket.
    Send(Vec<u8>),
    /// Read the next chunk from the socket.
    Read,
    /// Create the local file, which must not exist yet.
    CreateFile,
    /// Write the last chunk read, from this index on, to the local file.
    Write(usize),
    /// Stop: first remove the local file where `remove_file` says so.
    Finish { result: Result<u64, TransferError>, remove_file: bool },
}

/// One transfer, from the client's side.
pub struct Client {
    phase: ClientPhase,
    created: bool,
    pending: usize,
    remote_path: Vec<u8>,
    reader: ResponseReader,
    saved: Ghost<Seq<u8>>,
}

/// Whether `action` is the last one and reports `result`.
pub open spec fn finishes_with(action: ClientAction, result: Result<u64, TransferError>) -> bool {
    match action {
        ClientAction::Finish { result: r, remove_file: _ } => r == result,
        _ => false,
    }
}

/// Whether `action`, where it is the last one, removes the local file
/// exactly when it reports a failure and the file had been created.
pub open spec fn cleans_up(action: ClientAction, created: bool) -> bool {
    match action {
        ClientAction::Finish { result, remove_file } => remove_file == (result is Err && created),
        _ => true,
    }
}

impl Client {
    /// The phase the transfer is in.
    pub closed spec fn phase_spec(&self) -> ClientPhase {
        self.phase
    }

    /// Whether the local file has been created.
    pub closed spec fn file_created(&self) -> bool {
        self.created
    }

    /// Every byte read from the socket so far.
    pub closed spec fn stream(&self) -> Seq<u8> {
        self.reader@
    }

    /// What the local file holds once the writes asked for so far are done.
    pub closed spec fn saved(&self) -> Seq<u8> {
        self.saved@
    }

    /// The path the transfer asks for.
    pub closed spec fn remote_path_spec(&self) -> Seq<u8> {
        self.remote_path@
    }

    pub closed spec fn wf(&self) -> bool {
        &&& self.reader.wf()
        &&& match self.phase {
            ClientPhase::Idle | ClientPhase::Connecting | ClientPhase::Sending => {
                &&& self.reader@.len() == 0
                &&& !self.created
            },
            ClientPhase::Reading => {
                &&& self.created <==> self.reader@.len() >= HEADER_LEN
                &&& self.created ==> self.saved@ == payload_of(self.reader@)
            },
            ClientPhase::Creating => {
                &&& !self.created
                &&& self.reader@.len() >= HEADER_LEN
                &&& self.saved@ == payload_of(self.reader@)
            },
            ClientPhase::Writing => {
                &&& self.created
                &&& self.reader@.len() >= HEADER_LEN
                &&& self.saved@ == payload_of(self.reader@)
            },
            ClientPhase::Finished => true,
        }
    }

    /// A transfer of `remote_path` that has not begun.
    pub fn new(remote_path: &[u8]) -> (r: Client)
        ensures
            r.wf(),
            r.phase_spec() == ClientPhase::Idle,
            r.remote_path_spec() == remote_path@,
            !r.file_created(),
            r.stream().len() == 0,
    {
        let mut path: Vec<u8> = Vec::new();
        append(&mut path, remote_path);
        Client {
            phase: ClientPhase::Idle,
            created: false,
            pending: 0,
            remote_path: path,
            reader: ResponseReader::new(),
            saved: Ghost(Seq::empty()),
        }
    }

    /// The phase the transfer is in.
    pub fn phase(&self) -> (r: ClientPhase)
        ensures
            r == self.phase_spec(),
    {
        self.phase
    }

    /// Begins, once it is known whether the destination exists: where it
    /// does, the transfer fails before any connection is made.
    pub fn begin(&mut self, destination_exists: bool) -> (action: ClientAction)
        requires
            old(self).wf(),
            old(self).phase_spec() == ClientPhase::Idle,
        ensures
            final(self).wf(),
            destination_exists ==> action == (ClientAction::Finish {
                result: Err(TransferError::DestinationExists),
                remove_file: false,
            }) && final(self).phase_spec() == ClientPhase::Finished,
            !destination_exists ==> action == ClientAction::Connect && final(self).phase_spec()
                == ClientPhase::Connecting,
            final(self).remote_path_spec() == old(self).remote_path_spec(),
            final(self).stream() == old(self).stream(),
            final(self).file_created() == old(self).file_created(),
    {
        if destination_exists {
            self.phase = ClientPhase::Finished;
            ClientAction::Finish { result: Err(TransferError::DestinationExists), remove_file: false }
        } else {
            self.phase = ClientPhase::Connecting;
            ClientAction::Connect
        }
    }

    /// The connection was made (`ok`) or failed. Once made, the request is
    /// sent, unless the path is too long for it.
    pub fn on_connected(&mut self, ok: bool) -> (action: ClientAction)
        requires
            old(self).wf(),
            old(self).phase_spec() == ClientPhase::Connecting,
        ensures
            final(self).wf(),
            !ok ==> action == (ClientAction::Finish {
                result: Err(TransferError::ConnectionError),
                remove_file: false,
            }),
            ok && old(self).remote_path_spec().len() > MAX_PATH_LEN ==> action == (ClientAction::Finish {
                result: Err(TransferError::PathTooLong),
                remove_file: false,
            }),
            ok && old(self).remote_path_spec().len() <= MAX_PATH_LEN ==> action is Send && action->Send_0@
                == request_frame(old(self).remote_path_spec()) && final(self).phase_spec()
                == ClientPhase::Sending,
            !(action is Send) ==> final(self).phase_spec() == ClientPhase::Finished,
            final(self).stream() == old(self).stream(),
            final(self).file_created() == old(self).file_created(),
    {
        if !ok {
            self.phase = ClientPhase::Finished;
            return ClientAction::Finish {
                result: Err(TransferError::ConnectionError),
                remove_file: false,
            };
        }
        match encode_request(self.remote_path.as_slice()) {
            Ok(frame) => {
                self.phase = ClientPhase::Sending;
                ClientAction::Send(frame)
            },
            Err(e) => {
                self.phase = ClientPhase::Finished;
                ClientAction::Finish { result: Err(e), remove_file: false }
            },
        }
    }

    /// The request was written (`ok`) or the write failed.
    pub fn on_sent(&mut self, ok: bool) -> (action: ClientAction)
        requires
            old(self).wf(),
            old(self).phase_spec() == ClientPhase::Sending,
        ensures
            final(self).wf(),
            ok ==> action == ClientAction::Read && final(self).phase_spec() == ClientPhase::Reading,
            !ok ==> action == (ClientAction::Finish {
                result: Err(TransferError::IOError),
                remove_file: false,
            }) && final(self).phase_spec() == ClientPhase::Finished,
            final(self).stream() == old(self).stream(),
            final(self).file_created() == old(self).file_created(),
    {
        if ok {
            self.phase = ClientPhase::Reading;
            ClientAction::Read
        } else {
            self.phase = ClientPhase::Finished;
            ClientAction::Finish { result: Err(TransferError::IOError), remove_file: false }
        }
    }

    /// The socket read `chunk`; an empty chunk means that the server closed
    /// the connection, and the transfer ends with the response's outcome.
    pub fn on_read(&mut self, chunk: &[u8]) -> (action: ClientAction)
        requires
            old(self).wf(),
            old(self).phase_spec() == ClientPhase::Reading,
        ensures
            final(self).wf(),
            cleans_up(action, old(self).file_created()),
            chunk@.len() == 0 ==> final(self).stream() == old(self).stream() && finishes_with(
                action,
                response_outcome(old(self).stream()),
            ) && final(self).phase_spec() == ClientPhase::Finished,
            chunk@.len() > 0 ==> final(self).stream() == old(self).stream() + chunk@,
            chunk@.len() > 0 ==> match action {
                ClientAction::Read => final(self).phase_spec() == ClientPhase::Reading
                    && !final(self).file_created() && final(self).stream().len() < HEADER_LEN
                    && final(self).saved() == old(self).saved(),
                ClientAction::CreateFile => final(self).phase_spec() == ClientPhase::Creating
                    && !old(self).file_created() && final(self).stream().len() >= HEADER_LEN
                    && final(self).pending_start() == header_overlap(old(self).stream(), chunk@)
                    && final(self).pending_start() <= chunk@.len() && final(self).saved()
                    == chunk@.skip(final(self).pending_start() as int) && final(self).saved()
                    == payload_of(final(self).stream()),
                ClientAction::Write(start) => final(self).phase_spec() == ClientPhase::Writing
                    && old(self).file_created() && start == header_overlap(
                    old(self).stream(),
                    chunk@,
                ) && start <= chunk@.len() && final(self).saved() == old(self).saved()
                    + chunk@.skip(start as int),
                _ => false,
            },
            final(self).file_created() == old(self).file_created(),
    {
        if chunk.len() == 0 {
            let result = self.reader.finish();
            self.phase = ClientPhase::Finished;
            let remove_file = result.is_err() && self.created;
            return ClientAction::Finish { result, remove_file };
        }
        let start = self.reader.feed(chunk);
        if self.created {
            self.saved = Ghost(self.saved@ + chunk@.skip(start as int));
            self.phase = ClientPhase::Writing;
            ClientAction::Write(start)
        } else if self.reader.header_complete() {
            self.saved = Ghost(payload_of(self.reader@));
            self.pending = start;
            self.phase = ClientPhase::Creating;
            ClientAction::CreateFile
        } else {
            ClientAction::Read
        }
    }

    /// The read from the socket failed.
    pub fn on_read_failed(&mut self) -> (action: ClientAction)
        requires
            old(self).wf(),
            old(self).phase_spec() == ClientPhase::Reading,
        ensures
            final(self).wf(),
            action == (ClientAction::Finish {
                result: Err(TransferError::IOError),
                remove_file: old(self).file_created(),
            }),
            final(self).phase_spec() == ClientPhase::Finished,
    {
        self.phase = ClientPhase::Finished;
        ClientAction::Finish { result: Err(TransferError::IOError), remove_file: self.created }
    }

    /// The local file was created (`ok`), or could not be; once it is, the
    /// file's bytes of the chunk that completed the header are written.
    pub fn on_created(&mut self, ok: bool) -> (action: ClientAction)
        requires
            old(self).wf(),
            old(self).phase_spec() == ClientPhase::Creating,
        ensures
            final(self).wf(),
            ok ==> action == ClientAction::Write(old(self).pending_start())
                && final(self).phase_spec() == ClientPhase::Writing && final(self).file_created(),
            !ok ==> action == (ClientAction::Finish {
                result: Err(TransferError::IOError),
                remove_file: false,
            }) && final(self).phase_spec() == ClientPhase::Finished,
            !ok ==> !final(self).file_created(),
            final(self).saved() == old(self).saved(),
            final(self).stream() == old(self).stream(),
    {
        if ok {
            self.created = true;
            self.phase = ClientPhase::Writing;
            ClientAction::Write(self.pending)
        } else {
            self.phase = ClientPhase::Finished;
            ClientAction::Finish { result: Err(TransferError::IOError), remove_file: false }
        }
    }

    /// Where the file's bytes begin in the chunk that completed the header.
    pub closed spec fn pending_start(&self) -> usize {
        self.pending
    }

    /// The chunk was written to the local file (`ok`), or the write failed.
    pub fn on_written(&mut self, ok: bool) -> (action: ClientAction)
        requires
            old(self).wf(),
            old(self).phase_spec() == ClientPhase::Writing,
        ensures
            final(self).wf(),
            ok ==> action == ClientAction::Read && final(self).phase_spec() == ClientPhase::Reading,
            !ok ==> action == (ClientAction::Finish {
                result: Err(TransferError::IOError),
                remove_file: true,
            }) && final(self).phase_spec() == ClientPhase::Finished,
            final(self).saved() == old(self).saved(),
            final(self).stream() == old(self).stream(),
            final(self).file_created() == old(self).file_created(),
    {
        if ok {
            self.phase = ClientPhase::Reading;
            ClientAction::Read
        } else {
            self.phase = ClientPhase::Finished;
            ClientAction::Finish { result: Err(TransferError::IOError), remove_file: true }
        }
    }

    /// When the server closes the connection after a whole header but with
    /// a count of file bytes other than the announced one, the transfer fails
    /// with `TruncatedTransfer` and the local file, which exists by then, is
    /// removed.
    pub proof fn lemma_count_mismatch_removes_file(&self)
        requires
            self.wf(),
            self.phase_spec() == ClientPhase::Reading,
            self.stream().len() >= HEADER_LEN,
            payload_of(self.stream()).len() != announced(self.stream()),
        ensures
            self.file_created(),
            response_outcome(self.stream()) == Err::<u64, TransferError>(
                TransferError::TruncatedTransfer,
            ),
            cleans_up(
                ClientAction::Finish {
                    result: response_outcome(self.stream()),
                    remove_file: true,
                },
                self.file_created(),
            ),
    {
    }

    /// A transfer that ends in success has had every byte of the file after
    /// the header written to the local file, as many as the header announced.
    pub proof fn lemma_success_saves_file(&self)
        requires
            self.wf(),
            self.phase_spec() == ClientPhase::Reading,
            response_outcome(self.stream()) is Ok,
        ensures
            self.file_created(),
            self.saved() == payload_of(self.stream()),
            self.saved().len() == announced(self.stream()),
    {
    }
}

} // verus!
