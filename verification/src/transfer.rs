//! The transfer engine: one download, chunk by chunk.
//!
//! The engine does no I/O. Its caller sends the request, polls the response
//! body and owns the destination file, and tells the engine what happened as
//! an `Event`. The engine answers each event with the `Action` to take: the
//! bytes to write and the position to show once they are written, the line
//! to end on, or the error to give up with.

use crate::error::DownloadError;
use crate::progress::{
    advance, bar_setup_of, completion_message, completion_message_of, limit_of, next_position,
    prepare_progress_bar, BarSetup,
};
use vstd::prelude::*;

verus! {

/// What became of the request.
#[derive(Debug, Clone, Copy, PartialEq, Eq, Structural)]
pub enum Response {
    /// It could not be sent, or the connection failed before the headers
    /// arrived.
    Failed,
    /// The headers arrived, advertising `total` bytes if they advertised a
    /// length at all.
    Headers { total: Option<u64> },
}

/// What happened outside the engine.
#[derive(Debug, Clone, PartialEq, Eq)]
pub enum Event {
    /// The response body yielded these bytes.
    Chunk(Vec<u8>),
    /// Reading the next chunk failed.
    StreamFailed,
    /// The destination could not be created, or the last write failed.
    IoFailed,
    /// The response body is exhausted.
    StreamEnded,
}

/// An `Event` with its bytes as a sequence.
pub enum EventView {
    Chunk(Seq<u8>),
    StreamFailed,
    IoFailed,
    StreamEnded,
}

impl View for Event {
    type V = EventView;

    open spec fn view(&self) -> EventView {
        match self {
            Event::Chunk(bytes) => EventView::Chunk(bytes@),
            Event::StreamFailed => EventView::StreamFailed,
            Event::IoFailed => EventView::IoFailed,
            Event::StreamEnded => EventView::StreamEnded,
        }
    }
}

/// What the caller is to do next.
#[derive(Debug, Clone, PartialEq, Eq)]
pub enum Action {
    /// Append `bytes` to the destination, then show `position`, then poll
    /// the response body again.
    Write { bytes: Vec<u8>, position: u64 },
    /// End the display on `message` and report success.
    Finish { message: String },
    /// Give up and report `error`. What was written stays where it is.
    Abort { error: DownloadError },
}

/// An `Action` with its bytes and its message as sequences.
pub enum ActionView {
    Write { bytes: Seq<u8>, position: nat },
    Finish { message: Seq<char> },
    Abort { error: DownloadError },
}

impl View for Action {
    type V = ActionView;

    open spec fn view(&self) -> ActionView {
        match self {
            Action::Write { bytes, position } => ActionView::Write {
                bytes: bytes@,
                position: *position as nat,
            },
            Action::Finish { message } => ActionView::Finish { message: message@ },
            Action::Abort { error } => ActionView::Abort { error: *error },
        }
    }
}

/// How far a transfer has come.
#[derive(Debug, Clone, Copy, PartialEq, Eq, Structural)]
pub enum Status {
    /// Chunks are still expected.
    Streaming,
    /// The body was exhausted and everything was handed over for writing.
    Finished,
    /// The transfer was given up with this error.
    Failed(DownloadError),
}

/// One transfer: where from, where to, how much is expected, and how much
/// has been handed over for writing.
pub struct Transfer {
    url: String,
    path: String,
    total: Option<u64>,
    position: u64,
    status: Status,
}

/// The state of a `Transfer`, as plain values.
pub struct TransferView {
    pub url: Seq<char>,
    pub path: Seq<char>,
    pub total: Option<u64>,
    pub position: nat,
    pub status: Status,
}

impl TransferView {
    /// The position is within the limit. This holds of every `Transfer`.
    pub open spec fn within_limit(self) -> bool {
        self.position <= limit_of(self.total)
    }
}

/// The state in which a transfer starts: nothing transferred, streaming.
pub open spec fn start_of(url: Seq<char>, path: Seq<char>, total: Option<u64>) -> TransferView {
    TransferView { url, path, total, position: 0, status: Status::Streaming }
}

/// What one event does to a transfer, and the action it calls for.
///
/// While streaming, a chunk moves the position on by its length, clamped to
/// the limit, and is handed over for writing; a failure ends the transfer
/// with the matching error; the end of the body ends it with the completion
/// message. Once a transfer is over it stays as it is, and every event is
/// answered with the outcome again.
pub open spec fn step_of(t: TransferView, e: EventView) -> (TransferView, ActionView) {
    match t.status {
        Status::Streaming => match e {
            EventView::Chunk(bytes) => {
                let position = advance(t.total, t.position, bytes.len());
                (TransferView { position, ..t }, ActionView::Write { bytes, position })
            },
            EventView::StreamFailed => (
                TransferView { status: Status::Failed(DownloadError::Stream), ..t },
                ActionView::Abort { error: DownloadError::Stream },
            ),
            EventView::IoFailed => (
                TransferView { status: Status::Failed(DownloadError::Io), ..t },
                ActionView::Abort { error: DownloadError::Io },
            ),
            EventView::StreamEnded => (
                TransferView { status: Status::Finished, ..t },
                ActionView::Finish { message: completion_message_of(t.url, t.path) },
            ),
        },
        Status::Finished => (
            t,
            ActionView::Finish { message: completion_message_of(t.url, t.path) },
        ),
        Status::Failed(error) => (t, ActionView::Abort { error }),
    }
}

impl View for Transfer {
    type V = TransferView;

    closed spec fn view(&self) -> TransferView {
        TransferView {
            url: self.url@,
            path: self.path@,
            total: self.total,
            position: self.position as nat,
            status: self.status,
        }
    }
}

impl Transfer {
    #[verifier::type_invariant]
    spec fn well_formed(self) -> bool {
        self.position as nat <= limit_of(self.total)
    }

    /// Starts a transfer from `url` to `path`, of `total` bytes where the
    /// server advertised a total.
    pub fn new(url: &str, path: &str, total: Option<u64>) -> (transfer: Transfer)
        ensures
            transfer@ == start_of(url@, path@, total),
    {
        Transfer {
            url: url.to_owned(),
            path: path.to_owned(),
            total,
            position: 0,
            status: Status::Streaming,
        }
    }

    /// Begins a download from `url` to `path`, given what became of the
    /// request.
    ///
    /// A request that failed gives the request error. One that was answered
    /// gives the transfer, about to stream, and the setup of its display,
    /// labelled with the URL. Headers without a length do not fail the
    /// download: the transfer then counts bytes with no total to reach.
    pub fn begin(url: &str, path: &str, response: Response) -> (res: Result<
        (Transfer, BarSetup),
        DownloadError,
    >)
        ensures
            match response {
                Response::Failed => res is Err && res->Err_0 == DownloadError::Request,
                Response::Headers { total } => {
                    &&& res is Ok
                    &&& res->Ok_0.0@ == start_of(url@, path@, total)
                    &&& res->Ok_0.1@ == bar_setup_of(total, url@)
                },
            },
    {
        match response {
            Response::Failed => Err(DownloadError::Request),
            Response::Headers { total } => Ok(
                (Transfer::new(url, path, total), prepare_progress_bar(total, url)),
            ),
        }
    }

    /// Takes in what happened and says what to do next.
    pub fn step(&mut self, event: Event) -> (action: Action)
        ensures
            (final(self)@, action@) == step_of(old(self)@, event@),
            old(self)@.within_limit(),
            final(self)@.within_limit(),
    {
        proof {
            use_type_invariant(&*self);
        }
        match self.status {
            Status::Streaming => match event {
                Event::Chunk(bytes) => {
                    let position = next_position(self.total, self.position, bytes.len());
                    self.position = position;
                    Action::Write { bytes, position }
                },
                Event::StreamFailed => {
                    self.status = Status::Failed(DownloadError::Stream);
                    Action::Abort { error: DownloadError::Stream }
                },
                Event::IoFailed => {
                    self.status = Status::Failed(DownloadError::Io);
                    Action::Abort { error: DownloadError::Io }
                },
                Event::StreamEnded => {
                    self.status = Status::Finished;
                    Action::Finish {
                        message: completion_message(self.url.as_str(), self.path.as_str()),
                    }
                },
            },
            Status::Finished => Action::Finish {
                message: completion_message(self.url.as_str(), self.path.as_str()),
            },
            Status::Failed(error) => Action::Abort { error },
        }
    }

    /// The position last handed out, or 0 before the first chunk. It never
    /// exceeds the limit.
    pub fn position(&self) -> (position: u64)
        ensures
            position as nat == self@.position,
            self@.within_limit(),
    {
        proof {
            use_type_invariant(self);
        }
        self.position
    }

    /// The total the server advertised, if it did.
    pub fn total(&self) -> (total: Option<u64>)
        ensures
            total == self@.total,
    {
        self.total
    }

    /// How far the transfer has come.
    pub fn status(&self) -> (status: Status)
        ensures
            status == self@.status,
    {
        self.status
    }
}

} // verus!
