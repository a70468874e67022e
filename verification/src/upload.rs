//! The decisions of one upload request. The session says what is to be done
//! next; whoever drives it does that and reports what came of it.

use vstd::prelude::*;
use vstd::string::*;
use crate::inline::inline_text;
use crate::naming::{converted_path, converted_path_text, raw_path, raw_path_text, utc_stamp};
use crate::point::PointView;
use crate::points_map::PointsMap;

verus! {

/// Where a session stands: what it last asked for.
#[derive(Clone, Copy, Debug, PartialEq, Eq, Structural)]
pub enum Phase {
    /// The next part of the form.
    AwaitingPart,
    /// The next piece of the body of a part named `file`.
    Receiving,
    /// The storing of the raw file.
    StoringRaw,
    /// The points that the raw file holds.
    Loading,
    /// The storing of the converted copy.
    StoringConverted,
    /// Nothing: the reply was given.
    Finished,
}

/// Why an upload was turned away.
#[derive(Clone, Copy, Debug, PartialEq, Eq, Structural)]
pub enum UploadError {
    /// The body of the part could not be read to its end.
    Read,
    /// The raw file could not be stored.
    Write,
}

/// How an upload ended.
#[derive(Clone, Copy, Debug, PartialEq, Eq, Structural)]
pub enum Outcome {
    /// Every part was gone through: the request is answered with success.
    Success,
    /// The upload was given up: the request is turned away.
    Rejected(UploadError),
}

/// Why the points of a raw file could not be had.
#[derive(Clone, Copy, Debug, PartialEq, Eq, Structural)]
pub enum LoadError {
    /// The file could not be read as text.
    Read,
    /// The text is no mapping from keys to points.
    Parse,
}

/// What came of the last command.
#[derive(Debug)]
pub enum Event {
    /// The form gave its next part, a field of this name.
    Part { name: String },
    /// The form gives no further part.
    NoMoreParts,
    /// The body of the part gave its next piece.
    Chunk { data: Vec<u8> },
    /// The body of the part is at its end.
    EndOfPart,
    /// The body of the part broke off.
    ReadFailed,
    /// The file was written.
    Written,
    /// The file could not be written.
    WriteFailed,
    /// The raw file was read, and holds these points.
    Loaded { points: PointsMap },
    /// The points of the raw file could not be had.
    LoadFailed { cause: LoadError },
}

/// What is to be done next.
#[derive(Debug, PartialEq, Eq)]
pub enum Command {
    /// Take the next part of the form.
    NextPart,
    /// Take the next piece of the body of the current part.
    NextChunk,
    /// Write `contents` to the file at `path`, in place of what it held.
    Write { path: String, contents: Vec<u8> },
    /// Read the file at `path` and parse it as points.
    Load { path: String },
    /// Answer the request.
    Reply { outcome: Outcome },
}

/// An event that does not answer what the session last asked for.
#[derive(Clone, Copy, Debug, PartialEq, Eq, Structural)]
pub struct OutOfTurn;

/// What an event is to the contracts.
pub ghost enum EventView {
    Part { name: Seq<char> },
    NoMoreParts,
    Chunk { data: Seq<u8> },
    EndOfPart,
    ReadFailed,
    Written,
    WriteFailed,
    Loaded { points: Map<u32, PointView> },
    LoadFailed { cause: LoadError },
}

/// What a command is to the contracts.
pub ghost enum CommandView {
    NextPart,
    NextChunk,
    Write { path: Seq<char>, contents: Seq<u8> },
    Load { path: Seq<char> },
    Reply { outcome: Outcome },
}

impl View for Event {
    type V = EventView;

    open spec fn view(&self) -> EventView {
        match *self {
            Event::Part { name } => EventView::Part { name: name@ },
            Event::NoMoreParts => EventView::NoMoreParts,
            Event::Chunk { data } => EventView::Chunk { data: data@ },
            Event::EndOfPart => EventView::EndOfPart,
            Event::ReadFailed => EventView::ReadFailed,
            Event::Written => EventView::Written,
            Event::WriteFailed => EventView::WriteFailed,
            Event::Loaded { points } => EventView::Loaded { points: points@ },
            Event::LoadFailed { cause } => EventView::LoadFailed { cause },
        }
    }
}

impl View for Command {
    type V = CommandView;

    open spec fn view(&self) -> CommandView {
        match *self {
            Command::NextPart => CommandView::NextPart,
            Command::NextChunk => CommandView::NextChunk,
            Command::Write { path, contents } => CommandView::Write {
                path: path@,
                contents: contents@,
            },
            Command::Load { path } => CommandView::Load { path: path@ },
            Command::Reply { outcome } => CommandView::Reply { outcome },
        }
    }
}

/// One upload request on its way.
#[derive(Debug)]
pub struct UploadSession {
    phase: Phase,
    buffer: Vec<u8>,
    stamp: String,
}

/// What a session is to the contracts.
pub ghost struct SessionView {
    /// What the session last asked for.
    pub phase: Phase,
    /// The body of the current part, as far as it was received.
    pub buffer: Seq<u8>,
    /// The stamp under which the current part is stored.
    pub stamp: Seq<char>,
}

impl View for UploadSession {
    type V = SessionView;

    closed spec fn view(&self) -> SessionView {
        SessionView { phase: self.phase, buffer: self.buffer@, stamp: self.stamp@ }
    }
}

/// A session before its first event: it waits for the first part.
pub open spec fn initial() -> SessionView {
    SessionView { phase: Phase::AwaitingPart, buffer: Seq::empty(), stamp: Seq::empty() }
}

/// Whether `data` can be added to `buffer`: no buffer holds more than
/// `isize::MAX` bytes.
pub open spec fn fits(buffer: Seq<u8>, data: Seq<u8>) -> bool {
    buffer.len() + data.len() <= isize::MAX
}

/// The session `s` in another phase.
pub open spec fn moved(s: SessionView, phase: Phase) -> SessionView {
    SessionView { phase, buffer: s.buffer, stamp: s.stamp }
}

/// What the session `s` does on `event` while the clock shows `clock`: the
/// session after it and the next command, or nothing where the event does not
/// answer what `s` last asked for.
///
/// Only a part named `file` is received; any other is passed over. The body
/// is gathered piece by piece and stored as it is, under the name that the
/// clock gives when the body ends. A body that breaks off or grows beyond
/// what a buffer holds, or a raw file that cannot be stored, ends the
/// request with a rejection. What comes after
/// the raw file is stored cannot fail the request: whether the points can be
/// had and the converted copy written or not, the session goes on to the next
/// part.
pub open spec fn next(s: SessionView, event: EventView, clock: Seq<char>) -> Option<
    (SessionView, CommandView),
> {
    match s.phase {
        Phase::AwaitingPart => match event {
            EventView::Part { name } => if name == "file"@ {
                Some(
                    (
                        SessionView {
                            phase: Phase::Receiving,
                            buffer: Seq::empty(),
                            stamp: s.stamp,
                        },
                        CommandView::NextChunk,
                    ),
                )
            } else {
                Some((s, CommandView::NextPart))
            },
            EventView::NoMoreParts => Some(
                (moved(s, Phase::Finished), CommandView::Reply { outcome: Outcome::Success }),
            ),
            _ => None,
        },
        Phase::Receiving => match event {
            EventView::Chunk { data } => if fits(s.buffer, data) {
                Some(
                    (
                        SessionView {
                            phase: Phase::Receiving,
                            buffer: s.buffer + data,
                            stamp: s.stamp,
                        },
                        CommandView::NextChunk,
                    ),
                )
            } else {
                Some(
                    (
                        moved(s, Phase::Finished),
                        CommandView::Reply { outcome: Outcome::Rejected(UploadError::Read) },
                    ),
                )
            },
            EventView::EndOfPart => Some(
                (
                    SessionView { phase: Phase::StoringRaw, buffer: Seq::empty(), stamp: clock },
                    CommandView::Write { path: raw_path_text(clock), contents: s.buffer },
                ),
            ),
            EventView::ReadFailed => Some(
                (
                    moved(s, Phase::Finished),
                    CommandView::Reply { outcome: Outcome::Rejected(UploadError::Read) },
                ),
            ),
            _ => None,
        },
        Phase::StoringRaw => match event {
            EventView::Written => Some(
                (moved(s, Phase::Loading), CommandView::Load { path: raw_path_text(s.stamp) }),
            ),
            EventView::WriteFailed => Some(
                (
                    moved(s, Phase::Finished),
                    CommandView::Reply { outcome: Outcome::Rejected(UploadError::Write) },
                ),
            ),
            _ => None,
        },
        Phase::Loading => match event {
            EventView::Loaded { points } => Some(
                (
                    moved(s, Phase::StoringConverted),
                    CommandView::Write {
                        path: converted_path_text(s.stamp),
                        contents: inline_text(points),
                    },
                ),
            ),
            EventView::LoadFailed { cause } => Some(
                (moved(s, Phase::AwaitingPart), CommandView::NextPart),
            ),
            _ => None,
        },
        Phase::StoringConverted => match event {
            EventView::Written => Some((moved(s, Phase::AwaitingPart), CommandView::NextPart)),
            EventView::WriteFailed => Some(
                (moved(s, Phase::AwaitingPart), CommandView::NextPart),
            ),
            _ => None,
        },
        Phase::Finished => None,
    }
}

/// Whether a step from `before` on `event`, with the clock at `clock`, may
/// end in `after` and `result`.
pub open spec fn stepped(
    before: SessionView,
    event: EventView,
    clock: Seq<char>,
    after: SessionView,
    result: Result<Command, OutOfTurn>,
) -> bool {
    match result {
        Ok(command) => next(before, event, clock) == Some((after, command@)),
        Err(_) => next(before, event, clock) is None && after == before,
    }
}

/// Adds `data` to the end of `buffer`.
///
/// Calls `bytes::BufMut::put` on the vector, with the slice as the source.
/// For a vector, bytes reserves room for the whole source and then extends
/// the vector by it; it panics where the new length would be over
/// `isize::MAX`, which `requires` leaves out.
#[verifier::external_body]
fn put_bytes(buffer: &mut Vec<u8>, data: &[u8])
    requires
        old(buffer)@.len() + data@.len() <= isize::MAX,
    ensures
        final(buffer)@ == old(buffer)@ + data@,
{
    bytes::BufMut::put(buffer, data)
}

impl UploadSession {
    /// A session for a new request. It waits for the first part of the form.
    pub fn new() -> (session: UploadSession)
        ensures
            session@ == initial(),
    {
        UploadSession { phase: Phase::AwaitingPart, buffer: Vec::new(), stamp: String::new() }
    }

    /// What the session last asked for.
    pub fn phase(&self) -> (phase: Phase)
        ensures
            phase == self@.phase,
    {
        self.phase
    }

    /// Takes `event` as having come while the clock showed `clock`, and says
    /// what is to be done next. An event out of turn leaves the session as it
    /// was.
    pub fn step_at(&mut self, event: Event, clock: &str) -> (result: Result<Command, OutOfTurn>)
        ensures
            stepped(old(self)@, event@, clock@, final(self)@, result),
    {
        match self.phase {
            Phase::AwaitingPart => match event {
                Event::Part { name } => {
                    let wanted: String = "file".to_owned();
                    if name == wanted {
                        self.phase = Phase::Receiving;
                        self.buffer = Vec::new();
                        Ok(Command::NextChunk)
                    } else {
                        Ok(Command::NextPart)
                    }
                },
                Event::NoMoreParts => {
                    self.phase = Phase::Finished;
                    Ok(Command::Reply { outcome: Outcome::Success })
                },
                _ => Err(OutOfTurn),
            },
            Phase::Receiving => match event {
                Event::Chunk { data } => {
                    let limit: usize = isize::MAX as usize;
                    if self.buffer.len() <= limit && data.len() <= limit - self.buffer.len() {
                        put_bytes(&mut self.buffer, data.as_slice());
                        Ok(Command::NextChunk)
                    } else {
                        self.phase = Phase::Finished;
                        Ok(Command::Reply { outcome: Outcome::Rejected(UploadError::Read) })
                    }
                },
                Event::EndOfPart => {
                    let mut contents: Vec<u8> = Vec::new();
                    std::mem::swap(&mut contents, &mut self.buffer);
                    self.phase = Phase::StoringRaw;
                    self.stamp = clock.to_owned();
                    Ok(Command::Write { path: raw_path(clock), contents })
                },
                Event::ReadFailed => {
                    self.phase = Phase::Finished;
                    Ok(Command::Reply { outcome: Outcome::Rejected(UploadError::Read) })
                },
                _ => Err(OutOfTurn),
            },
            Phase::StoringRaw => match event {
                Event::Written => {
                    self.phase = Phase::Loading;
                    Ok(Command::Load { path: raw_path(self.stamp.as_str()) })
                },
                Event::WriteFailed => {
                    self.phase = Phase::Finished;
                    Ok(Command::Reply { outcome: Outcome::Rejected(UploadError::Write) })
                },
                _ => Err(OutOfTurn),
            },
            Phase::Loading => match event {
                Event::Loaded { points } => {
                    self.phase = Phase::StoringConverted;
                    Ok(
                        Command::Write {
                            path: converted_path(self.stamp.as_str()),
                            contents: points.to_inline(),
                        },
                    )
                },
                Event::LoadFailed { cause } => {
                    self.phase = Phase::AwaitingPart;
                    Ok(Command::NextPart)
                },
                _ => Err(OutOfTurn),
            },
            Phase::StoringConverted => match event {
                Event::Written => {
                    self.phase = Phase::AwaitingPart;
                    Ok(Command::NextPart)
                },
                Event::WriteFailed => {
                    self.phase = Phase::AwaitingPart;
                    Ok(Command::NextPart)
                },
                _ => Err(OutOfTurn),
            },
            Phase::Finished => Err(OutOfTurn),
        }
    }

    /// Takes `event` and says what is to be done next. Where the event ends
    /// the body that is being received, the clock is read for the name of
    /// its files; whatever the clock shows, the step is the one that
    /// [`UploadSession::step_at`] takes at that time.
    pub fn step(&mut self, event: Event) -> (result: Result<Command, OutOfTurn>)
        ensures
            exists|clock: Seq<char>| stepped(old(self)@, event@, clock, final(self)@, result),
    {
        let clock = match (self.phase, &event) {
            (Phase::Receiving, Event::EndOfPart) => utc_stamp(),
            _ => String::new(),
        };
        let result = self.step_at(event, clock.as_str());
        assert(stepped(old(self)@, event@, clock@, self@, result));
        result
    }
}

} // verus!
