//! What a session does over a whole run of events.

use vstd::prelude::*;
use crate::inline::inline_text;
use crate::naming::{converted_path_text, raw_path_text};
use crate::point::PointView;
use crate::upload::{
    fits, initial, moved, next, CommandView, EventView, LoadError, Outcome, Phase, SessionView,
    UploadError,
};

verus! {

/// The session after `events`, taken in order from `s` while the clock shows
/// `clock`, and the commands that it gave on the way. An event out of turn is
/// passed over.
pub open spec fn run(s: SessionView, events: Seq<EventView>, clock: Seq<char>) -> (
    SessionView,
    Seq<CommandView>,
)
    decreases events.len(),
{
    if events.len() == 0 {
        (s, Seq::empty())
    } else {
        let (before, commands) = run(s, events.drop_last(), clock);
        match next(before, events.last(), clock) {
            Some((after, command)) => (after, commands.push(command)),
            None => (before, commands),
        }
    }
}

/// The bytes of `chunks`, one after the other.
pub open spec fn concat(chunks: Seq<Seq<u8>>) -> Seq<u8>
    decreases chunks.len(),
{
    if chunks.len() == 0 {
        Seq::empty()
    } else {
        concat(chunks.drop_last()) + chunks.last()
    }
}

/// The arrival of each of `chunks`, in order.
pub open spec fn chunk_events(chunks: Seq<Seq<u8>>) -> Seq<EventView> {
    Seq::new(chunks.len(), |i: int| EventView::Chunk { data: chunks[i] })
}

/// The arrival of a part under each of `names`, in order.
pub open spec fn part_events(names: Seq<Seq<char>>) -> Seq<EventView> {
    Seq::new(names.len(), |i: int| EventView::Part { name: names[i] })
}

/// The same command `n` times.
pub open spec fn repeated(command: CommandView, n: nat) -> Seq<CommandView> {
    Seq::new(n, |i: int| command)
}

/// A run over one event is the step on that event.
pub proof fn lemma_run_one(s: SessionView, event: EventView, clock: Seq<char>)
    ensures
        run(s, seq![event], clock) == match next(s, event, clock) {
            Some((after, command)) => (after, seq![command]),
            None => (s, Seq::<CommandView>::empty()),
        },
{
    let events = seq![event];
    assert(events.drop_last() =~= Seq::<EventView>::empty());
    assert(run(s, events.drop_last(), clock) == (s, Seq::<CommandView>::empty()));
    match next(s, event, clock) {
        Some((after, command)) => {
            assert(Seq::<CommandView>::empty().push(command) =~= seq![command]);
        },
        None => {},
    }
}

/// A run over two stretches of events is the run over the first and then,
/// from where that ends, the run over the second.
pub proof fn lemma_run_in_two(
    s: SessionView,
    first: Seq<EventView>,
    second: Seq<EventView>,
    clock: Seq<char>,
)
    ensures
        run(s, first + second, clock) == (
            run(run(s, first, clock).0, second, clock).0,
            run(s, first, clock).1 + run(run(s, first, clock).0, second, clock).1,
        ),
    decreases second.len(),
{
    let middle = run(s, first, clock).0;
    if second.len() == 0 {
        assert(first + second =~= first);
        assert(run(s, first, clock).1 + Seq::<CommandView>::empty() =~= run(s, first, clock).1);
    } else {
        lemma_run_in_two(s, first, second.drop_last(), clock);
        assert((first + second).drop_last() =~= first + second.drop_last());
        assert((first + second).last() == second.last());
        let (before, commands) = run(middle, second.drop_last(), clock);
        match next(before, second.last(), clock) {
            Some((after, command)) => {
                assert(run(s, first + second, clock).1 =~= run(s, first, clock).1
                    + commands.push(command));
            },
            None => {},
        }
    }
}

/// While a body is received, each chunk that fits is added to what was
/// gathered, and the next one is asked for.
pub proof fn lemma_run_chunks(s: SessionView, chunks: Seq<Seq<u8>>, clock: Seq<char>)
    requires
        s.phase == Phase::Receiving,
        s.buffer.len() + concat(chunks).len() <= isize::MAX,
    ensures
        run(s, chunk_events(chunks), clock) == (
            SessionView {
                phase: Phase::Receiving,
                buffer: s.buffer + concat(chunks),
                stamp: s.stamp,
            },
            repeated(CommandView::NextChunk, chunks.len()),
        ),
    decreases chunks.len(),
{
    let events = chunk_events(chunks);
    if chunks.len() == 0 {
        assert(s.buffer + concat(chunks) =~= s.buffer);
        assert(run(s, events, clock).1 =~= repeated(CommandView::NextChunk, 0));
    } else {
        let fewer = chunks.drop_last();
        lemma_run_chunks(s, fewer, clock);
        assert(events.drop_last() =~= chunk_events(fewer));
        assert(events.last() == EventView::Chunk { data: chunks.last() });
        assert(s.buffer + concat(fewer) + chunks.last() =~= s.buffer + concat(chunks));
        assert(repeated(CommandView::NextChunk, fewer.len()).push(CommandView::NextChunk)
            =~= repeated(CommandView::NextChunk, chunks.len()));
    }
}

/// The events of one part named `file` whose body comes as `chunks`.
pub open spec fn file_part_events(chunks: Seq<Seq<u8>>) -> Seq<EventView> {
    seq![EventView::Part { name: "file"@ }] + chunk_events(chunks) + seq![EventView::EndOfPart]
}

/// The body of a part named `file` is stored byte for byte: when the body
/// ends, the session asks for a file that holds the chunks as they came, one
/// after the other, under the name that the clock gives.
pub proof fn lemma_body_is_stored_verbatim(
    s: SessionView,
    chunks: Seq<Seq<u8>>,
    clock: Seq<char>,
)
    requires
        s.phase == Phase::AwaitingPart,
        concat(chunks).len() <= isize::MAX,
    ensures
        run(s, file_part_events(chunks), clock) == (
            SessionView { phase: Phase::StoringRaw, buffer: Seq::empty(), stamp: clock },
            repeated(CommandView::NextChunk, chunks.len() + 1).push(
                CommandView::Write { path: raw_path_text(clock), contents: concat(chunks) },
            ),
        ),
{
    let start = seq![EventView::Part { name: "file"@ }];
    let end = seq![EventView::EndOfPart];
    let receiving = SessionView { phase: Phase::Receiving, buffer: Seq::empty(), stamp: s.stamp };
    lemma_run_one(s, EventView::Part { name: "file"@ }, clock);
    lemma_run_chunks(receiving, chunks, clock);
    lemma_run_in_two(s, start, chunk_events(chunks), clock);
    let received = SessionView {
        phase: Phase::Receiving,
        buffer: concat(chunks),
        stamp: s.stamp,
    };
    assert(Seq::<u8>::empty() + concat(chunks) =~= concat(chunks));
    assert(run(s, start + chunk_events(chunks), clock).0 == received);
    lemma_run_one(received, EventView::EndOfPart, clock);
    lemma_run_in_two(s, start + chunk_events(chunks), end, clock);
    assert(seq![CommandView::NextChunk] + repeated(CommandView::NextChunk, chunks.len())
        =~= repeated(CommandView::NextChunk, chunks.len() + 1));
    assert(run(s, file_part_events(chunks), clock).1 =~= repeated(
        CommandView::NextChunk,
        chunks.len() + 1,
    ).push(CommandView::Write { path: raw_path_text(clock), contents: concat(chunks) }));
}

/// A form without a part named `file` is gone through and answered with
/// success, and nothing is written: each part is passed over, and the reply
/// follows the last.
pub proof fn lemma_without_file_part_nothing_is_written(names: Seq<Seq<char>>, clock: Seq<char>)
    requires
        forall|i: int| 0 <= i < names.len() ==> names[i] != "file"@,
    ensures
        run(initial(), part_events(names).push(EventView::NoMoreParts), clock) == (
            moved(initial(), Phase::Finished),
            repeated(CommandView::NextPart, names.len()).push(
                CommandView::Reply { outcome: Outcome::Success },
            ),
        ),
{
    lemma_run_other_parts(names, clock);
    assert(part_events(names).push(EventView::NoMoreParts).drop_last() =~= part_events(names));
}

/// Parts under other names than `file` leave the session where it began.
proof fn lemma_run_other_parts(names: Seq<Seq<char>>, clock: Seq<char>)
    requires
        forall|i: int| 0 <= i < names.len() ==> names[i] != "file"@,
    ensures
        run(initial(), part_events(names), clock) == (
            initial(),
            repeated(CommandView::NextPart, names.len()),
        ),
    decreases names.len(),
{
    let events = part_events(names);
    if names.len() == 0 {
        assert(run(initial(), events, clock).1 =~= repeated(CommandView::NextPart, 0));
    } else {
        let fewer = names.drop_last();
        lemma_run_other_parts(fewer, clock);
        assert(events.drop_last() =~= part_events(fewer));
        assert(events.last() == EventView::Part { name: names.last() });
        assert(repeated(CommandView::NextPart, fewer.len()).push(CommandView::NextPart)
            =~= repeated(CommandView::NextPart, names.len()));
    }
}

/// Once the raw file is stored, the request succeeds whatever comes of the
/// conversion. Where the points cannot be had, no converted copy is asked
/// for: the session goes on to the next part, and a form that ends there is
/// answered with success.
pub proof fn lemma_failed_conversion_is_passed_over(
    s: SessionView,
    cause: LoadError,
    clock: Seq<char>,
)
    requires
        s.phase == Phase::Loading,
    ensures
        run(s, seq![EventView::LoadFailed { cause }, EventView::NoMoreParts], clock) == (
            moved(s, Phase::Finished),
            seq![CommandView::NextPart, CommandView::Reply { outcome: Outcome::Success }],
        ),
{
    let events = seq![EventView::LoadFailed { cause }, EventView::NoMoreParts];
    assert(events.drop_last() =~= seq![EventView::LoadFailed { cause }]);
    lemma_run_one(s, EventView::LoadFailed { cause }, clock);
    assert(run(s, events, clock).1 =~= seq![
        CommandView::NextPart,
        CommandView::Reply { outcome: Outcome::Success },
    ]);
}

/// Likewise where the converted copy cannot be written: the request still
/// succeeds.
pub proof fn lemma_unwritten_copy_is_passed_over(s: SessionView, clock: Seq<char>)
    requires
        s.phase == Phase::StoringConverted,
    ensures
        run(s, seq![EventView::WriteFailed, EventView::NoMoreParts], clock) == (
            moved(s, Phase::Finished),
            seq![CommandView::NextPart, CommandView::Reply { outcome: Outcome::Success }],
        ),
{
    let events = seq![EventView::WriteFailed, EventView::NoMoreParts];
    assert(events.drop_last() =~= seq![EventView::WriteFailed]);
    lemma_run_one(s, EventView::WriteFailed, clock);
    assert(run(s, events, clock).1 =~= seq![
        CommandView::NextPart,
        CommandView::Reply { outcome: Outcome::Success },
    ]);
}

/// A request is turned away for two reasons only: the body of a part named
/// `file` could not be received to its end, or its raw file could not be
/// stored. Nothing that happens after the raw file is stored turns the request
/// away.
pub proof fn lemma_only_the_upload_can_reject(
    s: SessionView,
    event: EventView,
    clock: Seq<char>,
    error: UploadError,
)
    requires
        next(s, event, clock) matches Some((after, command)) && command == (CommandView::Reply {
            outcome: Outcome::Rejected(error),
        }),
    ensures
        error == UploadError::Read ==> s.phase == Phase::Receiving && (event == EventView::ReadFailed
            || (event is Chunk && !fits(s.buffer, event->data))),
        error == UploadError::Write ==> s.phase == Phase::StoringRaw && event
            == EventView::WriteFailed,
{
}

/// The session is finished exactly when it has given its reply, and a
/// finished session takes no further event.
pub proof fn lemma_reply_ends_the_session(s: SessionView, event: EventView, clock: Seq<char>)
    ensures
        s.phase == Phase::Finished ==> next(s, event, clock) is None,
        next(s, event, clock) matches Some((after, command)) ==> (after.phase == Phase::Finished
            <==> command is Reply),
{
}

/// The events of a part from the end of its body to the points that its
/// raw file holds.
pub open spec fn storing_events(points: Map<u32, PointView>) -> Seq<EventView> {
    seq![EventView::EndOfPart, EventView::Written, EventView::Loaded { points }]
}

/// The commands by which a body is stored and converted: the raw file is
/// written, read back, and the inline form of its points written beside it.
pub open spec fn storing_commands(
    body: Seq<u8>,
    points: Map<u32, PointView>,
    clock: Seq<char>,
) -> Seq<CommandView> {
    seq![
        CommandView::Write { path: raw_path_text(clock), contents: body },
        CommandView::Load { path: raw_path_text(clock) },
        CommandView::Write { path: converted_path_text(clock), contents: inline_text(points) },
    ]
}

/// Two uploads whose bodies end in the same second are stored under the same
/// names, the raw file and the converted copy alike, each with its own
/// contents: whichever is written later takes the place of the other.
pub proof fn lemma_same_second_same_files(
    a: SessionView,
    a_points: Map<u32, PointView>,
    b: SessionView,
    b_points: Map<u32, PointView>,
    clock: Seq<char>,
)
    requires
        a.phase == Phase::Receiving,
        b.phase == Phase::Receiving,
    ensures
        run(a, storing_events(a_points), clock).1 == storing_commands(a.buffer, a_points, clock),
        run(b, storing_events(b_points), clock).1 == storing_commands(b.buffer, b_points, clock),
{
    lemma_storing(a, a_points, clock);
    lemma_storing(b, b_points, clock);
}

/// From the end of a body, a session stores the raw file under the name that
/// the clock gives and the converted copy beside it.
pub proof fn lemma_storing(s: SessionView, points: Map<u32, PointView>, clock: Seq<char>)
    requires
        s.phase == Phase::Receiving,
    ensures
        run(s, storing_events(points), clock) == (
            SessionView { phase: Phase::StoringConverted, buffer: Seq::empty(), stamp: clock },
            storing_commands(s.buffer, points, clock),
        ),
{
    let events = storing_events(points);
    let two = seq![EventView::EndOfPart, EventView::Written];
    let one = seq![EventView::EndOfPart];
    assert(events.drop_last() =~= two);
    assert(two.drop_last() =~= one);
    let stored = SessionView { phase: Phase::StoringRaw, buffer: Seq::empty(), stamp: clock };
    lemma_run_one(s, EventView::EndOfPart, clock);
    assert(run(s, two, clock).0 == moved(stored, Phase::Loading));
    assert(run(s, two, clock).1 =~= seq![
        CommandView::Write { path: raw_path_text(clock), contents: s.buffer },
        CommandView::Load { path: raw_path_text(clock) },
    ]);
    assert(run(s, events, clock).1 =~= storing_commands(s.buffer, points, clock));
}

} // verus!
