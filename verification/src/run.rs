//! Whole transfers: what a sequence of events leads to, and what holds of
//! every such sequence.

use crate::error::DownloadError;
use crate::progress::{advance, completion_message_of, limit_of};
use crate::transfer::{start_of, step_of, ActionView, EventView, Status, TransferView};
use vstd::prelude::*;

verus! {

/// The state after `events`, taken in order from state `t`, and the actions
/// they were answered with.
pub open spec fn run(t: TransferView, events: Seq<EventView>) -> (TransferView, Seq<ActionView>)
    decreases events.len(),
{
    if events.len() == 0 {
        (t, Seq::empty())
    } else {
        let before = run(t, events.drop_last());
        let next = step_of(before.0, events.last());
        (next.0, before.1.push(next.1))
    }
}

/// The positions that `actions` show, in order.
pub open spec fn reported(actions: Seq<ActionView>) -> Seq<nat>
    decreases actions.len(),
{
    if actions.len() == 0 {
        Seq::empty()
    } else {
        match actions.last() {
            ActionView::Write { position, .. } => reported(actions.drop_last()).push(position),
            _ => reported(actions.drop_last()),
        }
    }
}

/// The bytes that `actions` hand over for writing, in order.
pub open spec fn handed_over(actions: Seq<ActionView>) -> Seq<u8>
    decreases actions.len(),
{
    if actions.len() == 0 {
        Seq::empty()
    } else {
        match actions.last() {
            ActionView::Write { bytes, .. } => handed_over(actions.drop_last()) + bytes,
            _ => handed_over(actions.drop_last()),
        }
    }
}

/// The events of a body that arrives as `chunks`.
pub open spec fn chunk_events(chunks: Seq<Seq<u8>>) -> Seq<EventView> {
    Seq::new(chunks.len(), |i: int| EventView::Chunk(chunks[i]))
}

/// The position after the first `n` of `chunks`, from position `from`: the
/// bytes so far, clamped to the limit.
pub open spec fn position_after(total: Option<u64>, from: nat, chunks: Seq<Seq<u8>>, n: int) -> nat {
    advance(total, from, chunks.take(n).flatten().len())
}

/// Chunk by chunk: while a transfer streams, each chunk is answered by a
/// write of that very chunk, together with the clamped count of the bytes up
/// to and including it; the transfer goes on streaming.
pub proof fn lemma_run_of_chunks(t: TransferView, chunks: Seq<Seq<u8>>)
    requires
        t.status == Status::Streaming,
        t.within_limit(),
    ensures
        run(t, chunk_events(chunks)).0 == (TransferView {
            position: position_after(t.total, t.position, chunks, chunks.len() as int),
            ..t
        }),
        run(t, chunk_events(chunks)).1.len() == chunks.len(),
        forall|i: int|
            0 <= i < chunks.len() ==> #[trigger] run(t, chunk_events(chunks)).1[i] == (
            ActionView::Write {
                bytes: chunks[i],
                position: position_after(t.total, t.position, chunks, i + 1),
            }),
    decreases chunks.len(),
{
    let events = chunk_events(chunks);
    if chunks.len() == 0 {
        assert(chunks.take(0) =~= Seq::<Seq<u8>>::empty());
        assert(chunks.take(0).flatten() =~= Seq::<u8>::empty());
    } else {
        let init = chunks.drop_last();
        lemma_run_of_chunks(t, init);
        assert(events.drop_last() =~= chunk_events(init));
        assert(events.last() == EventView::Chunk(chunks.last()));
        assert(init.take(init.len() as int) =~= init);
        assert(chunks.take(chunks.len() as int) =~= init.push(chunks.last()));
        Seq::lemma_flatten_push(init, chunks.last());
        assert forall|i: int| 0 <= i < chunks.len() implies #[trigger] run(t, events).1[i] == (
        ActionView::Write {
            bytes: chunks[i],
            position: position_after(t.total, t.position, chunks, i + 1),
        }) by {
            if i < init.len() {
                assert(chunks.take(i + 1) =~= init.take(i + 1));
                assert(run(t, chunk_events(init)).1[i] == run(t, events).1[i]);
            }
        }
    }
}

/// Of actions that are all writes, `reported` holds the position of each
/// and `handed_over` the bytes of all, in order.
proof fn lemma_all_writes(actions: Seq<ActionView>, chunks: Seq<Seq<u8>>)
    requires
        actions.len() == chunks.len(),
        forall|i: int|
            0 <= i < actions.len() ==> (#[trigger] actions[i] matches ActionView::Write {
                bytes,
                ..
            } && bytes == chunks[i]),
    ensures
        reported(actions).len() == actions.len(),
        forall|i: int|
            0 <= i < actions.len() ==> (#[trigger] actions[i] matches ActionView::Write {
                position,
                ..
            } && position == reported(actions)[i]),
        handed_over(actions) == chunks.flatten(),
    decreases actions.len(),
{
    if actions.len() == 0 {
        assert(chunks =~= Seq::<Seq<u8>>::empty());
    } else {
        let init = actions.drop_last();
        lemma_all_writes(init, chunks.drop_last());
        Seq::lemma_flatten_push(chunks.drop_last(), chunks.last());
        assert(chunks =~= chunks.drop_last().push(chunks.last()));
        assert(actions[actions.len() - 1] == actions.last());
        assert forall|i: int| 0 <= i < actions.len() implies (
        #[trigger] actions[i] matches ActionView::Write { position, .. } && position == reported(
            actions,
        )[i]) by {
            if i < init.len() {
                assert(init[i] == actions[i]);
            }
        }
    }
}

/// The position never falls and never passes the limit, whatever happens:
/// no sequence of events takes a transfer's position below where it was or
/// above the limit, nor changes the total, the source or the destination.
pub proof fn lemma_position_never_falls(t: TransferView, events: Seq<EventView>)
    requires
        t.within_limit(),
    ensures
        t.position <= run(t, events).0.position <= limit_of(t.total),
        run(t, events).0.total == t.total,
        run(t, events).0.url == t.url,
        run(t, events).0.path == t.path,
        run(t, events).1.len() == events.len(),
    decreases events.len(),
{
    if events.len() > 0 {
        lemma_position_never_falls(t, events.drop_last());
    }
}

/// Progress is monotonic and complete: where the chunks add up to the
/// advertised total, one position is shown per chunk, the positions never
/// go down, and the last of them is the total.
pub proof fn lemma_progress_reaches_total(
    url: Seq<char>,
    path: Seq<char>,
    total: u64,
    chunks: Seq<Seq<u8>>,
)
    requires
        chunks.flatten().len() == total,
    ensures
        ({
            let end = run(start_of(url, path, Some(total)), chunk_events(chunks));
            let shown = reported(end.1);
            &&& shown.len() == chunks.len()
            &&& forall|i: int, j: int| 0 <= i <= j < shown.len() ==> shown[i] <= shown[j]
            &&& shown.len() > 0 ==> shown.last() == total
            &&& end.0.position == total
        }),
{
    let start = start_of(url, path, Some(total));
    let end = run(start, chunk_events(chunks));
    lemma_progress_is_clamped(url, path, Some(total), chunks);
    lemma_run_of_chunks(start, chunks);
    assert(chunks.take(chunks.len() as int) =~= chunks);
    if chunks.len() > 0 {
        assert(end.1[chunks.len() - 1] == end.1.last());
    }
}

/// Progress is clamped: however many bytes arrive, one position is shown
/// per chunk, the positions never go down, and none exceeds the limit.
/// Position `i` is the count of the bytes up to and including chunk `i`
/// where that is within the limit, and the limit where it is not.
pub proof fn lemma_progress_is_clamped(
    url: Seq<char>,
    path: Seq<char>,
    total: Option<u64>,
    chunks: Seq<Seq<u8>>,
)
    ensures
        ({
            let shown = reported(run(start_of(url, path, total), chunk_events(chunks)).1);
            &&& shown.len() == chunks.len()
            &&& forall|i: int|
                0 <= i < shown.len() ==> #[trigger] shown[i] == position_after(
                    total,
                    0,
                    chunks,
                    i + 1,
                )
            &&& forall|i: int| 0 <= i < shown.len() ==> #[trigger] shown[i] <= limit_of(total)
            &&& forall|i: int, j: int| 0 <= i <= j < shown.len() ==> shown[i] <= shown[j]
        }),
{
    let start = start_of(url, path, total);
    let actions = run(start, chunk_events(chunks)).1;
    let shown = reported(actions);
    lemma_run_of_chunks(start, chunks);
    lemma_all_writes(actions, chunks);
    assert forall|i: int, j: int| 0 <= i <= j < shown.len() implies shown[i] <= shown[j] by {
        assert(actions[i] matches ActionView::Write { position, .. } && position == shown[i]);
        assert(actions[j] matches ActionView::Write { position, .. } && position == shown[j]);
        lemma_take_flatten_grows(chunks, i + 1, j + 1);
    }
    assert forall|i: int| 0 <= i < shown.len() implies #[trigger] shown[i] == position_after(
        total,
        0,
        chunks,
        i + 1,
    ) by {
        assert(actions[i] matches ActionView::Write { position, .. } && position == shown[i]);
    }
}

/// A longer prefix of the chunks holds at least as many bytes.
proof fn lemma_take_flatten_grows(chunks: Seq<Seq<u8>>, m: int, n: int)
    requires
        0 <= m <= n <= chunks.len(),
    ensures
        chunks.take(m).flatten().len() <= chunks.take(n).flatten().len(),
    decreases n - m,
{
    if m < n {
        lemma_take_flatten_grows(chunks, m, n - 1);
        assert(chunks.take(n) =~= chunks.take(n - 1).push(chunks[n - 1]));
        Seq::lemma_flatten_push(chunks.take(n - 1), chunks[n - 1]);
    }
}

/// Order is preserved: the bytes handed over for writing, joined in the
/// order of the writes, are the bytes of the body, joined in the order of
/// their arrival. Nothing is lost, repeated or moved, however the body is
/// cut into chunks and whatever total was advertised.
pub proof fn lemma_bytes_keep_their_order(
    url: Seq<char>,
    path: Seq<char>,
    total: Option<u64>,
    chunks: Seq<Seq<u8>>,
)
    ensures
        handed_over(run(start_of(url, path, total), chunk_events(chunks)).1) == chunks.flatten(),
{
    let start = start_of(url, path, total);
    lemma_run_of_chunks(start, chunks);
    lemma_all_writes(run(start, chunk_events(chunks)).1, chunks);
}

/// A body that ends after `chunks` ends the transfer in success: the last
/// action finishes with the completion message, and what was handed over
/// for writing is the whole body.
pub proof fn lemma_end_of_stream_finishes(
    url: Seq<char>,
    path: Seq<char>,
    total: Option<u64>,
    chunks: Seq<Seq<u8>>,
)
    ensures
        ({
            let end = run(
                start_of(url, path, total),
                chunk_events(chunks).push(EventView::StreamEnded),
            );
            &&& end.0.status == Status::Finished
            &&& end.1.last() == (ActionView::Finish { message: completion_message_of(url, path) })
            &&& handed_over(end.1) == chunks.flatten()
            &&& reported(end.1) == reported(
                run(start_of(url, path, total), chunk_events(chunks)).1,
            )
        }),
{
    let start = start_of(url, path, total);
    let events = chunk_events(chunks).push(EventView::StreamEnded);
    assert(events.drop_last() =~= chunk_events(chunks));
    lemma_run_of_chunks(start, chunks);
    lemma_bytes_keep_their_order(url, path, total, chunks);
    let end = run(start, events);
    assert(end.1.drop_last() =~= run(start, chunk_events(chunks)).1);
}

/// A failure leaves what was written: where the stream fails after
/// `chunks`, the transfer ends with the stream error, and what was handed
/// over for writing is exactly the bytes that had arrived.
pub proof fn lemma_stream_failure_keeps_written(
    url: Seq<char>,
    path: Seq<char>,
    total: Option<u64>,
    chunks: Seq<Seq<u8>>,
)
    ensures
        ({
            let end = run(
                start_of(url, path, total),
                chunk_events(chunks).push(EventView::StreamFailed),
            );
            &&& end.0.status == Status::Failed(DownloadError::Stream)
            &&& end.1.last() == (ActionView::Abort { error: DownloadError::Stream })
            &&& handed_over(end.1) == chunks.flatten()
        }),
{
    let start = start_of(url, path, total);
    let events = chunk_events(chunks).push(EventView::StreamFailed);
    assert(events.drop_last() =~= chunk_events(chunks));
    lemma_run_of_chunks(start, chunks);
    lemma_bytes_keep_their_order(url, path, total, chunks);
    let end = run(start, events);
    assert(end.1.drop_last() =~= run(start, chunk_events(chunks)).1);
}

/// Once over, always over: a transfer that has finished or failed is left
/// unchanged by every further event.
pub proof fn lemma_over_is_final(t: TransferView, events: Seq<EventView>)
    requires
        t.status != Status::Streaming,
    ensures
        run(t, events).0 == t,
        handed_over(run(t, events).1) == Seq::<u8>::empty(),
        reported(run(t, events).1) == Seq::<nat>::empty(),
    decreases events.len(),
{
    if events.len() > 0 {
        lemma_over_is_final(t, events.drop_last());
        assert(run(t, events).1.drop_last() =~= run(t, events.drop_last()).1);
    }
}

} // verus!
