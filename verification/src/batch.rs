use vstd::prelude::*;
use vstd::utf8::encode_utf8;

use crate::configuration::Configuration;

verus! {

/// Largest total encoded size, in bytes, that a pending batch may reach
/// before the next event forces it out.
pub const MAX_BATCH_BYTES: usize = 1048576;

/// Largest number of events a single batch may carry.
pub const MAX_BATCH_EVENTS: usize = 10000;

/// Oldest a nonempty batch may grow, in milliseconds, before the periodic
/// age check forces it out.
pub const MAX_BATCH_AGE_MILLIS: i64 = 1000;

/// One timestamped log record, as handed over by the record source.
#[derive(Clone, Debug, PartialEq)]
pub struct LogEvent {
    pub message: String,
    /// Epoch milliseconds.
    pub timestamp: i64,
}

/// Mathematical image of a `LogEvent`.
#[verifier::ext_equal]
pub struct LogEventView {
    pub message: Seq<char>,
    pub timestamp: int,
}

impl View for LogEvent {
    type V = LogEventView;

    open spec fn view(&self) -> LogEventView {
        LogEventView { message: self.message@, timestamp: self.timestamp as int }
    }
}

/// The sequence of events a vector of events stands for.
pub open spec fn events_view(events: Seq<LogEvent>) -> Seq<LogEventView> {
    events.map_values(|e: LogEvent| e@)
}

/// Size of one event as the sink counts it: the message's encoded bytes
/// plus a fixed 26-byte per-record overhead.
pub open spec fn spec_event_bytes(e: LogEventView) -> int {
    encode_utf8(e.message).len() as int + 26
}

/// Total size of a batch as the sink counts it.
pub open spec fn batch_bytes(events: Seq<LogEventView>) -> int
    decreases events.len(),
{
    if events.len() == 0 {
        0
    } else {
        batch_bytes(events.drop_last()) + spec_event_bytes(events.last())
    }
}

/// Timestamps never decrease within the batch.
pub open spec fn timestamps_non_decreasing(events: Seq<LogEventView>) -> bool {
    forall|i: int, j: int| 0 <= i <= j < events.len() ==> events[i].timestamp <= events[j].timestamp
}

/// Size of one event as counted by the sink's byte-accounting formula.
pub fn get_event_num_bytes(event: &LogEvent) -> (n: usize)
    requires
        spec_event_bytes(event@) <= usize::MAX,
    ensures
        n == spec_event_bytes(event@),
{
    event.message.as_str().len() + 26
}

/// The downstream consumer of finished batches. The running service
/// implements it with the remote client; tests substitute a recorder.
pub trait Uploader {
    /// Hands one finished batch over, consuming it.
    fn upload(&mut self, events: Vec<LogEvent>);
}

/// Whether admitting `e` into a batch currently holding `pending` forces the
/// pending events out first. The three triggers, in order: an out-of-order
/// timestamp, the size cap, and the count cap.
pub open spec fn push_triggers_flush(pending: Seq<LogEventView>, e: LogEventView) -> bool {
    pending.len() > 0 && {
        ||| e.timestamp < pending.last().timestamp
        ||| batch_bytes(pending) + spec_event_bytes(e) > MAX_BATCH_BYTES
        ||| pending.len() + 1 >= MAX_BATCH_EVENTS
    }
}

/// The batch pending after `e` is pushed onto a batch holding `pending`.
pub open spec fn push_result_pending(pending: Seq<LogEventView>, e: LogEventView) -> Seq<LogEventView> {
    if push_triggers_flush(pending, e) {
        seq![e]
    } else {
        pending.push(e)
    }
}

/// The batches handed to the uploader after `e` is pushed, given the batches
/// `uploaded` handed over so far.
pub open spec fn push_result_uploaded(
    pending: Seq<LogEventView>,
    uploaded: Seq<Seq<LogEventView>>,
    e: LogEventView,
) -> Seq<Seq<LogEventView>> {
    if push_triggers_flush(pending, e) {
        uploaded.push(pending)
    } else {
        uploaded
    }
}

/// The batches handed to the uploader after an explicit flush: an empty batch
/// hands nothing over.
pub open spec fn flush_result_uploaded(
    pending: Seq<LogEventView>,
    uploaded: Seq<Seq<LogEventView>>,
) -> Seq<Seq<LogEventView>> {
    if pending.len() == 0 {
        uploaded
    } else {
        uploaded.push(pending)
    }
}

/// Whether a batch holding `pending` is old enough at `now_millis` that the
/// periodic age check forces it out.
pub open spec fn age_exceeded(pending: Seq<LogEventView>, now_millis: int) -> bool {
    pending.len() > 0 && now_millis - pending[0].timestamp > MAX_BATCH_AGE_MILLIS as int
}

/// The pending batch and its aggregates, plus the uploader that finished
/// batches are handed to.
pub struct UploadThreadState<U: Uploader> {
    pub conf: Configuration,
    pub uploader: U,
    pub events: Vec<LogEvent>,
    pub first_timestamp: Option<i64>,
    pub last_timestamp: Option<i64>,
    pub num_pending_bytes: usize,
    /// Every batch handed to the uploader so far, oldest first.
    pub uploaded_batches: Ghost<Seq<Seq<LogEventView>>>,
}

impl<U: Uploader> UploadThreadState<U> {
    /// The events currently pending, oldest first.
    pub open spec fn pending(&self) -> Seq<LogEventView> {
        events_view(self.events@)
    }

    /// Every batch handed to the uploader so far, oldest first.
    pub open spec fn uploaded(&self) -> Seq<Seq<LogEventView>> {
        self.uploaded_batches@
    }

    /// The aggregates track the pending events, the batch respects the count
    /// cap, its timestamps are ordered, and it respects the size cap unless a
    /// single oversized event stands alone in it.
    pub open spec fn wf(&self) -> bool {
        &&& self.pending().len() < MAX_BATCH_EVENTS
        &&& self.num_pending_bytes == batch_bytes(self.pending())
        &&& (batch_bytes(self.pending()) <= MAX_BATCH_BYTES || self.pending().len() == 1)
        &&& timestamps_non_decreasing(self.pending())
        &&& (match self.first_timestamp {
            Some(t) => self.pending().len() > 0 && t as int == self.pending()[0].timestamp,
            None => self.pending().len() == 0,
        })
        &&& (match self.last_timestamp {
            Some(t) => self.pending().len() > 0 && t as int == self.pending().last().timestamp,
            None => self.pending().len() == 0,
        })
    }

    /// A fresh state with an empty batch and nothing handed over yet.
    pub fn new(uploader: U, conf: Configuration) -> (state: UploadThreadState<U>)
        ensures
            state.wf(),
            state.pending() == Seq::<LogEventView>::empty(),
            state.uploaded() == Seq::<Seq<LogEventView>>::empty(),
            state.conf == conf,
            state.uploader == uploader,
    {
        let state = UploadThreadState {
            conf,
            uploader,
            events: Vec::new(),
            first_timestamp: None,
            last_timestamp: None,
            num_pending_bytes: 0,
            uploaded_batches: Ghost(Seq::empty()),
        };
        proof {
            assert(state.pending() =~= Seq::<LogEventView>::empty());
        }
        state
    }

    /// Admits one event, flushing first if the event's timestamp runs
    /// backwards, if the batch's size would pass the size cap, or if the
    /// batch is one event short of the count cap. The event itself is always
    /// admitted afterwards, even when it is oversized on its own.
    pub fn push(&mut self, event: LogEvent)
        requires
            old(self).wf(),
            spec_event_bytes(event@) <= usize::MAX,
        ensures
            final(self).wf(),
            final(self).pending() == push_result_pending(old(self).pending(), event@),
            final(self).uploaded() == push_result_uploaded(
                old(self).pending(),
                old(self).uploaded(),
                event@,
            ),
            final(self).conf == old(self).conf,
    {
        // Flush if the event's timestamp is older than the previous event's.
        if let Some(last_timestamp) = self.last_timestamp {
            if event.timestamp < last_timestamp {
                self.flush();
            }
        }

        // Flush if the size cap would be passed. The comparison is arranged
        // so that the byte counts are never added: the pending total may
        // exceed the cap when a single oversized event stands alone.
        let event_num_bytes = get_event_num_bytes(&event);
        if self.num_pending_bytes > MAX_BATCH_BYTES
            || event_num_bytes > MAX_BATCH_BYTES - self.num_pending_bytes {
            self.flush();
        }

        // Flush if the count cap would be reached.
        if self.events.len() + 1 >= MAX_BATCH_EVENTS {
            self.flush();
        }

        // Admit the event and update the aggregates.
        if self.first_timestamp.is_none() {
            self.first_timestamp = Some(event.timestamp);
        }
        self.last_timestamp = Some(event.timestamp);
        self.num_pending_bytes = self.num_pending_bytes + event_num_bytes;
        let ghost pending_before = self.pending();
        self.events.push(event);
        proof {
            assert(self.pending() =~= pending_before.push(event@));
            assert(pending_before.push(event@).drop_last() =~= pending_before);
        }
    }

    /// Hands the whole pending batch to the uploader as one call, then clears
    /// the batch; an empty batch hands nothing over.
    pub fn flush(&mut self)
        requires
            old(self).wf(),
        ensures
            final(self).wf(),
            final(self).pending() == Seq::<LogEventView>::empty(),
            final(self).uploaded() == flush_result_uploaded(
                old(self).pending(),
                old(self).uploaded(),
            ),
            final(self).conf == old(self).conf,
    {
        if self.events.is_empty() {
            proof {
                assert(self.pending() =~= Seq::<LogEventView>::empty());
            }
            return;
        }

        let mut events: Vec<LogEvent> = Vec::new();
        core::mem::swap(&mut events, &mut self.events);
        self.uploaded_batches = Ghost(self.uploaded_batches@.push(events_view(events@)));
        self.uploader.upload(events);
        self.first_timestamp = None;
        self.last_timestamp = None;
        self.num_pending_bytes = 0;
        proof {
            assert(self.pending() =~= Seq::<LogEventView>::empty());
        }
    }

    /// The periodic age check: flushes when the batch is nonempty and its
    /// first event is older than the age cap at `now_millis`.
    pub fn flush_if_old(&mut self, now_millis: i64)
        requires
            old(self).wf(),
        ensures
            final(self).wf(),
            final(self).conf == old(self).conf,
            age_exceeded(old(self).pending(), now_millis as int) ==> {
                &&& final(self).pending() == Seq::<LogEventView>::empty()
                &&& final(self).uploaded() == old(self).uploaded().push(old(self).pending())
            },
            !age_exceeded(old(self).pending(), now_millis as int) ==> *final(self) == *old(self),
    {
        if let Some(first_timestamp) = self.first_timestamp {
            if (now_millis as i128) - (first_timestamp as i128) > MAX_BATCH_AGE_MILLIS as i128 {
                self.flush();
            }
        }
    }
}

/// The batch pending after a whole run of events is pushed, one by one and
/// in order, onto a batch holding `pending`.
pub open spec fn push_run_pending(
    pending: Seq<LogEventView>,
    events: Seq<LogEventView>,
) -> Seq<LogEventView>
    decreases events.len(),
{
    if events.len() == 0 {
        pending
    } else {
        push_run_pending(push_result_pending(pending, events[0]), events.drop_first())
    }
}

/// The batches handed to the uploader after a whole run of events is pushed,
/// one by one and in order, onto a batch holding `pending`.
pub open spec fn push_run_uploaded(
    pending: Seq<LogEventView>,
    uploaded: Seq<Seq<LogEventView>>,
    events: Seq<LogEventView>,
) -> Seq<Seq<LogEventView>>
    decreases events.len(),
{
    if events.len() == 0 {
        uploaded
    } else {
        push_run_uploaded(
            push_result_pending(pending, events[0]),
            push_result_uploaded(pending, uploaded, events[0]),
            events.drop_first(),
        )
    }
}

/// A batch's size distributes over concatenation.
proof fn lemma_batch_bytes_concat(a: Seq<LogEventView>, b: Seq<LogEventView>)
    ensures
        batch_bytes(a + b) == batch_bytes(a) + batch_bytes(b),
    decreases b.len(),
{
    if b.len() == 0 {
        assert(a + b =~= a);
    } else {
        lemma_batch_bytes_concat(a, b.drop_last());
        assert((a + b).drop_last() =~= a + b.drop_last());
    }
}

/// A batch's size is never negative.
proof fn lemma_batch_bytes_nonneg(a: Seq<LogEventView>)
    ensures
        batch_bytes(a) >= 0,
    decreases a.len(),
{
    if a.len() > 0 {
        lemma_batch_bytes_nonneg(a.drop_last());
    }
}

/// In a run whose timestamps never decrease and whose total stays under both
/// caps, no push triggers a flush: the events pile up in order and nothing is
/// handed to the uploader.
proof fn lemma_run_in_order_accumulates(
    pending: Seq<LogEventView>,
    uploaded: Seq<Seq<LogEventView>>,
    events: Seq<LogEventView>,
)
    requires
        timestamps_non_decreasing(pending + events),
        batch_bytes(pending + events) <= MAX_BATCH_BYTES,
        (pending + events).len() < MAX_BATCH_EVENTS,
    ensures
        push_run_pending(pending, events) == pending + events,
        push_run_uploaded(pending, uploaded, events) == uploaded,
    decreases events.len(),
{
    if events.len() == 0 {
        assert(pending + events =~= pending);
    } else {
        let e = events[0];
        lemma_batch_bytes_concat(pending, events);
        assert(seq![e] + events.drop_first() =~= events);
        lemma_batch_bytes_concat(seq![e], events.drop_first());
        assert(seq![e].drop_last() =~= Seq::<LogEventView>::empty());
        lemma_batch_bytes_nonneg(events.drop_first());
        assert(!push_triggers_flush(pending, e)) by {
            assert(batch_bytes(Seq::<LogEventView>::empty()) == 0);
            assert(batch_bytes(seq![e]) == spec_event_bytes(e));
            assert(batch_bytes(pending) + spec_event_bytes(e) <= MAX_BATCH_BYTES);
            assert(pending.len() + 1 < MAX_BATCH_EVENTS);
            if pending.len() > 0 {
                assert((pending + events)[pending.len() - 1] == pending.last());
                assert((pending + events)[pending.len() as int] == e);
                assert(pending.last().timestamp <= e.timestamp);
            }
        }
        assert(pending.push(e) + events.drop_first() =~= pending + events);
        lemma_run_in_order_accumulates(pending.push(e), uploaded, events.drop_first());
    }
}

/// For any nonempty run of events with non-decreasing timestamps whose total
/// encoded size and count stay under the caps, pushing them all onto an empty
/// batch hands nothing to the uploader, and the single flush that follows
/// hands over exactly one batch holding all of them in their original order.
pub proof fn lemma_ordered_run_single_flush(
    uploaded: Seq<Seq<LogEventView>>,
    events: Seq<LogEventView>,
)
    requires
        0 < events.len() < MAX_BATCH_EVENTS,
        timestamps_non_decreasing(events),
        batch_bytes(events) <= MAX_BATCH_BYTES,
    ensures
        push_run_pending(Seq::empty(), events) == events,
        push_run_uploaded(Seq::empty(), uploaded, events) == uploaded,
        flush_result_uploaded(
            push_run_pending(Seq::empty(), events),
            push_run_uploaded(Seq::empty(), uploaded, events),
        ) == uploaded.push(events),
{
    assert(Seq::<LogEventView>::empty() + events =~= events);
    lemma_run_in_order_accumulates(Seq::empty(), uploaded, events);
}

/// Pushing an event whose timestamp is strictly older than the last pushed
/// event's flushes all pending events as one batch; the new event then
/// starts a fresh batch on its own.
pub proof fn lemma_out_of_order_push_flushes(
    pending: Seq<LogEventView>,
    uploaded: Seq<Seq<LogEventView>>,
    e: LogEventView,
)
    requires
        pending.len() > 0,
        e.timestamp < pending.last().timestamp,
    ensures
        push_result_pending(pending, e) == seq![e],
        push_result_uploaded(pending, uploaded, e) == uploaded.push(pending),
{
}

/// Pushing an event that would take the batch's total encoded size past the
/// size cap flushes the pending events first; the event then begins the next
/// batch on its own.
pub proof fn lemma_size_cap_push_flushes(
    pending: Seq<LogEventView>,
    uploaded: Seq<Seq<LogEventView>>,
    e: LogEventView,
)
    requires
        pending.len() > 0,
        batch_bytes(pending) + spec_event_bytes(e) > MAX_BATCH_BYTES,
    ensures
        push_result_pending(pending, e) == seq![e],
        push_result_uploaded(pending, uploaded, e) == uploaded.push(pending),
{
}

/// Pushing the event that would make the batch reach the count cap flushes
/// the pending events first, before the new event is recorded: one short of
/// the cap, the next push hands the whole batch over.
pub proof fn lemma_count_cap_push_flushes(
    pending: Seq<LogEventView>,
    uploaded: Seq<Seq<LogEventView>>,
    e: LogEventView,
)
    requires
        pending.len() + 1 >= MAX_BATCH_EVENTS,
    ensures
        push_result_pending(pending, e) == seq![e],
        push_result_uploaded(pending, uploaded, e) == uploaded.push(pending),
{
}

} // verus!
