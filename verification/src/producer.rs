//! The event producer: the thread that drains the kernel queue into the
//! channel.
//!
//! The thread itself blocks on the kernel, on the channel and on the clock,
//! so it lives outside this crate. What it does next is decided here: the
//! state says which step to take, and the outcome of the step says which
//! state comes next.
//!
//! The producer is either reading or backing off. A successful read hands
//! every event of the batch to the channel, in the order of the batch, and
//! then reads again; if the channel turns out to be disconnected, the rest
//! of the batch is dropped and the producer reads again. A failed read is
//! reported, followed by a fixed pause, and then the producer reads again.
//! There is no final state.

use vstd::prelude::*;

verus! {

/// The pause after a failed read, in milliseconds.
pub const BACKOFF_MS: u64 = 250;

/// The number of events that the channel between producer and consumer
/// holds before a send blocks.
pub const CHANNEL_CAPACITY: usize = 512;

/// Where the producer stands.
#[derive(Clone, Copy, Debug, PartialEq, Eq, Structural)]
pub enum ProducerState {
    /// About to read the next batch of events.
    Reading,
    /// In the middle of a batch of `len` events, about to send the one at
    /// index `next`. This is part of the step from reading to reading.
    Forwarding { next: usize, len: usize },
    /// About to pause after a failed read.
    Backoff,
}

/// What the producer thread does next.
#[derive(Clone, Copy, Debug, PartialEq, Eq, Structural)]
pub enum ProducerStep {
    /// Read a batch of events, blocking until there is one.
    Read,
    /// Send the event at this index of the current batch, blocking while
    /// the channel is full.
    Send(usize),
    /// Report the read error, then sleep for this many milliseconds.
    Pause(u64),
}

/// What came of a step.
#[derive(Clone, Copy, Debug, PartialEq, Eq, Structural)]
pub enum Outcome {
    /// The read returned a batch of this many events.
    Batch(usize),
    /// The read failed.
    ReadFailed,
    /// The event was handed to the channel.
    Sent,
    /// The event could not be sent: the channel has no receiver any more.
    Disconnected,
    /// The pause is over.
    Rested,
}

impl ProducerState {
    /// A state is well formed if the event to send next exists.
    pub open spec fn wf(self) -> bool {
        self matches ProducerState::Forwarding { next, len } ==> next < len
    }

    /// The step that the state calls for.
    pub open spec fn step(self) -> ProducerStep {
        match self {
            ProducerState::Reading => ProducerStep::Read,
            ProducerState::Forwarding { next, len } => ProducerStep::Send(next),
            ProducerState::Backoff => ProducerStep::Pause(BACKOFF_MS),
        }
    }

    /// The state that follows `self` on `outcome`. An outcome that does not
    /// belong to the step of the state leaves the state as it is.
    pub open spec fn after(self, outcome: Outcome) -> ProducerState {
        match (self, outcome) {
            (ProducerState::Reading, Outcome::Batch(len)) => if len > 0 {
                ProducerState::Forwarding { next: 0, len }
            } else {
                ProducerState::Reading
            },
            (ProducerState::Reading, Outcome::ReadFailed) => ProducerState::Backoff,
            (ProducerState::Forwarding { next, len }, Outcome::Sent) => if next + 1 < len {
                ProducerState::Forwarding { next: (next + 1) as usize, len }
            } else {
                ProducerState::Reading
            },
            (ProducerState::Forwarding { next, len }, Outcome::Disconnected) => {
                ProducerState::Reading
            },
            (ProducerState::Backoff, Outcome::Rested) => ProducerState::Reading,
            _ => self,
        }
    }

    /// The state after `count` events in a row were handed to the channel.
    pub open spec fn after_sent(self, count: nat) -> ProducerState
        decreases count,
    {
        if count == 0 {
            self
        } else {
            self.after_sent((count - 1) as nat).after(Outcome::Sent)
        }
    }

    /// The number of batches read once `outcome` is in, if `batches` were
    /// read before.
    pub open spec fn batches_after(self, batches: nat, outcome: Outcome) -> nat {
        if self is Reading && outcome is Batch {
            batches + 1
        } else {
            batches
        }
    }

    /// The events that reach the channel while a producer in this state,
    /// with `batches` batches read so far, meets the outcomes of `trace` one
    /// after the other. An event is written as the number of its batch and
    /// its index in the batch.
    pub open spec fn deliveries(self, batches: nat, trace: Seq<Outcome>) -> Seq<(nat, nat)>
        decreases trace.len(),
    {
        if trace.len() == 0 {
            Seq::empty()
        } else {
            let later = self.after(trace[0]).deliveries(
                self.batches_after(batches, trace[0]),
                trace.drop_first(),
            );
            match (self, trace[0]) {
                (ProducerState::Forwarding { next, len }, Outcome::Sent) => seq![
                    (batches, next as nat),
                ] + later,
                _ => later,
            }
        }
    }

    /// The state in which the producer starts.
    pub fn start() -> (s: ProducerState)
        ensures
            s == ProducerState::Reading,
            s.wf(),
    {
        ProducerState::Reading
    }

    /// The step to take in this state.
    pub fn next_step(self) -> (step: ProducerStep)
        ensures
            step == self.step(),
    {
        match self {
            ProducerState::Reading => ProducerStep::Read,
            ProducerState::Forwarding { next, len } => ProducerStep::Send(next),
            ProducerState::Backoff => ProducerStep::Pause(BACKOFF_MS),
        }
    }

    /// The state that follows on the outcome of the step.
    pub fn advance(self, outcome: Outcome) -> (s: ProducerState)
        ensures
            s == self.after(outcome),
            self.wf() ==> s.wf(),
    {
        match (self, outcome) {
            (ProducerState::Reading, Outcome::Batch(len)) => {
                if len > 0 {
                    ProducerState::Forwarding { next: 0, len }
                } else {
                    ProducerState::Reading
                }
            },
            (ProducerState::Reading, Outcome::ReadFailed) => ProducerState::Backoff,
            (ProducerState::Forwarding { next, len }, Outcome::Sent) => {
                if next < len && next + 1 < len {
                    ProducerState::Forwarding { next: next + 1, len }
                } else {
                    ProducerState::Reading
                }
            },
            (ProducerState::Forwarding { next, len }, Outcome::Disconnected) => {
                ProducerState::Reading
            },
            (ProducerState::Backoff, Outcome::Rested) => ProducerState::Reading,
            _ => self,
        }
    }
}

/// Every transition keeps a well-formed state well formed.
pub proof fn lemma_after_keeps_wf(s: ProducerState, outcome: Outcome)
    requires
        s.wf(),
    ensures
        s.after(outcome).wf(),
{
}

/// A batch is forwarded in order, each event once: after a read that
/// returned `len` events and `count` sends that went through, the producer
/// is about to send the event at index `count`, and once all `len` went
/// through it is about to read again.
pub proof fn lemma_batch_in_order(len: usize, count: nat)
    requires
        count <= len,
    ensures
        count < len ==> ProducerState::Reading.after(Outcome::Batch(len)).after_sent(count)
            == (ProducerState::Forwarding { next: count as usize, len }),
        count < len ==> ProducerState::Reading.after(Outcome::Batch(len)).after_sent(count).step()
            == ProducerStep::Send(count as usize),
        count == len ==> ProducerState::Reading.after(Outcome::Batch(len)).after_sent(count)
            == ProducerState::Reading,
    decreases count,
{
    if count > 0 {
        lemma_batch_in_order(len, (count - 1) as nat);
    }
}

/// After a failed read the producer pauses for [`BACKOFF_MS`] milliseconds
/// and then reads again.
pub proof fn lemma_failed_read_backs_off()
    ensures
        ProducerState::Reading.after(Outcome::ReadFailed).step() == ProducerStep::Pause(
            BACKOFF_MS,
        ),
        ProducerState::Reading.after(Outcome::ReadFailed).after(Outcome::Rested)
            == ProducerState::Reading,
{
}

/// A disconnected channel ends the batch: whatever is left of it is not
/// sent, and the producer reads again.
pub proof fn lemma_disconnect_drops_rest(next: usize, len: usize)
    ensures
        (ProducerState::Forwarding { next, len }).after(Outcome::Disconnected)
            == ProducerState::Reading,
{
}

/// Whether the event `a` comes before the event `b`: in an earlier batch,
/// or in the same batch at a lower index.
pub open spec fn comes_before(a: (nat, nat), b: (nat, nat)) -> bool {
    a.0 < b.0 || (a.0 == b.0 && a.1 < b.1)
}

/// Whatever outcomes the producer meets, the events reach the channel in
/// the order in which the kernel returned them, within a batch and from
/// batch to batch, and none reaches it twice.
pub proof fn lemma_deliveries_in_order(
    s: ProducerState,
    batches: nat,
    trace: Seq<Outcome>,
    i: int,
    j: int,
)
    requires
        0 <= i < j < s.deliveries(batches, trace).len(),
    ensures
        comes_before(s.deliveries(batches, trace)[i], s.deliveries(batches, trace)[j]),
    decreases trace.len(),
{
    let next = s.after(trace[0]);
    let read = s.batches_after(batches, trace[0]);
    let rest = trace.drop_first();
    let later = next.deliveries(read, rest);
    match (s, trace[0]) {
        (ProducerState::Forwarding { next: at, len }, Outcome::Sent) => {
            if i == 0 {
                lemma_deliveries_not_before(next, read, rest, j - 1);
            } else {
                lemma_deliveries_in_order(next, read, rest, i - 1, j - 1);
            }
        },
        _ => {
            lemma_deliveries_in_order(next, read, rest, i, j);
        },
    }
}

/// `count` sends in a row that all went through.
pub open spec fn all_sent(count: nat) -> Seq<Outcome> {
    Seq::new(count, |i: int| Outcome::Sent)
}

/// The `count` events of batch `batch` from index `first` on.
pub open spec fn stretch(batch: nat, first: nat, count: nat) -> Seq<(nat, nat)> {
    Seq::new(count, |i: int| (batch, (first + i) as nat))
}

/// As long as the channel takes them, no event is lost: if every send goes
/// through, what is left of a batch reaches the channel whole, from the
/// event that is next to the last of the batch.
pub proof fn lemma_rest_of_batch_delivered(next: usize, len: usize, batches: nat)
    requires
        next < len,
    ensures
        (ProducerState::Forwarding { next, len }).deliveries(
            batches,
            all_sent((len - next) as nat),
        ) == stretch(batches, next as nat, (len - next) as nat),
    decreases len - next,
{
    let s = ProducerState::Forwarding { next, len };
    let trace = all_sent((len - next) as nat);
    let rest = all_sent((len - next - 1) as nat);
    let later = s.after(Outcome::Sent).deliveries(batches, rest);
    assert(trace.drop_first() =~= rest);
    assert(s.deliveries(batches, trace) == seq![(batches, next as nat)] + later);
    if next + 1 < len {
        lemma_rest_of_batch_delivered((next + 1) as usize, len, batches);
        assert(later == stretch(batches, (next + 1) as nat, (len - next - 1) as nat));
    } else {
        assert(later =~= Seq::empty());
    }
    assert(seq![(batches, next as nat)] + later =~= stretch(
        batches,
        next as nat,
        (len - next) as nat,
    ));
}

/// No event reaches the channel that the producer has already passed: in
/// the middle of a batch, what follows is the rest of this batch and later
/// batches; between batches, what follows is later batches.
pub proof fn lemma_deliveries_not_before(
    s: ProducerState,
    batches: nat,
    trace: Seq<Outcome>,
    k: int,
)
    requires
        0 <= k < s.deliveries(batches, trace).len(),
    ensures
        s matches ProducerState::Forwarding { next, len } ==> !comes_before(
            s.deliveries(batches, trace)[k],
            (batches, next as nat),
        ),
        !(s is Forwarding) ==> s.deliveries(batches, trace)[k].0 > batches,
        s.deliveries(batches, trace)[k].0 >= batches,
    decreases trace.len(),
{
    let next = s.after(trace[0]);
    let read = s.batches_after(batches, trace[0]);
    let rest = trace.drop_first();
    match (s, trace[0]) {
        (ProducerState::Forwarding { next: at, len }, Outcome::Sent) => {
            if k > 0 {
                lemma_deliveries_not_before(next, read, rest, k - 1);
            }
        },
        _ => {
            lemma_deliveries_not_before(next, read, rest, k);
        },
    }
}

} // verus!
