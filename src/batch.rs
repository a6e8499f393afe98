//! Grouping of decoded flow records into batches bounded by count and time.
use vstd::prelude::*;
use crate::packet::{DecodeError, FlowLog};
use crate::storage::Config;

verus! {

/// One event of the record stream, with the time (nanoseconds) at which it
/// is observed: a decode outcome, or a clock tick that lets the interval
/// bound take effect.
#[derive(Debug, PartialEq, Eq)]
pub enum BatchInput {
    Packet(u128, Result<FlowLog, DecodeError>),
    Tick(u128),
}

/// The open batch, and the time at which its first item arrived.
pub type Pending = (Seq<FlowLog>, Option<u128>);

/// The interval has passed for an open batch that was opened at `opened_at`.
pub open spec fn elapsed(opened_at: Option<u128>, interval: u128, now: u128) -> bool {
    opened_at matches Some(t) && now >= t && now - t >= interval
}

/// One step of batching: the pending state after `input`, the batch that
/// closes, if any, and the decode failure to report, if any. A decoded record
/// joins the open batch, which closes when it reaches `max` records; a
/// failure joins nothing. The first item after a flush, decoded or not,
/// starts the clock, and a tick once the interval has passed closes the open
/// batch; an empty batch is dropped instead of emitted. Every flush resets
/// the clock.
pub open spec fn step(max: nat, interval: u128, st: Pending, input: BatchInput) -> (
    Pending,
    Option<Seq<FlowLog>>,
    Option<DecodeError>,
) {
    match input {
        BatchInput::Tick(now) => {
            if elapsed(st.1, interval, now) {
                ((seq![], None), if st.0.len() > 0 { Some(st.0) } else { None }, None)
            } else {
                (st, None, None)
            }
        },
        BatchInput::Packet(now, item) => {
            let opened = if st.1 is None { Some(now) } else { st.1 };
            match item {
                Err(e) => ((st.0, opened), None, Some(e)),
                Ok(f) => {
                    if st.0.len() + 1 >= max {
                        ((seq![], None), Some(st.0.push(f)), None)
                    } else {
                        ((st.0.push(f), opened), None, None)
                    }
                },
            }
        },
    }
}

/// Batching a whole stream from an empty state: the pending state at its
/// end, the batches emitted, and the failures reported, in order.
pub open spec fn run(max: nat, interval: u128, inputs: Seq<BatchInput>) -> (
    Pending,
    Seq<Seq<FlowLog>>,
    Seq<DecodeError>,
)
    decreases inputs.len(),
{
    if inputs.len() == 0 {
        ((seq![], None), seq![], seq![])
    } else {
        let prev = run(max, interval, inputs.drop_last());
        let s = step(max, interval, prev.0, inputs.last());
        (
            s.0,
            if s.1 is Some { prev.1.push(s.1->0) } else { prev.1 },
            if s.2 is Some { prev.2.push(s.2->0) } else { prev.2 },
        )
    }
}

/// The batches of a whole stream, the open batch at its end included when
/// it holds records.
pub open spec fn batched(max: nat, interval: u128, inputs: Seq<BatchInput>) -> Seq<Seq<FlowLog>> {
    let r = run(max, interval, inputs);
    if r.0.0.len() > 0 { r.1.push(r.0.0) } else { r.1 }
}

/// The records that decoded, in arrival order.
pub open spec fn decoded(inputs: Seq<BatchInput>) -> Seq<FlowLog>
    decreases inputs.len(),
{
    if inputs.len() == 0 {
        seq![]
    } else {
        match inputs.last() {
            BatchInput::Packet(_, Ok(f)) => decoded(inputs.drop_last()).push(f),
            _ => decoded(inputs.drop_last()),
        }
    }
}

/// The decode failures, in arrival order.
pub open spec fn failures(inputs: Seq<BatchInput>) -> Seq<DecodeError>
    decreases inputs.len(),
{
    if inputs.len() == 0 {
        seq![]
    } else {
        match inputs.last() {
            BatchInput::Packet(_, Err(e)) => failures(inputs.drop_last()).push(e),
            _ => failures(inputs.drop_last()),
        }
    }
}

/// The records of some batches, one batch after another.
pub open spec fn concat(bs: Seq<Seq<FlowLog>>) -> Seq<FlowLog>
    decreases bs.len(),
{
    if bs.len() == 0 {
        seq![]
    } else {
        concat(bs.drop_last()) + bs.last()
    }
}

/// The batches of `bs` are non-empty and hold at most `max` records.
pub open spec fn bounded(bs: Seq<Seq<FlowLog>>, max: nat) -> bool {
    forall|i: int| 0 <= i < bs.len() ==> 0 < #[trigger] bs[i].len() <= max
}

proof fn lemma_run(max: nat, interval: u128, inputs: Seq<BatchInput>)
    requires
        max > 0,
    ensures
        ({
            let r = run(max, interval, inputs);
            &&& concat(r.1) + r.0.0 == decoded(inputs)
            &&& r.2 == failures(inputs)
            &&& bounded(r.1, max)
            &&& r.0.0.len() < max
            &&& r.0.0.len() > 0 ==> r.0.1 is Some
        }),
    decreases inputs.len(),
{
    if inputs.len() > 0 {
        let prev = run(max, interval, inputs.drop_last());
        lemma_run(max, interval, inputs.drop_last());
        let r = run(max, interval, inputs);
        let s = step(max, interval, prev.0, inputs.last());
        if s.1 is Some {
            assert(prev.1.push(s.1->0).drop_last() =~= prev.1);
        }
        assert(concat(r.1) + r.0.0 =~= decoded(inputs));
    }
}

/// No record is lost, duplicated or reordered: the batches of a stream,
/// one after another, are exactly the records that decoded, in arrival
/// order; each decode failure is reported once, in order; and every batch
/// holds between one and `max` records.
pub proof fn lemma_batches_keep_arrival_order(max: nat, interval: u128, inputs: Seq<BatchInput>)
    requires
        max > 0,
    ensures
        concat(batched(max, interval, inputs)) == decoded(inputs),
        run(max, interval, inputs).2 == failures(inputs),
        bounded(batched(max, interval, inputs), max),
{
    lemma_run(max, interval, inputs);
    let r = run(max, interval, inputs);
    if r.0.0.len() > 0 {
        assert(r.1.push(r.0.0).drop_last() =~= r.1);
    } else {
        assert(concat(r.1) + r.0.0 =~= concat(r.1));
    }
}

/// Three records fed under a count bound of three close one batch of the
/// three at the third record, before any tick: the first two close none.
pub proof fn lemma_count_bound_closes_batch(
    interval: u128,
    t0: u128,
    t1: u128,
    t2: u128,
    r1: FlowLog,
    r2: FlowLog,
    r3: FlowLog,
)
    ensures
        ({
            let inputs = seq![
                BatchInput::Packet(t0, Ok(r1)),
                BatchInput::Packet(t1, Ok(r2)),
                BatchInput::Packet(t2, Ok(r3)),
            ];
            &&& run(3, interval, inputs.take(2)).1 == Seq::<Seq<FlowLog>>::empty()
            &&& run(3, interval, inputs).1 == seq![seq![r1, r2, r3]]
            &&& run(3, interval, inputs).0.0 == Seq::<FlowLog>::empty()
        }),
{
    let inputs = seq![
        BatchInput::Packet(t0, Ok(r1)),
        BatchInput::Packet(t1, Ok(r2)),
        BatchInput::Packet(t2, Ok(r3)),
    ];
    assert(inputs.take(2).drop_last() =~= inputs.take(1));
    assert(inputs.take(1).drop_last() =~= Seq::<BatchInput>::empty());
    assert(inputs.drop_last() =~= inputs.take(2));
    assert(inputs.take(1).last() == inputs[0]);
    assert(inputs.take(2).last() == inputs[1]);
    assert(Seq::<FlowLog>::empty().push(r1) =~= seq![r1]);
    assert(run(3, interval, Seq::<BatchInput>::empty()).0 == (Seq::<FlowLog>::empty(), None::<u128>));
    assert(run(3, interval, inputs.take(1)).0.0 == seq![r1]);
    assert(run(3, interval, inputs.take(1)).1 =~= Seq::<Seq<FlowLog>>::empty());
    assert(run(3, interval, inputs.take(2)).0.0 == seq![r1].push(r2));
    assert(run(3, interval, inputs.take(2)).1 =~= Seq::<Seq<FlowLog>>::empty());
    assert(seq![r1].push(r2).push(r3) =~= seq![r1, r2, r3]);
    assert(Seq::<Seq<FlowLog>>::empty().push(seq![r1, r2, r3]) =~= seq![seq![r1, r2, r3]]);
}

/// Two records fed under a count bound above two, then ticks: a tick before
/// the interval has passed since the first record closes nothing; a tick
/// after it closes one batch of the two records.
pub proof fn lemma_interval_closes_batch(
    max: nat,
    interval: u128,
    t0: u128,
    t1: u128,
    t2: u128,
    t3: u128,
    r1: FlowLog,
    r2: FlowLog,
)
    requires
        max > 2,
        t2 < t0 + interval,
        t3 >= t0 + interval,
    ensures
        ({
            let inputs = seq![
                BatchInput::Packet(t0, Ok(r1)),
                BatchInput::Packet(t1, Ok(r2)),
                BatchInput::Tick(t2),
                BatchInput::Tick(t3),
            ];
            &&& run(max, interval, inputs.take(3)).1 == Seq::<Seq<FlowLog>>::empty()
            &&& run(max, interval, inputs).1 == seq![seq![r1, r2]]
        }),
{
    let inputs = seq![
        BatchInput::Packet(t0, Ok(r1)),
        BatchInput::Packet(t1, Ok(r2)),
        BatchInput::Tick(t2),
        BatchInput::Tick(t3),
    ];
    assert(inputs.take(1).drop_last() =~= Seq::<BatchInput>::empty());
    assert(inputs.take(2).drop_last() =~= inputs.take(1));
    assert(inputs.take(3).drop_last() =~= inputs.take(2));
    assert(inputs.drop_last() =~= inputs.take(3));
    assert(inputs.take(1).last() == inputs[0]);
    assert(inputs.take(2).last() == inputs[1]);
    assert(inputs.take(3).last() == inputs[2]);
    assert(Seq::<FlowLog>::empty().push(r1) =~= seq![r1]);
    assert(run(max, interval, Seq::<BatchInput>::empty()).0 == (Seq::<FlowLog>::empty(), None::<u128>));
    assert(run(max, interval, inputs.take(1)).0 == (seq![r1], Some(t0)));
    assert(run(max, interval, inputs.take(1)).1 =~= Seq::<Seq<FlowLog>>::empty());
    assert(run(max, interval, inputs.take(2)).0 == (seq![r1].push(r2), Some(t0)));
    assert(run(max, interval, inputs.take(2)).1 =~= Seq::<Seq<FlowLog>>::empty());
    assert(run(max, interval, inputs.take(3)).0 == (seq![r1].push(r2), Some(t0)));
    assert(seq![r1].push(r2) =~= seq![r1, r2]);
    assert(Seq::<Seq<FlowLog>>::empty().push(seq![r1, r2]) =~= seq![seq![r1, r2]]);
}

/// A malformed packet between two valid ones, under a count bound of at
/// least two: the stream gives one batch of the two valid records and
/// reports the one failure.
pub proof fn lemma_failure_between_records(
    max: nat,
    interval: u128,
    t0: u128,
    t1: u128,
    t2: u128,
    r1: FlowLog,
    e: DecodeError,
    r2: FlowLog,
)
    requires
        max >= 2,
    ensures
        ({
            let inputs = seq![
                BatchInput::Packet(t0, Ok(r1)),
                BatchInput::Packet(t1, Err(e)),
                BatchInput::Packet(t2, Ok(r2)),
            ];
            &&& batched(max, interval, inputs) == seq![seq![r1, r2]]
            &&& run(max, interval, inputs).2 == seq![e]
        }),
{
    let inputs = seq![
        BatchInput::Packet(t0, Ok(r1)),
        BatchInput::Packet(t1, Err(e)),
        BatchInput::Packet(t2, Ok(r2)),
    ];
    assert(inputs.take(1).drop_last() =~= Seq::<BatchInput>::empty());
    assert(inputs.take(2).drop_last() =~= inputs.take(1));
    assert(inputs.drop_last() =~= inputs.take(2));
    assert(inputs.take(1).last() == inputs[0]);
    assert(inputs.take(2).last() == inputs[1]);
    assert(Seq::<FlowLog>::empty().push(r1) =~= seq![r1]);
    assert(Seq::<DecodeError>::empty().push(e) =~= seq![e]);
    assert(run(max, interval, Seq::<BatchInput>::empty()).0 == (Seq::<FlowLog>::empty(), None::<u128>));
    assert(run(max, interval, inputs.take(1)).0.0 == seq![r1]);
    assert(run(max, interval, inputs.take(1)).1 =~= Seq::<Seq<FlowLog>>::empty());
    assert(run(max, interval, inputs.take(1)).2 =~= Seq::<DecodeError>::empty());
    assert(run(max, interval, inputs.take(2)).0.0 == seq![r1]);
    assert(run(max, interval, inputs.take(2)).1 =~= Seq::<Seq<FlowLog>>::empty());
    assert(run(max, interval, inputs.take(2)).2 =~= seq![e]);
    assert(seq![r1].push(r2) =~= seq![r1, r2]);
    assert(Seq::<Seq<FlowLog>>::empty().push(seq![r1, r2]) =~= seq![seq![r1, r2]]);
}

/// The contents of an optional batch.
pub open spec fn batch_view(b: Option<Vec<FlowLog>>) -> Option<Seq<FlowLog>> {
    match b {
        Some(v) => Some(v@),
        None => None,
    }
}

/// What one decode outcome produced: a batch that closed, and a failure to
/// report.
#[derive(Debug)]
pub struct BatchStep {
    pub batch: Option<Vec<FlowLog>>,
    pub error: Option<DecodeError>,
}

/// Accumulates decoded records into batches, one event at a time. The
/// caller feeds decode outcomes to `push`, calls `tick` when the time that
/// `deadline` names has come, and `finish` at the end of the stream.
#[derive(Debug)]
pub struct Batcher {
    pub max_count: usize,
    pub interval: u128,
    pub open: Vec<FlowLog>,
    pub opened_at: Option<u128>,
}

impl Batcher {
    /// The open batch and the time at which its first item arrived.
    pub open spec fn pending(&self) -> Pending {
        (self.open@, self.opened_at)
    }

    /// A positive count bound, an open batch below it, and a running clock
    /// whenever the open batch holds records.
    pub open spec fn wf(&self) -> bool {
        &&& self.max_count > 0
        &&& self.open@.len() < self.max_count
        &&& self.open@.len() > 0 ==> self.opened_at is Some
    }

    /// An empty batcher for the policy of `config`.
    pub fn new(config: &Config) -> (r: Batcher)
        requires
            config.max_packets_per_log > 0,
        ensures
            r.wf(),
            r.max_count == config.max_packets_per_log,
            r.interval == config.packet_log_interval,
            r.pending() == (Seq::<FlowLog>::empty(), None::<u128>),
    {
        Batcher {
            max_count: config.max_packets_per_log,
            interval: config.packet_log_interval,
            open: Vec::new(),
            opened_at: None,
        }
    }

    /// Takes the decode outcome of one packet observed at `now`.
    pub fn push(&mut self, item: Result<FlowLog, DecodeError>, now: u128) -> (r: BatchStep)
        requires
            old(self).wf(),
        ensures
            final(self).wf(),
            final(self).max_count == old(self).max_count,
            final(self).interval == old(self).interval,
            (final(self).pending(), batch_view(r.batch), r.error) == step(
                old(self).max_count as nat,
                old(self).interval,
                old(self).pending(),
                BatchInput::Packet(now, item),
            ),
    {
        let opened = match self.opened_at {
            Some(t) => Some(t),
            None => Some(now),
        };
        match item {
            Err(e) => {
                self.opened_at = opened;
                BatchStep { batch: None, error: Some(e) }
            },
            Ok(f) => {
                if self.open.len() + 1 >= self.max_count {
                    self.open.push(f);
                    let mut out: Vec<FlowLog> = Vec::new();
                    std::mem::swap(&mut self.open, &mut out);
                    self.opened_at = None;
                    BatchStep { batch: Some(out), error: None }
                } else {
                    self.open.push(f);
                    self.opened_at = opened;
                    BatchStep { batch: None, error: None }
                }
            },
        }
    }

    /// Lets the clock reach `now`: closes the open batch if the interval has
    /// passed since its first item; an empty one is dropped.
    pub fn tick(&mut self, now: u128) -> (r: Option<Vec<FlowLog>>)
        requires
            old(self).wf(),
        ensures
            final(self).wf(),
            final(self).max_count == old(self).max_count,
            final(self).interval == old(self).interval,
            (final(self).pending(), batch_view(r), None::<DecodeError>) == step(
                old(self).max_count as nat,
                old(self).interval,
                old(self).pending(),
                BatchInput::Tick(now),
            ),
    {
        let due = match self.opened_at {
            Some(t) => now >= t && now - t >= self.interval,
            None => false,
        };
        if due {
            let mut out: Vec<FlowLog> = Vec::new();
            std::mem::swap(&mut self.open, &mut out);
            self.opened_at = None;
            if out.len() > 0 {
                Some(out)
            } else {
                None
            }
        } else {
            None
        }
    }

    /// Ends the stream: hands out the open batch if it holds records.
    pub fn finish(&mut self) -> (r: Option<Vec<FlowLog>>)
        requires
            old(self).wf(),
        ensures
            final(self).wf(),
            final(self).max_count == old(self).max_count,
            final(self).interval == old(self).interval,
            final(self).pending() == (Seq::<FlowLog>::empty(), None::<u128>),
            batch_view(r) == (if old(self).open@.len() > 0 {
                Some(old(self).open@)
            } else {
                None
            }),
    {
        let mut out: Vec<FlowLog> = Vec::new();
        std::mem::swap(&mut self.open, &mut out);
        self.opened_at = None;
        if out.len() > 0 {
            Some(out)
        } else {
            None
        }
    }

    /// The time at which the open batch's interval passes, if a clock runs
    /// (the largest time where that lies beyond it).
    pub fn deadline(&self) -> (r: Option<u128>)
        ensures
            r == match self.opened_at {
                Some(t) => Some(
                    if t + self.interval <= u128::MAX {
                        (t + self.interval) as u128
                    } else {
                        u128::MAX
                    },
                ),
                None => None::<u128>,
            },
    {
        match self.opened_at {
            Some(t) => Some(
                if t <= u128::MAX - self.interval {
                    t + self.interval
                } else {
                    u128::MAX
                },
            ),
            None => None,
        }
    }
}

/// The outcome of batching a whole stream: the batches in the order they
/// closed, and the decode failures in the order they arrived.
#[derive(Debug)]
pub struct BatchRun {
    pub batches: Vec<Vec<FlowLog>>,
    pub errors: Vec<DecodeError>,
}

/// The contents of some batches.
pub open spec fn batches_view(bs: Seq<Vec<FlowLog>>) -> Seq<Seq<FlowLog>> {
    bs.map_values(|b: Vec<FlowLog>| b@)
}

/// Batches a whole stream of events under a count bound and an interval
/// (nanoseconds); the batch still open at the end is emitted too.
pub fn batch(inputs: Vec<BatchInput>, max_count: usize, interval: u128) -> (r: BatchRun)
    requires
        max_count > 0,
    ensures
        batches_view(r.batches@) == batched(max_count as nat, interval, inputs@),
        r.errors@ == run(max_count as nat, interval, inputs@).2,
{
    let ghost all = inputs@;
    let n: usize = inputs.len();
    let mut rest = inputs;
    let mut b = Batcher { max_count, interval, open: Vec::new(), opened_at: None };
    let mut batches: Vec<Vec<FlowLog>> = Vec::new();
    let mut errors: Vec<DecodeError> = Vec::new();
    let mut i: usize = 0;
    while rest.len() > 0
        invariant
            b.wf(),
            b.max_count == max_count,
            b.interval == interval,
            i <= all.len(),
            all.len() == n,
            rest@ == all.subrange(i as int, all.len() as int),
            ({
                let r = run(max_count as nat, interval, all.subrange(0, i as int));
                &&& b.pending() == r.0
                &&& batches_view(batches@) == r.1
                &&& errors@ == r.2
            }),
        decreases rest@.len(),
    {
        let input = rest.remove(0);
        let ghost prefix = all.subrange(0, i as int + 1);
        assert(prefix.drop_last() =~= all.subrange(0, i as int));
        assert(prefix.last() == input);
        match input {
            BatchInput::Packet(now, item) => {
                let s = b.push(item, now);
                match s.batch {
                    Some(v) => {
                        batches.push(v);
                    },
                    None => {},
                }
                match s.error {
                    Some(e) => {
                        errors.push(e);
                    },
                    None => {},
                }
            },
            BatchInput::Tick(now) => {
                match b.tick(now) {
                    Some(v) => {
                        batches.push(v);
                    },
                    None => {},
                }
            },
        }
        i = i + 1;
        assert(batches_view(batches@) =~= run(max_count as nat, interval, prefix).1);
    }
    assert(all.subrange(0, i as int) =~= all);
    match b.finish() {
        Some(v) => {
            batches.push(v);
        },
        None => {},
    }
    assert(batches_view(batches@) =~= batched(max_count as nat, interval, all));
    BatchRun { batches, errors }
}

} // verus!
