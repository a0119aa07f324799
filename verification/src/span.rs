//! Span records and the span-duration side of dispatch.
//!
//! A scoped dispatch performs its planned operations against the sink and
//! collects the cleanup obligations it creates: one pending stop per started
//! timer, one pending decrement per adjusted level. Draining a record
//! consumes it, so each obligation can run at most once; the manager drains
//! each record exactly once, when its span closes.
use vstd::prelude::*;
use crate::ops::{ops_view, OpModel, PlannedOp};
use crate::scope::MetricScope;
use crate::sink::{
    bucket_counter, bucket_gauge, bucket_level, bucket_timer, counter_count, gauge_value,
    level_adjust, timer_start, timer_stop,
};

verus! {

/// A timer started at span creation, still owing its stop.
pub struct PendingTimer {
    timer: dipstick::Timer,
    start: dipstick::TimeHandle,
    name: Ghost<Seq<char>>,
}

/// A level adjusted at span creation, still owing the opposite adjustment.
pub struct PendingLevel {
    level: dipstick::Level,
    amount: i64,
    name: Ghost<Seq<char>>,
}

/// Everything held for one active span: its resolved scope and the cleanup
/// obligations its creation dispatch produced.
pub struct SpanRecord {
    scope: MetricScope,
    timers: Vec<PendingTimer>,
    levels: Vec<PendingLevel>,
}

impl SpanRecord {
    /// The span's resolved scope, for derived spans and enclosed events to
    /// read. Handing out a shared borrow can never mutate or extend the
    /// record itself.
    pub fn scope_handle(&self) -> (r: &MetricScope)
        ensures
            r@ == self@.scope,
    {
        &self.scope
    }
}

/// The mathematical model of a span record.
pub struct RecordModel {
    /// The resolved scope's name segments.
    pub scope: Seq<Seq<char>>,
    /// Names of the timers started, in dispatch order.
    pub timers: Seq<Seq<char>>,
    /// Name and amount of each level adjustment, in dispatch order.
    pub levels: Seq<(Seq<char>, i64)>,
}

impl View for SpanRecord {
    type V = RecordModel;

    closed spec fn view(&self) -> RecordModel {
        RecordModel {
            scope: self.scope@,
            timers: self.timers@.map_values(|t: PendingTimer| t.name@),
            levels: self.levels@.map_values(|l: PendingLevel| (l.name@, l.amount)),
        }
    }
}

/// The timer names started by a sequence of operations, in order.
pub open spec fn start_names(ops: Seq<OpModel>) -> Seq<Seq<char>>
    decreases ops.len(),
{
    if ops.len() == 0 {
        Seq::empty()
    } else {
        let rest = start_names(ops.drop_last());
        match ops.last() {
            OpModel::StartTimer { metric } => rest.push(metric),
            _ => rest,
        }
    }
}

/// The level adjustments performed by a sequence of operations, in order.
pub open spec fn level_pairs(ops: Seq<OpModel>) -> Seq<(Seq<char>, i64)>
    decreases ops.len(),
{
    if ops.len() == 0 {
        Seq::empty()
    } else {
        let rest = level_pairs(ops.drop_last());
        match ops.last() {
            OpModel::AdjustLevel { metric, amount } => rest.push((metric, amount)),
            _ => rest,
        }
    }
}

/// The wrapped negation of a signed amount, the arithmetic the drain uses:
/// exact negation everywhere except at the minimum, which has no negation
/// and maps to itself.
pub open spec fn neg_wrap(v: i64) -> i64 {
    if v == i64::MIN {
        i64::MIN
    } else {
        (-v) as i64
    }
}

/// The operations draining a record performs: one stop per pending timer,
/// then one opposite adjustment per pending level, each exactly once.
pub open spec fn close_ops(r: RecordModel) -> Seq<OpModel> {
    r.timers.map_values(|m: Seq<char>| OpModel::StopTimer { metric: m }) + r.levels.map_values(
        |p: (Seq<char>, i64)| OpModel::AdjustLevel { metric: p.0, amount: neg_wrap(p.1) },
    )
}

/// Performs the planned operations of a span-creation dispatch against the
/// scope and returns the span's record, carrying every cleanup obligation
/// the dispatch created.
pub fn apply_scoped(scope: MetricScope, ops: &Vec<PlannedOp>) -> (r: SpanRecord)
    ensures
        r@.scope == scope@,
        r@.timers == start_names(ops_view(ops@)),
        r@.levels == level_pairs(ops_view(ops@)),
{
    let mut timers: Vec<PendingTimer> = Vec::new();
    let mut levels: Vec<PendingLevel> = Vec::new();
    let mut i: usize = 0;
    proof {
        assert(ops_view(ops@.subrange(0, 0)) =~= Seq::<OpModel>::empty());
        assert(timers@.map_values(|t: PendingTimer| t.name@) =~= Seq::<Seq<char>>::empty());
        assert(levels@.map_values(|l: PendingLevel| (l.name@, l.amount)) =~= Seq::<(
            Seq<char>,
            i64,
        )>::empty());
    }
    while i < ops.len()
        invariant
            i <= ops@.len(),
            timers@.map_values(|t: PendingTimer| t.name@) == start_names(
                ops_view(ops@.subrange(0, i as int)),
            ),
            levels@.map_values(|l: PendingLevel| (l.name@, l.amount)) == level_pairs(
                ops_view(ops@.subrange(0, i as int)),
            ),
        decreases ops@.len() - i,
    {
        match &ops[i] {
            PlannedOp::Count { metric, amount } => {
                let c = bucket_counter(&scope.bucket, metric.as_str());
                counter_count(&c, *amount);
            },
            PlannedOp::GaugeValue { metric, amount } => {
                let g = bucket_gauge(&scope.bucket, metric.as_str());
                gauge_value(&g, *amount);
            },
            PlannedOp::AdjustLevel { metric, amount } => {
                let l = bucket_level(&scope.bucket, metric.as_str());
                level_adjust(&l, *amount);
                levels.push(PendingLevel { level: l, amount: *amount, name: Ghost(metric@) });
            },
            PlannedOp::StartTimer { metric } => {
                let t = bucket_timer(&scope.bucket, metric.as_str());
                let start = timer_start(&t);
                timers.push(PendingTimer { timer: t, start, name: Ghost(metric@) });
            },
        }
        i = i + 1;
        proof {
            assert(ops@.subrange(0, i as int).drop_last() =~= ops@.subrange(0, i - 1));
            assert(ops@.subrange(0, i as int).last() == ops@[i - 1]);
            assert(ops_view(ops@.subrange(0, i as int)).drop_last() =~= ops_view(
                ops@.subrange(0, i - 1),
            ));
            assert(ops_view(ops@.subrange(0, i as int)).last() == ops@[i - 1]@);
            assert(timers@.map_values(|t: PendingTimer| t.name@) =~= start_names(
                ops_view(ops@.subrange(0, i as int)),
            ));
            assert(levels@.map_values(|l: PendingLevel| (l.name@, l.amount)) =~= level_pairs(
                ops_view(ops@.subrange(0, i as int)),
            ));
        }
    }
    proof {
        assert(ops@.subrange(0, ops@.len() as int) =~= ops@);
    }
    SpanRecord { scope, timers, levels }
}

/// Performs the planned operations of an event dispatch against the scope.
/// Events have no duration, so no cleanup obligation is retained: level
/// adjustments are permanent, and a timer start is never handed in — the
/// planner never plans one for an unscoped dispatch.
pub fn apply_unscoped(scope: &MetricScope, ops: &Vec<PlannedOp>)
    requires
        forall|i: int| 0 <= i < ops@.len() ==> !(#[trigger] ops@[i]@ is StartTimer),
{
    let mut i: usize = 0;
    while i < ops.len()
        invariant
            forall|k: int| 0 <= k < ops@.len() ==> !(#[trigger] ops@[k]@ is StartTimer),
        decreases ops@.len() - i,
    {
        match &ops[i] {
            PlannedOp::Count { metric, amount } => {
                let c = bucket_counter(&scope.bucket, metric.as_str());
                counter_count(&c, *amount);
            },
            PlannedOp::GaugeValue { metric, amount } => {
                let g = bucket_gauge(&scope.bucket, metric.as_str());
                gauge_value(&g, *amount);
            },
            PlannedOp::AdjustLevel { metric, amount } => {
                let l = bucket_level(&scope.bucket, metric.as_str());
                level_adjust(&l, *amount);
            },
            PlannedOp::StartTimer { metric: _ } => {
                proof {
                    assert(ops@[i as int] is StartTimer);
                    assert(ops@[i as int]@ is StartTimer);
                    assert(false);
                }
            },
        }
        i = i + 1;
    }
}

/// Drains a record: stops every pending timer against its recorded start
/// mark and reverses every pending level adjustment, in dispatch order.
/// Consuming the record makes running an obligation twice impossible.
/// Returns how many timers were stopped and how many levels reversed.
pub fn drain_record(rec: SpanRecord) -> (r: (usize, usize))
    ensures
        r.0 == rec@.timers.len(),
        r.1 == rec@.levels.len(),
{
    let SpanRecord { scope: _scope, timers, levels } = rec;
    let mut i: usize = 0;
    while i < timers.len()
        invariant
            i <= timers@.len(),
        decreases timers@.len() - i,
    {
        let pt = &timers[i];
        timer_stop(&pt.timer, pt.start);
        i = i + 1;
    }
    let stopped = i;
    let mut j: usize = 0;
    while j < levels.len()
        invariant
            j <= levels@.len(),
        decreases levels@.len() - j,
    {
        let pl = &levels[j];
        let back = if pl.amount == i64::MIN {
            i64::MIN
        } else {
            -pl.amount
        };
        level_adjust(&pl.level, back);
        j = j + 1;
    }
    (stopped, j)
}

} // verus!
