//! The attribute dispatcher: applies the directive table to an attribute set
//! and produces the ordered list of sink operations to perform, plus a count
//! of timer directives that were misused on an unscoped (event) dispatch.
use vstd::prelude::*;
use crate::attrs::{Attr, AttrValue};
use crate::table::{
    bare_kind, counter_prefix, counter_prefix_len, gauge_prefix, gauge_prefix_len, level_prefix,
    level_prefix_len, match_bare, match_counter_prefix, match_gauge_prefix, match_level_prefix,
    MetricKind,
};
use crate::text::{has_prefix, string_of_chars, suffix_from};

verus! {

/// The mathematical model of one metric-sink operation.
pub enum OpModel {
    /// Add `amount` to the counter called `metric`.
    Count { metric: Seq<char>, amount: i64 },
    /// Set the gauge called `metric` to `amount`.
    GaugeValue { metric: Seq<char>, amount: i64 },
    /// Adjust the level called `metric` by `amount`.
    AdjustLevel { metric: Seq<char>, amount: i64 },
    /// Start the timer called `metric`.
    StartTimer { metric: Seq<char> },
    /// Stop the timer called `metric` against its recorded start mark.
    StopTimer { metric: Seq<char> },
}

/// One planned metric-sink operation, as executable data. A dispatch first
/// plans its operations, then performs them in order against the sink.
/// Stopping a timer is never planned from an attribute set: it arises only
/// from draining a span record.
pub enum PlannedOp {
    /// Add `amount` to the counter called `metric`.
    Count {
        /// Metric name.
        metric: String,
        /// Amount added.
        amount: i64,
    },
    /// Set the gauge called `metric` to `amount`.
    GaugeValue {
        /// Metric name.
        metric: String,
        /// Value set.
        amount: i64,
    },
    /// Adjust the level called `metric` by `amount`.
    AdjustLevel {
        /// Metric name.
        metric: String,
        /// Signed adjustment.
        amount: i64,
    },
    /// Start the timer called `metric` and retain its start mark.
    StartTimer {
        /// Metric name.
        metric: String,
    },
}

impl View for PlannedOp {
    type V = OpModel;

    open spec fn view(&self) -> OpModel {
        match self {
            PlannedOp::Count { metric, amount } => OpModel::Count {
                metric: metric@,
                amount: *amount,
            },
            PlannedOp::GaugeValue { metric, amount } => OpModel::GaugeValue {
                metric: metric@,
                amount: *amount,
            },
            PlannedOp::AdjustLevel { metric, amount } => OpModel::AdjustLevel {
                metric: metric@,
                amount: *amount,
            },
            PlannedOp::StartTimer { metric } => OpModel::StartTimer { metric: metric@ },
        }
    }
}

/// The models of a sequence of planned operations.
pub open spec fn ops_view(s: Seq<PlannedOp>) -> Seq<OpModel> {
    s.map_values(|op: PlannedOp| op@)
}

/// The metric name left after a directive prefix.
pub open spec fn suffix_of(n: Seq<char>, p: Seq<char>) -> Seq<char> {
    n.subrange(p.len() as int, n.len() as int)
}

/// Operations produced by one integer-valued attribute: every dotted prefix
/// rule that matches applies, in table order.
pub open spec fn int_attr_ops(n: Seq<char>, v: i64) -> Seq<OpModel> {
    let c: Seq<OpModel> = if has_prefix(n, counter_prefix()) {
        seq![OpModel::Count { metric: suffix_of(n, counter_prefix()), amount: v }]
    } else {
        Seq::empty()
    };
    let g: Seq<OpModel> = if has_prefix(n, gauge_prefix()) {
        seq![OpModel::GaugeValue { metric: suffix_of(n, gauge_prefix()), amount: v }]
    } else {
        Seq::empty()
    };
    let l: Seq<OpModel> = if has_prefix(n, level_prefix()) {
        seq![OpModel::AdjustLevel { metric: suffix_of(n, level_prefix()), amount: v }]
    } else {
        Seq::empty()
    };
    c + g + l
}

/// Operations produced by one attribute. A bare directive needs a string
/// value; a dotted one an integer value; unsigned values wrap into signed
/// ones; everything else is ignored. A timer directive is honoured only on a
/// scoped (span) dispatch.
pub open spec fn attr_ops(a: Attr, scoped: bool) -> Seq<OpModel> {
    match a.value {
        AttrValue::Str(s) => match bare_kind(a.name@) {
            Some(MetricKind::Counter) => seq![OpModel::Count { metric: s@, amount: 1 }],
            Some(MetricKind::Gauge) => seq![OpModel::GaugeValue { metric: s@, amount: 1 }],
            Some(MetricKind::Level) => seq![OpModel::AdjustLevel { metric: s@, amount: 1 }],
            Some(MetricKind::Timer) => if scoped {
                seq![OpModel::StartTimer { metric: s@ }]
            } else {
                Seq::empty()
            },
            None => Seq::empty(),
        },
        AttrValue::Int(v) => int_attr_ops(a.name@, v),
        AttrValue::UInt(v) => int_attr_ops(a.name@, v as i64),
        AttrValue::Other => Seq::empty(),
    }
}

/// Whether one attribute is a misused timer directive: a bare timer on an
/// unscoped (event) dispatch, which is skipped and reported, never honoured.
pub open spec fn attr_misuse(a: Attr, scoped: bool) -> nat {
    if !scoped && (a.value matches AttrValue::Str(_)) && bare_kind(a.name@) == Some(
        MetricKind::Timer,
    ) {
        1nat
    } else {
        0nat
    }
}

/// All operations produced by an attribute set, attribute by attribute in
/// insertion order, each attribute processed independently.
pub open spec fn planned_ops(attrs: Seq<Attr>, scoped: bool) -> Seq<OpModel>
    decreases attrs.len(),
{
    if attrs.len() == 0 {
        Seq::empty()
    } else {
        planned_ops(attrs.drop_last(), scoped) + attr_ops(attrs.last(), scoped)
    }
}

/// How many misused timer directives an attribute set carries.
pub open spec fn misuse_count(attrs: Seq<Attr>, scoped: bool) -> nat
    decreases attrs.len(),
{
    if attrs.len() == 0 {
        0nat
    } else {
        misuse_count(attrs.drop_last(), scoped) + attr_misuse(attrs.last(), scoped)
    }
}

/// A scoped dispatch never reports a timer misuse.
pub proof fn lemma_scoped_no_misuse(attrs: Seq<Attr>)
    ensures
        misuse_count(attrs, true) == 0,
    decreases attrs.len(),
{
    if attrs.len() > 0 {
        lemma_scoped_no_misuse(attrs.drop_last());
    }
}

/// An unscoped dispatch never plans a timer start.
pub proof fn lemma_unscoped_no_timer_start(attrs: Seq<Attr>)
    ensures
        forall|i: int|
            0 <= i < planned_ops(attrs, false).len() ==> !(planned_ops(attrs, false)[i]
                is StartTimer),
    decreases attrs.len(),
{
    if attrs.len() > 0 {
        lemma_unscoped_no_timer_start(attrs.drop_last());
    }
}

/// At most one misuse is reported per attribute.
proof fn lemma_misuse_at_most_len(attrs: Seq<Attr>, scoped: bool)
    ensures
        misuse_count(attrs, scoped) <= attrs.len(),
    decreases attrs.len(),
{
    if attrs.len() > 0 {
        lemma_misuse_at_most_len(attrs.drop_last(), scoped);
    }
}

/// Plans the operations for one integer-valued attribute.
fn plan_int(name: &Vec<char>, v: i64, out: &mut Vec<PlannedOp>)
    ensures
        ops_view(final(out)@) == ops_view(old(out)@) + int_attr_ops(name@, v),
{
    let ghost start = out@;
    if match_counter_prefix(name) {
        proof {
            counter_prefix_len();
        }
        let m = suffix_from(name, 16);
        out.push(PlannedOp::Count { metric: string_of_chars(&m), amount: v });
    }
    let ghost after_c = out@;
    if match_gauge_prefix(name) {
        proof {
            gauge_prefix_len();
        }
        let m = suffix_from(name, 14);
        out.push(PlannedOp::GaugeValue { metric: string_of_chars(&m), amount: v });
    }
    let ghost after_g = out@;
    if match_level_prefix(name) {
        proof {
            level_prefix_len();
        }
        let m = suffix_from(name, 14);
        out.push(PlannedOp::AdjustLevel { metric: string_of_chars(&m), amount: v });
    }
    proof {
        assert(ops_view(out@) =~= ops_view(start) + int_attr_ops(name@, v));
    }
}

/// Plans the operations for one attribute and reports whether it was a
/// misused timer directive.
fn plan_attr(a: &Attr, scoped: bool, out: &mut Vec<PlannedOp>) -> (mis: usize)
    ensures
        ops_view(final(out)@) == ops_view(old(out)@) + attr_ops(*a, scoped),
        mis == attr_misuse(*a, scoped),
{
    let ghost start = out@;
    let mut mis: usize = 0;
    match &a.value {
        AttrValue::Str(s) => {
            match match_bare(&a.name) {
                Some(MetricKind::Counter) => {
                    out.push(PlannedOp::Count { metric: s.clone(), amount: 1 });
                },
                Some(MetricKind::Gauge) => {
                    out.push(PlannedOp::GaugeValue { metric: s.clone(), amount: 1 });
                },
                Some(MetricKind::Level) => {
                    out.push(PlannedOp::AdjustLevel { metric: s.clone(), amount: 1 });
                },
                Some(MetricKind::Timer) => {
                    if scoped {
                        out.push(PlannedOp::StartTimer { metric: s.clone() });
                    } else {
                        mis = 1;
                    }
                },
                None => {},
            }
        },
        AttrValue::Int(v) => {
            plan_int(&a.name, *v, out);
        },
        AttrValue::UInt(v) => {
            plan_int(&a.name, *v as i64, out);
        },
        AttrValue::Other => {},
    }
    proof {
        assert(ops_view(out@) =~= ops_view(start) + attr_ops(*a, scoped));
    }
    mis
}

/// Applies the directive table to a whole attribute set: returns the planned
/// operations in order, and the number of misused timer directives (always
/// zero for a scoped dispatch). Unrecognized attributes contribute nothing.
pub fn plan(attrs: &Vec<Attr>, scoped: bool) -> (r: (Vec<PlannedOp>, usize))
    ensures
        ops_view(r.0@) == planned_ops(attrs@, scoped),
        r.1 == misuse_count(attrs@, scoped),
{
    let mut out: Vec<PlannedOp> = Vec::new();
    let mut mis: usize = 0;
    let mut i: usize = 0;
    proof {
        assert(attrs@.subrange(0, 0) =~= Seq::<Attr>::empty());
        assert(ops_view(out@) =~= Seq::<OpModel>::empty());
    }
    while i < attrs.len()
        invariant
            i <= attrs@.len(),
            ops_view(out@) == planned_ops(attrs@.subrange(0, i as int), scoped),
            mis == misuse_count(attrs@.subrange(0, i as int), scoped),
            mis <= i,
        decreases attrs@.len() - i,
    {
        let m = plan_attr(&attrs[i], scoped, &mut out);
        proof {
            lemma_misuse_at_most_len(attrs@.subrange(0, i as int), scoped);
        }
        mis = mis + m;
        i = i + 1;
        proof {
            assert(attrs@.subrange(0, i as int).drop_last() =~= attrs@.subrange(0, i - 1));
            assert(attrs@.subrange(0, i as int).last() == attrs@[i - 1]);
        }
    }
    proof {
        assert(attrs@.subrange(0, attrs@.len() as int) =~= attrs@);
    }
    (out, mis)
}

} // verus!
