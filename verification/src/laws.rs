//! The library-wide laws: what dispatch, naming, and lifecycle guarantee
//! together, stated over the same models the functions' contracts use.
use vstd::prelude::*;
use crate::attrs::{Attr, AttrValue};
use crate::ops::{attr_misuse, attr_ops, int_attr_ops, misuse_count, planned_ops, OpModel};
use crate::scope::{
    apply_directive, qname, resolved_scope, scope_directive_of, ScopeDirective,
};
use crate::span::{close_ops, level_pairs, start_names};
use crate::router::span_record_model;
use crate::table::recognized_name;

verus! {

/// The timer names stopped by a sequence of operations, in order.
pub open spec fn stop_names(ops: Seq<OpModel>) -> Seq<Seq<char>>
    decreases ops.len(),
{
    if ops.len() == 0 {
        Seq::empty()
    } else {
        let rest = stop_names(ops.drop_last());
        match ops.last() {
            OpModel::StopTimer { metric } => rest.push(metric),
            _ => rest,
        }
    }
}

/// The net adjustment a sequence of operations applies to the level called
/// `metric`, as an unbounded integer.
pub open spec fn level_net(ops: Seq<OpModel>, metric: Seq<char>) -> int
    decreases ops.len(),
{
    if ops.len() == 0 {
        0
    } else {
        let rest = level_net(ops.drop_last(), metric);
        match ops.last() {
            OpModel::AdjustLevel { metric: m, amount } => if m == metric {
                rest + amount
            } else {
                rest
            },
            _ => rest,
        }
    }
}

/// The attribute set with its unrecognized attribute names dropped.
pub open spec fn recognized_only(attrs: Seq<Attr>) -> Seq<Attr> {
    attrs.filter(|a: Attr| recognized_name(a.name@))
}

/// An attribute whose name no rule recognizes contributes nothing: no
/// operation, no misuse report, no scope-naming directive.
proof fn lemma_unrecognized_attr(a: Attr, scoped: bool)
    requires
        !recognized_name(a.name@),
    ensures
        attr_ops(a, scoped) == Seq::<OpModel>::empty(),
        attr_misuse(a, scoped) == 0,
        scope_directive_of(a) is None,
{
    match a.value {
        AttrValue::Str(_) => {
        },
        AttrValue::Int(v) => {
            assert(int_attr_ops(a.name@, v) =~= Seq::<OpModel>::empty());
        },
        AttrValue::UInt(v) => {
            assert(int_attr_ops(a.name@, v as i64) =~= Seq::<OpModel>::empty());
        },
        AttrValue::Other => {
        },
    }
}

/// An attribute set of nothing but unrecognized names dispatches to zero
/// sink operations, reports nothing, and leaves scope naming untouched,
/// on the span path and on the event path alike.
pub proof fn lemma_unrecognized_silent(parent: Seq<Seq<char>>, attrs: Seq<Attr>, scoped: bool)
    requires
        forall|i: int| 0 <= i < attrs.len() ==> !recognized_name(attrs[i].name@),
    ensures
        planned_ops(attrs, scoped) == Seq::<OpModel>::empty(),
        misuse_count(attrs, scoped) == 0,
        resolved_scope(parent, attrs) == parent,
    decreases attrs.len(),
{
    if attrs.len() > 0 {
        lemma_unrecognized_silent(parent, attrs.drop_last(), scoped);
        lemma_unrecognized_attr(attrs.last(), scoped);
        assert(planned_ops(attrs, scoped) =~= Seq::<OpModel>::empty());
    }
}

/// `stop_names` ignores a tail of operations that stop no timer.
proof fn lemma_stop_names_concat_no_stops(a: Seq<OpModel>, b: Seq<OpModel>)
    requires
        forall|i: int| 0 <= i < b.len() ==> !(b[i] is StopTimer),
    ensures
        stop_names(a + b) == stop_names(a),
    decreases b.len(),
{
    if b.len() == 0 {
        assert(a + b =~= a);
    } else {
        lemma_stop_names_concat_no_stops(a, b.drop_last());
        assert((a + b).drop_last() =~= a + b.drop_last());
        assert((a + b).last() == b.last());
    }
}

/// Stopping exactly the timers in `timers` stops exactly those names.
proof fn lemma_stop_names_of_stops(timers: Seq<Seq<char>>)
    ensures
        stop_names(timers.map_values(|m: Seq<char>| OpModel::StopTimer { metric: m })) == timers,
    decreases timers.len(),
{
    let stops = timers.map_values(|m: Seq<char>| OpModel::StopTimer { metric: m });
    if timers.len() == 0 {
        assert(stop_names(stops) =~= timers);
    } else {
        lemma_stop_names_of_stops(timers.drop_last());
        assert(stops.drop_last() =~= timers.drop_last().map_values(
            |m: Seq<char>| OpModel::StopTimer { metric: m },
        ));
        assert(stops.last() == (OpModel::StopTimer { metric: timers.last() }));
        assert(stop_names(stops) =~= timers);
    }
}

/// For every span, the timers stopped when it closes are, name for name and
/// in order, exactly the timer starts its creation dispatch performed: as
/// many stops as starts, each pair sharing its metric name.
pub proof fn lemma_timer_stops_match_starts(pscope: Seq<Seq<char>>, attrs: Seq<Attr>)
    ensures
        stop_names(close_ops(span_record_model(pscope, attrs))) == start_names(
            planned_ops(attrs, true),
        ),
{
    let rec = span_record_model(pscope, attrs);
    let stops = rec.timers.map_values(|m: Seq<char>| OpModel::StopTimer { metric: m });
    let negs = rec.levels.map_values(
        |p: (Seq<char>, i64)| OpModel::AdjustLevel {
            metric: p.0,
            amount: crate::span::neg_wrap(p.1),
        },
    );
    assert(close_ops(rec) == stops + negs);
    assert(forall|i: int| 0 <= i < negs.len() ==> !(negs[i] is StopTimer));
    lemma_stop_names_concat_no_stops(stops, negs);
    lemma_stop_names_of_stops(rec.timers);
}

/// `level_net` distributes over concatenation.
proof fn lemma_level_net_concat(a: Seq<OpModel>, b: Seq<OpModel>, metric: Seq<char>)
    ensures
        level_net(a + b, metric) == level_net(a, metric) + level_net(b, metric),
    decreases b.len(),
{
    if b.len() == 0 {
        assert(a + b =~= a);
    } else {
        lemma_level_net_concat(a, b.drop_last(), metric);
        assert((a + b).drop_last() =~= a + b.drop_last());
        assert((a + b).last() == b.last());
    }
}

/// The net level adjustment of a sequence of operations is the net of the
/// level pairs it records.
proof fn lemma_level_net_of_pairs(ops: Seq<OpModel>, metric: Seq<char>)
    ensures
        level_net(ops, metric) == pair_net(level_pairs(ops), metric),
    decreases ops.len(),
{
    if ops.len() > 0 {
        lemma_level_net_of_pairs(ops.drop_last(), metric);
        match ops.last() {
            OpModel::AdjustLevel { metric: m, amount } => {
                assert(level_pairs(ops).drop_last() =~= level_pairs(ops.drop_last()));
                assert(level_pairs(ops).last() == (m, amount));
            },
            _ => {
                assert(level_pairs(ops) == level_pairs(ops.drop_last()));
            },
        }
    }
}

/// The net adjustment a sequence of (name, amount) pairs applies to the
/// level called `metric`.
pub open spec fn pair_net(pairs: Seq<(Seq<char>, i64)>, metric: Seq<char>) -> int
    decreases pairs.len(),
{
    if pairs.len() == 0 {
        0
    } else {
        let rest = pair_net(pairs.drop_last(), metric);
        if pairs.last().0 == metric {
            rest + pairs.last().1
        } else {
            rest
        }
    }
}

/// Reversing every pair reverses the net, as long as no amount is the
/// unnegatable minimum.
proof fn lemma_pair_net_negated(pairs: Seq<(Seq<char>, i64)>, metric: Seq<char>)
    requires
        forall|i: int| 0 <= i < pairs.len() ==> #[trigger] pairs[i].1 != i64::MIN,
    ensures
        level_net(
            pairs.map_values(
                |p: (Seq<char>, i64)| OpModel::AdjustLevel {
                    metric: p.0,
                    amount: crate::span::neg_wrap(p.1),
                },
            ),
            metric,
        ) == -pair_net(pairs, metric),
    decreases pairs.len(),
{
    let negs = pairs.map_values(
        |p: (Seq<char>, i64)| OpModel::AdjustLevel {
            metric: p.0,
            amount: crate::span::neg_wrap(p.1),
        },
    );
    if pairs.len() == 0 {
        assert(level_net(negs, metric) == 0);
    } else {
        lemma_pair_net_negated(pairs.drop_last(), metric);
        assert(negs.drop_last() =~= pairs.drop_last().map_values(
            |p: (Seq<char>, i64)| OpModel::AdjustLevel {
                metric: p.0,
                amount: crate::span::neg_wrap(p.1),
            },
        ));
        assert(negs.last() == (OpModel::AdjustLevel {
            metric: pairs.last().0,
            amount: crate::span::neg_wrap(pairs.last().1),
        }));
        assert(pairs.last().1 != i64::MIN);
    }
}

/// A sequence of timer stops adjusts no level.
proof fn lemma_stops_no_level(timers: Seq<Seq<char>>, metric: Seq<char>)
    ensures
        level_net(
            timers.map_values(|m: Seq<char>| OpModel::StopTimer { metric: m }),
            metric,
        ) == 0,
    decreases timers.len(),
{
    let stops = timers.map_values(|m: Seq<char>| OpModel::StopTimer { metric: m });
    if timers.len() > 0 {
        lemma_stops_no_level(timers.drop_last(), metric);
        assert(stops.drop_last() =~= timers.drop_last().map_values(
            |m: Seq<char>| OpModel::StopTimer { metric: m },
        ));
        assert(stops.last() == (OpModel::StopTimer { metric: timers.last() }));
    }
}

/// For every span and every level name, the net adjustment visible after the
/// span closes — its creation dispatch and its close taken together, its
/// descendants aside — is zero: every accepted level increase is offset by
/// exactly one equal decrease on close. The one excluded input is an
/// adjustment by the minimum signed amount, which has no exact negation and
/// wraps to itself.
pub proof fn lemma_level_net_zero(pscope: Seq<Seq<char>>, attrs: Seq<Attr>, metric: Seq<char>)
    requires
        forall|i: int|
            0 <= i < level_pairs(planned_ops(attrs, true)).len() ==> #[trigger] level_pairs(
                planned_ops(attrs, true),
            )[i].1 != i64::MIN,
    ensures
        level_net(
            planned_ops(attrs, true) + close_ops(span_record_model(pscope, attrs)),
            metric,
        ) == 0,
{
    let ops = planned_ops(attrs, true);
    let rec = span_record_model(pscope, attrs);
    let stops = rec.timers.map_values(|m: Seq<char>| OpModel::StopTimer { metric: m });
    let negs = rec.levels.map_values(
        |p: (Seq<char>, i64)| OpModel::AdjustLevel {
            metric: p.0,
            amount: crate::span::neg_wrap(p.1),
        },
    );
    assert(close_ops(rec) == stops + negs);
    lemma_level_net_concat(ops, stops + negs, metric);
    lemma_level_net_concat(stops, negs, metric);
    lemma_level_net_of_pairs(ops, metric);
    lemma_stops_no_level(rec.timers, metric);
    lemma_pair_net_negated(rec.levels, metric);
}

/// Scope-name composition is associative pure text-join: appending segment
/// `x` and then segment `y` spells the same qualified name as appending the
/// single dotted segment `x.y`, and replacing the name outright with that
/// text gives it verbatim. With a named parent, an appended segment extends
/// the parent's qualified name after a dot.
pub proof fn lemma_scope_composition(base: Seq<Seq<char>>, x: Seq<char>, y: Seq<char>)
    ensures
        qname(apply_directive(apply_directive(base, ScopeDirective::Append(x)),
            ScopeDirective::Append(y))) == qname(
            apply_directive(base, ScopeDirective::Append(x + seq!['.'] + y)),
        ),
        qname(apply_directive(base, ScopeDirective::Replace(x + seq!['.'] + y))) == x + seq!['.']
            + y,
        base.len() > 0 ==> qname(base.push(y)) == qname(base) + seq!['.'] + y,
{
    let joined = x + seq!['.'] + y;
    if base.len() == 0 {
        assert(base.push(x).push(y).drop_last() =~= base.push(x));
        assert(base.push(x).push(y).last() == y);
        assert(base.push(x)[0] == x);
        assert(qname(base.push(x)) == x);
        assert(qname(base.push(x).push(y)) == x + seq!['.'] + y);
        assert(base.push(joined)[0] == joined);
        assert(qname(base.push(joined)) == joined);
    } else {
        assert(base.push(x).drop_last() =~= base);
        assert(base.push(x).last() == x);
        assert(base.push(x).push(y).drop_last() =~= base.push(x));
        assert(base.push(x).push(y).last() == y);
        assert(qname(base.push(x)) == qname(base) + seq!['.'] + x);
        assert(qname(base.push(x).push(y)) == (qname(base) + seq!['.'] + x) + seq!['.'] + y);
        assert(base.push(joined).drop_last() =~= base);
        assert(base.push(joined).last() == joined);
        assert(qname(base.push(joined)) == qname(base) + seq!['.'] + joined);
        assert((qname(base) + seq!['.'] + x) + seq!['.'] + y =~= qname(base) + seq!['.'] + (x
            + seq!['.'] + y));
        assert(base.push(y).drop_last() =~= base);
        assert(base.push(y).last() == y);
    }
}

/// Adding arbitrary unrecognized attributes anywhere in an attribute set
/// changes nothing: the operations, the misuse reports, and the resolved
/// scope all depend only on the recognized attributes, in their order.
pub proof fn lemma_ignore_unknown(parent: Seq<Seq<char>>, attrs: Seq<Attr>, scoped: bool)
    ensures
        planned_ops(attrs, scoped) == planned_ops(recognized_only(attrs), scoped),
        misuse_count(attrs, scoped) == misuse_count(recognized_only(attrs), scoped),
        resolved_scope(parent, attrs) == resolved_scope(parent, recognized_only(attrs)),
    decreases attrs.len(),
{
    reveal(Seq::filter);
    if attrs.len() > 0 {
        let a = attrs.last();
        let dl = attrs.drop_last();
        lemma_ignore_unknown(parent, dl, scoped);
        if recognized_name(a.name@) {
            assert(recognized_only(attrs) == recognized_only(dl).push(a));
            assert(recognized_only(dl).push(a).drop_last() =~= recognized_only(dl));
            assert(recognized_only(dl).push(a).last() == a);
        } else {
            lemma_unrecognized_attr(a, scoped);
            assert(recognized_only(attrs) == recognized_only(dl));
            assert(planned_ops(attrs, scoped) =~= planned_ops(dl, scoped));
        }
    }
}

} // verus!
