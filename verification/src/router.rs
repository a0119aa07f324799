//! The router and span lifecycle manager: the entry points the host
//! instrumentation framework drives.
//!
//! The router owns the process-lifetime root scope, injected at
//! construction and never changed afterwards, and the store of records for
//! the spans that are currently active. The host framework's span
//! identifiers key the store; their allocation is assumed collision-free.
use vstd::prelude::*;
use std::collections::HashMap;
use crate::attrs::Attr;
use crate::ops::{misuse_count, plan, planned_ops};
use crate::scope::{resolve, resolved_scope, MetricScope};
use crate::span::{apply_scoped, apply_unscoped, drain_record, level_pairs, start_names,
    RecordModel, SpanRecord};

verus! {

broadcast use vstd::std_specs::hash::group_hash_axioms;

/// The record installed for a span created with attribute set `attrs` under
/// a parent scope named `pscope`: the resolved scope, and one cleanup
/// obligation per timer started and per level adjusted by the creation
/// dispatch.
pub open spec fn span_record_model(pscope: Seq<Seq<char>>, attrs: Seq<Attr>) -> RecordModel {
    RecordModel {
        scope: resolved_scope(pscope, attrs),
        timers: start_names(planned_ops(attrs, true)),
        levels: level_pairs(planned_ops(attrs, true)),
    }
}

/// The bridge from the host instrumentation framework to the `dipstick`
/// metrics sink.
///
/// The host framework reports three things: a span was created (with its
/// identifier, its nearest ancestor's identifier if any, and its initial
/// attribute set), an event was observed, and a span was closed. Everything
/// else — directive matching, scope naming, dispatch, cleanup — happens in
/// here.
pub struct DipstickLayer {
    scope: MetricScope,
    records: HashMap<u64, SpanRecord>,
}

/// The parent scope a new span or an event resolves against: the named
/// ancestor's stored scope, or the root where there is no ancestor or the
/// ancestor holds no record (an ancestor that predates this router's
/// installation falls back to the root; never an error).
pub open spec fn parent_scope_name(l: DipstickLayer, parent: Option<u64>) -> Seq<Seq<char>> {
    match parent {
        Some(p) => if l.spans().contains_key(p) {
            l.spans()[p]@.scope
        } else {
            l.root_name()
        },
        None => l.root_name(),
    }
}

impl DipstickLayer {
    /// The name segments of the root scope.
    pub closed spec fn root_name(&self) -> Seq<Seq<char>> {
        self.scope@
    }

    /// The records of the currently active spans, by span identifier.
    pub closed spec fn spans(&self) -> Map<u64, SpanRecord> {
        self.records@
    }

    /// Creates the bridge.
    ///
    /// Expects the scope into which it will put metrics.
    pub fn new(input_scope: MetricScope) -> (r: DipstickLayer)
        ensures
            r.root_name() == input_scope@,
            r.spans() == Map::<u64, SpanRecord>::empty(),
    {
        DipstickLayer { scope: input_scope, records: HashMap::new() }
    }

    /// Installs a new span: resolves its scope from its nearest ancestor's
    /// (or the root), dispatches its attribute set against that scope, and
    /// stores the record with the cleanup obligations the dispatch created.
    ///
    /// The host framework guarantees each span identifier is installed only
    /// once. If it breaks that contract the old record is replaced and its
    /// obligations are never drained; defending against that host bug is out
    /// of scope here.
    pub fn new_span(&mut self, id: u64, parent: Option<u64>, attrs: &Vec<Attr>)
        ensures
            final(self).root_name() == old(self).root_name(),
            final(self).spans().dom() == old(self).spans().dom().insert(id),
            forall|k: u64|
                k != id && old(self).spans().contains_key(k) ==> final(self).spans()[k] == old(
                    self,
                ).spans()[k],
            final(self).spans().contains_key(id),
            final(self).spans()[id]@ == span_record_model(
                parent_scope_name(*old(self), parent),
                attrs@,
            ),
    {
        let parent_scope: MetricScope = match parent {
            Some(p) => match self.records.get(&p) {
                Some(rec) => rec.scope_handle().duplicate(),
                None => self.scope.duplicate(),
            },
            None => self.scope.duplicate(),
        };
        let child = resolve(&parent_scope, attrs);
        let (ops, _mis) = plan(attrs, true);
        proof {
            // The discarded misuse count is always zero on the span path.
            crate::ops::lemma_scoped_no_misuse(attrs@);
        }
        let rec = apply_scoped(child, &ops);
        self.records.insert(id, rec);
        proof {
            assert(final(self).spans().dom() =~= old(self).spans().dom().insert(id));
        }
    }

    /// Dispatches an event's attribute set against the nearest enclosing
    /// span's scope, or the root scope where there is none. Events have no
    /// duration, so no cleanup obligation is retained, and a timer directive
    /// on an event is a local configuration error: that one attribute is
    /// skipped, everything else is still dispatched, and the number of
    /// skipped timer directives is returned.
    ///
    /// The scope lookup happens only when some operation was actually
    /// planned, and reads the ancestor's record through a shared borrow:
    /// resolving an event's scope never mutates or extends that record.
    pub fn on_event(&self, parent: Option<u64>, attrs: &Vec<Attr>) -> (skipped: usize)
        ensures
            skipped == misuse_count(attrs@, false),
    {
        let (ops, mis) = plan(attrs, false);
        proof {
            crate::ops::lemma_unscoped_no_timer_start(attrs@);
            assert(forall|i: int|
                0 <= i < ops@.len() ==> !(#[trigger] ops@[i]@ is StartTimer)) by {
                assert(forall|i: int|
                    0 <= i < ops@.len() ==> #[trigger] ops@[i]@ == crate::ops::ops_view(ops@)[i]);
            }
        }
        if ops.len() > 0 {
            let scope_ref: &MetricScope = match parent {
                Some(p) => match self.records.get(&p) {
                    Some(rec) => rec.scope_handle(),
                    None => &self.scope,
                },
                None => &self.scope,
            };
            apply_unscoped(scope_ref, &ops);
        }
        mis
    }

    /// Closes a span: detaches its record and drains it, stopping each
    /// pending timer and reversing each pending level adjustment exactly
    /// once. Closing a span that holds no record does nothing. After the
    /// close, lookups under that identifier find nothing.
    pub fn close_span(&mut self, id: u64) -> (found: bool)
        ensures
            final(self).root_name() == old(self).root_name(),
            found == old(self).spans().contains_key(id),
            final(self).spans() == old(self).spans().remove(id),
    {
        match self.records.remove(&id) {
            Some(rec) => {
                drain_record(rec);
                true
            },
            None => false,
        }
    }
}

} // verus!
