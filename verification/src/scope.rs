//! Metric scopes and the scope naming resolver.
//!
//! A scope pairs an opaque sink handle with the model of its qualified name:
//! the sequence of name segments added since the root was wrapped. The
//! resolver reads the two scope-naming directives out of a span's attribute
//! set and derives the child scope from its parent.
use vstd::prelude::*;
use crate::attrs::{Attr, AttrValue};
use crate::sink::{bucket_add_name, bucket_clone, bucket_named};
use crate::table::{scope_append_name, scope_replace_name};
use crate::text::eq_str;

verus! {

/// A handle into the metrics sink carrying a qualified dotted name. Deriving
/// a child scope never mutates the parent; scopes are value-like.
pub struct MetricScope {
    pub(crate) bucket: dipstick::AtomicBucket,
    pub(crate) segs: Ghost<Seq<Seq<char>>>,
}

impl View for MetricScope {
    type V = Seq<Seq<char>>;

    closed spec fn view(&self) -> Seq<Seq<char>> {
        self.segs@
    }
}

/// The qualified dotted name that a segment sequence spells: the segments
/// joined with `'.'`, a pure text join.
pub open spec fn qname(segs: Seq<Seq<char>>) -> Seq<char>
    decreases segs.len(),
{
    if segs.len() == 0 {
        Seq::empty()
    } else if segs.len() == 1 {
        segs[0]
    } else {
        qname(segs.drop_last()) + seq!['.'] + segs.last()
    }
}

impl MetricScope {
    /// Wraps a sink bucket as a scope. The name model starts empty, so the
    /// bucket handed in should carry no name of its own; every segment this
    /// library adds afterwards is tracked exactly.
    pub fn new(bucket: dipstick::AtomicBucket) -> (r: MetricScope)
        ensures
            r@ == Seq::<Seq<char>>::empty(),
    {
        MetricScope { bucket, segs: Ghost(Seq::empty()) }
    }

    /// The scope with `segment` appended to this scope's qualified name.
    pub fn add_name(&self, segment: &str) -> (r: MetricScope)
        ensures
            r@ == self@.push(segment@),
    {
        MetricScope {
            bucket: bucket_add_name(&self.bucket, segment),
            segs: Ghost(self@.push(segment@)),
        }
    }

    /// The scope whose qualified name is replaced by `name`.
    pub fn rename(&self, name: &str) -> (r: MetricScope)
        ensures
            r@ == seq![name@],
    {
        let ghost g: Seq<Seq<char>> = seq![name@];
        MetricScope { bucket: bucket_named(&self.bucket, name), segs: Ghost(g) }
    }

    /// A scope addressing the same sink under the same qualified name.
    pub fn duplicate(&self) -> (r: MetricScope)
        ensures
            r@ == self@,
    {
        MetricScope { bucket: bucket_clone(&self.bucket), segs: Ghost(self@) }
    }
}

/// A scope-naming directive carried by one attribute, if any: append a
/// segment to the parent's name, or replace the name outright.
pub enum ScopeDirective {
    /// Child scope name = parent scope name with this segment appended.
    Append(Seq<char>),
    /// Child scope name = exactly this name.
    Replace(Seq<char>),
}

/// The scope-naming directive an attribute carries: only the two directive
/// names, and only with a string value.
pub open spec fn scope_directive_of(a: Attr) -> Option<ScopeDirective> {
    match a.value {
        AttrValue::Str(s) => if a.name@ == scope_append_name() {
            Some(ScopeDirective::Append(s@))
        } else if a.name@ == scope_replace_name() {
            Some(ScopeDirective::Replace(s@))
        } else {
            None
        },
        _ => None,
    }
}

/// A directive applied to a parent scope's name.
pub open spec fn apply_directive(parent: Seq<Seq<char>>, d: ScopeDirective) -> Seq<Seq<char>> {
    match d {
        ScopeDirective::Append(v) => parent.push(v),
        ScopeDirective::Replace(v) => seq![v],
    }
}

/// The child scope's name for a span with this attribute set: the last
/// scope-naming directive wins (attribute order is insertion order, so this
/// is a deliberate last-write-wins tie-break), each directive is applied to
/// the parent's name, and with no directive the name is the parent's.
pub open spec fn resolved_scope(parent: Seq<Seq<char>>, attrs: Seq<Attr>) -> Seq<Seq<char>>
    decreases attrs.len(),
{
    if attrs.len() == 0 {
        parent
    } else {
        match scope_directive_of(attrs.last()) {
            Some(d) => apply_directive(parent, d),
            None => resolved_scope(parent, attrs.drop_last()),
        }
    }
}

/// Does this attribute carry a scope-naming directive?
fn scope_dir_present(a: &Attr) -> (r: bool)
    ensures
        r == (scope_directive_of(*a) is Some),
{
    match &a.value {
        AttrValue::Str(_) => {
            if eq_str(&a.name, "metrics.scope") {
                true
            } else {
                eq_str(&a.name, "metrics.scope.full")
            }
        },
        _ => false,
    }
}

/// The scope naming resolver: derives a span's scope from its parent's scope
/// and its own initial attribute set.
pub fn resolve(parent: &MetricScope, attrs: &Vec<Attr>) -> (r: MetricScope)
    ensures
        r@ == resolved_scope(parent@, attrs@),
{
    let mut chosen: Option<usize> = None;
    let mut i: usize = 0;
    proof {
        assert(attrs@.subrange(0, 0) =~= Seq::<Attr>::empty());
    }
    while i < attrs.len()
        invariant
            i <= attrs@.len(),
            match chosen {
                Some(j) => j < i && scope_directive_of(attrs@[j as int]) is Some
                    && resolved_scope(parent@, attrs@.subrange(0, i as int)) == apply_directive(
                    parent@,
                    scope_directive_of(attrs@[j as int])->0,
                ),
                None => resolved_scope(parent@, attrs@.subrange(0, i as int)) == parent@,
            },
        decreases attrs@.len() - i,
    {
        if scope_dir_present(&attrs[i]) {
            chosen = Some(i);
        }
        i = i + 1;
        proof {
            assert(attrs@.subrange(0, i as int).drop_last() =~= attrs@.subrange(0, i - 1));
            assert(attrs@.subrange(0, i as int).last() == attrs@[i - 1]);
        }
    }
    proof {
        assert(attrs@.subrange(0, attrs@.len() as int) =~= attrs@);
    }
    match chosen {
        None => parent.duplicate(),
        Some(j) => {
            let a = &attrs[j];
            match &a.value {
                AttrValue::Str(s) => {
                    if eq_str(&a.name, "metrics.scope") {
                        parent.add_name(s.as_str())
                    } else {
                        parent.rename(s.as_str())
                    }
                },
                _ => {
                    proof {
                        assert(false);
                    }
                    parent.duplicate()
                },
            }
        },
    }
}

} // verus!
