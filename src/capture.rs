//! Capture storage: an arena-backed tree of the spans and events that a host
//! tracing runtime reports, with per-span statistics.

use vstd::prelude::*;

use id_arena::{Arena, DefaultArenaBehavior, Id};

use crate::types::{CallSiteData, CallSiteModel};
use crate::value::TracedValue;
use crate::values::{merged, value_of, FieldEntries, TracedValues};

verus! {

#[verifier::external_type_specification]
#[verifier::external_body]
#[verifier::reject_recursive_types(T)]
#[verifier::reject_recursive_types(A)]
pub struct ExArena<T, A>(Arena<T, A>);

#[verifier::external_type_specification]
#[verifier::external_body]
#[verifier::reject_recursive_types(T)]
pub struct ExId<T>(Id<T>);

#[verifier::external_type_specification]
#[verifier::external_body]
#[verifier::reject_recursive_types(T)]
pub struct ExDefaultArenaBehavior<T>(DefaultArenaBehavior<T>);

/// Statistics about a captured span.
#[derive(Debug, Clone, Copy, Default, PartialEq, Eq, Structural)]
pub struct SpanStats {
    /// Number of times the span was entered.
    pub entered: usize,
    /// Number of times the span was exited.
    pub exited: usize,
    /// Whether the span is closed.
    pub is_closed: bool,
}

/// Node of the capture arena.
#[derive(Debug)]
pub enum CapturedNode {
    /// A span: its call site, values, statistics, parent, children and events, the
    /// last three as capture ordinals.
    Span {
        metadata: CallSiteData,
        values: TracedValues,
        stats: SpanStats,
        parent: Option<usize>,
        children: Vec<usize>,
        events: Vec<usize>,
    },
    /// An event: its call site, values and parent span, the last as a capture ordinal.
    Event { metadata: CallSiteData, values: TracedValues, parent: Option<usize> },
}

/// Nodes held by an arena, in allocation order.
pub uninterp spec fn arena_nodes(a: Arena<CapturedNode>) -> Seq<CapturedNode>;

/// Tag that an arena gives the identifiers it allocates.
pub uninterp spec fn arena_tag(a: Arena<CapturedNode>) -> u32;

/// Position in its arena of the node that an identifier refers to.
pub uninterp spec fn id_index(id: Id<CapturedNode>) -> usize;

/// Tag of the arena that allocated an identifier.
pub uninterp spec fn id_tag(id: Id<CapturedNode>) -> u32;

/// Whether `id` refers to a node of arena `a`.
pub open spec fn id_in(a: Arena<CapturedNode>, id: Id<CapturedNode>) -> bool {
    id_tag(id) == arena_tag(a) && id_index(id) < arena_nodes(a).len()
}

/// Relies on `id_arena::Arena::new`: a new arena holds no nodes.
#[verifier::external_body]
fn arena_new() -> (r: Arena<CapturedNode>)
    ensures
        arena_nodes(r).len() == 0,
{
    Arena::new()
}

/// Relies on `id_arena::Arena::alloc`: the node is appended and its identifier,
/// tagged by the arena, gives its position.
#[verifier::external_body]
fn arena_alloc(a: &mut Arena<CapturedNode>, node: CapturedNode) -> (r: Id<CapturedNode>)
    ensures
        arena_nodes(*final(a)) == arena_nodes(*old(a)).push(node),
        arena_tag(*final(a)) == arena_tag(*old(a)),
        id_tag(r) == arena_tag(*old(a)),
        id_index(r) == arena_nodes(*old(a)).len(),
{
    a.alloc(node)
}

/// Relies on `id_arena::Arena`'s `Index` impl: the node at the identifier's position.
#[verifier::external_body]
fn arena_get(a: &Arena<CapturedNode>, id: Id<CapturedNode>) -> (r: &CapturedNode)
    requires
        id_in(*a, id),
    ensures
        *r == arena_nodes(*a)[id_index(id) as int],
{
    &a[id]
}

/// Relies on `id_arena::Arena`'s `IndexMut` impl: the node at the identifier's
/// position is replaced.
#[verifier::external_body]
fn arena_set(a: &mut Arena<CapturedNode>, id: Id<CapturedNode>, node: CapturedNode)
    requires
        id_in(*old(a), id),
    ensures
        arena_nodes(*final(a)) == arena_nodes(*old(a)).update(id_index(id) as int, node),
        arena_tag(*final(a)) == arena_tag(*old(a)),
{
    a[id] = node;
}

/// Model of a captured span.
pub struct SpanRecord {
    /// Call site of the span.
    pub metadata: CallSiteModel,
    /// Values the span was created with or recorded later.
    pub values: FieldEntries,
    /// Statistics of the span.
    pub stats: SpanStats,
    /// Capture ordinal of the parent span, if any.
    pub parent: Option<usize>,
    /// Capture ordinals of the child spans, in capture order.
    pub children: Seq<usize>,
    /// Capture ordinals of the events attached to the span, in capture order.
    pub events: Seq<usize>,
}

/// Model of a captured event.
pub struct EventRecord {
    /// Call site of the event.
    pub metadata: CallSiteModel,
    /// Values of the event.
    pub values: FieldEntries,
    /// Capture ordinal of the parent span, if any.
    pub parent: Option<usize>,
}

/// Model of the capture storage: spans and events in capture order, each
/// identified by its position.
pub struct StorageModel {
    /// Captured spans.
    pub spans: Seq<SpanRecord>,
    /// Captured events.
    pub events: Seq<EventRecord>,
}

/// Model of a span node.
pub open spec fn span_record(n: CapturedNode) -> SpanRecord {
    match n {
        CapturedNode::Span { metadata, values, stats, parent, children, events } => SpanRecord {
            metadata: metadata@,
            values: values@,
            stats,
            parent,
            children: children@,
            events: events@,
        },
        CapturedNode::Event { .. } => arbitrary(),
    }
}

/// Model of an event node.
pub open spec fn event_record(n: CapturedNode) -> EventRecord {
    match n {
        CapturedNode::Event { metadata, values, parent } => EventRecord {
            metadata: metadata@,
            values: values@,
            parent,
        },
        CapturedNode::Span { .. } => arbitrary(),
    }
}

/// Whether `s` is strictly increasing.
pub open spec fn increasing(s: Seq<usize>) -> bool {
    forall|i: int, j: int| 0 <= i < j < s.len() ==> s[i] < s[j]
}

/// Well-formedness of span `k`: its parent precedes it and lists it, it was exited at
/// most as often as it was entered, and its children and events are listed in capture
/// order and name it as their parent.
pub open spec fn span_ok(m: StorageModel, k: int) -> bool {
    let s = m.spans[k];
    &&& s.parent matches Some(p) ==> p < k && m.spans[p as int].children.contains(k as usize)
    &&& s.stats.exited <= s.stats.entered
    &&& increasing(s.children)
    &&& forall|i: int|
        0 <= i < s.children.len() ==> k < #[trigger] s.children[i] < m.spans.len() && m.spans[s.children[i] as int].parent
            == Some(k as usize)
    &&& increasing(s.events)
    &&& forall|i: int|
        0 <= i < s.events.len() ==> #[trigger] s.events[i] < m.events.len() && m.events[s.events[i] as int].parent
            == Some(k as usize)
}

/// Well-formedness of event `e`: its parent, if any, is a captured span that lists it.
pub open spec fn event_ok(m: StorageModel, e: int) -> bool {
    m.events[e].parent matches Some(p) ==> p < m.spans.len() && m.spans[p as int].events.contains(
        e as usize,
    )
}

/// Whether `parent` may take a new child span or event: it is absent, or a captured
/// span that is not closed.
pub open spec fn open_parent(m: StorageModel, parent: Option<usize>) -> bool {
    parent matches Some(p) ==> p < m.spans.len() && !m.spans[p as int].stats.is_closed
}

/// Well-formedness of the captured tree.
pub open spec fn tree_ok(m: StorageModel) -> bool {
    &&& forall|k: int| 0 <= k < m.spans.len() ==> #[trigger] span_ok(m, k)
    &&& forall|e: int| 0 <= e < m.events.len() ==> #[trigger] event_ok(m, e)
}

/// Storage of captured spans and events.
#[derive(Debug)]
pub struct Storage {
    nodes: Arena<CapturedNode>,
    span_ids: Vec<Id<CapturedNode>>,
    event_ids: Vec<Id<CapturedNode>>,
}

impl View for Storage {
    type V = StorageModel;

    closed spec fn view(&self) -> StorageModel {
        StorageModel {
            spans: self.span_ids@.map_values(
                |id: Id<CapturedNode>| span_record(arena_nodes(self.nodes)[id_index(id) as int]),
            ),
            events: self.event_ids@.map_values(
                |id: Id<CapturedNode>| event_record(arena_nodes(self.nodes)[id_index(id) as int]),
            ),
        }
    }
}

impl Storage {
    /// Every listed identifier refers to a node of the right kind in the arena, and no
    /// two identifiers of a list share a position.
    closed spec fn ids_ok(&self) -> bool {
        let nodes = arena_nodes(self.nodes);
        &&& forall|k: int|
            0 <= k < self.span_ids@.len() ==> id_in(self.nodes, #[trigger] self.span_ids@[k])
                && nodes[id_index(self.span_ids@[k]) as int] is Span
        &&& forall|k: int|
            0 <= k < self.event_ids@.len() ==> id_in(self.nodes, #[trigger] self.event_ids@[k])
                && nodes[id_index(self.event_ids@[k]) as int] is Event
        &&& forall|a: int, b: int|
            0 <= a < b < self.span_ids@.len() ==> id_index(#[trigger] self.span_ids@[a]) != id_index(
                #[trigger] self.span_ids@[b],
            )
        &&& forall|a: int, b: int|
            0 <= a < b < self.event_ids@.len() ==> id_index(#[trigger] self.event_ids@[a])
                != id_index(#[trigger] self.event_ids@[b])
    }

    /// Well-formedness of the storage.
    pub closed spec fn wf(&self) -> bool {
        &&& self.ids_ok()
        &&& tree_ok(self@)
    }

    /// Creates an empty storage.
    pub fn new() -> (r: Storage)
        ensures
            r.wf(),
            r@.spans.len() == 0,
            r@.events.len() == 0,
    {
        Storage { nodes: arena_new(), span_ids: Vec::new(), event_ids: Vec::new() }
    }

    /// Number of captured spans.
    pub fn span_count(&self) -> (r: usize)
        ensures
            r == self@.spans.len(),
    {
        self.span_ids.len()
    }

    /// Number of captured events.
    pub fn event_count(&self) -> (r: usize)
        ensures
            r == self@.events.len(),
    {
        self.event_ids.len()
    }

    fn span_node(&self, k: usize) -> (r: &CapturedNode)
        requires
            self.ids_ok(),
            k < self@.spans.len(),
        ensures
            r is Span,
            span_record(*r) == self@.spans[k as int],
    {
        arena_get(&self.nodes, self.span_ids[k])
    }

    fn event_node(&self, e: usize) -> (r: &CapturedNode)
        requires
            self.ids_ok(),
            e < self@.events.len(),
        ensures
            r is Event,
            event_record(*r) == self@.events[e as int],
    {
        arena_get(&self.nodes, self.event_ids[e])
    }

    fn put_span(&mut self, k: usize, node: CapturedNode)
        requires
            old(self).ids_ok(),
            k < old(self)@.spans.len(),
            node is Span,
        ensures
            final(self).ids_ok(),
            final(self)@.spans == old(self)@.spans.update(k as int, span_record(node)),
            final(self)@.events == old(self)@.events,
    {
        let ghost old_nodes = arena_nodes(self.nodes);
        let id = self.span_ids[k];
        arena_set(&mut self.nodes, id, node);
        proof {
            let nodes = arena_nodes(self.nodes);
            assert forall|e: int| 0 <= e < self.event_ids@.len() implies id_index(
                #[trigger] self.event_ids@[e],
            ) != id_index(id) by {
                assert(old_nodes[id_index(self.event_ids@[e]) as int] is Event);
            }
            assert forall|a: int| 0 <= a < self.span_ids@.len() && a != k implies id_index(
                #[trigger] self.span_ids@[a],
            ) != id_index(id) by {
                if a < k {
                    assert(id_index(self.span_ids@[a]) != id_index(self.span_ids@[k as int]));
                } else {
                    assert(id_index(self.span_ids@[k as int]) != id_index(self.span_ids@[a]));
                }
            }
            assert(self@.spans =~= old(self)@.spans.update(k as int, span_record(node)));
            assert(self@.events =~= old(self)@.events);
        }
    }
}

/// Statistics after the span is entered; a closed span takes no more writes.
pub open spec fn entered_stats(st: SpanStats) -> SpanStats {
    if st.is_closed || st.entered == usize::MAX {
        st
    } else {
        SpanStats { entered: (st.entered + 1) as usize, ..st }
    }
}

/// Statistics after the span is exited; an exit without a matching entry, or on a
/// closed span, changes nothing.
pub open spec fn exited_stats(st: SpanStats) -> SpanStats {
    if st.is_closed || st.exited >= st.entered {
        st
    } else {
        SpanStats { exited: (st.exited + 1) as usize, ..st }
    }
}

/// Statistics after the span is closed.
pub open spec fn closed_stats(st: SpanStats) -> SpanStats {
    SpanStats { is_closed: true, ..st }
}

/// Span `s` after values `t` are recorded on it; a closed span takes no more writes.
pub open spec fn recorded(s: SpanRecord, t: FieldEntries) -> SpanRecord {
    if s.stats.is_closed {
        s
    } else {
        SpanRecord { values: merged(s.values, t), ..s }
    }
}

/// Spans of `m` after a child with ordinal `c` is attached under `parent`.
pub open spec fn with_child(spans: Seq<SpanRecord>, parent: Option<usize>, c: usize) -> Seq<
    SpanRecord,
> {
    match parent {
        Some(p) => spans.update(p as int, SpanRecord { children: spans[p as int].children.push(c), ..spans[p as int] }),
        None => spans,
    }
}

/// Spans of `m` after an event with ordinal `e` is attached under `parent`.
pub open spec fn with_event(spans: Seq<SpanRecord>, parent: Option<usize>, e: usize) -> Seq<
    SpanRecord,
> {
    match parent {
        Some(p) => spans.update(p as int, SpanRecord { events: spans[p as int].events.push(e), ..spans[p as int] }),
        None => spans,
    }
}

fn copy_ordinals(v: &Vec<usize>) -> (r: Vec<usize>)
    ensures
        r@ == v@,
{
    let mut r: Vec<usize> = Vec::new();
    let mut i: usize = 0;
    while i < v.len()
        invariant
            i <= v@.len(),
            r@ == v@.take(i as int),
        decreases v@.len() - i,
    {
        r.push(v[i]);
        assert(r@ =~= v@.take(i + 1));
        i = i + 1;
    }
    assert(v@.take(i as int) =~= v@);
    r
}

/// The parts of a span node, copied.
fn span_parts(node: &CapturedNode) -> (r: (
    CallSiteData,
    TracedValues,
    SpanStats,
    Option<usize>,
    Vec<usize>,
    Vec<usize>,
))
    requires
        node is Span,
    ensures
        span_record(*node) == (SpanRecord {
            metadata: r.0@,
            values: r.1@,
            stats: r.2,
            parent: r.3,
            children: r.4@,
            events: r.5@,
        }),
{
    match node {
        CapturedNode::Span { metadata, values, stats, parent, children, events } => (
            metadata.clone(),
            values.clone(),
            *stats,
            *parent,
            copy_ordinals(children),
            copy_ordinals(events),
        ),
        CapturedNode::Event { .. } => vstd::pervasive::unreached(),
    }
}

impl Storage {
    /// Captures a new span under `parent`, or as a root, and returns its ordinal.
    pub fn on_new_span(
        &mut self,
        metadata: CallSiteData,
        values: TracedValues,
        parent: Option<usize>,
    ) -> (r: usize)
        requires
            old(self).wf(),
            open_parent(old(self)@, parent),
        ensures
            final(self).wf(),
            r == old(self)@.spans.len(),
            final(self)@.spans == with_child(old(self)@.spans, parent, r).push(
                SpanRecord {
                    metadata: metadata@,
                    values: values@,
                    stats: SpanStats { entered: 0, exited: 0, is_closed: false },
                    parent,
                    children: Seq::empty(),
                    events: Seq::empty(),
                },
            ),
            final(self)@.events == old(self)@.events,
    {
        let ghost m0 = self@;
        let r = self.span_ids.len();
        let node = CapturedNode::Span {
            metadata,
            values,
            stats: SpanStats { entered: 0, exited: 0, is_closed: false },
            parent,
            children: Vec::new(),
            events: Vec::new(),
        };
        let ghost rec = span_record(node);
        let ghost old_nodes = arena_nodes(self.nodes);
        let id = arena_alloc(&mut self.nodes, node);
        self.span_ids.push(id);
        proof {
            let nodes = arena_nodes(self.nodes);
            assert forall|k: int| 0 <= k < r implies id_index(#[trigger] self.span_ids@[k])
                < old_nodes.len() by {}
            assert forall|e: int| 0 <= e < self.event_ids@.len() implies id_index(
                #[trigger] self.event_ids@[e],
            ) < old_nodes.len() by {}
            assert(self.ids_ok());
            assert(self@.spans =~= m0.spans.push(rec));
            assert(self@.events =~= m0.events);
        }
        match parent {
            Some(p) => {
                let (md, vals, st, par, mut children, evs) = span_parts(self.span_node(p));
                children.push(r);
                self.put_span(
                    p,
                    CapturedNode::Span {
                        metadata: md,
                        values: vals,
                        stats: st,
                        parent: par,
                        children,
                        events: evs,
                    },
                );
            },
            None => {},
        }
        proof {
            let m = self@;
            assert(m.spans =~= with_child(m0.spans, parent, r).push(rec));
            assert forall|k: int| 0 <= k < m.spans.len() implies #[trigger] span_ok(m, k) by {
                if k < r {
                    assert(span_ok(m0, k));
                    let s = m.spans[k];
                    let s0 = m0.spans[k];
                    assert forall|i: int| 0 <= i < s.children.len() implies k < #[trigger] s.children[i]
                        < m.spans.len() && m.spans[s.children[i] as int].parent == Some(
                        k as usize,
                    ) by {
                        if i < s0.children.len() {
                            assert(s.children[i] == s0.children[i]);
                        }
                    }
                    assert forall|i: int, i2: int| 0 <= i < i2 < s.children.len() implies s.children[i]
                        < s.children[i2] by {
                        if i2 < s0.children.len() {
                        } else {
                            assert(s0.children[i] < r);
                        }
                    }
                    assert forall|i: int| 0 <= i < s.events.len() implies #[trigger] s.events[i]
                        < m.events.len() && m.events[s.events[i] as int].parent == Some(
                        k as usize,
                    ) by {
                        assert(s.events[i] == s0.events[i]);
                    }
                    if let Some(pk) = s0.parent {
                        let c0 = m0.spans[pk as int].children;
                        let j = choose|j: int| 0 <= j < c0.len() && c0[j] == k as usize;
                        assert(m.spans[pk as int].children[j] == k as usize);
                    }
                } else {
                    if let Some(p) = parent {
                        let c0 = m0.spans[p as int].children;
                        assert(m.spans[p as int].children[c0.len() as int] == r);
                    }
                }
            }
            assert forall|e: int| 0 <= e < m.events.len() implies #[trigger] event_ok(m, e) by {
                assert(event_ok(m0, e));
            }
        }
        r
    }
}

impl Storage {
    /// Captures a new event under `parent`, or outside any span, and returns its ordinal.
    pub fn on_event(&mut self, metadata: CallSiteData, values: TracedValues, parent: Option<usize>) -> (r:
        usize)
        requires
            old(self).wf(),
            open_parent(old(self)@, parent),
        ensures
            final(self).wf(),
            r == old(self)@.events.len(),
            final(self)@.spans == with_event(old(self)@.spans, parent, r),
            final(self)@.events == old(self)@.events.push(
                EventRecord { metadata: metadata@, values: values@, parent },
            ),
    {
        let ghost m0 = self@;
        let r = self.event_ids.len();
        let node = CapturedNode::Event { metadata, values, parent };
        let ghost rec = event_record(node);
        let ghost old_nodes = arena_nodes(self.nodes);
        let id = arena_alloc(&mut self.nodes, node);
        self.event_ids.push(id);
        proof {
            assert forall|k: int| 0 <= k < self.span_ids@.len() implies id_index(
                #[trigger] self.span_ids@[k],
            ) < old_nodes.len() by {}
            assert forall|e: int| 0 <= e < r implies id_index(#[trigger] self.event_ids@[e])
                < old_nodes.len() by {}
            assert(self.ids_ok());
            assert(self@.spans =~= m0.spans);
            assert(self@.events =~= m0.events.push(rec));
        }
        match parent {
            Some(p) => {
                let (md, vals, st, par, children, mut evs) = span_parts(self.span_node(p));
                evs.push(r);
                self.put_span(
                    p,
                    CapturedNode::Span {
                        metadata: md,
                        values: vals,
                        stats: st,
                        parent: par,
                        children,
                        events: evs,
                    },
                );
            },
            None => {},
        }
        proof {
            let m = self@;
            assert(m.spans =~= with_event(m0.spans, parent, r));
            assert forall|k: int| 0 <= k < m.spans.len() implies #[trigger] span_ok(m, k) by {
                assert(span_ok(m0, k));
                let s = m.spans[k];
                let s0 = m0.spans[k];
                assert forall|i: int| 0 <= i < s.children.len() implies k < #[trigger] s.children[i]
                    < m.spans.len() && m.spans[s.children[i] as int].parent == Some(k as usize) by {
                    assert(s.children[i] == s0.children[i]);
                }
                assert forall|i: int| 0 <= i < s.events.len() implies #[trigger] s.events[i]
                    < m.events.len() && m.events[s.events[i] as int].parent == Some(k as usize) by {
                    if i < s0.events.len() {
                        assert(s.events[i] == s0.events[i]);
                    }
                }
                assert forall|i: int, i2: int| 0 <= i < i2 < s.events.len() implies s.events[i]
                    < s.events[i2] by {
                    if i2 >= s0.events.len() {
                        assert(s0.events[i] < r);
                    }
                }
            }
            assert forall|e: int| 0 <= e < m.events.len() implies #[trigger] event_ok(m, e) by {
                if e < r {
                    assert(event_ok(m0, e));
                    if let Some(pk) = m0.events[e].parent {
                        let v0 = m0.spans[pk as int].events;
                        let j = choose|j: int| 0 <= j < v0.len() && v0[j] == e as usize;
                        assert(m.spans[pk as int].events[j] == e as usize);
                    }
                } else {
                    if let Some(p) = parent {
                        let v0 = m0.spans[p as int].events;
                        assert(m.spans[p as int].events[v0.len() as int] == r);
                    }
                }
            }
        }
        r
    }

    /// Replaces the values and statistics of span `k`, keeping its links.
    fn rewrite_span(&mut self, k: usize, values: TracedValues, stats: SpanStats)
        requires
            old(self).wf(),
            k < old(self)@.spans.len(),
            stats.exited <= stats.entered,
        ensures
            final(self).wf(),
            final(self)@.spans == old(self)@.spans.update(
                k as int,
                SpanRecord { values: values@, stats, ..old(self)@.spans[k as int] },
            ),
            final(self)@.events == old(self)@.events,
    {
        let ghost m0 = self@;
        let (md, _, _, par, children, evs) = span_parts(self.span_node(k));
        self.put_span(
            k,
            CapturedNode::Span { metadata: md, values, stats, parent: par, children, events: evs },
        );
        proof {
            let m = self@;
            assert forall|j: int| 0 <= j < m.spans.len() implies #[trigger] span_ok(m, j) by {
                assert(span_ok(m0, j));
                let s = m.spans[j];
                assert forall|i: int| 0 <= i < s.children.len() implies j < #[trigger] s.children[i]
                    < m.spans.len() && m.spans[s.children[i] as int].parent == Some(j as usize) by {
                }
            }
            assert forall|e: int| 0 <= e < m.events.len() implies #[trigger] event_ok(m, e) by {
                assert(event_ok(m0, e));
            }
        }
    }

    /// Records values on span `k`; a closed span takes no more writes.
    pub fn on_record(&mut self, k: usize, values: &TracedValues)
        requires
            old(self).wf(),
            k < old(self)@.spans.len(),
        ensures
            final(self).wf(),
            final(self)@.spans == old(self)@.spans.update(
                k as int,
                recorded(old(self)@.spans[k as int], values@),
            ),
            final(self)@.events == old(self)@.events,
    {
        let (_, mut vals, st, _, _, _) = span_parts(self.span_node(k));
        if st.is_closed {
            assert(self@.spans =~= self@.spans.update(k as int, self@.spans[k as int]));
            return;
        }
        proof {
            assert(span_ok(self@, k as int));
        }
        vals.extend(values);
        self.rewrite_span(k, vals, st);
    }

    /// Counts an entry into span `k`; a closed span takes no more writes.
    pub fn on_enter(&mut self, k: usize)
        requires
            old(self).wf(),
            k < old(self)@.spans.len(),
        ensures
            final(self).wf(),
            final(self)@.spans == old(self)@.spans.update(
                k as int,
                SpanRecord {
                    stats: entered_stats(old(self)@.spans[k as int].stats),
                    ..old(self)@.spans[k as int]
                },
            ),
            final(self)@.events == old(self)@.events,
    {
        let (_, vals, mut st, _, _, _) = span_parts(self.span_node(k));
        proof {
            assert(span_ok(self@, k as int));
        }
        if !st.is_closed && st.entered < usize::MAX {
            st.entered = st.entered + 1;
        }
        self.rewrite_span(k, vals, st);
    }

    /// Counts an exit from span `k`; an exit without a matching entry, or from a closed
    /// span, changes nothing.
    pub fn on_exit(&mut self, k: usize)
        requires
            old(self).wf(),
            k < old(self)@.spans.len(),
        ensures
            final(self).wf(),
            final(self)@.spans == old(self)@.spans.update(
                k as int,
                SpanRecord {
                    stats: exited_stats(old(self)@.spans[k as int].stats),
                    ..old(self)@.spans[k as int]
                },
            ),
            final(self)@.events == old(self)@.events,
    {
        let (_, vals, mut st, _, _, _) = span_parts(self.span_node(k));
        proof {
            assert(span_ok(self@, k as int));
        }
        if !st.is_closed && st.exited < st.entered {
            st.exited = st.exited + 1;
        }
        self.rewrite_span(k, vals, st);
    }

    /// Marks span `k` as closed.
    pub fn on_close(&mut self, k: usize)
        requires
            old(self).wf(),
            k < old(self)@.spans.len(),
        ensures
            final(self).wf(),
            final(self)@.spans == old(self)@.spans.update(
                k as int,
                SpanRecord {
                    stats: closed_stats(old(self)@.spans[k as int].stats),
                    ..old(self)@.spans[k as int]
                },
            ),
            final(self)@.events == old(self)@.events,
    {
        let (_, vals, mut st, _, _, _) = span_parts(self.span_node(k));
        proof {
            assert(span_ok(self@, k as int));
        }
        st.is_closed = true;
        self.rewrite_span(k, vals, st);
    }
}

/// Ordinals of the ancestors of span `k`, from its parent up to a root.
pub open spec fn ancestors_of(m: StorageModel, k: int) -> Seq<usize>
    decreases k,
{
    if 0 <= k < m.spans.len() {
        match m.spans[k].parent {
            Some(p) => if p < k {
                seq![p] + ancestors_of(m, p as int)
            } else {
                Seq::empty()
            },
            None => Seq::empty(),
        }
    } else {
        Seq::empty()
    }
}

/// Captured span: a handle to a span of a [`Storage`].
#[derive(Debug, Clone, Copy)]
pub struct CapturedSpan<'a> {
    storage: &'a Storage,
    index: usize,
}

/// Captured event: a handle to an event of a [`Storage`].
#[derive(Debug, Clone, Copy)]
pub struct CapturedEvent<'a> {
    storage: &'a Storage,
    index: usize,
}

impl<'a> CapturedSpan<'a> {
    #[verifier::type_invariant]
    closed spec fn inv(self) -> bool {
        self.storage.wf() && self.index < self.storage@.spans.len()
    }

    /// The storage the span belongs to.
    pub closed spec fn model(self) -> StorageModel {
        self.storage@
    }

    /// Capture ordinal of the span.
    pub closed spec fn ordinal(self) -> usize {
        self.index
    }

    /// Model of the span.
    pub open spec fn record(self) -> SpanRecord {
        self.model().spans[self.ordinal() as int]
    }

    /// Capture ordinal of the span.
    pub fn index(&self) -> (r: usize)
        ensures
            r == self.ordinal(),
            r < self.model().spans.len(),
            tree_ok(self.model()),
    {
        proof {
            use_type_invariant(self);
        }
        self.index
    }

    /// Call site of the span.
    pub fn metadata(&self) -> (r: &'a CallSiteData)
        ensures
            r@ == self.record().metadata,
    {
        proof {
            use_type_invariant(self);
        }
        match self.storage.span_node(self.index) {
            CapturedNode::Span { metadata, .. } => metadata,
            CapturedNode::Event { .. } => vstd::pervasive::unreached(),
        }
    }

    /// Values the span was created with or recorded later.
    pub fn values(&self) -> (r: &'a TracedValues)
        ensures
            r@ == self.record().values,
    {
        proof {
            use_type_invariant(self);
        }
        match self.storage.span_node(self.index) {
            CapturedNode::Span { values, .. } => values,
            CapturedNode::Event { .. } => vstd::pervasive::unreached(),
        }
    }

    /// Value of field `name`, if the span has one.
    pub fn value(&self, name: &str) -> (r: Option<&'a TracedValue>)
        ensures
            match r {
                Some(v) => value_of(self.record().values, name@) == Some(*v),
                None => value_of(self.record().values, name@) is None,
            },
    {
        self.values().get(name)
    }

    /// Statistics of the span.
    pub fn stats(&self) -> (r: SpanStats)
        ensures
            r == self.record().stats,
    {
        proof {
            use_type_invariant(self);
        }
        match self.storage.span_node(self.index) {
            CapturedNode::Span { stats, .. } => *stats,
            CapturedNode::Event { .. } => vstd::pervasive::unreached(),
        }
    }

    /// The parent span, if any.
    pub fn parent(&self) -> (r: Option<CapturedSpan<'a>>)
        ensures
            match r {
                Some(p) => self.record().parent == Some(p.ordinal()) && p.model() == self.model()
                    && p.ordinal() < self.ordinal() && p.record().children.contains(self.ordinal()),
                None => self.record().parent is None,
            },
    {
        proof {
            use_type_invariant(self);
            assert(span_ok(self.storage@, self.index as int));
        }
        match self.storage.span_node(self.index) {
            CapturedNode::Span { parent, .. } => match parent {
                Some(p) => Some(CapturedSpan { storage: self.storage, index: *p }),
                None => None,
            },
            CapturedNode::Event { .. } => vstd::pervasive::unreached(),
        }
    }

    /// Ancestors of the span, from its parent up to a root.
    pub fn ancestors(&self) -> (r: Vec<CapturedSpan<'a>>)
        ensures
            r@.map_values(|s: CapturedSpan<'a>| s.ordinal()) == ancestors_of(
                self.model(),
                self.ordinal() as int,
            ),
            forall|i: int| 0 <= i < r@.len() ==> (#[trigger] r@[i]).model() == self.model(),
    {
        let mut r: Vec<CapturedSpan<'a>> = Vec::new();
        let mut cur = self.parent();
        let ghost m = self.model();
        proof {
            use_type_invariant(self);
        }
        let ghost k0 = self.ordinal() as int;
        let ghost mut last = k0;
        while cur.is_some()
            invariant
                m == self.model(),
                tree_ok(m),
                0 <= last < m.spans.len(),
                forall|i: int| 0 <= i < r@.len() ==> (#[trigger] r@[i]).model() == m,
                cur matches Some(c) ==> c.model() == m && m.spans[last].parent == Some(c.ordinal()),
                cur is None ==> m.spans[last].parent is None,
                ancestors_of(m, k0) == r@.map_values(|s: CapturedSpan<'a>| s.ordinal())
                    + ancestors_of(m, last),
            decreases last,
        {
            match cur {
                Some(c) => {
                    proof {
                        use_type_invariant(&c);
                        assert(span_ok(m, last));
                    }
                    let ghost prev = r@;
                    let next = c.parent();
                    r.push(c);
                    assert(r@.map_values(|s: CapturedSpan<'a>| s.ordinal()) =~= prev.map_values(
                        |s: CapturedSpan<'a>| s.ordinal(),
                    ).push(c.ordinal()));
                    assert(ancestors_of(m, last) == seq![c.ordinal()] + ancestors_of(
                        m,
                        c.ordinal() as int,
                    ));
                    assert(ancestors_of(m, k0) =~= r@.map_values(|s: CapturedSpan<'a>| s.ordinal())
                        + ancestors_of(m, c.ordinal() as int));
                    proof {
                        last = c.ordinal() as int;
                    }
                    cur = next;
                },
                None => {},
            }
        }
        assert(ancestors_of(m, last) =~= Seq::<usize>::empty());
        assert(ancestors_of(m, k0) =~= r@.map_values(|s: CapturedSpan<'a>| s.ordinal()));
        r
    }
}

impl<'a> CapturedSpan<'a> {
    /// Direct children of the span, in capture order.
    pub fn children(&self) -> (r: Vec<CapturedSpan<'a>>)
        ensures
            r@.map_values(|s: CapturedSpan<'a>| s.ordinal()) == self.record().children,
            forall|i: int| 0 <= i < r@.len() ==> (#[trigger] r@[i]).model() == self.model(),
            forall|j: int|
                0 <= j < self.model().spans.len() && #[trigger] self.model().spans[j].parent == Some(
                    self.ordinal(),
                ) ==> self.record().children.contains(j as usize),
    {
        proof {
            use_type_invariant(self);
            assert(span_ok(self.storage@, self.index as int));
            assert forall|j: int|
                0 <= j < self.storage@.spans.len() && #[trigger] self.storage@.spans[j].parent == Some(
                    self.index,
                ) implies self.storage@.spans[self.index as int].children.contains(j as usize) by {
                assert(span_ok(self.storage@, j));
            }
        }
        let children = match self.storage.span_node(self.index) {
            CapturedNode::Span { children, .. } => children,
            CapturedNode::Event { .. } => vstd::pervasive::unreached(),
        };
        let mut r: Vec<CapturedSpan<'a>> = Vec::new();
        let mut i: usize = 0;
        while i < children.len()
            invariant
                self.storage.wf(),
                children@ == self.record().children,
                span_ok(self.model(), self.ordinal() as int),
                self.model() == self.storage@,
                self.ordinal() < self.model().spans.len(),
                i <= children@.len(),
                r@.map_values(|s: CapturedSpan<'a>| s.ordinal()) == children@.take(i as int),
                forall|j: int| 0 <= j < r@.len() ==> (#[trigger] r@[j]).model() == self.model(),
            decreases children@.len() - i,
        {
            let ghost prev = r@;
            r.push(CapturedSpan { storage: self.storage, index: children[i] });
            assert(r@.map_values(|s: CapturedSpan<'a>| s.ordinal()) =~= prev.map_values(
                |s: CapturedSpan<'a>| s.ordinal(),
            ).push(children@[i as int]));
            assert(children@.take(i + 1) =~= children@.take(i as int).push(children@[i as int]));
            i = i + 1;
        }
        assert(children@.take(i as int) =~= children@);
        r
    }

    /// Events attached to the span, in capture order.
    pub fn events(&self) -> (r: Vec<CapturedEvent<'a>>)
        ensures
            r@.map_values(|e: CapturedEvent<'a>| e.ordinal()) == self.record().events,
            forall|i: int| 0 <= i < r@.len() ==> (#[trigger] r@[i]).model() == self.model(),
    {
        proof {
            use_type_invariant(self);
            assert(span_ok(self.storage@, self.index as int));
        }
        let events = match self.storage.span_node(self.index) {
            CapturedNode::Span { events, .. } => events,
            CapturedNode::Event { .. } => vstd::pervasive::unreached(),
        };
        let mut r: Vec<CapturedEvent<'a>> = Vec::new();
        let mut i: usize = 0;
        while i < events.len()
            invariant
                self.storage.wf(),
                events@ == self.record().events,
                span_ok(self.model(), self.ordinal() as int),
                self.model() == self.storage@,
                self.ordinal() < self.model().spans.len(),
                i <= events@.len(),
                r@.map_values(|e: CapturedEvent<'a>| e.ordinal()) == events@.take(i as int),
                forall|j: int| 0 <= j < r@.len() ==> (#[trigger] r@[j]).model() == self.model(),
            decreases events@.len() - i,
        {
            let ghost prev = r@;
            r.push(CapturedEvent { storage: self.storage, index: events[i] });
            assert(r@.map_values(|e: CapturedEvent<'a>| e.ordinal()) =~= prev.map_values(
                |e: CapturedEvent<'a>| e.ordinal(),
            ).push(events@[i as int]));
            assert(events@.take(i + 1) =~= events@.take(i as int).push(events@[i as int]));
            i = i + 1;
        }
        assert(events@.take(i as int) =~= events@);
        r
    }
}

impl<'a> CapturedEvent<'a> {
    #[verifier::type_invariant]
    closed spec fn inv(self) -> bool {
        self.storage.wf() && self.index < self.storage@.events.len()
    }

    /// The storage the event belongs to.
    pub closed spec fn model(self) -> StorageModel {
        self.storage@
    }

    /// Capture ordinal of the event.
    pub closed spec fn ordinal(self) -> usize {
        self.index
    }

    /// Model of the event.
    pub open spec fn record(self) -> EventRecord {
        self.model().events[self.ordinal() as int]
    }

    /// Capture ordinal of the event.
    pub fn index(&self) -> (r: usize)
        ensures
            r == self.ordinal(),
            r < self.model().events.len(),
            tree_ok(self.model()),
    {
        proof {
            use_type_invariant(self);
        }
        self.index
    }

    /// Call site of the event.
    pub fn metadata(&self) -> (r: &'a CallSiteData)
        ensures
            r@ == self.record().metadata,
    {
        proof {
            use_type_invariant(self);
        }
        match self.storage.event_node(self.index) {
            CapturedNode::Event { metadata, .. } => metadata,
            CapturedNode::Span { .. } => vstd::pervasive::unreached(),
        }
    }

    /// Values of the event.
    pub fn values(&self) -> (r: &'a TracedValues)
        ensures
            r@ == self.record().values,
    {
        proof {
            use_type_invariant(self);
        }
        match self.storage.event_node(self.index) {
            CapturedNode::Event { values, .. } => values,
            CapturedNode::Span { .. } => vstd::pervasive::unreached(),
        }
    }

    /// Value of field `name`, if the event has one.
    pub fn value(&self, name: &str) -> (r: Option<&'a TracedValue>)
        ensures
            match r {
                Some(v) => value_of(self.record().values, name@) == Some(*v),
                None => value_of(self.record().values, name@) is None,
            },
    {
        self.values().get(name)
    }

    /// The parent span, if any.
    pub fn parent(&self) -> (r: Option<CapturedSpan<'a>>)
        ensures
            match r {
                Some(p) => self.record().parent == Some(p.ordinal()) && p.model() == self.model()
                    && p.record().events.contains(self.ordinal()),
                None => self.record().parent is None,
            },
    {
        proof {
            use_type_invariant(self);
            assert(event_ok(self.storage@, self.index as int));
        }
        match self.storage.event_node(self.index) {
            CapturedNode::Event { parent, .. } => match parent {
                Some(p) => Some(CapturedSpan { storage: self.storage, index: *p }),
                None => None,
            },
            CapturedNode::Span { .. } => vstd::pervasive::unreached(),
        }
    }

    /// Ancestors of the event, from its parent span up to a root.
    pub fn ancestors(&self) -> (r: Vec<CapturedSpan<'a>>)
        ensures
            match self.record().parent {
                Some(p) => r@.map_values(|s: CapturedSpan<'a>| s.ordinal()) == seq![p]
                    + ancestors_of(self.model(), p as int),
                None => r@.len() == 0,
            },
            forall|i: int| 0 <= i < r@.len() ==> (#[trigger] r@[i]).model() == self.model(),
    {
        match self.parent() {
            Some(p) => {
                let up = p.ancestors();
                let mut r: Vec<CapturedSpan<'a>> = Vec::new();
                r.push(p);
                let mut i: usize = 0;
                while i < up.len()
                    invariant
                        i <= up@.len(),
                        r@.len() == i + 1,
                        r@[0] == p,
                        forall|j: int| 0 <= j < i ==> r@[j + 1] == up@[j],
                        forall|j: int| 0 <= j < up@.len() ==> (#[trigger] up@[j]).model() == self.model(),
                        forall|j: int| 0 <= j < r@.len() ==> (#[trigger] r@[j]).model() == self.model(),
                    decreases up@.len() - i,
                {
                    r.push(up[i]);
                    i = i + 1;
                }
                assert(r@.map_values(|s: CapturedSpan<'a>| s.ordinal()) =~= seq![p.ordinal()]
                    + up@.map_values(|s: CapturedSpan<'a>| s.ordinal()));
                r
            },
            None => Vec::new(),
        }
    }

    /// The event's message: the `Debug` text of its `message` field, if that field
    /// holds an object.
    pub fn message(&self) -> (r: Option<&'a str>)
        ensures
            match value_of(self.record().values, "message"@) {
                Some(TracedValue::Object(o)) => r matches Some(s) && s@ == o@,
                _ => r is None,
            },
    {
        match self.value("message") {
            Some(v) => v.as_debug_str(),
            None => None,
        }
    }
}

impl Storage {
    /// Span with capture ordinal `k`.
    pub fn span(&self, k: usize) -> (r: CapturedSpan<'_>)
        requires
            self.wf(),
            k < self@.spans.len(),
        ensures
            r.ordinal() == k,
            r.model() == self@,
    {
        CapturedSpan { storage: self, index: k }
    }

    /// Event with capture ordinal `e`.
    pub fn event(&self, e: usize) -> (r: CapturedEvent<'_>)
        requires
            self.wf(),
            e < self@.events.len(),
        ensures
            r.ordinal() == e,
            r.model() == self@,
    {
        CapturedEvent { storage: self, index: e }
    }

    /// All captured spans, in capture order.
    pub fn all_spans(&self) -> (r: Vec<CapturedSpan<'_>>)
        requires
            self.wf(),
        ensures
            r@.len() == self@.spans.len(),
            forall|i: int|
                0 <= i < r@.len() ==> (#[trigger] r@[i]).ordinal() == i && r@[i].model() == self@,
    {
        let mut r: Vec<CapturedSpan<'_>> = Vec::new();
        let mut i: usize = 0;
        while i < self.span_ids.len()
            invariant
                self.wf(),
                i <= self@.spans.len(),
                self@.spans.len() == self.span_ids@.len(),
                r@.len() == i,
                forall|j: int|
                    0 <= j < r@.len() ==> (#[trigger] r@[j]).ordinal() == j && r@[j].model() == self@,
            decreases self.span_ids@.len() - i,
        {
            r.push(CapturedSpan { storage: self, index: i });
            i = i + 1;
        }
        r
    }

    /// Captured spans without a parent, in capture order.
    pub fn root_spans(&self) -> (r: Vec<CapturedSpan<'_>>)
        requires
            self.wf(),
        ensures
            r@.map_values(|s: CapturedSpan<'_>| s.ordinal() as int) == Seq::new(
                self@.spans.len(),
                |i: int| i,
            ).filter(|i: int| self@.spans[i].parent is None),
            forall|i: int| 0 <= i < r@.len() ==> (#[trigger] r@[i]).model() == self@,
    {
        let ghost all = Seq::new(self@.spans.len(), |i: int| i);
        let ghost is_root = |i: int| self@.spans[i].parent is None;
        let mut r: Vec<CapturedSpan<'_>> = Vec::new();
        let mut i: usize = 0;
        while i < self.span_ids.len()
            invariant
                self.wf(),
                i <= self@.spans.len(),
                self@.spans.len() == self.span_ids@.len(),
                all == Seq::new(self@.spans.len(), |i: int| i),
                is_root == (|i: int| self@.spans[i].parent is None),
                r@.map_values(|s: CapturedSpan<'_>| s.ordinal() as int) == all.take(i as int).filter(
                    is_root,
                ),
                forall|j: int| 0 <= j < r@.len() ==> (#[trigger] r@[j]).model() == self@,
            decreases self.span_ids@.len() - i,
        {
            let ghost prev = r@;
            assert(all.take(i + 1) =~= all.take(i as int).push(i as int));
            proof {
                all.take(i as int).lemma_filter_push(i as int, is_root);
            }
            let span = CapturedSpan { storage: self, index: i };
            if span.parent().is_none() {
                r.push(span);
                assert(r@.map_values(|s: CapturedSpan<'_>| s.ordinal() as int) =~= prev.map_values(
                    |s: CapturedSpan<'_>| s.ordinal() as int,
                ).push(i as int));
            }
            i = i + 1;
        }
        assert(all.take(i as int) =~= all);
        r
    }

    /// All captured events, in capture order.
    pub fn all_events(&self) -> (r: Vec<CapturedEvent<'_>>)
        requires
            self.wf(),
        ensures
            r@.len() == self@.events.len(),
            forall|i: int|
                0 <= i < r@.len() ==> (#[trigger] r@[i]).ordinal() == i && r@[i].model() == self@,
    {
        let mut r: Vec<CapturedEvent<'_>> = Vec::new();
        let mut i: usize = 0;
        while i < self.event_ids.len()
            invariant
                self.wf(),
                i <= self@.events.len(),
                self@.events.len() == self.event_ids@.len(),
                r@.len() == i,
                forall|j: int|
                    0 <= j < r@.len() ==> (#[trigger] r@[j]).ordinal() == j && r@[j].model() == self@,
            decreases self.event_ids@.len() - i,
        {
            r.push(CapturedEvent { storage: self, index: i });
            i = i + 1;
        }
        r
    }
}

/// Invariants of the captured tree: in a well-formed storage every span was exited
/// at most as often as it was entered, its parent precedes it in capture order and
/// lists it among its children, and the parent of every event is a captured span that
/// lists it; and a closed span takes no more writes: it cannot be the parent of a new
/// span or event, attaching one elsewhere leaves it as it is, and recording values,
/// entering, exiting and closing it leave it as it is.
pub proof fn lemma_capture_tree_invariants(m: StorageModel, k: usize, e: usize, t: FieldEntries)
    requires
        tree_ok(m),
    ensures
        k < m.spans.len() ==> m.spans[k as int].stats.exited <= m.spans[k as int].stats.entered,
        k < m.spans.len() ==> (m.spans[k as int].parent matches Some(p) ==> p < k
            && m.spans[p as int].children.contains(k)),
        e < m.events.len() ==> (m.events[e as int].parent matches Some(p) ==> p < m.spans.len()
            && m.spans[p as int].events.contains(e)),
        k < m.spans.len() && m.spans[k as int].stats.is_closed ==> {
            &&& !open_parent(m, Some(k))
            &&& forall|parent: Option<usize>, c: usize|
                open_parent(m, parent) ==> (#[trigger] with_child(m.spans, parent, c))[k as int]
                    == m.spans[k as int] && with_event(m.spans, parent, c)[k as int] == m.spans[k as int]
            &&& recorded(m.spans[k as int], t) == m.spans[k as int]
            &&& entered_stats(m.spans[k as int].stats) == m.spans[k as int].stats
            &&& exited_stats(m.spans[k as int].stats) == m.spans[k as int].stats
            &&& closed_stats(m.spans[k as int].stats) == m.spans[k as int].stats
        },
{
    if k < m.spans.len() {
        assert(span_ok(m, k as int));
        if m.spans[k as int].stats.is_closed {
            assert forall|parent: Option<usize>, c: usize| open_parent(m, parent) implies (
            #[trigger] with_child(m.spans, parent, c))[k as int] == m.spans[k as int] && with_event(
                m.spans,
                parent,
                c,
            )[k as int] == m.spans[k as int] by {
                if let Some(p) = parent {
                    assert(p != k);
                }
            }
        }
    }
    if e < m.events.len() {
        assert(event_ok(m, e as int));
    }
}

} // verus!
