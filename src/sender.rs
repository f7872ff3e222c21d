//! Sending side of the tunnel: turns the operations that a tracing runtime reports
//! into the stream of events that crosses the boundary.

use vstd::prelude::*;

use std::collections::{HashMap, HashSet};

use crate::types::{CallSiteData, MetadataId, RawSpanId, TracingEvent};
use crate::values::TracedValues;

verus! {

broadcast use vstd::std_specs::hash::group_hash_axioms;

/// Identifier of the call site that an event registers, if it registers one.
pub open spec fn call_site_of(e: TracingEvent) -> Option<MetadataId> {
    match e {
        TracingEvent::NewCallSite { id, .. } => Some(id),
        _ => None,
    }
}

/// Call site that an event refers to, if it refers to one.
pub open spec fn metadata_ref(e: TracingEvent) -> Option<MetadataId> {
    match e {
        TracingEvent::NewSpan { metadata_id, .. } => Some(metadata_id),
        TracingEvent::NewEvent { metadata_id, .. } => Some(metadata_id),
        _ => None,
    }
}

/// Span that an event creates, if it creates one.
pub open spec fn created_span(e: TracingEvent) -> Option<RawSpanId> {
    match e {
        TracingEvent::NewSpan { id, .. } => Some(id),
        _ => None,
    }
}

/// Span that an event closes, if it closes one.
pub open spec fn dropped_span(e: TracingEvent) -> Option<RawSpanId> {
    match e {
        TracingEvent::SpanDropped { id } => Some(id),
        _ => None,
    }
}

/// Span that an event enters, if it enters one.
pub open spec fn entered_span(e: TracingEvent) -> Option<RawSpanId> {
    match e {
        TracingEvent::SpanEntered { id } => Some(id),
        _ => None,
    }
}

/// Span that an event exits, if it exits one.
pub open spec fn exited_span(e: TracingEvent) -> Option<RawSpanId> {
    match e {
        TracingEvent::SpanExited { id } => Some(id),
        _ => None,
    }
}

/// Number of times stream `t` entered span `id` minus the number of times it exited it.
pub open spec fn depth(t: Seq<TracingEvent>, id: RawSpanId) -> int
    decreases t.len(),
{
    if t.len() == 0 {
        0
    } else {
        depth(t.drop_last(), id) + (if entered_span(t.last()) == Some(id) {
            1int
        } else {
            0int
        }) - (if exited_span(t.last()) == Some(id) {
            1int
        } else {
            0int
        })
    }
}

/// Existing spans that an event refers to: the span it acts on, and the parent it names.
pub open spec fn span_refs(e: TracingEvent) -> Set<RawSpanId> {
    match e {
        TracingEvent::NewCallSite { .. } => Set::empty(),
        TracingEvent::NewSpan { parent_id, .. } => match parent_id {
            Some(p) => set![p],
            None => Set::empty(),
        },
        TracingEvent::ValuesRecorded { id, .. } => set![id],
        TracingEvent::SpanEntered { id } => set![id],
        TracingEvent::SpanExited { id } => set![id],
        TracingEvent::SpanCloned { id } => set![id],
        TracingEvent::SpanDropped { id } => set![id],
        TracingEvent::NewEvent { parent, .. } => match parent {
            Some(p) => set![p],
            None => Set::empty(),
        },
    }
}

/// Call sites registered by stream `t`.
pub open spec fn registered(t: Seq<TracingEvent>) -> Set<MetadataId>
    decreases t.len(),
{
    if t.len() == 0 {
        Set::empty()
    } else {
        match call_site_of(t.last()) {
            Some(id) => registered(t.drop_last()).insert(id),
            None => registered(t.drop_last()),
        }
    }
}

/// Spans created by stream `t`, closed or not.
pub open spec fn announced(t: Seq<TracingEvent>) -> Set<RawSpanId>
    decreases t.len(),
{
    if t.len() == 0 {
        Set::empty()
    } else {
        match created_span(t.last()) {
            Some(id) => announced(t.drop_last()).insert(id),
            None => announced(t.drop_last()),
        }
    }
}

/// Spans created and not yet closed by stream `t`.
pub open spec fn live(t: Seq<TracingEvent>) -> Set<RawSpanId>
    decreases t.len(),
{
    if t.len() == 0 {
        Set::empty()
    } else {
        let before = live(t.drop_last());
        match (created_span(t.last()), dropped_span(t.last())) {
            (Some(id), _) => before.insert(id),
            (_, Some(id)) => before.remove(id),
            _ => before,
        }
    }
}

/// Whether event `e` may follow stream `t`: a call site is registered once; a span
/// is created with a fresh identifier; every call site referred to is registered;
/// every span referred to is live; a span is exited only while it is entered.
pub open spec fn may_follow(t: Seq<TracingEvent>, e: TracingEvent) -> bool {
    &&& call_site_of(e) matches Some(id) ==> !registered(t).contains(id)
    &&& metadata_ref(e) matches Some(id) ==> registered(t).contains(id)
    &&& created_span(e) matches Some(id) ==> !announced(t).contains(id)
    &&& span_refs(e).subset_of(live(t))
    &&& exited_span(e) matches Some(id) ==> depth(t, id) > 0
}

/// Whether every event of stream `t` may follow the events before it.
pub open spec fn stream_ok(t: Seq<TracingEvent>) -> bool {
    forall|i: int| 0 <= i < t.len() ==> #[trigger] may_follow(t.take(i), t[i])
}

/// Decisions of the sending side. It registers each call site once, gives each span
/// a fresh identifier, counts the references to each span and reports a span as
/// dropped when its last reference goes. The events it emitted so far form its trace.
pub struct SenderState {
    call_sites: HashSet<MetadataId>,
    ref_counts: HashMap<RawSpanId, usize>,
    entered: HashMap<RawSpanId, usize>,
    next_span_id: RawSpanId,
    trace: Ghost<Seq<TracingEvent>>,
}

/// Number of times a span is entered and not yet exited, as a table records it.
pub open spec fn entered_in(m: Map<RawSpanId, usize>, id: RawSpanId) -> int {
    if m.contains_key(id) {
        m[id] as int
    } else {
        0
    }
}

impl SenderState {
    /// Events emitted so far, in order.
    pub closed spec fn trace(&self) -> Seq<TracingEvent> {
        self.trace@
    }

    /// Number of live references to each live span.
    pub closed spec fn ref_counts(&self) -> Map<RawSpanId, usize> {
        self.ref_counts@
    }

    /// Identifier that the next span will get.
    pub closed spec fn next_id(&self) -> RawSpanId {
        self.next_span_id
    }

    /// Well-formedness: the trace is a valid stream, the tables agree with it, and
    /// every span created so far has an identifier below the next one.
    pub closed spec fn wf(&self) -> bool {
        &&& stream_ok(self.trace@)
        &&& self.call_sites@ == registered(self.trace@)
        &&& self.ref_counts@.dom() == live(self.trace@)
        &&& forall|id: RawSpanId| #[trigger] self.ref_counts@.contains_key(id) ==> self.ref_counts@[id] >= 1
        &&& forall|id: RawSpanId| #[trigger] announced(self.trace@).contains(id) ==> id < self.next_span_id
        &&& live(self.trace@).subset_of(announced(self.trace@))
        &&& forall|id: RawSpanId| #[trigger] depth(self.trace@, id) == entered_in(self.entered@, id)
        &&& self.next_span_id >= 1
    }

    /// Number of times span `id` is entered and not yet exited.
    pub closed spec fn entered_count(&self, id: RawSpanId) -> int {
        entered_in(self.entered@, id)
    }

    /// Creates a sender that has emitted nothing.
    pub fn new() -> (r: SenderState)
        ensures
            r.wf(),
            r.trace() == Seq::<TracingEvent>::empty(),
            r.next_id() == 1,
    {
        let r = SenderState {
            call_sites: HashSet::new(),
            ref_counts: HashMap::new(),
            entered: HashMap::new(),
            next_span_id: 1,
            trace: Ghost(Seq::empty()),
        };
        assert(r.ref_counts@.dom() =~= Set::<RawSpanId>::empty());
        r
    }

    /// The events that a well-formed sender emitted form a valid stream, whose
    /// registered call sites and live spans are the ones the sender tracks.
    pub proof fn lemma_trace_valid(&self)
        requires
            self.wf(),
        ensures
            stream_ok(self.trace()),
            live(self.trace()) == self.ref_counts().dom(),
            forall|id: RawSpanId| #[trigger] depth(self.trace(), id) == self.entered_count(id),
            forall|id: RawSpanId| #[trigger] announced(self.trace()).contains(id) ==> id < self.next_id(),
    {
    }

    /// Whether call site `id` is registered.
    pub fn is_registered(&self, id: MetadataId) -> (r: bool)
        requires
            self.wf(),
        ensures
            r == registered(self.trace()).contains(id),
    {
        self.call_sites.contains(&id)
    }

    /// Whether span `id` is live.
    pub fn is_live(&self, id: RawSpanId) -> (r: bool)
        requires
            self.wf(),
        ensures
            r == live(self.trace()).contains(id),
    {
        self.ref_counts.contains_key(&id)
    }

    /// Whether no span is live.
    pub fn is_idle(&self) -> (r: bool)
        requires
            self.wf(),
        ensures
            r == (live(self.trace()) == Set::<RawSpanId>::empty()),
    {
        let r = self.ref_counts.is_empty();
        assert(r == (live(self.trace@) =~= Set::<RawSpanId>::empty()));
        r
    }
}

/// Appending an event that may follow a valid stream keeps it valid.
pub proof fn lemma_stream_push(t: Seq<TracingEvent>, e: TracingEvent)
    requires
        stream_ok(t),
        may_follow(t, e),
    ensures
        stream_ok(t.push(e)),
{
    let u = t.push(e);
    assert forall|i: int| 0 <= i < u.len() implies #[trigger] may_follow(u.take(i), u[i]) by {
        if i < t.len() {
            assert(u.take(i) =~= t.take(i));
            assert(may_follow(t.take(i), t[i]));
        } else {
            assert(u.take(i) =~= t);
        }
    }
}

/// The parent of a new span or event: the given one if it is live, else none.
pub open spec fn live_parent(t: Seq<TracingEvent>, parent: Option<RawSpanId>) -> Option<RawSpanId> {
    match parent {
        Some(p) => if live(t).contains(p) {
            Some(p)
        } else {
            None
        },
        None => None,
    }
}

impl SenderState {
    fn emit(&mut self, e: &TracingEvent)
        requires
            stream_ok(old(self).trace@),
            may_follow(old(self).trace@, *e),
        ensures
            final(self).trace@ == old(self).trace@.push(*e),
            stream_ok(final(self).trace@),
            final(self).call_sites == old(self).call_sites,
            final(self).ref_counts == old(self).ref_counts,
            final(self).entered == old(self).entered,
            final(self).next_span_id == old(self).next_span_id,
            forall|x: RawSpanId|
                #[trigger] depth(final(self).trace@, x) == depth(old(self).trace@, x) + (if entered_span(*e) == Some(x) {
                    1int
                } else {
                    0int
                }) - (if exited_span(*e) == Some(x) {
                    1int
                } else {
                    0int
                }),
    {
        proof {
            lemma_stream_push(self.trace@, *e);
            assert(self.trace@.push(*e).drop_last() =~= self.trace@);
        }
        self.trace = Ghost(self.trace@.push(*e));
    }

    fn live_parent_exec(&self, parent: Option<RawSpanId>) -> (r: Option<RawSpanId>)
        requires
            self.wf(),
        ensures
            r == live_parent(self.trace(), parent),
    {
        match parent {
            Some(p) => if self.ref_counts.contains_key(&p) {
                Some(p)
            } else {
                None
            },
            None => None,
        }
    }

    /// Registers call site `id` on its first encounter, which emits its data; later
    /// encounters emit nothing.
    pub fn register_call_site(&mut self, id: MetadataId, data: CallSiteData) -> (r: Option<TracingEvent>)
        requires
            old(self).wf(),
        ensures
            final(self).wf(),
            final(self).next_id() == old(self).next_id(),
            final(self).ref_counts() == old(self).ref_counts(),
            if registered(old(self).trace()).contains(id) {
                r is None && final(self).trace() == old(self).trace()
            } else {
                r == Some(TracingEvent::NewCallSite { id, data }) && final(self).trace() == old(
                    self,
                ).trace().push(TracingEvent::NewCallSite { id, data })
            },
    {
        if self.call_sites.contains(&id) {
            return None;
        }
        let ghost t = self.trace@;
        let e = TracingEvent::NewCallSite { id, data };
        self.emit(&e);
        self.call_sites.insert(id);
        let ghost u = self.trace@;
        assert(u.drop_last() =~= t);
        assert(registered(u) == registered(t).insert(id));
        assert(live(u) == live(t));
        assert(announced(u) == announced(t));
        Some(e)
    }
}

impl SenderState {
    /// Creates a span of registered call site `metadata_id` under `parent` (dropped
    /// unless live) and returns its fresh identifier with the event announcing it, or
    /// `None` once identifiers are exhausted.
    pub fn new_span(
        &mut self,
        metadata_id: MetadataId,
        parent: Option<RawSpanId>,
        values: TracedValues,
    ) -> (r: Option<(RawSpanId, TracingEvent)>)
        requires
            old(self).wf(),
            registered(old(self).trace()).contains(metadata_id),
        ensures
            final(self).wf(),
            match r {
                Some((id, e)) => {
                    &&& id == old(self).next_id()
                    &&& !announced(old(self).trace()).contains(id)
                    &&& e == (TracingEvent::NewSpan {
                        id,
                        parent_id: live_parent(old(self).trace(), parent),
                        metadata_id,
                        values,
                    })
                    &&& final(self).trace() == old(self).trace().push(e)
                    &&& final(self).ref_counts() == old(self).ref_counts().insert(id, 1)
                    &&& final(self).next_id() == id + 1
                },
                None => old(self).next_id() == RawSpanId::MAX && *final(self) == *old(self),
            },
    {
        if self.next_span_id == RawSpanId::MAX {
            return None;
        }
        let ghost t = self.trace@;
        let id = self.next_span_id;
        let parent_id = self.live_parent_exec(parent);
        let e = TracingEvent::NewSpan { id, parent_id, metadata_id, values };
        assert(span_refs(e).subset_of(live(t)));
        self.emit(&e);
        self.ref_counts.insert(id, 1);
        self.next_span_id = id + 1;
        let ghost u = self.trace@;
        assert(u.drop_last() =~= t);
        assert(registered(u) == registered(t));
        assert(live(u) == live(t).insert(id));
        assert(announced(u) == announced(t).insert(id));
        assert(self.ref_counts@.dom() =~= live(u));
        Some((id, e))
    }

    /// Event recording values on span `id`, if it is live.
    pub fn record(&mut self, id: RawSpanId, values: TracedValues) -> (r: Option<TracingEvent>)
        requires
            old(self).wf(),
        ensures
            final(self).wf(),
            final(self).next_id() == old(self).next_id(),
            final(self).ref_counts() == old(self).ref_counts(),
            if live(old(self).trace()).contains(id) {
                r == Some(TracingEvent::ValuesRecorded { id, values }) && final(self).trace()
                    == old(self).trace().push(TracingEvent::ValuesRecorded { id, values })
            } else {
                r is None && final(self).trace() == old(self).trace()
            },
    {
        if !self.ref_counts.contains_key(&id) {
            return None;
        }
        let e = TracingEvent::ValuesRecorded { id, values };
        self.emit_plain(&e);
        Some(e)
    }

    /// Event entering span `id`, if it is live (and was not entered `usize::MAX`
    /// times without exit).
    pub fn enter(&mut self, id: RawSpanId) -> (r: Option<TracingEvent>)
        requires
            old(self).wf(),
        ensures
            final(self).wf(),
            final(self).next_id() == old(self).next_id(),
            final(self).ref_counts() == old(self).ref_counts(),
            if live(old(self).trace()).contains(id) && old(self).entered_count(id) < usize::MAX {
                &&& r == Some(TracingEvent::SpanEntered { id })
                &&& final(self).trace() == old(self).trace().push(TracingEvent::SpanEntered { id })
                &&& final(self).entered_count(id) == old(self).entered_count(id) + 1
            } else {
                r is None && final(self).trace() == old(self).trace()
            },
    {
        if !self.ref_counts.contains_key(&id) {
            return None;
        }
        let count = match self.entered.get(&id) {
            Some(c) => *c,
            None => 0,
        };
        if count == usize::MAX {
            return None;
        }
        let e = TracingEvent::SpanEntered { id };
        let ghost t = self.trace@;
        self.emit(&e);
        self.entered.insert(id, count + 1);
        let ghost u = self.trace@;
        assert(u.drop_last() =~= t);
        assert(registered(u) == registered(t));
        assert(live(u) == live(t));
        assert(announced(u) == announced(t));
        Some(e)
    }

    /// Event exiting span `id`, if it is live and entered.
    pub fn exit(&mut self, id: RawSpanId) -> (r: Option<TracingEvent>)
        requires
            old(self).wf(),
        ensures
            final(self).wf(),
            final(self).next_id() == old(self).next_id(),
            final(self).ref_counts() == old(self).ref_counts(),
            if live(old(self).trace()).contains(id) && old(self).entered_count(id) > 0 {
                &&& r == Some(TracingEvent::SpanExited { id })
                &&& final(self).trace() == old(self).trace().push(TracingEvent::SpanExited { id })
                &&& final(self).entered_count(id) == old(self).entered_count(id) - 1
            } else {
                r is None && final(self).trace() == old(self).trace()
            },
    {
        if !self.ref_counts.contains_key(&id) {
            return None;
        }
        let count = match self.entered.get(&id) {
            Some(c) => *c,
            None => 0,
        };
        if count == 0 {
            return None;
        }
        let e = TracingEvent::SpanExited { id };
        let ghost t = self.trace@;
        self.emit(&e);
        self.entered.insert(id, count - 1);
        let ghost u = self.trace@;
        assert(u.drop_last() =~= t);
        assert(registered(u) == registered(t));
        assert(live(u) == live(t));
        assert(announced(u) == announced(t));
        Some(e)
    }

    /// Event of registered call site `metadata_id` under `parent` (dropped unless live).
    pub fn new_event(&mut self, metadata_id: MetadataId, parent: Option<RawSpanId>, values: TracedValues) -> (r:
        TracingEvent)
        requires
            old(self).wf(),
            registered(old(self).trace()).contains(metadata_id),
        ensures
            final(self).wf(),
            final(self).next_id() == old(self).next_id(),
            final(self).ref_counts() == old(self).ref_counts(),
            r == (TracingEvent::NewEvent {
                metadata_id,
                parent: live_parent(old(self).trace(), parent),
                values,
            }),
            final(self).trace() == old(self).trace().push(r),
    {
        let parent = self.live_parent_exec(parent);
        let e = TracingEvent::NewEvent { metadata_id, parent, values };
        self.emit_plain(&e);
        e
    }

    /// Appends an event that neither registers a call site nor creates or closes a span.
    fn emit_plain(&mut self, e: &TracingEvent)
        requires
            old(self).wf(),
            may_follow(old(self).trace@, *e),
            call_site_of(*e) is None,
            created_span(*e) is None,
            dropped_span(*e) is None,
            entered_span(*e) is None,
            exited_span(*e) is None,
        ensures
            final(self).wf(),
            final(self).trace@ == old(self).trace@.push(*e),
            final(self).call_sites == old(self).call_sites,
            final(self).ref_counts == old(self).ref_counts,
            final(self).next_span_id == old(self).next_span_id,
    {
        let ghost t = self.trace@;
        self.emit(e);
        let ghost u = self.trace@;
        assert(u.drop_last() =~= t);
        assert(registered(u) == registered(t));
        assert(live(u) == live(t));
        assert(announced(u) == announced(t));
    }

    /// Counts one more reference to span `id`, if it is live; emits nothing. Returns
    /// whether the span is live.
    pub fn clone_span(&mut self, id: RawSpanId) -> (r: bool)
        requires
            old(self).wf(),
        ensures
            final(self).wf(),
            r == live(old(self).trace()).contains(id),
            final(self).trace() == old(self).trace(),
            final(self).next_id() == old(self).next_id(),
            final(self).ref_counts() == if r && old(self).ref_counts()[id] < usize::MAX {
                old(self).ref_counts().insert(id, (old(self).ref_counts()[id] + 1) as usize)
            } else {
                old(self).ref_counts()
            },
    {
        let count = match self.ref_counts.get(&id) {
            Some(c) => *c,
            None => {
                return false;
            },
        };
        if count < usize::MAX {
            self.ref_counts.insert(id, count + 1);
            assert(self.ref_counts@.dom() =~= live(self.trace@));
        }
        true
    }

    /// Drops one reference to span `id`, if it is live. Dropping the last one closes
    /// the span, which emits the event reporting it.
    pub fn drop_span(&mut self, id: RawSpanId) -> (r: Option<TracingEvent>)
        requires
            old(self).wf(),
        ensures
            final(self).wf(),
            final(self).next_id() == old(self).next_id(),
            if !live(old(self).trace()).contains(id) {
                r is None && final(self).trace() == old(self).trace() && final(self).ref_counts()
                    == old(self).ref_counts()
            } else if old(self).ref_counts()[id] <= 1 {
                &&& r == Some(TracingEvent::SpanDropped { id })
                &&& final(self).trace() == old(self).trace().push(TracingEvent::SpanDropped { id })
                &&& final(self).ref_counts() == old(self).ref_counts().remove(id)
            } else {
                &&& r is None
                &&& final(self).trace() == old(self).trace()
                &&& final(self).ref_counts() == old(self).ref_counts().insert(
                    id,
                    (old(self).ref_counts()[id] - 1) as usize,
                )
            },
    {
        let count = match self.ref_counts.get(&id) {
            Some(c) => *c,
            None => {
                return None;
            },
        };
        if count > 1 {
            self.ref_counts.insert(id, count - 1);
            assert(self.ref_counts@.dom() =~= live(self.trace@));
            return None;
        }
        let ghost t = self.trace@;
        let e = TracingEvent::SpanDropped { id };
        assert(span_refs(e) =~= set![id]);
        self.emit(&e);
        self.ref_counts.remove(&id);
        let ghost u = self.trace@;
        assert(u.drop_last() =~= t);
        assert(registered(u) == registered(t));
        assert(live(u) == live(t).remove(id));
        assert(announced(u) == announced(t));
        assert(self.ref_counts@.dom() =~= live(u));
        Some(e)
    }
}

/// Number of events of stream `t` that create span `id`.
pub open spec fn created_count(t: Seq<TracingEvent>, id: RawSpanId) -> nat
    decreases t.len(),
{
    if t.len() == 0 {
        0
    } else {
        created_count(t.drop_last(), id) + if created_span(t.last()) == Some(id) {
            1nat
        } else {
            0nat
        }
    }
}

/// Number of events of stream `t` that close span `id`.
pub open spec fn dropped_count(t: Seq<TracingEvent>, id: RawSpanId) -> nat
    decreases t.len(),
{
    if t.len() == 0 {
        0
    } else {
        dropped_count(t.drop_last(), id) + if dropped_span(t.last()) == Some(id) {
            1nat
        } else {
            0nat
        }
    }
}

/// A prefix of a valid stream is valid.
pub proof fn lemma_stream_prefix(t: Seq<TracingEvent>, n: int)
    requires
        stream_ok(t),
        0 <= n <= t.len(),
    ensures
        stream_ok(t.take(n)),
{
    let u = t.take(n);
    assert forall|i: int| 0 <= i < u.len() implies #[trigger] may_follow(u.take(i), u[i]) by {
        assert(u.take(i) =~= t.take(i));
        assert(may_follow(t.take(i), t[i]));
    }
}

/// A call site registered by some event of a stream is registered by the stream, and
/// conversely.
pub proof fn lemma_registered(t: Seq<TracingEvent>, id: MetadataId)
    ensures
        registered(t).contains(id) <==> exists|i: int|
            0 <= i < t.len() && #[trigger] call_site_of(t[i]) == Some(id),
    decreases t.len(),
{
    if t.len() > 0 {
        let s = t.drop_last();
        lemma_registered(s, id);
        if registered(t).contains(id) {
            if call_site_of(t.last()) == Some(id) {
                assert(call_site_of(t[t.len() - 1]) == Some(id));
            } else {
                let i = choose|i: int| 0 <= i < s.len() && #[trigger] call_site_of(s[i]) == Some(id);
                assert(t[i] == s[i]);
            }
        }
        if exists|i: int| 0 <= i < t.len() && #[trigger] call_site_of(t[i]) == Some(id) {
            let i = choose|i: int| 0 <= i < t.len() && #[trigger] call_site_of(t[i]) == Some(id);
            if i < s.len() {
                assert(s[i] == t[i]);
            }
        }
    }
}

/// Metadata uniqueness: in a valid stream no call site is registered twice, and every
/// call site that an event refers to is registered by an earlier event.
pub proof fn lemma_metadata_uniqueness(t: Seq<TracingEvent>)
    requires
        stream_ok(t),
    ensures
        forall|i: int, j: int|
            0 <= i < j < t.len() && call_site_of(t[i]) is Some ==> #[trigger] call_site_of(t[j])
                != #[trigger] call_site_of(t[i]),
        forall|i: int|
            0 <= i < t.len() && #[trigger] metadata_ref(t[i]) is Some ==> exists|k: int|
                0 <= k < i && call_site_of(t[k]) == metadata_ref(t[i]),
{
    assert forall|i: int, j: int|
        0 <= i < j < t.len() && call_site_of(t[i]) is Some implies #[trigger] call_site_of(t[j])
        != #[trigger] call_site_of(t[i]) by {
        let id = call_site_of(t[i])->0;
        assert(may_follow(t.take(j), t[j]));
        lemma_registered(t.take(j), id);
        assert(t.take(j)[i] == t[i]);
    }
    assert forall|i: int| 0 <= i < t.len() && #[trigger] metadata_ref(t[i]) is Some implies exists|k: int|
        0 <= k < i && call_site_of(t[k]) == metadata_ref(t[i]) by {
        let id = metadata_ref(t[i])->0;
        assert(may_follow(t.take(i), t[i]));
        lemma_registered(t.take(i), id);
        let k = choose|k: int| 0 <= k < i && #[trigger] call_site_of(t.take(i)[k]) == Some(id);
        assert(t.take(i)[k] == t[k]);
    }
}

/// Span bookkeeping of a valid stream: a span is created at most once, never before
/// its identifier is announced, and its creations outnumber its closings by one while
/// it is live and by none otherwise.
pub proof fn lemma_span_counts(t: Seq<TracingEvent>, id: RawSpanId)
    requires
        stream_ok(t),
    ensures
        live(t).subset_of(announced(t)),
        created_count(t, id) <= 1,
        !announced(t).contains(id) ==> created_count(t, id) == 0,
        created_count(t, id) == dropped_count(t, id) + if live(t).contains(id) {
            1nat
        } else {
            0nat
        },
    decreases t.len(),
{
    if t.len() > 0 {
        let s = t.drop_last();
        let e = t.last();
        lemma_stream_prefix(t, t.len() - 1);
        assert(t.take(t.len() - 1) =~= s);
        assert(may_follow(t.take(t.len() - 1), t[t.len() - 1]));
        lemma_span_counts(s, id);
        assert forall|x: RawSpanId| live(s).contains(x) implies announced(s).contains(x) by {
            lemma_span_counts(s, x);
        }
        match (created_span(e), dropped_span(e)) {
            (Some(x), _) => {
                if x == id {
                    assert(!announced(s).contains(id));
                }
            },
            (_, Some(x)) => {
                if x == id {
                    assert(span_refs(e).contains(id));
                }
            },
            _ => {},
        }
    }
}

/// Resource management: in a valid stream every event acts only on live spans, a
/// span is exited only while it is entered, and once no span is live every span has
/// been closed exactly as often as it was created, at most once.
pub proof fn lemma_resource_management(t: Seq<TracingEvent>, id: RawSpanId)
    requires
        stream_ok(t),
    ensures
        forall|i: int| 0 <= i < t.len() ==> span_refs(t[i]).subset_of(live(#[trigger] t.take(i))),
        forall|i: int|
            0 <= i < t.len() && exited_span(t[i]) == Some(id) ==> depth(#[trigger] t.take(i), id)
                > 0,
        live(t) == Set::<RawSpanId>::empty() ==> created_count(t, id) == dropped_count(t, id)
            && created_count(t, id) <= 1,
{
    assert forall|i: int| 0 <= i < t.len() implies span_refs(t[i]).subset_of(
        live(#[trigger] t.take(i)),
    ) by {
        assert(may_follow(t.take(i), t[i]));
    }
    assert forall|i: int| 0 <= i < t.len() && exited_span(t[i]) == Some(id) implies depth(
        #[trigger] t.take(i),
        id,
    ) > 0 by {
        assert(may_follow(t.take(i), t[i]));
    }
    lemma_span_counts(t, id);
}

/// Parent of a new span or event: the explicit parent if one is given; otherwise,
/// when the parent comes from the context, the innermost span entered on this thread
/// (the last of `entered`); otherwise none.
pub fn parent_of(explicit: Option<RawSpanId>, contextual: bool, entered: &Vec<RawSpanId>) -> (r:
    Option<RawSpanId>)
    ensures
        r == match explicit {
            Some(p) => Some(p),
            None => if contextual && entered@.len() > 0 {
                Some(entered@.last())
            } else {
                None
            },
        },
{
    match explicit {
        Some(p) => Some(p),
        None => if contextual && entered.len() > 0 {
            Some(entered[entered.len() - 1])
        } else {
            None
        },
    }
}

/// Removes the innermost occurrence of span `id` from the stack of spans entered on a
/// thread; returns whether there was one.
pub fn exit_from(entered: &mut Vec<RawSpanId>, id: RawSpanId) -> (r: bool)
    ensures
        r == old(entered)@.contains(id),
        r ==> exists|k: int|
            0 <= k < old(entered)@.len() && old(entered)@[k] == id && (forall|j: int|
                k < j < old(entered)@.len() ==> old(entered)@[j] != id) && final(entered)@ == old(
                entered,
            )@.remove(k),
        !r ==> final(entered)@ == old(entered)@,
{
    let mut i = entered.len();
    while i > 0
        invariant
            i <= entered@.len(),
            entered@ == old(entered)@,
            forall|j: int| i <= j < entered@.len() ==> entered@[j] != id,
        decreases i,
    {
        if entered[i - 1] == id {
            let ghost before = entered@;
            entered.remove(i - 1);
            assert(before[i - 1] == id);
            return true;
        }
        i = i - 1;
    }
    false
}

} // verus!
