//! Receiving side of the tunnel: validates incoming events, keeps the tables that
//! outlive a receiving session, and decides what the host tracing runtime must do.

use vstd::prelude::*;

use std::collections::{HashMap, HashSet};

use crate::types::{CallSiteData, MetadataId, RawSpanId, TracingEvent};
use crate::sender::{live, registered, stream_ok, lemma_stream_prefix, may_follow, span_refs};
use crate::values::{merged, FieldEntries, TracedValues};

verus! {

broadcast use vstd::std_specs::hash::group_hash_axioms;

/// Largest number of values that a span or event may carry.
pub const MAX_VALUES: usize = 32;

/// Error of processing an incoming event.
#[derive(Debug, Clone, Copy, PartialEq, Eq, Structural)]
pub enum ReceiveError {
    /// The event refers to a call site that was never registered.
    UnknownMetadataId(MetadataId),
    /// The event refers to a span that is unknown or already closed.
    UnknownSpanId(RawSpanId),
    /// The event carries more values than a span or event may hold.
    TooManyValues {
        /// Number of values carried.
        actual: usize,
        /// Largest number allowed.
        max: usize,
    },
}

/// Model of a persisted span.
pub struct SpanModel {
    /// Call site of the span.
    pub metadata_id: MetadataId,
    /// Parent of the span, if any.
    pub parent_id: Option<RawSpanId>,
    /// Number of live references to the span.
    pub ref_count: usize,
    /// Values recorded on the span so far.
    pub values: FieldEntries,
}

/// Persisted description of an open span.
#[derive(Debug)]
pub struct SpanData {
    /// Call site of the span.
    pub metadata_id: MetadataId,
    /// Parent of the span, if any.
    pub parent_id: Option<RawSpanId>,
    /// Number of live references to the span.
    pub ref_count: usize,
    /// Values recorded on the span so far.
    pub values: TracedValues,
}

impl View for SpanData {
    type V = SpanModel;

    open spec fn view(&self) -> SpanModel {
        SpanModel {
            metadata_id: self.metadata_id,
            parent_id: self.parent_id,
            ref_count: self.ref_count,
            values: self.values@,
        }
    }
}

impl Clone for SpanData {
    fn clone(&self) -> (r: Self)
        ensures
            r@ == self@,
    {
        SpanData {
            metadata_id: self.metadata_id,
            parent_id: self.parent_id,
            ref_count: self.ref_count,
            values: self.values.clone(),
        }
    }
}

/// Call-site data seen so far, by call-site identifier.
#[derive(Debug)]
pub struct PersistedMetadata {
    inner: HashMap<MetadataId, CallSiteData>,
}

impl View for PersistedMetadata {
    type V = Map<MetadataId, CallSiteData>;

    closed spec fn view(&self) -> Map<MetadataId, CallSiteData> {
        self.inner@
    }
}

impl PersistedMetadata {
    /// Creates an empty table.
    pub fn new() -> (r: PersistedMetadata)
        ensures
            r@ == Map::<MetadataId, CallSiteData>::empty(),
    {
        PersistedMetadata { inner: HashMap::new() }
    }

    /// Records the data of call site `id`, replacing earlier data.
    pub fn insert(&mut self, id: MetadataId, data: CallSiteData)
        ensures
            final(self)@ == old(self)@.insert(id, data),
    {
        self.inner.insert(id, data);
    }

    /// Data of call site `id`, if registered.
    pub fn get(&self, id: MetadataId) -> (r: Option<&CallSiteData>)
        ensures
            match r {
                Some(d) => self@.contains_key(id) && self@[id] == *d,
                None => !self@.contains_key(id),
            },
    {
        self.inner.get(&id)
    }

    /// Whether call site `id` is registered.
    pub fn contains(&self, id: MetadataId) -> (r: bool)
        ensures
            r == self@.contains_key(id),
    {
        self.inner.contains_key(&id)
    }

    /// Number of registered call sites.
    pub fn len(&self) -> (r: usize)
        ensures
            r == self@.len(),
    {
        self.inner.len()
    }
}

/// Open spans, by span identifier.
#[derive(Debug)]
pub struct PersistedSpans {
    inner: HashMap<RawSpanId, SpanData>,
}

impl View for PersistedSpans {
    type V = Map<RawSpanId, SpanModel>;

    closed spec fn view(&self) -> Map<RawSpanId, SpanModel> {
        self.inner@.map_values(|d: SpanData| d@)
    }
}

impl PersistedSpans {
    /// Creates an empty table.
    pub fn new() -> (r: PersistedSpans)
        ensures
            r@ == Map::<RawSpanId, SpanModel>::empty(),
    {
        let r = PersistedSpans { inner: HashMap::new() };
        assert(r@ =~= Map::<RawSpanId, SpanModel>::empty());
        r
    }

    /// Records span `id`, replacing an earlier record.
    pub fn insert(&mut self, id: RawSpanId, data: SpanData)
        ensures
            final(self)@ == old(self)@.insert(id, data@),
    {
        self.inner.insert(id, data);
        assert(self@ =~= old(self)@.insert(id, data@));
    }

    /// Removes span `id`.
    pub fn remove(&mut self, id: RawSpanId)
        ensures
            final(self)@ == old(self)@.remove(id),
    {
        self.inner.remove(&id);
        assert(self@ =~= old(self)@.remove(id));
    }

    /// Record of span `id`, if open.
    pub fn get(&self, id: RawSpanId) -> (r: Option<&SpanData>)
        ensures
            match r {
                Some(d) => self@.contains_key(id) && self@[id] == d@,
                None => !self@.contains_key(id),
            },
    {
        self.inner.get(&id)
    }

    /// Whether span `id` is open.
    pub fn contains(&self, id: RawSpanId) -> (r: bool)
        ensures
            r == self@.contains_key(id),
    {
        self.inner.contains_key(&id)
    }

    /// Number of open spans.
    pub fn len(&self) -> (r: usize)
        ensures
            r == self@.len(),
    {
        assert(self@.dom() =~= self.inner@.dom());
        self.inner.len()
    }

    /// Whether no span is open.
    pub fn is_empty(&self) -> (r: bool)
        ensures
            r == (self@.len() == 0),
    {
        assert(self@.dom() =~= self.inner@.dom());
        self.inner.len() == 0
    }
}

/// Spans reified on the host during the current session.
#[derive(Debug)]
pub struct LocalSpans {
    inner: HashSet<RawSpanId>,
}

impl View for LocalSpans {
    type V = Set<RawSpanId>;

    closed spec fn view(&self) -> Set<RawSpanId> {
        self.inner@
    }
}

impl LocalSpans {
    /// Creates an empty set.
    pub fn new() -> (r: LocalSpans)
        ensures
            r@ == Set::<RawSpanId>::empty(),
    {
        LocalSpans { inner: HashSet::new() }
    }

    /// Whether span `id` is reified on the host.
    pub fn contains(&self, id: RawSpanId) -> (r: bool)
        ensures
            r == self@.contains(id),
    {
        self.inner.contains(&id)
    }

    /// Whether no span is reified.
    pub fn is_empty(&self) -> (r: bool)
        ensures
            r == self@.is_empty(),
    {
        self.inner.is_empty()
    }

    fn insert(&mut self, id: RawSpanId)
        ensures
            final(self)@ == old(self)@.insert(id),
    {
        self.inner.insert(id);
    }

    fn remove(&mut self, id: RawSpanId)
        ensures
            final(self)@ == old(self)@.remove(id),
    {
        self.inner.remove(&id);
    }
}

/// What the host tracing runtime must do to mirror an incoming event.
#[derive(Debug)]
pub enum HostAction {
    /// Open a host span for span `id` with the given call site, parent and values.
    CreateSpan {
        /// Identifier of the span.
        id: RawSpanId,
        /// Call site of the span.
        metadata_id: MetadataId,
        /// Parent of the span, if any.
        parent_id: Option<RawSpanId>,
        /// Values of the span.
        values: TracedValues,
    },
    /// Record values on the host span of span `id`.
    RecordValues {
        /// Identifier of the span.
        id: RawSpanId,
        /// Recorded values.
        values: TracedValues,
    },
    /// Enter the host span of span `id`.
    EnterSpan {
        /// Identifier of the span.
        id: RawSpanId,
    },
    /// Exit the host span of span `id`.
    ExitSpan {
        /// Identifier of the span.
        id: RawSpanId,
    },
    /// Close the host span of span `id`.
    CloseSpan {
        /// Identifier of the span.
        id: RawSpanId,
    },
    /// Emit a host event.
    EmitEvent {
        /// Call site of the event.
        metadata_id: MetadataId,
        /// Parent span of the event, if any.
        parent: Option<RawSpanId>,
        /// Values of the event.
        values: TracedValues,
    },
}

/// Model of a [`HostAction`].
pub enum HostActionModel {
    /// See [`HostAction::CreateSpan`].
    CreateSpan {
        id: RawSpanId,
        metadata_id: MetadataId,
        parent_id: Option<RawSpanId>,
        values: FieldEntries,
    },
    /// See [`HostAction::RecordValues`].
    RecordValues { id: RawSpanId, values: FieldEntries },
    /// See [`HostAction::EnterSpan`].
    EnterSpan { id: RawSpanId },
    /// See [`HostAction::ExitSpan`].
    ExitSpan { id: RawSpanId },
    /// See [`HostAction::CloseSpan`].
    CloseSpan { id: RawSpanId },
    /// See [`HostAction::EmitEvent`].
    EmitEvent { metadata_id: MetadataId, parent: Option<RawSpanId>, values: FieldEntries },
}

impl View for HostAction {
    type V = HostActionModel;

    open spec fn view(&self) -> HostActionModel {
        match self {
            HostAction::CreateSpan { id, metadata_id, parent_id, values } => {
                HostActionModel::CreateSpan {
                    id: *id,
                    metadata_id: *metadata_id,
                    parent_id: *parent_id,
                    values: values@,
                }
            },
            HostAction::RecordValues { id, values } => HostActionModel::RecordValues {
                id: *id,
                values: values@,
            },
            HostAction::EnterSpan { id } => HostActionModel::EnterSpan { id: *id },
            HostAction::ExitSpan { id } => HostActionModel::ExitSpan { id: *id },
            HostAction::CloseSpan { id } => HostActionModel::CloseSpan { id: *id },
            HostAction::EmitEvent { metadata_id, parent, values } => HostActionModel::EmitEvent {
                metadata_id: *metadata_id,
                parent: *parent,
                values: values@,
            },
        }
    }
}

/// Views of a sequence of actions.
pub open spec fn actions_view(v: Seq<HostAction>) -> Seq<HostActionModel> {
    v.map_values(|a: HostAction| a@)
}

/// Model of a receiver: the two persisted tables and the spans reified in this session.
pub struct ReceiverModel {
    /// Registered call sites.
    pub metadata: Map<MetadataId, CallSiteData>,
    /// Open spans.
    pub spans: Map<RawSpanId, SpanModel>,
    /// Spans reified on the host in this session.
    pub local: Set<RawSpanId>,
}

/// Spans that must be reified before span `id` can be used, from `id` up its
/// ancestor chain, stopping at a span that is reified (or already listed), at a
/// span that is not open, or at a root. `fuel` bounds the walk.
pub open spec fn missing_chain(
    spans: Map<RawSpanId, SpanModel>,
    visited: Set<RawSpanId>,
    id: RawSpanId,
    fuel: nat,
) -> Seq<RawSpanId>
    decreases fuel,
{
    if fuel == 0 || visited.contains(id) || !spans.contains_key(id) {
        Seq::empty()
    } else {
        match spans[id].parent_id {
            Some(p) => seq![id] + missing_chain(spans, visited.insert(id), p, (fuel - 1) as nat),
            None => seq![id],
        }
    }
}

/// The action that reifies open span `id`.
pub open spec fn create_action(spans: Map<RawSpanId, SpanModel>, id: RawSpanId) -> HostActionModel {
    HostActionModel::CreateSpan {
        id,
        metadata_id: spans[id].metadata_id,
        parent_id: spans[id].parent_id,
        values: spans[id].values,
    }
}

/// The spans that using span `id` reifies, child first.
pub open spec fn reified_chain(m: ReceiverModel, id: RawSpanId) -> Seq<RawSpanId> {
    missing_chain(m.spans, m.local, id, m.spans.dom().len() + 1)
}

/// The actions that reify the missing ancestors of span `id` and `id` itself,
/// root first.
pub open spec fn reify_actions(m: ReceiverModel, id: RawSpanId) -> Seq<HostActionModel> {
    reified_chain(m, id).reverse().map_values(|s: RawSpanId| create_action(m.spans, s))
}

/// `m` after reifying span `id` and its missing ancestors.
pub open spec fn reify_model(m: ReceiverModel, id: RawSpanId) -> ReceiverModel {
    ReceiverModel {
        local: m.local.union(reified_chain(m, id).to_set()),
        ..m
    }
}

/// Actions and state of reifying an optional parent span.
pub open spec fn reify_parent(m: ReceiverModel, parent: Option<RawSpanId>) -> (
    ReceiverModel,
    Seq<HostActionModel>,
) {
    match parent {
        Some(p) => (reify_model(m, p), reify_actions(m, p)),
        None => (m, Seq::empty()),
    }
}

/// Whether an optional parent refers to an unknown span.
pub open spec fn unknown_parent(m: ReceiverModel, parent: Option<RawSpanId>) -> bool {
    parent matches Some(p) && !m.spans.contains_key(p)
}

/// Result of processing event `e` in state `m`: the next state and the host
/// actions, or the error.
pub open spec fn receive_spec(m: ReceiverModel, e: TracingEvent) -> Result<
    (ReceiverModel, Seq<HostActionModel>),
    ReceiveError,
> {
    match e {
        TracingEvent::NewCallSite { id, data } => Ok(
            (
                if m.metadata.contains_key(id) {
                    m
                } else {
                    ReceiverModel { metadata: m.metadata.insert(id, data), ..m }
                },
                Seq::empty(),
            ),
        ),
        TracingEvent::NewSpan { id, parent_id, metadata_id, values } => {
            if !m.metadata.contains_key(metadata_id) {
                Err(ReceiveError::UnknownMetadataId(metadata_id))
            } else if unknown_parent(m, parent_id) {
                Err(ReceiveError::UnknownSpanId(parent_id->0))
            } else if values@.len() > MAX_VALUES {
                Err(ReceiveError::TooManyValues { actual: values@.len() as usize, max: MAX_VALUES })
            } else {
                let (m1, pre) = reify_parent(m, parent_id);
                let span = SpanModel { metadata_id, parent_id, ref_count: 1, values: values@ };
                Ok(
                    (
                        ReceiverModel {
                            spans: m1.spans.insert(id, span),
                            local: m1.local.insert(id),
                            ..m1
                        },
                        pre.push(
                            HostActionModel::CreateSpan {
                                id,
                                metadata_id,
                                parent_id,
                                values: values@,
                            },
                        ),
                    ),
                )
            }
        },
        TracingEvent::ValuesRecorded { id, values } => {
            if !m.spans.contains_key(id) {
                Err(ReceiveError::UnknownSpanId(id))
            } else if values@.len() > MAX_VALUES {
                Err(ReceiveError::TooManyValues { actual: values@.len() as usize, max: MAX_VALUES })
            } else {
                let span = m.spans[id];
                let updated = SpanModel { values: merged(span.values, values@), ..span };
                Ok(
                    (
                        ReceiverModel { spans: m.spans.insert(id, updated), ..m },
                        if m.local.contains(id) {
                            seq![HostActionModel::RecordValues { id, values: values@ }]
                        } else {
                            Seq::empty()
                        },
                    ),
                )
            }
        },
        TracingEvent::SpanEntered { id } => {
            if !m.spans.contains_key(id) {
                Err(ReceiveError::UnknownSpanId(id))
            } else {
                Ok((reify_model(m, id), reify_actions(m, id).push(HostActionModel::EnterSpan { id })))
            }
        },
        TracingEvent::SpanExited { id } => {
            if !m.spans.contains_key(id) {
                Err(ReceiveError::UnknownSpanId(id))
            } else {
                Ok((reify_model(m, id), reify_actions(m, id).push(HostActionModel::ExitSpan { id })))
            }
        },
        TracingEvent::SpanCloned { id } => {
            if !m.spans.contains_key(id) {
                Err(ReceiveError::UnknownSpanId(id))
            } else {
                let span = m.spans[id];
                let count = if span.ref_count < usize::MAX {
                    (span.ref_count + 1) as usize
                } else {
                    span.ref_count
                };
                Ok(
                    (
                        ReceiverModel {
                            spans: m.spans.insert(id, SpanModel { ref_count: count, ..span }),
                            ..m
                        },
                        Seq::empty(),
                    ),
                )
            }
        },
        TracingEvent::SpanDropped { id } => {
            if !m.spans.contains_key(id) {
                Err(ReceiveError::UnknownSpanId(id))
            } else {
                let span = m.spans[id];
                if span.ref_count <= 1 {
                    Ok(
                        (
                            ReceiverModel {
                                spans: m.spans.remove(id),
                                local: m.local.remove(id),
                                ..m
                            },
                            if m.local.contains(id) {
                                seq![HostActionModel::CloseSpan { id }]
                            } else {
                                Seq::empty()
                            },
                        ),
                    )
                } else {
                    let count = (span.ref_count - 1) as usize;
                    Ok(
                        (
                            ReceiverModel {
                                spans: m.spans.insert(id, SpanModel { ref_count: count, ..span }),
                                ..m
                            },
                            Seq::empty(),
                        ),
                    )
                }
            }
        },
        TracingEvent::NewEvent { metadata_id, parent, values } => {
            if !m.metadata.contains_key(metadata_id) {
                Err(ReceiveError::UnknownMetadataId(metadata_id))
            } else if unknown_parent(m, parent) {
                Err(ReceiveError::UnknownSpanId(parent->0))
            } else if values@.len() > MAX_VALUES {
                Err(ReceiveError::TooManyValues { actual: values@.len() as usize, max: MAX_VALUES })
            } else {
                let (m1, pre) = reify_parent(m, parent);
                Ok(
                    (
                        m1,
                        pre.push(
                            HostActionModel::EmitEvent { metadata_id, parent, values: values@ },
                        ),
                    ),
                )
            }
        },
    }
}

/// Spans already visited by an ancestor walk: the reified ones and those listed.
pub open spec fn visited(local: Set<RawSpanId>, chain: Seq<RawSpanId>) -> Set<RawSpanId> {
    local.union(chain.to_set())
}

/// Receiver of events from the tunnel. It validates each event against the tables of
/// registered call sites and open spans, updates them, and returns the actions that the
/// host tracing runtime must perform. State changes are all-or-nothing per event.
#[derive(Debug)]
pub struct TracingEventReceiver {
    metadata: PersistedMetadata,
    spans: PersistedSpans,
    local_spans: LocalSpans,
}

impl View for TracingEventReceiver {
    type V = ReceiverModel;

    closed spec fn view(&self) -> ReceiverModel {
        ReceiverModel {
            metadata: self.metadata@,
            spans: self.spans@,
            local: self.local_spans@,
        }
    }
}

impl TracingEventReceiver {
    /// Creates a receiver that resumes from persisted call sites and spans, with the
    /// given spans already reified on the host.
    pub fn new(metadata: PersistedMetadata, spans: PersistedSpans, local_spans: LocalSpans) -> (r:
        TracingEventReceiver)
        ensures
            r@ == (ReceiverModel { metadata: metadata@, spans: spans@, local: local_spans@ }),
    {
        TracingEventReceiver { metadata, spans, local_spans }
    }

    /// Registered call sites.
    pub fn metadata(&self) -> (r: &PersistedMetadata)
        ensures
            r@ == self@.metadata,
    {
        &self.metadata
    }

    /// Open spans.
    pub fn spans(&self) -> (r: &PersistedSpans)
        ensures
            r@ == self@.spans,
    {
        &self.spans
    }

    /// Spans reified on the host in this session.
    pub fn local_spans(&self) -> (r: &LocalSpans)
        ensures
            r@ == self@.local,
    {
        &self.local_spans
    }

    /// Writes a snapshot of the registered call sites into `persisted`.
    pub fn persist_metadata(&self, persisted: &mut PersistedMetadata)
        ensures
            final(persisted)@ == self@.metadata,
    {
        *persisted = PersistedMetadata { inner: self.metadata.inner.clone() };
    }

    /// Ends the session and hands over the table of open spans.
    pub fn persist_spans(self) -> (r: PersistedSpans)
        ensures
            r@ == self@.spans,
    {
        self.spans
    }

    /// Processes an incoming event: validates it, updates the tables and returns the
    /// host actions that mirror it, or returns the first error and changes nothing.
    pub fn try_receive(&mut self, event: TracingEvent) -> (r: Result<Vec<HostAction>, ReceiveError>)
        ensures
            match receive_spec(old(self)@, event) {
                Ok((m, acts)) => r matches Ok(v) && final(self)@ == m && actions_view(v@) == acts,
                Err(e) => r matches Err(e2) && e2 == e && final(self)@ == old(self)@,
            },
    {
        let ghost m = self@;
        let mut actions: Vec<HostAction> = Vec::new();
        assert(actions_view(actions@) =~= Seq::<HostActionModel>::empty());
        match event {
            TracingEvent::NewCallSite { id, data } => {
                if !self.metadata.contains(id) {
                    self.metadata.insert(id, data);
                }
            },
            TracingEvent::NewSpan { id, parent_id, metadata_id, values } => {
                if !self.metadata.contains(metadata_id) {
                    return Err(ReceiveError::UnknownMetadataId(metadata_id));
                }
                if let Some(p) = parent_id {
                    if !self.spans.contains(p) {
                        return Err(ReceiveError::UnknownSpanId(p));
                    }
                }
                if values.len() > MAX_VALUES {
                    return Err(ReceiveError::TooManyValues { actual: values.len(), max: MAX_VALUES });
                }
                if let Some(p) = parent_id {
                    self.reify(p, &mut actions);
                }
                let action_values = values.clone();
                self.spans.insert(id, SpanData { metadata_id, parent_id, ref_count: 1, values });
                self.local_spans.insert(id);
                let ghost prev = actions@;
                actions.push(
                    HostAction::CreateSpan { id, metadata_id, parent_id, values: action_values },
                );
                assert(actions_view(actions@) =~= actions_view(prev).push(actions@.last()@));
            },
            TracingEvent::ValuesRecorded { id, values } => {
                let mut data = match self.spans.get(id) {
                    Some(d) => d.clone(),
                    None => {
                        return Err(ReceiveError::UnknownSpanId(id));
                    },
                };
                if values.len() > MAX_VALUES {
                    return Err(ReceiveError::TooManyValues { actual: values.len(), max: MAX_VALUES });
                }
                data.values.extend(&values);
                self.spans.insert(id, data);
                if self.local_spans.contains(id) {
                    actions.push(HostAction::RecordValues { id, values });
                    assert(actions_view(actions@) =~= seq![
                        HostActionModel::RecordValues { id, values: values@ },
                    ]);
                }
            },
            TracingEvent::SpanEntered { id } => {
                if !self.spans.contains(id) {
                    return Err(ReceiveError::UnknownSpanId(id));
                }
                self.reify(id, &mut actions);
                let ghost prev = actions@;
                actions.push(HostAction::EnterSpan { id });
                assert(actions_view(actions@) =~= actions_view(prev).push(actions@.last()@));
            },
            TracingEvent::SpanExited { id } => {
                if !self.spans.contains(id) {
                    return Err(ReceiveError::UnknownSpanId(id));
                }
                self.reify(id, &mut actions);
                let ghost prev = actions@;
                actions.push(HostAction::ExitSpan { id });
                assert(actions_view(actions@) =~= actions_view(prev).push(actions@.last()@));
            },
            TracingEvent::SpanCloned { id } => {
                let mut data = match self.spans.get(id) {
                    Some(d) => d.clone(),
                    None => {
                        return Err(ReceiveError::UnknownSpanId(id));
                    },
                };
                if data.ref_count < usize::MAX {
                    data.ref_count = data.ref_count + 1;
                }
                self.spans.insert(id, data);
            },
            TracingEvent::SpanDropped { id } => {
                let mut data = match self.spans.get(id) {
                    Some(d) => d.clone(),
                    None => {
                        return Err(ReceiveError::UnknownSpanId(id));
                    },
                };
                if data.ref_count <= 1 {
                    self.spans.remove(id);
                    if self.local_spans.contains(id) {
                        actions.push(HostAction::CloseSpan { id });
                        assert(actions_view(actions@) =~= seq![HostActionModel::CloseSpan { id }]);
                    }
                    self.local_spans.remove(id);
                } else {
                    data.ref_count = data.ref_count - 1;
                    self.spans.insert(id, data);
                }
            },
            TracingEvent::NewEvent { metadata_id, parent, values } => {
                if !self.metadata.contains(metadata_id) {
                    return Err(ReceiveError::UnknownMetadataId(metadata_id));
                }
                if let Some(p) = parent {
                    if !self.spans.contains(p) {
                        return Err(ReceiveError::UnknownSpanId(p));
                    }
                }
                if values.len() > MAX_VALUES {
                    return Err(ReceiveError::TooManyValues { actual: values.len(), max: MAX_VALUES });
                }
                if let Some(p) = parent {
                    self.reify(p, &mut actions);
                }
                let ghost prev = actions@;
                actions.push(HostAction::EmitEvent { metadata_id, parent, values });
                assert(actions_view(actions@) =~= actions_view(prev).push(actions@.last()@));
            },
        }
        Ok(actions)
    }

    /// Processes an incoming event like [`Self::try_receive`], dropping an invalid
    /// event: it then changes nothing and asks nothing of the host.
    pub fn receive(&mut self, event: TracingEvent) -> (r: Vec<HostAction>)
        ensures
            match receive_spec(old(self)@, event) {
                Ok((m, acts)) => final(self)@ == m && actions_view(r@) == acts,
                Err(_) => final(self)@ == old(self)@ && r@.len() == 0,
            },
    {
        match self.try_receive(event) {
            Ok(actions) => actions,
            Err(_) => Vec::new(),
        }
    }

    /// Appends the actions that reify span `id` and its missing ancestors, root first.
    fn reify(&mut self, id: RawSpanId, actions: &mut Vec<HostAction>)
        ensures
            final(self)@ == reify_model(old(self)@, id),
            actions_view(final(actions)@) == actions_view(old(actions)@) + reify_actions(
                old(self)@,
                id,
            ),
    {
        let ghost m = self@;
        let ghost fuel0 = m.spans.dom().len() + 1;
        let ghost a0 = actions_view(actions@);
        let mut chain: Vec<RawSpanId> = Vec::new();
        let mut pending: Vec<HostAction> = Vec::new();
        let mut cur = id;
        let mut fuel: u128 = self.spans.len() as u128 + 1;
        let mut done = false;
        assert(visited(m.local, chain@) =~= m.local);
        while !done
            invariant
                self@ == m,
                fuel as nat + chain@.len() == fuel0,
                pending@.len() == chain@.len(),
                forall|k: int|
                    0 <= k < chain@.len() ==> (#[trigger] pending@[k])@ == create_action(
                        m.spans,
                        chain@[k],
                    ),
                done ==> missing_chain(m.spans, m.local, id, fuel0) == chain@,
                !done ==> missing_chain(m.spans, m.local, id, fuel0) == chain@ + missing_chain(
                    m.spans,
                    visited(m.local, chain@),
                    cur,
                    fuel as nat,
                ),
            decreases 2 * fuel + if done {
                0int
            } else {
                1int
            },
        {
            let seen = self.local_spans.contains(cur) || vec_contains(&chain, cur);
            assert(seen == visited(m.local, chain@).contains(cur));
            if fuel == 0 || seen {
                done = true;
                assert(chain@ + Seq::<RawSpanId>::empty() =~= chain@);
            } else {
                match self.spans.get(cur) {
                    None => {
                        done = true;
                        assert(chain@ + Seq::<RawSpanId>::empty() =~= chain@);
                    },
                    Some(data) => {
                        let ghost before = chain@;
                        let action = HostAction::CreateSpan {
                            id: cur,
                            metadata_id: data.metadata_id,
                            parent_id: data.parent_id,
                            values: data.values.clone(),
                        };
                        let parent = data.parent_id;
                        pending.push(action);
                        chain.push(cur);
                        fuel = fuel - 1;
                        proof {
                            before.lemma_push_to_set_commute(cur);
                        }
                        assert(visited(m.local, before).insert(cur) =~= visited(m.local, chain@));
                        match parent {
                            Some(p) => {
                                assert(before + (seq![cur] + missing_chain(
                                    m.spans,
                                    visited(m.local, chain@),
                                    p,
                                    fuel as nat,
                                )) =~= chain@ + missing_chain(
                                    m.spans,
                                    visited(m.local, chain@),
                                    p,
                                    fuel as nat,
                                ));
                                cur = p;
                            },
                            None => {
                                assert(before + seq![cur] =~= chain@);
                                done = true;
                            },
                        }
                    },
                }
            }
        }
        let ghost c0 = chain@;
        let ghost r = c0.reverse();
        assert(reified_chain(m, id) == c0);
        while chain.len() > 0
            invariant
                pending@.len() == chain@.len(),
                r == c0.reverse(),
                chain@.len() <= c0.len(),
                chain@ == c0.take(chain@.len() as int),
                forall|k: int|
                    0 <= k < chain@.len() ==> (#[trigger] pending@[k])@ == create_action(
                        m.spans,
                        c0[k],
                    ),
                self@.metadata == m.metadata,
                self@.spans == m.spans,
                self@.local == visited(m.local, c0.subrange(chain@.len() as int, c0.len() as int)),
                actions_view(actions@) == a0 + r.take(c0.len() - chain@.len()).map_values(
                    |s: RawSpanId| create_action(m.spans, s),
                ),
            decreases chain@.len(),
        {
            let ghost n = chain@.len();
            let ghost prev = actions@;
            assert(n > 0);
            let c = chain.pop();
            let a = pending.pop();
            match (c, a) {
                (Some(c), Some(a)) => {
                    assert(c == c0[n - 1]);
                    actions.push(a);
                    self.local_spans.insert(c);
                    assert(chain@ =~= c0.take(chain@.len() as int));
                    proof {
                        let s1 = c0.subrange(n - 1, c0.len() as int);
                        let s2 = c0.subrange(n as int, c0.len() as int);
                        assert forall|x: RawSpanId|
                            s1.to_set().contains(x) <==> s2.to_set().insert(c).contains(x) by {
                            if s1.contains(x) {
                                let k = choose|k: int| 0 <= k < s1.len() && s1[k] == x;
                                if k > 0 {
                                    assert(s2[k - 1] == x);
                                }
                            }
                            if s2.contains(x) {
                                let k = choose|k: int| 0 <= k < s2.len() && s2[k] == x;
                                assert(s1[k + 1] == x);
                            }
                            if x == c {
                                assert(s1[0] == x);
                            }
                        }
                        assert(s1.to_set() =~= s2.to_set().insert(c));
                    }
                    assert(visited(m.local, c0.subrange(n - 1, c0.len() as int)) =~= visited(
                        m.local,
                        c0.subrange(n as int, c0.len() as int),
                    ).insert(c));
                    assert(r.len() == c0.len());
                    assert(r[c0.len() - n] == c0[n - 1]);
                    assert(r.take(c0.len() - n + 1) =~= r.take(c0.len() - n).push(c));
                    assert(actions_view(actions@) =~= actions_view(prev).push(a@));
                    assert(r.take(c0.len() - n + 1).map_values(
                        |s: RawSpanId| create_action(m.spans, s),
                    ) =~= r.take(c0.len() - n).map_values(
                        |s: RawSpanId| create_action(m.spans, s),
                    ).push(create_action(m.spans, c)));
                },
                _ => {
                    assert(false);
                },
            }
        }
        assert(r.take(c0.len() as int) =~= r);
        assert(c0.subrange(0, c0.len() as int) =~= c0);
    }
}

/// Whether `v` holds `x`.
fn vec_contains(v: &Vec<RawSpanId>, x: RawSpanId) -> (r: bool)
    ensures
        r == v@.contains(x),
{
    let mut i: usize = 0;
    while i < v.len()
        invariant
            i <= v@.len(),
            forall|k: int| 0 <= k < i ==> v@[k] != x,
        decreases v@.len() - i,
    {
        if v[i] == x {
            return true;
        }
        i = i + 1;
    }
    false
}

/// Enters, exits and drops span `id`, the last reference to which is held, and
/// returns the host actions in order: reifying the span and its missing ancestors
/// (root first, each with its persisted call site, parent and values), entering,
/// exiting and closing it. Dropping removes the span, and only it, from both tables.
pub fn visit_and_drop_span(receiver: &mut TracingEventReceiver, id: RawSpanId) -> (r: Vec<
    HostAction,
>)
    requires
        old(receiver)@.spans.contains_key(id),
        old(receiver)@.spans[id].ref_count <= 1,
    ensures
        reify_model(old(receiver)@, id).local.contains(id),
        actions_view(r@) == reify_actions(old(receiver)@, id).push(
            HostActionModel::EnterSpan { id },
        ).push(HostActionModel::ExitSpan { id }).push(HostActionModel::CloseSpan { id }),
        final(receiver)@.spans == old(receiver)@.spans.remove(id),
        final(receiver)@.local == reify_model(old(receiver)@, id).local.remove(id),
        final(receiver)@.metadata == old(receiver)@.metadata,
{
    let ghost m = receiver@;
    let mut actions = receiver.receive(TracingEvent::SpanEntered { id });
    proof {
        let c = reified_chain(m, id);
        if !m.local.contains(id) {
            assert(c[0] == id);
            assert(c.to_set().contains(id));
        }
    }
    let ghost m1 = receiver@;
    let ghost a1 = actions@;
    let mut exit = receiver.receive(TracingEvent::SpanExited { id });
    proof {
        assert(reified_chain(m1, id) =~= Seq::<RawSpanId>::empty());
        assert(m1.local.union(reified_chain(m1, id).to_set()) =~= m1.local);
        assert(reify_actions(m1, id) =~= Seq::<HostActionModel>::empty());
    }
    let ghost e = exit@;
    actions.append(&mut exit);
    let ghost a2 = actions@;
    let mut close = receiver.receive(TracingEvent::SpanDropped { id });
    let ghost c = close@;
    actions.append(&mut close);
    proof {
        assert(actions_view(a1 + e) =~= actions_view(a1) + actions_view(e));
        assert(actions_view(a2 + c) =~= actions_view(a2) + actions_view(c));
        assert(actions_view(actions@) =~= reify_actions(m, id).push(
            HostActionModel::EnterSpan { id },
        ).push(HostActionModel::ExitSpan { id }).push(HostActionModel::CloseSpan { id }));
    }
    actions
}

/// State after processing `events` in order with [`TracingEventReceiver::receive`],
/// which drops invalid events.
pub open spec fn receive_all(m: ReceiverModel, events: Seq<TracingEvent>) -> ReceiverModel
    decreases events.len(),
{
    if events.len() == 0 {
        m
    } else {
        let next = match receive_spec(m, events[0]) {
            Ok((m1, _)) => m1,
            Err(_) => m,
        };
        receive_all(next, events.drop_first())
    }
}

/// State of a new receiver built from the persisted tables of `m`: nothing is
/// reified on the host yet.
pub open spec fn restored(m: ReceiverModel) -> ReceiverModel {
    ReceiverModel { metadata: m.metadata, spans: m.spans, local: Set::empty() }
}

/// Whether two states have the same persisted tables.
pub open spec fn same_persisted(a: ReceiverModel, b: ReceiverModel) -> bool {
    a.metadata == b.metadata && a.spans == b.spans
}

/// Whether an event is accepted, which error it raises, and what it does to the
/// persisted tables depend on the persisted tables alone, not on which spans
/// are reified on the host.
pub proof fn lemma_step_independent_of_local(a: ReceiverModel, b: ReceiverModel, e: TracingEvent)
    requires
        same_persisted(a, b),
    ensures
        receive_spec(a, e) is Ok <==> receive_spec(b, e) is Ok,
        receive_spec(a, e) matches Err(x) ==> receive_spec(b, e) == Err::<
            (ReceiverModel, Seq<HostActionModel>),
            ReceiveError,
        >(x),
        receive_spec(a, e) matches Ok((a1, _)) ==> (receive_spec(b, e) matches Ok((b1, _))
            && same_persisted(a1, b1)),
{
}

/// Processing a sequence of events after processing another one is processing
/// the two one after the other.
pub proof fn lemma_receive_all_append(m: ReceiverModel, e1: Seq<TracingEvent>, e2: Seq<TracingEvent>)
    ensures
        receive_all(m, e1 + e2) == receive_all(receive_all(m, e1), e2),
    decreases e1.len(),
{
    if e1.len() == 0 {
        assert(e1 + e2 =~= e2);
    } else {
        assert((e1 + e2)[0] == e1[0]);
        assert((e1 + e2).drop_first() =~= e1.drop_first() + e2);
        let next = match receive_spec(m, e1[0]) {
            Ok((m1, _)) => m1,
            Err(_) => m,
        };
        lemma_receive_all_append(next, e1.drop_first(), e2);
    }
}

/// The persisted tables after a sequence of events depend on the persisted tables
/// before it alone.
pub proof fn lemma_receive_all_independent_of_local(
    a: ReceiverModel,
    b: ReceiverModel,
    events: Seq<TracingEvent>,
)
    requires
        same_persisted(a, b),
    ensures
        same_persisted(receive_all(a, events), receive_all(b, events)),
    decreases events.len(),
{
    if events.len() > 0 {
        lemma_step_independent_of_local(a, b, events[0]);
        let na = match receive_spec(a, events[0]) {
            Ok((m1, _)) => m1,
            Err(_) => a,
        };
        let nb = match receive_spec(b, events[0]) {
            Ok((m1, _)) => m1,
            Err(_) => b,
        };
        lemma_receive_all_independent_of_local(na, nb, events.drop_first());
    }
}

/// Round trip through persistence: splitting an event stream anywhere, processing
/// the first part, persisting the tables, building a new receiver from them and
/// processing the second part leaves the same persisted tables as processing the
/// whole stream with one receiver.
pub proof fn lemma_persistence_round_trip(
    m: ReceiverModel,
    e1: Seq<TracingEvent>,
    e2: Seq<TracingEvent>,
)
    ensures
        same_persisted(receive_all(restored(receive_all(m, e1)), e2), receive_all(m, e1 + e2)),
{
    lemma_receive_all_append(m, e1, e2);
    lemma_receive_all_independent_of_local(restored(receive_all(m, e1)), receive_all(m, e1), e2);
}

/// Bounded fields: a new span whose call site is registered and whose parent, if any,
/// is open is accepted exactly when it carries at most `MAX_VALUES` values, and is
/// otherwise refused with the number it carries and that maximum.
pub proof fn lemma_bounded_fields(
    m: ReceiverModel,
    id: RawSpanId,
    parent_id: Option<RawSpanId>,
    metadata_id: MetadataId,
    values: TracedValues,
)
    requires
        m.metadata.contains_key(metadata_id),
        !unknown_parent(m, parent_id),
    ensures
        ({
            let r = receive_spec(m, TracingEvent::NewSpan { id, parent_id, metadata_id, values });
            &&& r is Ok <==> values@.len() <= MAX_VALUES
            &&& values@.len() > MAX_VALUES ==> r == Err::<
                (ReceiverModel, Seq<HostActionModel>),
                ReceiveError,
            >(ReceiveError::TooManyValues { actual: values@.len() as usize, max: MAX_VALUES })
        }),
{
}

/// Every span that the ancestor walk lists is open.
pub proof fn lemma_chain_open(
    spans: Map<RawSpanId, SpanModel>,
    visited: Set<RawSpanId>,
    id: RawSpanId,
    fuel: nat,
)
    ensures
        forall|x: RawSpanId|
            #[trigger] missing_chain(spans, visited, id, fuel).to_set().contains(x) ==> spans.contains_key(x),
    decreases fuel,
{
    let c = missing_chain(spans, visited, id, fuel);
    if !(fuel == 0 || visited.contains(id) || !spans.contains_key(id)) {
        if let Some(p) = spans[id].parent_id {
            let rest = missing_chain(spans, visited.insert(id), p, (fuel - 1) as nat);
            lemma_chain_open(spans, visited.insert(id), p, (fuel - 1) as nat);
            assert forall|x: RawSpanId| #[trigger] c.to_set().contains(x) implies spans.contains_key(x) by {
                let k = choose|k: int| 0 <= k < c.len() && c[k] == x;
                if k > 0 {
                    assert(rest[k - 1] == x);
                    assert(rest.to_set().contains(x));
                }
            }
        } else {
            assert forall|x: RawSpanId| #[trigger] c.to_set().contains(x) implies spans.contains_key(x) by {
                let k = choose|k: int| 0 <= k < c.len() && c[k] == x;
            }
        }
    }
}

/// A receiver that has seen nothing.
pub open spec fn empty_model() -> ReceiverModel {
    ReceiverModel { metadata: Map::empty(), spans: Map::empty(), local: Set::empty() }
}

/// Whether every event of `t` is one the receiver takes from a sender: no reference
/// is cloned, and no new span carries more than `MAX_VALUES` values.
pub open spec fn replayable(t: Seq<TracingEvent>) -> bool {
    forall|i: int|
        0 <= i < t.len() ==> !(#[trigger] t[i] is SpanCloned) && (t[i] matches TracingEvent::NewSpan {
            values,
            ..
        } ==> values@.len() <= MAX_VALUES)
}

/// Whether `m` mirrors stream `t`: its call sites are those `t` registered, its open
/// spans are those `t` left live, each with one reference, and only open spans are
/// reified on the host.
pub open spec fn mirrors(m: ReceiverModel, t: Seq<TracingEvent>) -> bool {
    &&& m.metadata.dom() == registered(t)
    &&& m.spans.dom() == live(t)
    &&& forall|id: RawSpanId| #[trigger] m.spans.contains_key(id) ==> m.spans[id].ref_count == 1
    &&& m.local.subset_of(m.spans.dom())
}

/// Replaying a valid stream of a sender into a new receiver leaves open exactly the
/// spans that the stream left live, and reified on the host only open spans.
pub proof fn lemma_replay(t: Seq<TracingEvent>)
    requires
        stream_ok(t),
        replayable(t),
    ensures
        mirrors(receive_all(empty_model(), t), t),
    decreases t.len(),
{
    if t.len() == 0 {
        assert(empty_model().metadata.dom() =~= Set::<MetadataId>::empty());
        assert(empty_model().spans.dom() =~= Set::<RawSpanId>::empty());
    } else {
        let n = t.len() - 1;
        let s = t.drop_last();
        let e = t.last();
        assert(t.take(n) =~= s);
        lemma_stream_prefix(t, n);
        assert(may_follow(t.take(n), t[n]));
        assert forall|i: int| 0 <= i < s.len() implies !(#[trigger] s[i] is SpanCloned) && (
        s[i] matches TracingEvent::NewSpan { values, .. } ==> values@.len() <= MAX_VALUES) by {
            assert(s[i] == t[i]);
        }
        lemma_replay(s);
        let m = receive_all(empty_model(), s);
        lemma_receive_all_append(empty_model(), s, seq![e]);
        assert(s + seq![e] =~= t);
        assert(seq![e].drop_first() =~= Seq::<TracingEvent>::empty());
        let next = match receive_spec(m, e) {
            Ok((m1, _)) => m1,
            Err(_) => m,
        };
        assert(receive_all(empty_model(), t) == receive_all(m, seq![e]));
        assert(seq![e][0] == e);
        assert(receive_all(next, Seq::<TracingEvent>::empty()) == next);
        assert(receive_all(m, seq![e]) == receive_all(next, seq![e].drop_first()));
        assert(receive_all(m, seq![e]) == next);
        assert(!(t[n] is SpanCloned));
        match e {
            TracingEvent::NewCallSite { id, data } => {
                assert(next.metadata.dom() =~= registered(t));
                assert(next.spans.dom() =~= live(t));
            },
            TracingEvent::NewSpan { id, parent_id, metadata_id, values } => {
                assert(span_refs(e).subset_of(live(s)));
                if let Some(p) = parent_id {
                    assert(span_refs(e).contains(p));
                    lemma_chain_open(m.spans, m.local, p, m.spans.dom().len() + 1);
                }
                assert(receive_spec(m, e) is Ok);
                assert(next.metadata.dom() =~= registered(t));
                assert(next.spans.dom() =~= live(t));
                assert(next.local.subset_of(next.spans.dom()));
            },
            TracingEvent::SpanEntered { id } => {
                lemma_chain_open(m.spans, m.local, id, m.spans.dom().len() + 1);
                assert(next.metadata.dom() =~= registered(t));
                assert(next.spans.dom() =~= live(t));
            },
            TracingEvent::SpanExited { id } => {
                lemma_chain_open(m.spans, m.local, id, m.spans.dom().len() + 1);
                assert(next.metadata.dom() =~= registered(t));
                assert(next.spans.dom() =~= live(t));
            },
            TracingEvent::NewEvent { metadata_id, parent, values } => {
                if let Some(p) = parent {
                    lemma_chain_open(m.spans, m.local, p, m.spans.dom().len() + 1);
                }
                assert(next.metadata.dom() =~= registered(t));
                assert(next.spans.dom() =~= live(t));
            },
            TracingEvent::SpanDropped { id } => {
                assert(span_refs(e).contains(id));
                assert(next.metadata.dom() =~= registered(t));
                assert(next.spans.dom() =~= live(t));
            },
            _ => {
                assert(next.metadata.dom() =~= registered(t));
                assert(next.spans.dom() =~= live(t));
            },
        }
    }
}

/// Resource management on the host: replaying a valid stream of a sender that ends
/// with no live span into a new receiver leaves no span open and none reified on the
/// host, every reified span having been closed.
pub proof fn lemma_replay_releases_everything(t: Seq<TracingEvent>)
    requires
        stream_ok(t),
        replayable(t),
        live(t) == Set::<RawSpanId>::empty(),
    ensures
        receive_all(empty_model(), t).spans == Map::<RawSpanId, SpanModel>::empty(),
        receive_all(empty_model(), t).local == Set::<RawSpanId>::empty(),
{
    lemma_replay(t);
    let m = receive_all(empty_model(), t);
    assert(m.spans =~= Map::<RawSpanId, SpanModel>::empty());
    assert(m.local =~= Set::<RawSpanId>::empty());
}

/// Whether every open span of `m` names a registered call site.
pub open spec fn spans_registered(m: ReceiverModel) -> bool {
    forall|id: RawSpanId| #[trigger] m.spans.contains_key(id) ==> m.metadata.contains_key(m.spans[id].metadata_id)
}

/// The call site that a host action asks the host to use, if any.
pub open spec fn action_call_site(a: HostActionModel) -> Option<MetadataId> {
    match a {
        HostActionModel::CreateSpan { metadata_id, .. } => Some(metadata_id),
        HostActionModel::EmitEvent { metadata_id, .. } => Some(metadata_id),
        _ => None,
    }
}

/// The spans that reifying span `p` creates on the host name registered call sites.
pub proof fn lemma_reify_registered(m: ReceiverModel, p: RawSpanId)
    requires
        spans_registered(m),
    ensures
        forall|k: int|
            0 <= k < reify_actions(m, p).len() ==> #[trigger] action_call_site(reify_actions(m, p)[k])
                is Some && m.metadata.contains_key(action_call_site(reify_actions(m, p)[k])->0),
{
    lemma_chain_open(m.spans, m.local, p, m.spans.dom().len() + 1);
    let c = reified_chain(m, p);
    assert forall|k: int| 0 <= k < reify_actions(m, p).len() implies #[trigger] action_call_site(
        reify_actions(m, p)[k],
    ) is Some && m.metadata.contains_key(action_call_site(reify_actions(m, p)[k])->0) by {
        let x = c.reverse()[k];
        assert(c[c.len() - 1 - k] == x);
        assert(c.to_set().contains(x));
    }
}

/// One registration per call site, on the host side: an accepted event never changes
/// the data of a registered call site, keeps every open span's call site registered,
/// and every span or event it asks the host to create names a call site registered
/// both before and after it.
pub proof fn lemma_call_sites_stable(m: ReceiverModel, e: TracingEvent)
    requires
        spans_registered(m),
    ensures
        receive_spec(m, e) matches Ok((m1, acts)) ==> {
            &&& forall|id: MetadataId| #[trigger] m.metadata.contains_key(id) ==> m1.metadata.contains_key(id)
                && m1.metadata[id] == m.metadata[id]
            &&& spans_registered(m1)
            &&& forall|k: int|
                0 <= k < acts.len() && #[trigger] action_call_site(acts[k]) is Some ==> m.metadata.contains_key(
                    action_call_site(acts[k])->0,
                )
        },
{
    if let Ok((m1, acts)) = receive_spec(m, e) {
        match e {
            TracingEvent::NewSpan { parent_id, .. } => {
                if let Some(p) = parent_id {
                    lemma_reify_registered(m, p);
                }
            },
            TracingEvent::NewEvent { parent, .. } => {
                if let Some(p) = parent {
                    lemma_reify_registered(m, p);
                }
            },
            TracingEvent::SpanEntered { id } => {
                lemma_reify_registered(m, id);
            },
            TracingEvent::SpanExited { id } => {
                lemma_reify_registered(m, id);
            },
            _ => {},
        }
    }
}

} // verus!
