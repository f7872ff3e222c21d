//! The events that cross the boundary between the traced program and the host.

use vstd::prelude::*;

use crate::values::TracedValues;

verus! {

/// Identifier of a call site, stable for the lifetime of the traced program.
pub type MetadataId = u64;

/// Identifier of a span, as assigned by the sender.
pub type RawSpanId = u64;

/// Kind of a call site.
#[derive(Debug, Clone, Copy, PartialEq, Eq, Hash, Structural)]
pub enum CallSiteKind {
    /// The call site produces spans.
    Span,
    /// The call site produces events.
    Event,
}

/// Verbosity level of a call site.
#[derive(Debug, Clone, Copy, PartialEq, Eq, Hash, Structural)]
pub enum TracingLevel {
    /// Errors.
    Error,
    /// Warnings.
    Warn,
    /// Informational messages.
    Info,
    /// Debug messages.
    Debug,
    /// Trace messages.
    Trace,
}

/// Immutable description of a call site.
#[derive(Debug)]
pub struct CallSiteData {
    /// Whether the site produces spans or events.
    pub kind: CallSiteKind,
    /// Name of the site.
    pub name: String,
    /// Target of the site, usually the module path.
    pub target: String,
    /// Level of the site.
    pub level: TracingLevel,
    /// Module path of the site, if known.
    pub module_name: Option<String>,
    /// File holding the site, if known.
    pub file: Option<String>,
    /// Line of the site, if known.
    pub line: Option<u32>,
    /// Names of the fields declared by the site, in declaration order.
    pub fields: Vec<String>,
}

/// Model of [`CallSiteData`]: its fields, with text as character sequences.
pub struct CallSiteModel {
    /// See [`CallSiteData::kind`].
    pub kind: CallSiteKind,
    /// See [`CallSiteData::name`].
    pub name: Seq<char>,
    /// See [`CallSiteData::target`].
    pub target: Seq<char>,
    /// See [`CallSiteData::level`].
    pub level: TracingLevel,
    /// See [`CallSiteData::module_name`].
    pub module_name: Option<Seq<char>>,
    /// See [`CallSiteData::file`].
    pub file: Option<Seq<char>>,
    /// See [`CallSiteData::line`].
    pub line: Option<u32>,
    /// See [`CallSiteData::fields`].
    pub fields: Seq<Seq<char>>,
}

/// View of optional text.
pub open spec fn opt_view(s: Option<String>) -> Option<Seq<char>> {
    match s {
        Some(t) => Some(t@),
        None => None,
    }
}

impl View for CallSiteData {
    type V = CallSiteModel;

    open spec fn view(&self) -> CallSiteModel {
        CallSiteModel {
            kind: self.kind,
            name: self.name@,
            target: self.target@,
            level: self.level,
            module_name: opt_view(self.module_name),
            file: opt_view(self.file),
            line: self.line,
            fields: self.fields@.map_values(|f: String| f@),
        }
    }
}

fn clone_opt_string(s: &Option<String>) -> (r: Option<String>)
    ensures
        r == *s,
{
    match s {
        Some(t) => Some(t.clone()),
        None => None,
    }
}

impl Clone for CallSiteData {
    fn clone(&self) -> (r: Self)
        ensures
            r.kind == self.kind,
            r.name == self.name,
            r.target == self.target,
            r.level == self.level,
            r.module_name == self.module_name,
            r.file == self.file,
            r.line == self.line,
            r.fields@ == self.fields@,
            r@ == self@,
    {
        let mut fields: Vec<String> = Vec::new();
        let mut i: usize = 0;
        while i < self.fields.len()
            invariant
                i <= self.fields@.len(),
                fields@ == self.fields@.take(i as int),
            decreases self.fields@.len() - i,
        {
            fields.push(self.fields[i].clone());
            assert(fields@ =~= self.fields@.take(i + 1));
            i = i + 1;
        }
        assert(self.fields@.take(i as int) =~= self.fields@);
        CallSiteData {
            kind: self.kind,
            name: self.name.clone(),
            target: self.target.clone(),
            level: self.level,
            module_name: clone_opt_string(&self.module_name),
            file: clone_opt_string(&self.file),
            line: self.line,
            fields,
        }
    }
}

/// Call-site data of an error-level span site named `test`, declared in the file
/// `tests` at line 42, with the given fields.
pub fn create_call_site(fields: Vec<String>) -> (r: CallSiteData)
    ensures
        r.kind == CallSiteKind::Span,
        r.name@ == "test"@,
        r.target@ == "tracing_tunnel"@,
        r.level == TracingLevel::Error,
        opt_view(r.module_name) == Some("receiver::tests"@),
        opt_view(r.file) == Some("tests"@),
        r.line == Some(42u32),
        r.fields == fields,
{
    CallSiteData {
        kind: CallSiteKind::Span,
        name: "test".to_string(),
        target: "tracing_tunnel".to_string(),
        level: TracingLevel::Error,
        module_name: Some("receiver::tests".to_string()),
        file: Some("tests".to_string()),
        line: Some(42),
        fields,
    }
}

/// Event crossing the boundary between the traced program and the host.
#[derive(Debug)]
pub enum TracingEvent {
    /// A call site is registered.
    NewCallSite {
        /// Identifier of the site.
        id: MetadataId,
        /// Description of the site.
        data: CallSiteData,
    },
    /// A span is created.
    NewSpan {
        /// Identifier of the span.
        id: RawSpanId,
        /// Parent span, if any.
        parent_id: Option<RawSpanId>,
        /// Call site of the span.
        metadata_id: MetadataId,
        /// Values the span is created with.
        values: TracedValues,
    },
    /// Values are recorded on an existing span.
    ValuesRecorded {
        /// Identifier of the span.
        id: RawSpanId,
        /// Recorded values.
        values: TracedValues,
    },
    /// A span is entered.
    SpanEntered {
        /// Identifier of the span.
        id: RawSpanId,
    },
    /// A span is exited.
    SpanExited {
        /// Identifier of the span.
        id: RawSpanId,
    },
    /// A reference to a span is cloned.
    SpanCloned {
        /// Identifier of the span.
        id: RawSpanId,
    },
    /// A reference to a span is dropped; the span closes when its last reference goes.
    SpanDropped {
        /// Identifier of the span.
        id: RawSpanId,
    },
    /// An event is emitted.
    NewEvent {
        /// Call site of the event.
        metadata_id: MetadataId,
        /// Parent span, if any.
        parent: Option<RawSpanId>,
        /// Values of the event.
        values: TracedValues,
    },
}

impl Clone for TracingEvent {
    fn clone(&self) -> (r: Self)
        ensures
            match (*self, r) {
                (
                    TracingEvent::NewCallSite { id, data },
                    TracingEvent::NewCallSite { id: id2, data: data2 },
                ) => id == id2 && data@ == data2@,
                (
                    TracingEvent::NewSpan { id, parent_id, metadata_id, values },
                    TracingEvent::NewSpan {
                        id: id2,
                        parent_id: parent_id2,
                        metadata_id: metadata_id2,
                        values: values2,
                    },
                ) => id == id2 && parent_id == parent_id2 && metadata_id == metadata_id2
                    && values@ == values2@,
                (
                    TracingEvent::ValuesRecorded { id, values },
                    TracingEvent::ValuesRecorded { id: id2, values: values2 },
                ) => id == id2 && values@ == values2@,
                (TracingEvent::SpanEntered { id }, TracingEvent::SpanEntered { id: id2 }) => id
                    == id2,
                (TracingEvent::SpanExited { id }, TracingEvent::SpanExited { id: id2 }) => id
                    == id2,
                (TracingEvent::SpanCloned { id }, TracingEvent::SpanCloned { id: id2 }) => id
                    == id2,
                (TracingEvent::SpanDropped { id }, TracingEvent::SpanDropped { id: id2 }) => id
                    == id2,
                (
                    TracingEvent::NewEvent { metadata_id, parent, values },
                    TracingEvent::NewEvent {
                        metadata_id: metadata_id2,
                        parent: parent2,
                        values: values2,
                    },
                ) => metadata_id == metadata_id2 && parent == parent2 && values@ == values2@,
                _ => false,
            },
    {
        match self {
            TracingEvent::NewCallSite { id, data } => TracingEvent::NewCallSite {
                id: *id,
                data: data.clone(),
            },
            TracingEvent::NewSpan { id, parent_id, metadata_id, values } => TracingEvent::NewSpan {
                id: *id,
                parent_id: *parent_id,
                metadata_id: *metadata_id,
                values: values.clone(),
            },
            TracingEvent::ValuesRecorded { id, values } => TracingEvent::ValuesRecorded {
                id: *id,
                values: values.clone(),
            },
            TracingEvent::SpanEntered { id } => TracingEvent::SpanEntered { id: *id },
            TracingEvent::SpanExited { id } => TracingEvent::SpanExited { id: *id },
            TracingEvent::SpanCloned { id } => TracingEvent::SpanCloned { id: *id },
            TracingEvent::SpanDropped { id } => TracingEvent::SpanDropped { id: *id },
            TracingEvent::NewEvent { metadata_id, parent, values } => TracingEvent::NewEvent {
                metadata_id: *metadata_id,
                parent: *parent,
                values: values.clone(),
            },
        }
    }
}

} // verus!
