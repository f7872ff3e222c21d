//! Tunnelling tracing spans and events across an API boundary, and capturing
//! them into a queryable tree.
//!
//! - [`sender`] decides which events the traced program emits.
//! - [`receiver`] validates incoming events, keeps the tables that outlive a
//!   session, and tells the host tracing runtime what to do.
//! - [`capture`] records what a tracing runtime reports into an arena-backed tree,
//!   and [`predicates`] scans it.

pub mod capture;
pub mod predicates;
pub mod receiver;
pub mod sender;
pub mod types;
pub mod value;
pub mod values;

pub use crate::capture::{CapturedEvent, CapturedSpan, SpanStats, Storage};
pub use crate::receiver::{
    HostAction, LocalSpans, PersistedMetadata, PersistedSpans, ReceiveError, SpanData,
    TracingEventReceiver,
};
pub use crate::sender::SenderState;
pub use crate::types::{CallSiteData, CallSiteKind, MetadataId, RawSpanId, TracingEvent, TracingLevel};
pub use crate::value::{DebugObject, FromTracedValue, TracedError, TracedValue};
pub use crate::values::TracedValues;
