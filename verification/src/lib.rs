//! Tail sampling for span-based instrumentation.
//!
//! Spans of one trace are buffered until the trace's root span closes; at that
//! point a single export-or-discard decision is applied to the whole buffer,
//! so a trace is exported all together or not at all.

pub mod attr;
pub mod export;
pub mod ids;
pub mod layer;
pub mod record;
pub mod store;
pub mod timings;
pub mod trace;

pub use attr::AttrValue;
pub use attr::KeyValue;
pub use export::ChainedExporter;
pub use export::Export;
pub use ids::SpanId;
pub use ids::TraceContext;
pub use ids::TraceId;
pub use layer::layer;
pub use layer::CloseOutcome;
pub use layer::ContextSnapshot;
pub use layer::ParentHint;
pub use layer::ProgrammerError;
pub use layer::TailSampleLayer;
pub use record::FieldValue;
pub use record::InputField;
pub use record::Level;
pub use record::OtelData;
pub use record::ParentContext;
pub use record::SpanKind;
pub use record::SpanMeta;
pub use record::Status;
pub use record::WireSpanRecord;
pub use timings::Timings;
pub use trace::SampleDecision;
pub use trace::Trace;
pub use trace::TraceCache;
