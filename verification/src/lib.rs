//! A bridge between a tree-structured stream of span and event records and a
//! hierarchical metrics registry.
//!
//! Records carry name/value fields; a small set of reserved field names is
//! interpreted as metric instructions (rename the metric scope, override the
//! record's weight, start a timer, adjust a level, bump a counter, set a
//! gauge). Spans open a per-span context holding the resolved scope and any
//! open timer or level adjustment; closing the span stops the timer and
//! reverts the adjustment. Measurements are forwarded to a `dipstick`
//! registry behind a small trusted boundary; everything that decides *what*
//! is measured, and under which scope, is verified.

pub mod fields;
pub mod registry;
pub mod scope;
pub mod engine;
pub mod laws;

pub use fields::{Field, FieldValue, FieldInstruction, parse_field, parse_fields};
pub use scope::MetricScope;
pub use engine::{DipstickLayer, SpanContext, AppliedAction, CloseReceipt};
