//! A structured-event telemetry pipeline: leveled, field-carrying events
//! (optionally nested inside named spans) are filtered per target, fanned out
//! to independently configured consumer layers, and rendered as console text,
//! JSON lines, or OpenTelemetry-shaped log records with trace/span
//! correlation.

pub mod console;
pub mod expr;
pub mod fanout;
pub mod filter;
pub mod json;
pub mod level;
pub mod lifecycle;
pub mod options;
pub mod otlp;
pub mod span;
pub mod text;

pub use level::Level;
