//! A rendering buffer for HTML templates: one output sink, an escaping and a
//! raw write path over it, and an error latch that keeps the first failure.
pub mod escape;
pub mod sink;
pub mod template;

pub use escape::should_escape;
pub use sink::{ByteSink, TextSink};
pub use template::{Error, Template, TemplateBuffer, TemplateSink};
