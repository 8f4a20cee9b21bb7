//! Batch codec for a key-value store binding: converts dynamically typed
//! records into caller-supplied fixed-stride binary buffers and back, plus
//! the small bookkeeping helpers around that path (status codes, operation
//! timing, buffered log records, bug-report formatting).

pub mod buffer;
pub mod bug_report;
pub mod codec;
pub mod decode;
pub mod encode;
pub mod errors;
pub mod float_bits;
pub mod log_buffer;
pub mod metrics;
pub mod result_code;
pub mod schema;
pub mod value;
