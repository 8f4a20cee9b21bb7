//! Buffered log records.
//!
//! Log events arriving from the tracing layer are held as plain records
//! in a buffer until the host side drains them; draining hands every
//! record out in arrival order and leaves the buffer empty.

use vstd::prelude::*;

verus! {

/// A log record buffered for the host: severity (0 error .. 4 trace),
/// the emitting target and the message text.
#[derive(Debug, Clone, PartialEq)]
pub struct LogRecord {
    pub level: u8,
    pub target: String,
    pub message: String,
}

/// An ordered buffer of log records awaiting a drain.
#[derive(Debug, Clone, PartialEq)]
pub struct LogBuffer {
    pub records: Vec<LogRecord>,
}

impl LogBuffer {
    /// An empty buffer.
    pub fn new() -> (b: LogBuffer)
        ensures
            b.records@.len() == 0,
    {
        LogBuffer { records: Vec::new() }
    }

    /// Append a record at the end of the buffer.
    pub fn push(&mut self, r: LogRecord)
        ensures
            final (self).records@ == old(self).records@.push(r),
    {
        self.records.push(r);
    }
}

/// Drain all buffered log records: every record, in arrival order, and
/// the buffer left empty.
pub fn drain_logs(buf: &mut LogBuffer) -> (r: Vec<LogRecord>)
    ensures
        r@ == old(buf).records@,
        final (buf).records@.len() == 0,
{
    let mut out: Vec<LogRecord> = Vec::new();
    while buf.records.len() > 0
        invariant
            out@ + buf.records@ == old(buf).records@,
        decreases buf.records@.len(),
    {
        let r = buf.records.remove(0);
        out.push(r);
        proof {
            assert(out@ + buf.records@ =~= old(buf).records@);
        }
    }
    proof {
        assert(out@ =~= old(buf).records@);
    }
    out
}

} // verus!
