//! Operation timing: a timer started around a data operation and the
//! labelled duration sample it yields.
//!
//! The timer captures the operation's name, namespace and set at start;
//! finishing it fixes the labels and the elapsed monotonic time. The
//! caller's metrics sink turns samples into histogram observations.

use vstd::prelude::*;

verus! {

/// The labels attached to one operation's duration sample.
#[derive(Debug, Clone, PartialEq)]
pub struct OperationLabels {
    pub db_system_name: String,
    pub db_namespace: String,
    pub db_collection_name: String,
    pub db_operation_name: String,
    pub error_type: String,
}

/// One finished operation: its labels and how long it ran, in
/// nanoseconds.
#[derive(Debug, Clone, PartialEq)]
pub struct OperationSample {
    pub labels: OperationLabels,
    pub duration_nanos: u64,
}

/// Relies on std::time::SystemTime::now: a point in time, here flattened
/// to nanoseconds since the epoch. Nothing is promised of the value; the
/// clock may move arbitrarily between calls.
#[verifier::external_body]
fn now_nanos() -> u64 {
    match std::time::SystemTime::now().duration_since(std::time::UNIX_EPOCH) {
        Ok(d) => d.as_nanos() as u64,
        Err(_) => 0,
    }
}

/// A running timer for one data operation.
#[derive(Debug, Clone, PartialEq)]
pub struct OperationTimer {
    pub start_nanos: u64,
    pub op_name: String,
    pub namespace: String,
    pub set_name: String,
}

impl OperationTimer {
    /// Start timing an operation against the given namespace and set.
    pub fn start(op_name: &str, namespace: &str, set_name: &str) -> (t: Self)
        ensures
            t.op_name@ == op_name@,
            t.namespace@ == namespace@,
            t.set_name@ == set_name@,
    {
        OperationTimer {
            start_nanos: now_nanos(),
            op_name: op_name.to_owned(),
            namespace: namespace.to_owned(),
            set_name: set_name.to_owned(),
        }
    }

    /// Finish the timer: the sample carries the operation's identity as
    /// labels and the elapsed time, clamped to zero where the clock
    /// moved backwards.
    pub fn finish(self, error_type: &str) -> (s: OperationSample)
        ensures
            s.labels.db_system_name@ == "aerospike"@,
            s.labels.db_namespace@ == self.namespace@,
            s.labels.db_collection_name@ == self.set_name@,
            s.labels.db_operation_name@ == self.op_name@,
            s.labels.error_type@ == error_type@,
    {
        let end = now_nanos();
        let duration: u64 = if end >= self.start_nanos {
            end - self.start_nanos
        } else {
            0
        };
        OperationSample {
            labels: OperationLabels {
                db_system_name: "aerospike".to_owned(),
                db_namespace: self.namespace,
                db_collection_name: self.set_name,
                db_operation_name: self.op_name,
                error_type: error_type.to_owned(),
            },
            duration_nanos: duration,
        }
    }
}

} // verus!
