use aerospike_py::bug_report::{log_unexpected_error, sanitize_for_title, shell_escape};
use aerospike_py::log_buffer::{drain_logs, LogBuffer, LogRecord};
use aerospike_py::metrics::OperationTimer;
use aerospike_py::result_code::{result_code_to_int, ResultCode};

// ── issue-title sanitizing and shell escaping ───────────────

#[test]
fn test_sanitize_short_string() {
    assert_eq!(sanitize_for_title("hello", 80), "hello");
}

#[test]
fn test_sanitize_long_string() {
    let long = "a".repeat(100);
    let result = sanitize_for_title(&long, 80);
    assert_eq!(result.len(), 80);
    assert!(result.ends_with("..."));
}

#[test]
fn test_sanitize_newlines() {
    assert_eq!(sanitize_for_title("line1\nline2", 80), "line1 line2");
}

#[test]
fn test_sanitize_exact_length() {
    let exact = "a".repeat(80);
    assert_eq!(sanitize_for_title(&exact, 80), exact);
}

#[test]
fn test_shell_escape_no_quotes() {
    assert_eq!(shell_escape("hello world"), "hello world");
}

#[test]
fn test_shell_escape_with_quotes() {
    assert_eq!(shell_escape("it's a bug"), "it'\\''s a bug");
}

#[test]
fn test_log_unexpected_error_mentions_context_and_detail() {
    let msg = log_unexpected_error("batch_read", "index out of range");
    assert!(msg.contains("batch_read"));
    assert!(msg.contains("index out of range"));
    assert!(msg.contains("gh issue create"));
    assert!(msg.contains("Unexpected error: index out of range"));
}

// ── status codes ────────────────────────────────────────────

#[test]
fn test_result_code_to_int_ok() {
    assert_eq!(result_code_to_int(&ResultCode::Okay), 0);
}

#[test]
fn test_result_code_to_int_key_not_found() {
    assert_eq!(result_code_to_int(&ResultCode::KeyNotFoundError), 2);
}

#[test]
fn test_result_code_to_int_key_exists() {
    assert_eq!(result_code_to_int(&ResultCode::KeyExistsError), 5);
}

#[test]
fn test_result_code_to_int_timeout() {
    assert_eq!(result_code_to_int(&ResultCode::Timeout), 9);
}

#[test]
fn test_result_code_to_int_index_found() {
    assert_eq!(result_code_to_int(&ResultCode::IndexFound), 200);
}

#[test]
fn test_result_code_to_int_index_not_found() {
    assert_eq!(result_code_to_int(&ResultCode::IndexNotFound), 201);
}

#[test]
fn test_result_code_to_int_query_aborted() {
    assert_eq!(result_code_to_int(&ResultCode::QueryAborted), 210);
}

#[test]
fn test_result_code_to_int_unknown() {
    assert_eq!(result_code_to_int(&ResultCode::Unknown(250)), 250);
}

// ── operation timing ────────────────────────────────────────

#[test]
fn test_operation_timer_labels() {
    let timer = OperationTimer::start("get", "testns", "users");
    let sample = timer.finish("");
    assert_eq!(sample.labels.db_system_name, "aerospike");
    assert_eq!(sample.labels.db_namespace, "testns");
    assert_eq!(sample.labels.db_collection_name, "users");
    assert_eq!(sample.labels.db_operation_name, "get");
    assert_eq!(sample.labels.error_type, "");
}

#[test]
fn test_operation_timer_error_label() {
    let timer = OperationTimer::start("put", "ns", "st");
    let sample = timer.finish("Timeout");
    assert_eq!(sample.labels.error_type, "Timeout");
}

// ── buffered log records ────────────────────────────────────

#[test]
fn test_drain_logs_returns_all_in_order_and_empties() {
    let mut buf = LogBuffer::new();
    buf.push(LogRecord { level: 0, target: "a".to_string(), message: "first".to_string() });
    buf.push(LogRecord { level: 2, target: "b".to_string(), message: "second".to_string() });
    let drained = drain_logs(&mut buf);
    assert_eq!(drained.len(), 2);
    assert_eq!(drained[0].message, "first");
    assert_eq!(drained[1].message, "second");
    assert!(drain_logs(&mut buf).is_empty());
}
