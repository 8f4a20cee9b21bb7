//! Server status codes and their numeric wire values.
//!
//! A batch result row carries an optional status code; the encoder writes its
//! numeric value into the caller's result-code buffer, four bytes per row.

use vstd::prelude::*;

verus! {

/// Status code returned by the server for one operation.
///
/// `Unknown` carries a raw code the client does not model further.
#[derive(Debug, Clone, Copy, PartialEq, Eq, Structural)]
pub enum ResultCode {
    Okay,
    ServerError,
    KeyNotFoundError,
    GenerationError,
    ParameterError,
    KeyExistsError,
    BinExistsError,
    ClusterKeyMismatch,
    ServerMemError,
    Timeout,
    AlwaysForbidden,
    PartitionUnavailable,
    BinTypeError,
    RecordTooBig,
    KeyBusy,
    ScanAbort,
    UnsupportedFeature,
    BinNotFound,
    DeviceOverload,
    KeyMismatch,
    InvalidNamespace,
    BinNameTooLong,
    FailForbidden,
    ElementNotFound,
    ElementExists,
    EnterpriseOnly,
    OpNotApplicable,
    FilteredOut,
    LostConflict,
    XDRKeyBusy,
    QueryEnd,
    SecurityNotSupported,
    SecurityNotEnabled,
    InvalidUser,
    NotAuthenticated,
    RoleViolation,
    UdfBadResponse,
    BatchDisabled,
    IndexFound,
    IndexNotFound,
    QueryAborted,
    InvalidGeojson,
    Unknown(u8),
}

/// Numeric wire value of a status code.
pub open spec fn spec_result_code_to_int(rc: ResultCode) -> i32 {
    match rc {
        ResultCode::Okay => 0,
        ResultCode::ServerError => 1,
        ResultCode::KeyNotFoundError => 2,
        ResultCode::GenerationError => 3,
        ResultCode::ParameterError => 4,
        ResultCode::KeyExistsError => 5,
        ResultCode::BinExistsError => 6,
        ResultCode::ClusterKeyMismatch => 7,
        ResultCode::ServerMemError => 8,
        ResultCode::Timeout => 9,
        ResultCode::AlwaysForbidden => 10,
        ResultCode::PartitionUnavailable => 11,
        ResultCode::BinTypeError => 12,
        ResultCode::RecordTooBig => 13,
        ResultCode::KeyBusy => 14,
        ResultCode::ScanAbort => 15,
        ResultCode::UnsupportedFeature => 16,
        ResultCode::BinNotFound => 17,
        ResultCode::DeviceOverload => 18,
        ResultCode::KeyMismatch => 19,
        ResultCode::InvalidNamespace => 20,
        ResultCode::BinNameTooLong => 21,
        ResultCode::FailForbidden => 22,
        ResultCode::ElementNotFound => 23,
        ResultCode::ElementExists => 24,
        ResultCode::EnterpriseOnly => 25,
        ResultCode::OpNotApplicable => 26,
        ResultCode::FilteredOut => 27,
        ResultCode::LostConflict => 28,
        ResultCode::XDRKeyBusy => 32,
        ResultCode::QueryEnd => 50,
        ResultCode::SecurityNotSupported => 51,
        ResultCode::SecurityNotEnabled => 52,
        ResultCode::InvalidUser => 60,
        ResultCode::NotAuthenticated => 80,
        ResultCode::RoleViolation => 81,
        ResultCode::UdfBadResponse => 100,
        ResultCode::BatchDisabled => 150,
        ResultCode::IndexFound => 200,
        ResultCode::IndexNotFound => 201,
        ResultCode::QueryAborted => 210,
        ResultCode::InvalidGeojson => 160,
        ResultCode::Unknown(code) => code as i32,
    }
}

/// Numeric wire value of a status code, as written into the result-code buffer.
pub fn result_code_to_int(rc: &ResultCode) -> (r: i32)
    ensures
        r == spec_result_code_to_int(*rc),
{
    match rc {
        ResultCode::Okay => 0,
        ResultCode::ServerError => 1,
        ResultCode::KeyNotFoundError => 2,
        ResultCode::GenerationError => 3,
        ResultCode::ParameterError => 4,
        ResultCode::KeyExistsError => 5,
        ResultCode::BinExistsError => 6,
        ResultCode::ClusterKeyMismatch => 7,
        ResultCode::ServerMemError => 8,
        ResultCode::Timeout => 9,
        ResultCode::AlwaysForbidden => 10,
        ResultCode::PartitionUnavailable => 11,
        ResultCode::BinTypeError => 12,
        ResultCode::RecordTooBig => 13,
        ResultCode::KeyBusy => 14,
        ResultCode::ScanAbort => 15,
        ResultCode::UnsupportedFeature => 16,
        ResultCode::BinNotFound => 17,
        ResultCode::DeviceOverload => 18,
        ResultCode::KeyMismatch => 19,
        ResultCode::InvalidNamespace => 20,
        ResultCode::BinNameTooLong => 21,
        ResultCode::FailForbidden => 22,
        ResultCode::ElementNotFound => 23,
        ResultCode::ElementExists => 24,
        ResultCode::EnterpriseOnly => 25,
        ResultCode::OpNotApplicable => 26,
        ResultCode::FilteredOut => 27,
        ResultCode::LostConflict => 28,
        ResultCode::XDRKeyBusy => 32,
        ResultCode::QueryEnd => 50,
        ResultCode::SecurityNotSupported => 51,
        ResultCode::SecurityNotEnabled => 52,
        ResultCode::InvalidUser => 60,
        ResultCode::NotAuthenticated => 80,
        ResultCode::RoleViolation => 81,
        ResultCode::UdfBadResponse => 100,
        ResultCode::BatchDisabled => 150,
        ResultCode::IndexFound => 200,
        ResultCode::IndexNotFound => 201,
        ResultCode::QueryAborted => 210,
        ResultCode::InvalidGeojson => 160,
        ResultCode::Unknown(code) => *code as i32,
    }
}

} // verus!
