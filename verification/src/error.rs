//! Errors of the durable store.
use vstd::prelude::*;

verus! {

/// `rusqlite::Error`, carried through unchanged.
#[verifier::external_type_specification]
#[verifier::external_body]
pub struct ExSqliteError(rusqlite::Error);

/// `std::io::Error`, carried through unchanged.
#[verifier::external_type_specification]
#[verifier::external_body]
pub struct ExIoError(std::io::Error);

/// `serde_json::Error`, carried through unchanged.
#[verifier::external_type_specification]
#[verifier::external_body]
pub struct ExJsonError(serde_json::Error);

/// Why a store operation was refused or failed.
#[derive(Debug)]
pub enum StoreError {
    InvalidInput(&'static str),
    DatabaseBusy,
    AggregateAlreadyExists(String),
    AggregateNotFound(String),
    RevisionConflict { aggregate_id: String, expected: u64, actual: u64 },
    IdempotencyConflict(String),
    UnsupportedCommandSchema(u16),
    UnsupportedEvent { kind: String, schema_version: u16 },
    MigrationChecksumMismatch(u32),
    DatabaseTooNew { found: u32, supported: u32 },
    IntegrityFailure(String),
    InvalidTransition,
    Sqlite(rusqlite::Error),
    Io(std::io::Error),
    Serialization(serde_json::Error),
}

impl From<rusqlite::Error> for StoreError {
    fn from(error: rusqlite::Error) -> (r: Self) {
        StoreError::Sqlite(error)
    }
}

impl vstd::std_specs::convert::FromSpecImpl<rusqlite::Error> for StoreError {
    open spec fn obeys_from_spec() -> bool {
        true
    }

    open spec fn from_spec(v: rusqlite::Error) -> Self {
        StoreError::Sqlite(v)
    }
}

impl From<std::io::Error> for StoreError {
    fn from(error: std::io::Error) -> (r: Self) {
        StoreError::Io(error)
    }
}

impl vstd::std_specs::convert::FromSpecImpl<std::io::Error> for StoreError {
    open spec fn obeys_from_spec() -> bool {
        true
    }

    open spec fn from_spec(v: std::io::Error) -> Self {
        StoreError::Io(v)
    }
}

impl From<serde_json::Error> for StoreError {
    fn from(error: serde_json::Error) -> (r: Self) {
        StoreError::Serialization(error)
    }
}

impl vstd::std_specs::convert::FromSpecImpl<serde_json::Error> for StoreError {
    open spec fn obeys_from_spec() -> bool {
        true
    }

    open spec fn from_spec(v: serde_json::Error) -> Self {
        StoreError::Serialization(v)
    }
}

/// The text of an invalid-input error, as the error's display writes it.
pub open spec fn invalid_input_text(field: &'static str) -> Seq<char> {
    "invalid store input: "@ + field@
}

/// The display text of an invalid-input error.
pub fn invalid_input_message(field: &'static str) -> (r: String)
    ensures
        r@ == invalid_input_text(field),
{
    let mut text = "invalid store input: ".to_owned();
    text.append(field);
    text
}

/// The text that a replay failure puts after its prefix when it wraps a
/// validation error: the display text of an invalid input, nothing otherwise.
pub open spec fn input_error_text(e: StoreError) -> Seq<char> {
    match e {
        StoreError::InvalidInput(field) => invalid_input_text(field),
        _ => Seq::empty(),
    }
}

/// A failure text: `prefix` and the display text of an invalid input.
pub fn prefixed_input_error(prefix: &str, error: StoreError) -> (r: String)
    requires
        error is InvalidInput,
    ensures
        r@ == prefix@ + input_error_text(error),
{
    let mut text = prefix.to_owned();
    match error {
        StoreError::InvalidInput(field) => {
            let detail = invalid_input_message(field);
            text.append(detail.as_str());
        },
        _ => {},
    }
    text
}

} // verus!
