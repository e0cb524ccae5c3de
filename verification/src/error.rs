use vstd::prelude::*;

verus! {

/// Every failure condition the core reports. All per-statement and per-row
/// failures are returned as values, never as process aborts.
#[derive(Clone, Copy, Debug, PartialEq, Eq, Structural)]
pub enum Error {
    /// A value could not be encoded for the wire. Also reported when a
    /// statement is executed with a parameter count that does not match its
    /// positional placeholder count: that contract violation is rejected
    /// observably, never silently ignored.
    EncodeError,
    /// A row could not be decoded into the requested target type: the column
    /// index, the wire-format tag the target expected, and the tag found.
    DecodeError { column: usize, expected: u8, actual: u8 },
    /// The connection itself failed. Not recoverable by the core: the caller
    /// must discard the connection.
    TransportError,
    /// `push` was called on a pipeline that already holds as many statements
    /// as its capacity allows.
    CapacityExceeded,
    /// `fetch_one` was asked for a row but the statement returned none.
    NoRows,
    /// The backend reported an execution failure (for example a constraint
    /// violation), carrying the backend-native error code.
    StatementError { code: u64 },
}

} // verus!
