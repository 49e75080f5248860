//! What can fail, and what the engine says.

use crate::text::decimal_text;
use vstd::prelude::*;
use vstd::std_specs::convert::FromSpecImpl;
use vstd::string::*;

verus! {

/// Failures of native capture, history and generation management.
#[derive(Debug, Clone, Copy, PartialEq, Eq, Structural)]
pub enum NativeStateError {
    /// The engine cannot encode a snapshot.
    UnsupportedFeature,
    /// The snapshot's version is not supported.
    UnknownVersion,
    /// Authentication or structural validation failed.
    Corruption,
    /// The input ended before a required checkpoint.
    Truncated,
    /// A codec or history limit was exceeded.
    LimitExceeded,
    /// The history cursor's cut is no longer live.
    Stale,
    /// The history was pruned after the cut was made.
    Pruned,
    /// The screen or history generation does not match.
    WrongGeneration,
    /// An operation was tried with a different terminal.
    WrongTerminal,
    /// A checkpoint, capability or handle is invalid.
    InvalidHandle,
    /// The terminal is taken, or the record is not there yet.
    ImportBusy,
    /// Allocation failed.
    OutOfMemory,
    /// The caller's buffer or budget is too small.
    OutOfSpace {
        /// The bytes that are required.
        required_bytes: usize,
        /// The rows that are required.
        required_rows: usize,
    },
    /// The operation is not valid now.
    InvalidState,
    /// A parser continuation could not be captured or replayed.
    ContinuationUnavailable,
    /// A terminal reset invalidated the history generation.
    Reset,
    /// A terminal resize invalidated the history generation.
    Resize,
}

impl NativeStateError {
    /// The error in words, as contracts speak of it.
    pub open spec fn text(self) -> Seq<char> {
        match self {
            NativeStateError::UnsupportedFeature => "native checkpoint feature unsupported"@,
            NativeStateError::UnknownVersion => "unknown checkpoint version"@,
            NativeStateError::Corruption => "checkpoint corrupted"@,
            NativeStateError::Truncated => "checkpoint truncated"@,
            NativeStateError::LimitExceeded => "native limit exceeded"@,
            NativeStateError::Stale => "history cursor is stale"@,
            NativeStateError::Pruned => "requested history was pruned"@,
            NativeStateError::WrongGeneration => "history generation mismatch"@,
            NativeStateError::WrongTerminal => "operation used the wrong terminal"@,
            NativeStateError::InvalidHandle => "invalid native handle"@,
            NativeStateError::ImportBusy => "history import already active"@,
            NativeStateError::OutOfMemory => "out of memory"@,
            NativeStateError::OutOfSpace { required_bytes, required_rows } => "out of space: "@
                + crate::text::decimal(required_bytes as nat) + " bytes, "@ + crate::text::decimal(
                required_rows as nat,
            ) + " rows"@,
            NativeStateError::InvalidState => "invalid native state"@,
            NativeStateError::ContinuationUnavailable => "continuation unavailable"@,
            NativeStateError::Reset => "terminal reset invalidated the history generation"@,
            NativeStateError::Resize => "terminal resize invalidated the history generation"@,
        }
    }

    /// The error in words.
    pub fn message(self) -> (text: String)
        ensures
            text@ == self.text(),
    {
        match self {
            NativeStateError::UnsupportedFeature => "native checkpoint feature unsupported".to_owned(),
            NativeStateError::UnknownVersion => "unknown checkpoint version".to_owned(),
            NativeStateError::Corruption => "checkpoint corrupted".to_owned(),
            NativeStateError::Truncated => "checkpoint truncated".to_owned(),
            NativeStateError::LimitExceeded => "native limit exceeded".to_owned(),
            NativeStateError::Stale => "history cursor is stale".to_owned(),
            NativeStateError::Pruned => "requested history was pruned".to_owned(),
            NativeStateError::WrongGeneration => "history generation mismatch".to_owned(),
            NativeStateError::WrongTerminal => "operation used the wrong terminal".to_owned(),
            NativeStateError::InvalidHandle => "invalid native handle".to_owned(),
            NativeStateError::ImportBusy => "history import already active".to_owned(),
            NativeStateError::OutOfMemory => "out of memory".to_owned(),
            NativeStateError::OutOfSpace { required_bytes, required_rows } => {
                let bytes = decimal_text(required_bytes as u64);
                let rows = decimal_text(required_rows as u64);
                "out of space: ".to_owned().concat(bytes.as_str()).concat(" bytes, ").concat(
                    rows.as_str(),
                ).concat(" rows")
            },
            NativeStateError::InvalidState => "invalid native state".to_owned(),
            NativeStateError::ContinuationUnavailable => "continuation unavailable".to_owned(),
            NativeStateError::Reset => "terminal reset invalidated the history generation".to_owned(),
            NativeStateError::Resize => "terminal resize invalidated the history generation".to_owned(),
        }
    }
}

/// Failures of the terminal engine.
#[derive(Debug, Clone, Copy, PartialEq, Eq, Structural)]
pub enum EngineError {
    /// Allocation failed.
    OutOfMemory,
    /// The buffer is too small.
    OutOfSpace {
        /// The bytes that are required.
        required: usize,
    },
    /// A limit was exceeded.
    LimitExceeded,
    /// Reading or writing failed.
    IoError,
    /// An argument was refused.
    InvalidValue,
}

/// The bytes that the engine wrote before it answered.
pub open spec fn written_by(answer: Result<CaptureEvent, EngineError>) -> int {
    match answer {
        Ok(event) => event.bytes() as int,
        Err(_) => 0,
    }
}

/// What an engine failure comes to.
pub open spec fn engine_failure(error: EngineError) -> NativeStateError {
    match error {
        EngineError::OutOfMemory => NativeStateError::OutOfMemory,
        EngineError::OutOfSpace { required } => NativeStateError::OutOfSpace {
            required_bytes: required,
            required_rows: 0,
        },
        EngineError::LimitExceeded => NativeStateError::LimitExceeded,
        EngineError::IoError => NativeStateError::Corruption,
        EngineError::InvalidValue => NativeStateError::UnsupportedFeature,
    }
}

impl FromSpecImpl<EngineError> for NativeStateError {
    open spec fn obeys_from_spec() -> bool {
        true
    }

    open spec fn from_spec(error: EngineError) -> Self {
        engine_failure(error)
    }
}

impl From<EngineError> for NativeStateError {
    fn from(error: EngineError) -> (failure: Self) {
        match error {
            EngineError::OutOfMemory => NativeStateError::OutOfMemory,
            EngineError::OutOfSpace { required } => NativeStateError::OutOfSpace {
                required_bytes: required,
                required_rows: 0,
            },
            EngineError::LimitExceeded => NativeStateError::LimitExceeded,
            EngineError::IoError => NativeStateError::Corruption,
            EngineError::InvalidValue => NativeStateError::UnsupportedFeature,
        }
    }
}

/// Why the engine gave up a history cut.
#[derive(Debug, Clone, Copy, PartialEq, Eq, Structural)]
pub enum CaptureInvalidation {
    /// The terminal was reset.
    Reset,
    /// The terminal was resized.
    Resize,
    /// Another terminal was asked.
    WrongTerminal,
    /// The history changed.
    Mutation,
    /// The history was pruned.
    Evicted,
}

/// What an invalidation comes to.
pub open spec fn invalidation(reason: CaptureInvalidation) -> NativeStateError {
    match reason {
        CaptureInvalidation::Reset => NativeStateError::Reset,
        CaptureInvalidation::Resize => NativeStateError::Resize,
        CaptureInvalidation::WrongTerminal => NativeStateError::WrongTerminal,
        CaptureInvalidation::Mutation => NativeStateError::Stale,
        CaptureInvalidation::Evicted => NativeStateError::Pruned,
    }
}

/// What an invalidation comes to.
pub fn invalidation_error(reason: CaptureInvalidation) -> (error: NativeStateError)
    ensures
        error == invalidation(reason),
{
    match reason {
        CaptureInvalidation::Reset => NativeStateError::Reset,
        CaptureInvalidation::Resize => NativeStateError::Resize,
        CaptureInvalidation::WrongTerminal => NativeStateError::WrongTerminal,
        CaptureInvalidation::Mutation => NativeStateError::Stale,
        CaptureInvalidation::Evicted => NativeStateError::Pruned,
    }
}

/// What one step of an engine capture produced.
#[derive(Debug, Clone, Copy, PartialEq, Eq, Structural)]
#[allow(inconsistent_fields)]
pub enum CaptureEvent {
    /// The engine looked further and wrote nothing.
    Scan,
    /// A record.
    Record {
        /// The bytes written.
        written: usize,
    },
    /// The record that completes the prefix.
    Ready {
        /// The bytes written.
        written: usize,
    },
    /// A page of history.
    HistoryPage {
        /// The rows in the page.
        rows: usize,
        /// The bytes written.
        written: usize,
    },
    /// The record that completes the history.
    Finish {
        /// The bytes written.
        written: usize,
    },
    /// The cut is given up.
    Invalidated(CaptureInvalidation),
}

impl CaptureEvent {
    /// The bytes that the engine wrote.
    pub open spec fn bytes(self) -> usize {
        match self {
            CaptureEvent::Scan => 0,
            CaptureEvent::Record { written } => written,
            CaptureEvent::Ready { written } => written,
            CaptureEvent::HistoryPage { written, .. } => written,
            CaptureEvent::Finish { written } => written,
            CaptureEvent::Invalidated(_) => 0,
        }
    }

    /// The bytes that the engine wrote.
    pub fn written(self) -> (written: usize)
        ensures
            written == self.bytes(),
    {
        match self {
            CaptureEvent::Scan => 0,
            CaptureEvent::Record { written } => written,
            CaptureEvent::Ready { written } => written,
            CaptureEvent::HistoryPage { written, .. } => written,
            CaptureEvent::Finish { written } => written,
            CaptureEvent::Invalidated(_) => 0,
        }
    }
}

} // verus!
