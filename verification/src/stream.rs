//! The streaming loop's decisions: what the execution context does with each
//! terminal read, and the one terminal event it reports at the end.
//!
//! The caller owns the pseudo-terminal; before each read it polls the
//! process's cancellation flag and hands the flag plus the read's outcome
//! here.  Output that does not decode as text is dropped, not buffered: a
//! multi-byte sequence split across chunk boundaries is lost.  That is a
//! known lossy choice, kept because observers treat the stream as opaque.

use vstd::prelude::*;
use vstd::string::StringExecFns;
use vstd::utf8::decode_utf8;
use vstd::utf8::valid_utf8;

verus! {

/// What one read from the terminal's output stream returned.
#[derive(Clone, Debug)]
pub enum ReadResult {
    /// A non-empty chunk of raw bytes.
    Data(Vec<u8>),
    /// A zero-length read: the stream ended.
    Eof,
    /// The platform's closed-terminal condition: treated as a silent end of
    /// stream, not as a failure.
    Closed,
    /// Any other read error, with its message.
    Failed(String),
}

/// What the execution context does next with the loop.
#[derive(Clone, Debug)]
pub enum StreamStep {
    /// Cancellation was requested: kill the child and leave the loop.
    Kill,
    /// Publish this decoded chunk verbatim and keep reading.
    Emit(String),
    /// Drop an undecodable chunk silently and keep reading.
    Skip,
    /// Leave the loop silently.
    Stop,
    /// Publish this error event and leave the loop.
    Fail(String),
}

/// Relies on std::str::from_utf8: it succeeds exactly on valid UTF-8 and
/// decodes it; the result is turned into an owned string.
#[verifier::external_body]
fn bytes_to_text(bytes: &Vec<u8>) -> (r: Option<String>)
    ensures
        match r {
            Some(s) => valid_utf8(bytes@) && s@ == decode_utf8(bytes@),
            None => !valid_utf8(bytes@),
        },
{
    match std::str::from_utf8(bytes.as_slice()) {
        Ok(s) => Some(s.to_string()),
        Err(_) => None,
    }
}

/// Decides one iteration of the read loop.
///
/// The cancellation flag wins over whatever the read returned.  A decodable
/// chunk is published verbatim; an undecodable one is dropped.  End of
/// stream and the closed-terminal condition leave the loop silently; any
/// other read error is published and leaves the loop.
pub fn stream_step(stop_requested: bool, read: &ReadResult) -> (a: StreamStep)
    ensures
        stop_requested ==> a is Kill,
        !stop_requested ==> match *read {
            ReadResult::Data(bytes) => {
                if valid_utf8(bytes@) {
                    match a {
                        StreamStep::Emit(s) => s@ == decode_utf8(bytes@),
                        _ => false,
                    }
                } else {
                    a is Skip
                }
            },
            ReadResult::Eof => a is Stop,
            ReadResult::Closed => a is Stop,
            ReadResult::Failed(m) => match a {
                StreamStep::Fail(e) => e@ == "Read error: "@ + m@,
                _ => false,
            },
        },
{
    if stop_requested {
        return StreamStep::Kill;
    }
    match read {
        ReadResult::Data(bytes) => match bytes_to_text(bytes) {
            Some(text) => StreamStep::Emit(text),
            None => StreamStep::Skip,
        },
        ReadResult::Eof => StreamStep::Stop,
        ReadResult::Closed => StreamStep::Stop,
        ReadResult::Failed(m) => StreamStep::Fail(
            String::from_str("Read error: ").concat(m.as_str()),
        ),
    }
}

/// The child's exit status as the reported integer code: the code itself
/// when it fits a signed 32-bit integer, otherwise -1.
pub fn exit_code_of(status_code: u32) -> (r: i32)
    ensures
        status_code <= 0x7fff_ffff ==> r == status_code as i32,
        status_code > 0x7fff_ffff ==> r == -1,
{
    if status_code <= 0x7fff_ffff {
        status_code as i32
    } else {
        -1
    }
}

/// The one terminal event of a run.
#[derive(Clone, Debug)]
pub enum TerminalEvent {
    /// Normal completion, cancellation-via-kill included: the two are not
    /// distinguished in what is emitted.
    Exit { process_id: u64, code: i32 },
    /// Spawning or waiting failed.
    Error { process_id: u64, error: String },
}

/// Maps a run's outcome to its terminal event.  Exactly one event exists
/// per outcome: an exit with the code, or an error with the message — never
/// both.  A run that was cancelled still ends in the exit event, since the
/// kill leads to a normal wait.
pub fn terminal_event(process_id: u64, outcome: Result<i32, String>) -> (ev: TerminalEvent)
    ensures
        match outcome {
            Ok(code) => ev == (TerminalEvent::Exit { process_id, code }),
            Err(e) => match ev {
                TerminalEvent::Error { process_id: p, error } => p == process_id && error == e,
                _ => false,
            },
        },
        outcome is Ok <==> ev is Exit,
        outcome is Err <==> ev is Error,
{
    match outcome {
        Ok(code) => TerminalEvent::Exit { process_id, code },
        Err(error) => TerminalEvent::Error { process_id, error },
    }
}

} // verus!
