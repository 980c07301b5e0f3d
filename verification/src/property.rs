use vstd::prelude::*;
use vstd::utf8::encode_utf8;
use vstd::string::StringExecFns;
use crate::text::{decimal_text, spec_decimal};

verus! {

/// Three-way property outcome shared by every framework.
#[derive(Debug, Clone)]
pub enum PropertyResult {
    /// The invariant held for these inputs.
    Pass,
    /// The invariant was violated; the string carries a human-readable diagnostic.
    Fail(String),
    /// Inputs are outside the property's intended domain.
    Discard,
}

/// Largest input, in UTF-8 bytes, that a property accepts.
pub const MAX_INPUT_BYTES: usize = 4096;

/// Whether an input lies in the bounded domain of the properties: its UTF-8
/// encoding is at most `MAX_INPUT_BYTES` bytes long.
pub open spec fn spec_input_in_domain(s: Seq<char>) -> bool {
    encode_utf8(s).len() <= MAX_INPUT_BYTES
}

/// Decides whether `s` is in the properties' domain.
pub fn input_in_domain(s: &str) -> (r: bool)
    ensures
        r == spec_input_in_domain(s@),
{
    s.as_bytes().len() <= MAX_INPUT_BYTES
}


/// How long the termination property waits for a parse, in milliseconds.
pub const PARSE_TIMEOUT_MS: u64 = 2000;

/// Stack size of the worker that runs a parse for the termination property:
/// small enough that a parser recursing without bound fails quickly.
pub const WORKER_STACK_BYTES: usize = 256 * 1024;

/// What a panic carried, as far as a diagnostic reads it.
#[derive(Debug)]
pub enum PanicPayload {
    /// The panic carried a message (a `String` or a `&str`).
    Text(String),
    /// The panic carried something else.
    Opaque,
}

/// How a parse run under a panic guard ended.
#[derive(Debug)]
pub enum ParseOutcome {
    /// The parse returned, with a document or with an error.
    Completed,
    /// The parse panicked.
    Panicked(PanicPayload),
}

/// How a parse run on a worker thread, under a timeout, ended.
#[derive(Debug)]
pub enum WorkerOutcome {
    /// The worker thread could not be started; the text describes why.
    SpawnFailed(String),
    /// The worker reported how its parse ended.
    Finished(ParseOutcome),
    /// No report came within `PARSE_TIMEOUT_MS`.
    TimedOut,
    /// The worker went away without reporting.
    Disconnected,
}

/// The text a diagnostic shows for a panic: its message, or `fallback` when
/// it carried none.
pub open spec fn panic_text(p: PanicPayload, fallback: Seq<char>) -> Seq<char> {
    match p {
        PanicPayload::Text(s) => s@,
        PanicPayload::Opaque => fallback,
    }
}

/// Computes `panic_text`.
pub fn panic_message(p: &PanicPayload, fallback: &str) -> (r: String)
    ensures
        r@ == panic_text(*p, fallback@),
{
    match p {
        PanicPayload::Text(s) => s.clone(),
        PanicPayload::Opaque => String::from_str(fallback),
    }
}

/// The verdict of the no-panic property on an input in its domain, from how
/// the guarded parse ended: `Pass` when the parse returned (with a document
/// or with an error), `Fail` with a diagnostic exactly when it panicked.
pub fn does_not_panic_verdict(outcome: ParseOutcome) -> (r: PropertyResult)
    ensures
        match outcome {
            ParseOutcome::Completed => r is Pass,
            ParseOutcome::Panicked(p) => r matches PropertyResult::Fail(m)
                && m@ == "parser panicked: "@ + panic_text(p, "parser panicked"@),
        },
{
    match outcome {
        ParseOutcome::Completed => PropertyResult::Pass,
        ParseOutcome::Panicked(p) => {
            let msg = panic_message(&p, "parser panicked");
            let mut m = String::from_str("parser panicked: ");
            m.append(msg.as_str());
            PropertyResult::Fail(m)
        },
    }
}

/// The diagnostic for a parse that did not finish in time.
pub open spec fn timeout_text() -> Seq<char> {
    "parser failed to terminate within "@ + spec_decimal(PARSE_TIMEOUT_MS as nat) + " ms"@
}

/// The verdict of the termination property on an input in its domain, from
/// how the worker's parse ended: `Pass` exactly when the parse finished
/// without panicking; a panic, a timeout, a lost worker or a worker that
/// could not start are each a `Fail` with its own diagnostic.
pub fn terminates_verdict(outcome: WorkerOutcome) -> (r: PropertyResult)
    ensures
        match outcome {
            WorkerOutcome::SpawnFailed(e) => r matches PropertyResult::Fail(m)
                && m@ == "failed to spawn worker: "@ + e@,
            WorkerOutcome::Finished(ParseOutcome::Completed) => r is Pass,
            WorkerOutcome::Finished(ParseOutcome::Panicked(p)) => r matches PropertyResult::Fail(m)
                && m@ == "parser panicked on worker: "@ + panic_text(p, "parser thread panicked"@),
            WorkerOutcome::TimedOut => r matches PropertyResult::Fail(m) && m@ == timeout_text(),
            WorkerOutcome::Disconnected => r matches PropertyResult::Fail(m)
                && m@ == "parser worker disconnected without result"@,
        },
{
    match outcome {
        WorkerOutcome::SpawnFailed(e) => {
            let mut m = String::from_str("failed to spawn worker: ");
            m.append(e.as_str());
            PropertyResult::Fail(m)
        },
        WorkerOutcome::Finished(ParseOutcome::Completed) => PropertyResult::Pass,
        WorkerOutcome::Finished(ParseOutcome::Panicked(p)) => {
            let msg = panic_message(&p, "parser thread panicked");
            let mut m = String::from_str("parser panicked on worker: ");
            m.append(msg.as_str());
            PropertyResult::Fail(m)
        },
        WorkerOutcome::TimedOut => {
            let ms = decimal_text(PARSE_TIMEOUT_MS as u128);
            let mut m = String::from_str("parser failed to terminate within ");
            m.append(ms.as_str());
            m.append(" ms");
            PropertyResult::Fail(m)
        },
        WorkerOutcome::Disconnected => {
            PropertyResult::Fail(String::from_str("parser worker disconnected without result"))
        },
    }
}

} // verus!
