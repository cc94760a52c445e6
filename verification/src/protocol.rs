//! The wire protocol: version and size limits, the envelope around each
//! message, the length-prefixed frame that carries it over the socket, the
//! protocol's errors and the validation rules for messages of each direction.
//!
//! Turning messages into JSON and back is not done here; this module checks
//! the bytes and values on either side of that step.

use vstd::prelude::*;
use crate::text::{decimal, push_decimal, push_seconds, push_str, seconds_text};
use crate::types::{get_timestamp, OrchestratorMessage, WorkerMessage};

verus! {

/// Protocol version of the wire format.
pub const PROTOCOL_VERSION: u8 = 1;

/// Largest accepted message (1 MiB), against memory exhaustion.
pub const MAX_MESSAGE_SIZE: usize = 1_048_576;

/// Errors of protocol operations.
#[derive(Debug)]
pub enum ProtocolError {
    /// The JSON (de)serializer failed; its description.
    JsonError(String),
    /// Reading or writing the socket failed; the error's description.
    IoError(String),
    /// The message exceeds the maximum size.
    MessageTooLarge { size: usize, max: usize },
    /// The envelope carries another protocol version.
    VersionMismatch { expected: u8, actual: u8 },
    /// A validation rule failed.
    ValidationError(String),
    /// A message of an unexpected type arrived.
    UnexpectedMessageType(String),
    /// The message names another worker.
    WorkerIdMismatch { expected: String, actual: String },
    /// The connection is closed.
    ConnectionClosed,
    /// No message arrived in time.
    Timeout,
}

/// The human-readable text of an error.
pub open spec fn error_text(e: ProtocolError) -> Seq<char> {
    match e {
        ProtocolError::JsonError(d) => "JSON error: "@ + d@,
        ProtocolError::IoError(d) => "IO error: "@ + d@,
        ProtocolError::MessageTooLarge { size, max } =>
            "Message size "@ + decimal(size as nat) + " exceeds maximum "@ + decimal(max as nat),
        ProtocolError::VersionMismatch { expected, actual } =>
            "Invalid protocol version: expected "@ + decimal(expected as nat) + ", got "@ + decimal(actual as nat),
        ProtocolError::ValidationError(d) => "Validation error: "@ + d@,
        ProtocolError::UnexpectedMessageType(d) => "Unexpected message type: "@ + d@,
        ProtocolError::WorkerIdMismatch { expected, actual } =>
            "Worker ID mismatch: expected "@ + expected@ + ", got "@ + actual@,
        ProtocolError::ConnectionClosed => "Connection closed"@,
        ProtocolError::Timeout => "Timeout waiting for message"@,
    }
}

impl ProtocolError {
    /// The human-readable text of the error.
    pub fn message(&self) -> (r: String)
        ensures
            r@ == error_text(*self),
    {
        let mut r = String::new();
        match self {
            ProtocolError::JsonError(d) => {
                push_str(&mut r, "JSON error: ");
                push_str(&mut r, d.as_str());
            },
            ProtocolError::IoError(d) => {
                push_str(&mut r, "IO error: ");
                push_str(&mut r, d.as_str());
            },
            ProtocolError::MessageTooLarge { size, max } => {
                push_str(&mut r, "Message size ");
                push_decimal(&mut r, *size as u64);
                push_str(&mut r, " exceeds maximum ");
                push_decimal(&mut r, *max as u64);
            },
            ProtocolError::VersionMismatch { expected, actual } => {
                push_str(&mut r, "Invalid protocol version: expected ");
                push_decimal(&mut r, *expected as u64);
                push_str(&mut r, ", got ");
                push_decimal(&mut r, *actual as u64);
            },
            ProtocolError::ValidationError(d) => {
                push_str(&mut r, "Validation error: ");
                push_str(&mut r, d.as_str());
            },
            ProtocolError::UnexpectedMessageType(d) => {
                push_str(&mut r, "Unexpected message type: ");
                push_str(&mut r, d.as_str());
            },
            ProtocolError::WorkerIdMismatch { expected, actual } => {
                push_str(&mut r, "Worker ID mismatch: expected ");
                push_str(&mut r, expected.as_str());
                push_str(&mut r, ", got ");
                push_str(&mut r, actual.as_str());
            },
            ProtocolError::ConnectionClosed => {
                push_str(&mut r, "Connection closed");
            },
            ProtocolError::Timeout => {
                push_str(&mut r, "Timeout waiting for message");
            },
        }
        r
    }
}

/// Results of protocol operations.
pub type ProtocolResult<T> = Result<T, ProtocolError>;

/// `r` is the outcome that `check` prescribes: success, or a validation error with its text.
pub open spec fn is_check_outcome(r: ProtocolResult<()>, check: Result<(), Seq<char>>) -> bool {
    match (r, check) {
        (Ok(()), Ok(())) => true,
        (Err(ProtocolError::ValidationError(t)), Err(m)) => t@ == m,
        _ => false,
    }
}

// ============================================================================
// Envelope
// ============================================================================

/// The envelope around each message on the wire: protocol version and payload.
#[derive(Debug, Clone)]
pub struct MessageEnvelope<T> {
    /// Protocol version.
    pub version: u8,
    /// The message.
    pub payload: T,
}

impl<T> MessageEnvelope<T> {
    /// An envelope of the current protocol version.
    pub fn new(payload: T) -> (e: Self)
        ensures
            e.version == PROTOCOL_VERSION,
            e.payload == payload,
    {
        MessageEnvelope { version: PROTOCOL_VERSION, payload }
    }

    /// The envelope's protocol version.
    pub fn version(&self) -> (v: u8)
        ensures
            v == self.version,
    {
        self.version
    }

    /// Succeeds exactly when the envelope carries the current protocol version.
    pub fn validate_version(&self) -> (r: ProtocolResult<()>)
        ensures
            self.version == PROTOCOL_VERSION ==> r is Ok,
            self.version != PROTOCOL_VERSION ==> r == Err::<(), ProtocolError>(
                ProtocolError::VersionMismatch { expected: PROTOCOL_VERSION, actual: self.version },
            ),
    {
        if self.version != PROTOCOL_VERSION {
            return Err(ProtocolError::VersionMismatch { expected: PROTOCOL_VERSION, actual: self.version });
        }
        Ok(())
    }

    /// The payload of a received envelope, if its version is the current one.
    pub fn open(self) -> (r: ProtocolResult<T>)
        ensures
            self.version == PROTOCOL_VERSION ==> r == Ok::<T, ProtocolError>(self.payload),
            self.version != PROTOCOL_VERSION ==> r == Err::<T, ProtocolError>(
                ProtocolError::VersionMismatch { expected: PROTOCOL_VERSION, actual: self.version },
            ),
    {
        match self.validate_version() {
            Ok(()) => Ok(self.payload),
            Err(e) => Err(e),
        }
    }
}

// ============================================================================
// Size limit and framing
// ============================================================================

/// Succeeds exactly when a message of `size` bytes is within the limit.
pub fn check_message_size(size: usize) -> (r: ProtocolResult<()>)
    ensures
        size <= MAX_MESSAGE_SIZE ==> r is Ok,
        size > MAX_MESSAGE_SIZE ==> r == Err::<(), ProtocolError>(
            ProtocolError::MessageTooLarge { size, max: MAX_MESSAGE_SIZE },
        ),
{
    if size > MAX_MESSAGE_SIZE {
        return Err(ProtocolError::MessageTooLarge { size, max: MAX_MESSAGE_SIZE });
    }
    Ok(())
}

/// Accepts the serialized bytes of an outgoing envelope if they are within the size limit.
pub fn check_serialized(json: Vec<u8>) -> (r: ProtocolResult<Vec<u8>>)
    ensures
        json.len() <= MAX_MESSAGE_SIZE ==> r == Ok::<Vec<u8>, ProtocolError>(json),
        json.len() > MAX_MESSAGE_SIZE ==> r == Err::<Vec<u8>, ProtocolError>(
            ProtocolError::MessageTooLarge { size: json.len(), max: MAX_MESSAGE_SIZE },
        ),
{
    match check_message_size(json.len()) {
        Ok(()) => Ok(json),
        Err(e) => Err(e),
    }
}

/// The value of four bytes read as a big-endian unsigned integer.
pub open spec fn be_u32(b: Seq<u8>) -> nat {
    (b[0] as nat) * 16777216 + (b[1] as nat) * 65536 + (b[2] as nat) * 256 + (b[3] as nat)
}

/// A frame: the payload's length as four big-endian bytes, then the payload.
pub open spec fn frame(payload: Seq<u8>) -> Seq<u8> {
    let n = payload.len();
    seq![(n / 16777216) as u8, ((n / 65536) % 256) as u8, ((n / 256) % 256) as u8, (n % 256) as u8] + payload
}

/// Frames a payload for the socket: four big-endian length bytes, then the payload.
pub fn encode_frame(payload: &[u8]) -> (r: Vec<u8>)
    requires
        payload@.len() <= u32::MAX,
    ensures
        r@ == frame(payload@),
{
    let n = payload.len() as u32;
    let mut r: Vec<u8> = Vec::new();
    r.push((n >> 24) as u8);
    r.push(((n >> 16) & 0xff) as u8);
    r.push(((n >> 8) & 0xff) as u8);
    r.push((n & 0xff) as u8);
    assert((n >> 24) as u8 == (n / 16777216) as u8) by (bit_vector);
    assert(((n >> 16) & 0xff) as u8 == ((n / 65536) % 256) as u8) by (bit_vector);
    assert(((n >> 8) & 0xff) as u8 == ((n / 256) % 256) as u8) by (bit_vector);
    assert((n & 0xff) as u8 == (n % 256) as u8) by (bit_vector);
    let mut i: usize = 0;
    while i < payload.len()
        invariant
            i <= payload@.len(),
            n == payload@.len(),
            r@ == frame(payload@).take(4 + i),
        decreases payload.len() - i,
    {
        r.push(payload[i]);
        assert(frame(payload@).take(4 + i + 1) =~= frame(payload@).take(4 + i).push(payload@[i as int]));
        i += 1;
    }
    assert(frame(payload@).take(4 + payload@.len() as int) =~= frame(payload@));
    r
}

/// The payload length announced by a frame header, if it is within the size limit.
pub fn frame_length(header: [u8; 4]) -> (r: ProtocolResult<usize>)
    ensures
        be_u32(header@) <= MAX_MESSAGE_SIZE ==> r == Ok::<usize, ProtocolError>(be_u32(header@) as usize),
        be_u32(header@) > MAX_MESSAGE_SIZE ==> r == Err::<usize, ProtocolError>(
            ProtocolError::MessageTooLarge { size: be_u32(header@) as usize, max: MAX_MESSAGE_SIZE },
        ),
{
    let b0 = header[0] as u32;
    let b1 = header[1] as u32;
    let b2 = header[2] as u32;
    let b3 = header[3] as u32;
    let n: u32 = b0 * 16777216 + b1 * 65536 + b2 * 256 + b3;
    let len = n as usize;
    match check_message_size(len) {
        Ok(()) => Ok(len),
        Err(e) => Err(e),
    }
}

/// Reading back the header of a frame gives the payload's length, and the rest of the
/// frame is the payload.
pub proof fn lemma_frame_round_trip(payload: Seq<u8>)
    requires
        payload.len() <= u32::MAX,
    ensures
        be_u32(frame(payload).take(4)) == payload.len(),
        frame(payload).skip(4) == payload,
{
    let n = payload.len();
    let h = frame(payload).take(4);
    assert(h[0] == (n / 16777216) as u8);
    assert(h[3] == (n % 256) as u8);
    assert(be_u32(h) == n) by (nonlinear_arith)
        requires
            h[0] as nat == n / 16777216,
            h[1] as nat == (n / 65536) % 256,
            h[2] as nat == (n / 256) % 256,
            h[3] as nat == n % 256,
            n <= 4294967295,
    {
    }
    assert(frame(payload).skip(4) =~= payload);
}

// ============================================================================
// Validation
// ============================================================================

/// Longest accepted task duration: one hour, in milliseconds.
pub const MAX_DURATION_MS: u64 = 3_600_000;

/// Longest accepted wait: one hour, in seconds.
pub const MAX_WAIT_SECONDS: u32 = 3600;

/// How far a message may be stamped ahead of the receiver's clock (ms).
pub const MAX_FUTURE_SKEW_MS: u64 = 60_000;

/// How old a worker message may be (ms).
pub const MAX_MESSAGE_AGE_MS: u64 = 3_600_000;

/// The text of a too-far-in-the-future timestamp.
pub open spec fn future_text(ts: nat, now: nat) -> Seq<char> {
    "timestamp "@ + seconds_text(ts) + " is too far in the future (now: "@ + seconds_text(now) + ")"@
}

/// The text of a too-old timestamp.
pub open spec fn old_text(ts: nat, now: nat) -> Seq<char> {
    "timestamp "@ + seconds_text(ts) + " is too old (now: "@ + seconds_text(now) + ")"@
}

/// The text of an unreasonable duration.
pub open spec fn duration_text(d: nat) -> Seq<char> {
    "duration_ms "@ + decimal(d) + " is unreasonably large"@
}

/// The rules a worker message must meet when received at `now` (ms), checked in this
/// order; the first that fails gives the error text.
pub open spec fn worker_message_check(m: WorkerMessage, now: nat) -> Result<(), Seq<char>> {
    let ts = m.spec_timestamp() as nat;
    if m.spec_worker_id().len() == 0 {
        Err("worker_id cannot be empty"@)
    } else if ts > now + MAX_FUTURE_SKEW_MS {
        Err(future_text(ts, now))
    } else if ts + MAX_MESSAGE_AGE_MS < now {
        Err(old_text(ts, now))
    } else {
        match m {
            WorkerMessage::Done { issue_id, duration_ms, .. } => {
                if issue_id@.len() == 0 {
                    Err("issue_id cannot be empty in DONE message"@)
                } else if duration_ms > MAX_DURATION_MS {
                    Err(duration_text(duration_ms as nat))
                } else {
                    Ok(())
                }
            },
            WorkerMessage::Failed { issue_id, error, duration_ms, .. } => {
                if issue_id@.len() == 0 {
                    Err("issue_id cannot be empty in FAILED message"@)
                } else if error@.len() == 0 {
                    Err("error cannot be empty in FAILED message"@)
                } else if duration_ms > MAX_DURATION_MS {
                    Err(duration_text(duration_ms as nat))
                } else {
                    Ok(())
                }
            },
            WorkerMessage::Ready { .. } => Ok(()),
        }
    }
}

/// The rules an orchestrator message must meet when received at `now` (ms), checked in
/// this order; the first that fails gives the error text.
pub open spec fn orchestrator_message_check(m: OrchestratorMessage, now: nat) -> Result<(), Seq<char>> {
    let ts = m.spec_timestamp() as nat;
    if m.spec_worker_id().len() == 0 {
        Err("worker_id cannot be empty"@)
    } else if ts > now + MAX_FUTURE_SKEW_MS {
        Err(future_text(ts, now))
    } else {
        match m {
            OrchestratorMessage::Task { issue_id, priority, title, .. } => {
                if issue_id@.len() == 0 {
                    Err("issue_id cannot be empty in TASK message"@)
                } else if title@.len() == 0 {
                    Err("title cannot be empty in TASK message"@)
                } else if priority > 4 {
                    Err("priority "@ + decimal(priority as nat) + " is out of range (0-4)"@)
                } else {
                    Ok(())
                }
            },
            OrchestratorMessage::Wait { wait_seconds, .. } => {
                if wait_seconds > MAX_WAIT_SECONDS {
                    Err("wait_seconds "@ + decimal(wait_seconds as nat) + " is unreasonably large"@)
                } else {
                    Ok(())
                }
            },
            OrchestratorMessage::Shutdown { .. } => Ok(()),
        }
    }
}

/// A worker message stamped with the receiver's clock passes the timestamp
/// checks: what decides is only the content (a READY from a named worker is
/// always accepted).
pub proof fn lemma_stamped_now(m: WorkerMessage, now: u64)
    requires
        m.spec_timestamp() == now,
    ensures
        worker_message_check(m, now as nat) == if m.spec_worker_id().len() == 0 {
            Err("worker_id cannot be empty"@)
        } else {
            match m {
                WorkerMessage::Done { issue_id, duration_ms, .. } => if issue_id@.len() == 0 {
                    Err("issue_id cannot be empty in DONE message"@)
                } else if duration_ms > MAX_DURATION_MS {
                    Err(duration_text(duration_ms as nat))
                } else {
                    Ok(())
                },
                WorkerMessage::Failed { issue_id, error, duration_ms, .. } => if issue_id@.len() == 0 {
                    Err("issue_id cannot be empty in FAILED message"@)
                } else if error@.len() == 0 {
                    Err("error cannot be empty in FAILED message"@)
                } else if duration_ms > MAX_DURATION_MS {
                    Err(duration_text(duration_ms as nat))
                } else {
                    Ok(())
                },
                WorkerMessage::Ready { .. } => Ok(()),
            }
        },
{
}

fn validation_error(text: String) -> (r: ProtocolResult<()>)
    ensures
        is_check_outcome(r, Err(text@)),
{
    Err(ProtocolError::ValidationError(text))
}

fn timestamp_error(future: bool, ts: u64, now: u64) -> (r: ProtocolResult<()>)
    ensures
        future ==> is_check_outcome(r, Err(future_text(ts as nat, now as nat))),
        !future ==> is_check_outcome(r, Err(old_text(ts as nat, now as nat))),
{
    let mut t = String::new();
    push_str(&mut t, "timestamp ");
    push_seconds(&mut t, ts);
    if future {
        push_str(&mut t, " is too far in the future (now: ");
    } else {
        push_str(&mut t, " is too old (now: ");
    }
    push_seconds(&mut t, now);
    push_str(&mut t, ")");
    validation_error(t)
}

fn number_error(prefix: &str, n: u64, suffix: &str) -> (r: ProtocolResult<()>)
    ensures
        is_check_outcome(r, Err(prefix@ + decimal(n as nat) + suffix@)),
{
    let mut t = String::new();
    push_str(&mut t, prefix);
    push_decimal(&mut t, n);
    push_str(&mut t, suffix);
    validation_error(t)
}

fn text_error(text: &str) -> (r: ProtocolResult<()>)
    ensures
        is_check_outcome(r, Err(text@)),
{
    let mut t = String::new();
    push_str(&mut t, text);
    validation_error(t)
}

/// Validates a worker message received at `now_ms`.
pub fn validate_worker_message_at(message: &WorkerMessage, now_ms: u64) -> (r: ProtocolResult<()>)
    ensures
        is_check_outcome(r, worker_message_check(*message, now_ms as nat)),
{
    if message.worker_id().is_empty() {
        return text_error("worker_id cannot be empty");
    }
    let ts = message.timestamp();
    if now_ms <= u64::MAX - MAX_FUTURE_SKEW_MS && ts > now_ms + MAX_FUTURE_SKEW_MS {
        return timestamp_error(true, ts, now_ms);
    }
    if ts <= u64::MAX - MAX_MESSAGE_AGE_MS && ts + MAX_MESSAGE_AGE_MS < now_ms {
        return timestamp_error(false, ts, now_ms);
    }
    match message {
        WorkerMessage::Done { issue_id, duration_ms, .. } => {
            if issue_id.as_str().is_empty() {
                return text_error("issue_id cannot be empty in DONE message");
            }
            if *duration_ms > MAX_DURATION_MS {
                return number_error("duration_ms ", *duration_ms, " is unreasonably large");
            }
        },
        WorkerMessage::Failed { issue_id, error, duration_ms, .. } => {
            if issue_id.as_str().is_empty() {
                return text_error("issue_id cannot be empty in FAILED message");
            }
            if error.as_str().is_empty() {
                return text_error("error cannot be empty in FAILED message");
            }
            if *duration_ms > MAX_DURATION_MS {
                return number_error("duration_ms ", *duration_ms, " is unreasonably large");
            }
        },
        WorkerMessage::Ready { .. } => {},
    }
    Ok(())
}

/// Validates a worker message against the current time.
pub fn validate_worker_message(message: &WorkerMessage) -> (r: ProtocolResult<()>)
    ensures
        exists|now: u64| is_check_outcome(r, worker_message_check(*message, now as nat)),
{
    let now = get_timestamp();
    validate_worker_message_at(message, now)
}

/// Validates an orchestrator message received at `now_ms`.
pub fn validate_orchestrator_message_at(message: &OrchestratorMessage, now_ms: u64) -> (r: ProtocolResult<()>)
    ensures
        is_check_outcome(r, orchestrator_message_check(*message, now_ms as nat)),
{
    if message.worker_id().is_empty() {
        return text_error("worker_id cannot be empty");
    }
    let ts = message.timestamp();
    if now_ms <= u64::MAX - MAX_FUTURE_SKEW_MS && ts > now_ms + MAX_FUTURE_SKEW_MS {
        return timestamp_error(true, ts, now_ms);
    }
    match message {
        OrchestratorMessage::Task { issue_id, priority, title, .. } => {
            if issue_id.as_str().is_empty() {
                return text_error("issue_id cannot be empty in TASK message");
            }
            if title.as_str().is_empty() {
                return text_error("title cannot be empty in TASK message");
            }
            if *priority > 4 {
                return number_error("priority ", *priority as u64, " is out of range (0-4)");
            }
        },
        OrchestratorMessage::Wait { wait_seconds, .. } => {
            if *wait_seconds > MAX_WAIT_SECONDS {
                return number_error("wait_seconds ", *wait_seconds as u64, " is unreasonably large");
            }
        },
        OrchestratorMessage::Shutdown { .. } => {},
    }
    Ok(())
}

/// Validates an orchestrator message against the current time.
pub fn validate_orchestrator_message(message: &OrchestratorMessage) -> (r: ProtocolResult<()>)
    ensures
        exists|now: u64| is_check_outcome(r, orchestrator_message_check(*message, now as nat)),
{
    let now = get_timestamp();
    validate_orchestrator_message_at(message, now)
}

} // verus!
