//! Decisions a coordinator session makes around the wire: which start-up
//! options a lane can honour, how failures are classified, how long the
//! first read after an ACK may wait, identifier shape, stored-value range
//! checks, and what a renewal request is answered.
use vstd::prelude::*;

use crate::lease_store::{
    renew_within_duration_step, max_duration_exceeded, CoordinatorLeaseStore, LeaseMap,
    LeaseStoreError, RenewDecision, StoredLease,
};
use crate::text::{
    decimal, push_char, ascii_lowercase, chars_of, contains_text, copy_string, has_text, lemma_starts_with_append,
    lemma_starts_with_self, lowered_chars, push_decimal, push_str, starts_with,
};

verus! {

/// A failure isolated to one accepted session. Transport and protocol
/// failures end the connection only; a storage failure means no trustworthy
/// lease decision can be made any more, and the coordinator stops.
#[derive(Debug, Clone, PartialEq, Eq)]
pub enum CoordinatorSessionError {
    Transport(String),
    Protocol(String),
    Storage(String),
}

impl CoordinatorSessionError {
    /// `transport: ..`, `protocol: ..` or `storage: ..`.
    pub fn message(&self) -> (r: String)
        ensures
            r@ == session_error_text(*self),
    {
        let (kind, text) = match self {
            CoordinatorSessionError::Transport(m) => ("transport: ", m),
            CoordinatorSessionError::Protocol(m) => ("protocol: ", m),
            CoordinatorSessionError::Storage(m) => ("storage: ", m),
        };
        let mut r = String::from_str(kind);
        push_str(&mut r, text.as_str());
        r
    }
}

/// The text of a session error.
pub open spec fn session_error_text(e: CoordinatorSessionError) -> Seq<char> {
    match e {
        CoordinatorSessionError::Transport(m) => "transport: "@ + m@,
        CoordinatorSessionError::Protocol(m) => "protocol: "@ + m@,
        CoordinatorSessionError::Storage(m) => "storage: "@ + m@,
    }
}

/// The kind of a session error, as the dispatcher logs it.
pub open spec fn session_error_kind_text(e: CoordinatorSessionError) -> Seq<char> {
    match e {
        CoordinatorSessionError::Transport(_) => "transport"@,
        CoordinatorSessionError::Protocol(_) => "protocol"@,
        CoordinatorSessionError::Storage(_) => "storage"@,
    }
}

pub fn session_error_kind(error: &CoordinatorSessionError) -> (r: &'static str)
    ensures
        r@ == session_error_kind_text(*error),
{
    match error {
        CoordinatorSessionError::Transport(_) => "transport",
        CoordinatorSessionError::Protocol(_) => "protocol",
        CoordinatorSessionError::Storage(_) => "storage",
    }
}

/// `context: message`.
fn with_context(context: &str, message: &str) -> (r: String)
    ensures
        r@ == context@ + ": "@ + message@,
{
    let mut r = String::from_str(context);
    push_str(&mut r, ": ");
    push_str(&mut r, message);
    r
}

/// A failure of a session stage: either still a bare message, classified
/// by its text when the session ends, or already classified.
#[derive(Debug, Clone, PartialEq, Eq)]
pub enum SessionHandlerError {
    Legacy(String),
    Classified(CoordinatorSessionError),
}

/// A message about the lease store (in either of the languages session
/// messages are written in).
pub open spec fn storage_marker(m: Seq<char>) -> bool {
    contains_text(m, "lease store"@) || contains_text(m, "저장소"@)
}

/// A message about a failure on the wire. With ASCII letters lowered: a
/// frame cut short, the stream, a reset, aborted or closed connection, a
/// broken pipe, a timeout, a failed send or flush, or nothing more
/// arriving; or, as written, one of the same phrases in Korean.
pub open spec fn transport_marker(m: Seq<char>) -> bool {
    let lower = ascii_lowercase(m);
    ||| contains_text(lower, "truncated"@)
    ||| contains_text(lower, "stream"@)
    ||| contains_text(lower, "connection reset"@)
    ||| contains_text(lower, "connection aborted"@)
    ||| contains_text(lower, "broken pipe"@)
    ||| contains_text(lower, "timed out"@)
    ||| contains_text(lower, "timeout"@)
    ||| contains_text(lower, "connection closed"@)
    ||| contains_text(lower, "send failed"@)
    ||| contains_text(lower, "flush failed"@)
    ||| contains_text(lower, "nothing more arrived"@)
    ||| contains_text(m, "스트림이 끊겼다"@)
    ||| contains_text(m, "스트림 읽기 실패"@)
    ||| contains_text(m, "연결이 끊겼다"@)
    ||| contains_text(m, "전송 실패"@)
    ||| contains_text(m, "flush 실패"@)
    ||| contains_text(m, "연결에 더 이상 아무것도 오지 않았다"@)
}

/// A failed operation on a lease, in either language.
pub open spec fn lease_failure_marker(m: Seq<char>) -> bool {
    contains_text(m, "Lease"@) && (contains_text(m, "실패"@) || contains_text(m, "failed"@))
}

/// How a bare session message is classified: the lease store first, then
/// the wire, then a failed operation on the lease when a durable store is
/// in use, and a protocol failure otherwise.
pub open spec fn legacy_kind(m: Seq<char>, durable: bool) -> Seq<char> {
    if storage_marker(m) {
        "storage"@
    } else if transport_marker(m) {
        "transport"@
    } else if durable && lease_failure_marker(m) {
        "storage"@
    } else {
        "protocol"@
    }
}

/// The classified message keeps the bare one after its context.
pub open spec fn legacy_payload(m: Seq<char>, durable: bool) -> Seq<char> {
    if storage_marker(m) {
        "session lease operation"@ + ": "@ + m
    } else if transport_marker(m) {
        "session I/O"@ + ": "@ + m
    } else if durable && lease_failure_marker(m) {
        "session durable lease operation"@ + ": "@ + m
    } else {
        "session protocol"@ + ": "@ + m
    }
}

/// The message a session error carries.
pub open spec fn session_error_payload(e: CoordinatorSessionError) -> Seq<char> {
    match e {
        CoordinatorSessionError::Transport(m) => m@,
        CoordinatorSessionError::Protocol(m) => m@,
        CoordinatorSessionError::Storage(m) => m@,
    }
}

fn mentions(h: &Vec<char>, t: &str) -> (r: bool)
    ensures
        r == contains_text(h@, t@),
{
    has_text(h, &chars_of(t))
}

/// See `legacy_kind` and `legacy_payload`.
pub fn classify_legacy_session_error(message: String, durable_store_enabled: bool) -> (r: CoordinatorSessionError)
    ensures
        session_error_kind_text(r) == legacy_kind(message@, durable_store_enabled),
        session_error_payload(r) == legacy_payload(message@, durable_store_enabled),
{
    let text = chars_of(message.as_str());
    let lower = lowered_chars(message.as_str());
    if mentions(&text, "lease store") || mentions(&text, "저장소") {
        return CoordinatorSessionError::Storage(with_context("session lease operation", message.as_str()));
    }
    let transport = mentions(&lower, "truncated") || mentions(&lower, "stream") || mentions(&lower, "connection reset")
        || mentions(&lower, "connection aborted") || mentions(&lower, "broken pipe") || mentions(&lower, "timed out")
        || mentions(&lower, "timeout") || mentions(&lower, "connection closed") || mentions(&lower, "send failed")
        || mentions(&lower, "flush failed") || mentions(&lower, "nothing more arrived")
        || mentions(&text, "스트림이 끊겼다") || mentions(&text, "스트림 읽기 실패") || mentions(&text, "연결이 끊겼다")
        || mentions(&text, "전송 실패") || mentions(&text, "flush 실패")
        || mentions(&text, "연결에 더 이상 아무것도 오지 않았다");
    if transport {
        CoordinatorSessionError::Transport(with_context("session I/O", message.as_str()))
    } else if durable_store_enabled && mentions(&text, "Lease") && (mentions(&text, "실패") || mentions(
        &text,
        "failed",
    )) {
        CoordinatorSessionError::Storage(with_context("session durable lease operation", message.as_str()))
    } else {
        CoordinatorSessionError::Protocol(with_context("session protocol", message.as_str()))
    }
}

/// How a session's failure ends up classified: a bare message by its text
/// (see `legacy_kind`), a classified one as it is.
pub fn settle_session_error(error: SessionHandlerError, durable_store_enabled: bool) -> (r: CoordinatorSessionError)
    ensures
        match error {
            SessionHandlerError::Legacy(m) => session_error_kind_text(r) == legacy_kind(m@, durable_store_enabled)
                && session_error_payload(r) == legacy_payload(m@, durable_store_enabled),
            SessionHandlerError::Classified(e) => r == e,
        },
{
    match error {
        SessionHandlerError::Legacy(m) => classify_legacy_session_error(m, durable_store_enabled),
        SessionHandlerError::Classified(e) => e,
    }
}

/// A frame that could not be read: one that never arrived (cut short, or a
/// socket failure) is a transport failure under the missing label; one that
/// arrived and failed verification is a protocol failure under the rejected
/// label.
pub fn framing_failure(missing_label: &str, rejected_label: &str, arrived: bool, detail: &str) -> (r:
    CoordinatorSessionError)
    ensures
        !arrived ==> (r matches CoordinatorSessionError::Transport(m) && m@ == "session: "@ + missing_label@ + ": "@
            + detail@),
        arrived ==> (r matches CoordinatorSessionError::Protocol(m) && m@ == "session: "@ + rejected_label@ + ": "@
            + detail@),
{
    let label = if arrived {
        rejected_label
    } else {
        missing_label
    };
    let mut m = String::from_str("session: ");
    push_str(&mut m, label);
    push_str(&mut m, ": ");
    push_str(&mut m, detail);
    if arrived {
        CoordinatorSessionError::Protocol(m)
    } else {
        CoordinatorSessionError::Transport(m)
    }
}

/// A store failure met while classifying a Resume is always a storage
/// failure: I/O and lock timeouts are what that path can produce, and any
/// other variant crossing this boundary is unexpected and fails closed too.
pub fn classify_resume_store_error(error: LeaseStoreError) -> (r: CoordinatorSessionError)
    ensures
        r matches CoordinatorSessionError::Storage(m) && (if error is Io || error is LockTimeout {
            m@ == "resume lease classification"@ + ": "@ + error.text()
        } else {
            m@ == "unexpected resume lease-store error"@ + ": "@ + error.text()
        }),
{
    let text = error.message();
    match error {
        LeaseStoreError::Io(_) | LeaseStoreError::LockTimeout => CoordinatorSessionError::Storage(
            with_context("resume lease classification", text.as_str()),
        ),
        _ => CoordinatorSessionError::Storage(
            with_context("unexpected resume lease-store error", text.as_str()),
        ),
    }
}

/// Identifier length limit: a device id is copied into four identifiers, so a
/// long one would push frames over their limit and swell the stores.
pub const MAX_DEVICE_ID_LEN: usize = 64;

/// ASCII letters and digits, `-`, `_` and `.`.
pub open spec fn device_id_char_ok(c: char) -> bool {
    let u = c as u32;
    (0x30 <= u <= 0x39) || (0x41 <= u <= 0x5a) || (0x61 <= u <= 0x7a) || u == 0x2d || u == 0x5f
        || u == 0x2e
}

/// A usable agent identifier: non-empty, at most `MAX_DEVICE_ID_LEN` bytes
/// in UTF-8, and made only of the characters `device_id_char_ok` allows.
pub open spec fn device_id_ok(s: Seq<char>) -> bool {
    &&& s.len() > 0
    &&& (vstd::utf8::encode_utf8(s).len() as usize) <= MAX_DEVICE_ID_LEN
    &&& forall|i: int| 0 <= i < s.len() ==> device_id_char_ok(#[trigger] s[i])
}

fn device_id_char(c: char) -> (r: bool)
    ensures
        r == device_id_char_ok(c),
{
    let u = c as u32;
    (0x30 <= u && u <= 0x39) || (0x41 <= u && u <= 0x5a) || (0x61 <= u && u <= 0x7a) || u == 0x2d
        || u == 0x5f || u == 0x2e
}

/// `i` is the first position of `s` holding a character a device id may not
/// hold.
pub open spec fn first_bad_device_char(s: Seq<char>, i: int) -> bool {
    &&& 0 <= i < s.len()
    &&& !device_id_char_ok(s[i])
    &&& forall|k: int| 0 <= k < i ==> device_id_char_ok(#[trigger] s[k])
}

/// The refusal of an unusable device id: the first rule it breaks, checked
/// in the order empty, too long, forbidden character (the first one, shown
/// with the whole id).
pub open spec fn device_id_error(s: Seq<char>) -> Seq<char> {
    if s.len() == 0 {
        "DEVICE_ID_REJECTED: empty"@
    } else if (vstd::utf8::encode_utf8(s).len() as usize) > MAX_DEVICE_ID_LEN {
        "DEVICE_ID_REJECTED: "@ + decimal((vstd::utf8::encode_utf8(s).len() as usize) as nat)
            + " bytes, more than the limit of 64; the value is copied into four identifiers"@
    } else {
        let i = choose|i: int| first_bad_device_char(s, i);
        "DEVICE_ID_REJECTED: '"@ + seq![s[i]] + "' cannot be used ("@ + s
            + "); only ASCII letters, digits, '-', '_' and '.' are allowed"@
    }
}

/// Whether `device_id` can be used as an agent identifier: non-empty, at most
/// `MAX_DEVICE_ID_LEN` bytes, and made only of ASCII letters, digits, `-`,
/// `_` and `.` (no separators of the extra-agents syntax, no line breaks,
/// no path characters). A refusal is `device_id_error`.
pub fn validate_device_id(device_id: &str) -> (r: Result<(), String>)
    ensures
        r is Ok <==> device_id_ok(device_id@),
        r matches Err(e) ==> e@ == device_id_error(device_id@) && starts_with(e@, "DEVICE_ID_REJECTED: "@),
{
    let ghost head = "DEVICE_ID_REJECTED: "@;
    if device_id.is_empty() {
        let e = String::from_str("DEVICE_ID_REJECTED: empty");
        proof {
            reveal_strlit("DEVICE_ID_REJECTED: empty");
            reveal_strlit("DEVICE_ID_REJECTED: ");
            assert(e@.take(head.len() as int) =~= head);
        }
        return Err(e);
    }
    let byte_len = device_id.len();
    if byte_len > MAX_DEVICE_ID_LEN {
        let mut e = String::from_str("DEVICE_ID_REJECTED: ");
        push_decimal(&mut e, byte_len as u64);
        push_str(&mut e, " bytes, more than the limit of 64; the value is copied into four identifiers");
        proof {
            lemma_starts_with_self(head);
            lemma_starts_with_append(head, head, e@.skip(head.len() as int));
            assert(head + e@.skip(head.len() as int) =~= e@);
        }
        return Err(e);
    }
    let n = device_id.unicode_len();
    let mut i: usize = 0;
    while i < n
        invariant
            n == device_id@.len(),
            n > 0,
            (vstd::utf8::encode_utf8(device_id@).len() as usize) <= MAX_DEVICE_ID_LEN,
            i <= n,
            forall|k: int| 0 <= k < i ==> device_id_char_ok(#[trigger] device_id@[k]),
        decreases n - i,
    {
        let c = device_id.get_char(i);
        if !device_id_char(c) {
            let mut e = String::from_str("DEVICE_ID_REJECTED: '");
            push_char(&mut e, c);
            push_str(&mut e, "' cannot be used (");
            push_str(&mut e, device_id);
            push_str(&mut e, "); only ASCII letters, digits, '-', '_' and '.' are allowed");
            proof {
                let s = device_id@;
                assert(first_bad_device_char(s, i as int));
                let j = choose|j: int| first_bad_device_char(s, j);
                assert(first_bad_device_char(s, j));
                if j < i {
                    assert(device_id_char_ok(s[j]));
                } else if i < j {
                    assert(device_id_char_ok(s[i as int]));
                }
                assert(j == i);
                reveal_strlit("DEVICE_ID_REJECTED: '");
                reveal_strlit("DEVICE_ID_REJECTED: ");
                assert(e@ =~= device_id_error(s));
                let lit = "DEVICE_ID_REJECTED: '"@;
                let h = "DEVICE_ID_REJECTED: "@;
                assert(lit.take(h.len() as int) =~= h);
                assert(e@.take(h.len() as int) =~= lit.take(h.len() as int));
            }
            return Err(e);
        }
        i = i + 1;
    }
    Ok(())
}

/// A value read back from the lease store into a `u32` field of the wire:
/// a value above `u32::MAX` is refused instead of silently truncated.
pub fn u32_from_stored(value: u64, field: &str) -> (r: Result<u32, String>)
    ensures
        match r {
            Ok(v) => value <= u32::MAX && v == value,
            Err(_) => value > u32::MAX,
        },
{
    if value <= 0xffff_ffffu64 {
        Ok(value as u32)
    } else {
        let mut e = String::from_str("the lease store value of ");
        push_str(&mut e, field);
        push_str(&mut e, " (");
        push_decimal(&mut e, value);
        push_str(&mut e, ") exceeds the u32 range; the store may be corrupt");
        Err(e)
    }
}

/// Read timeout of one socket read, in milliseconds.
pub const IO_TIMEOUT_MS: u64 = 10_000;

/// How long the first read after an ACK may wait, in milliseconds. Without a
/// manifest there is no workload, and the ordinary read timeout applies
/// (`None`). With one, the wait is what is left of the lease, never less than
/// the ordinary timeout; a lease that has already expired is refused rather
/// than waited for (`POST_ACK_WAIT_REFUSED:`). A Grant that carries a
/// manifest but no lease is refused too.
pub fn post_ack_first_read_wait(
    manifest_present: bool,
    lease_expires_at_unix_ms: Option<u64>,
    now_unix_ms: u64,
) -> (r: Result<Option<u64>, String>)
    ensures
        !manifest_present ==> r == Ok::<Option<u64>, String>(None),
        manifest_present && lease_expires_at_unix_ms is None ==> r is Err,
        manifest_present ==> (lease_expires_at_unix_ms matches Some(exp) ==> (if exp <= now_unix_ms {
            r matches Err(e) && starts_with(e@, "POST_ACK_WAIT_REFUSED: "@)
        } else {
            r == Ok::<Option<u64>, String>(
                Some(
                    if exp - now_unix_ms > IO_TIMEOUT_MS {
                        (exp - now_unix_ms) as u64
                    } else {
                        IO_TIMEOUT_MS
                    },
                ),
            )
        })),
{
    if !manifest_present {
        return Ok(None);
    }
    let expires_at = match lease_expires_at_unix_ms {
        Some(t) => t,
        None => {
            return Err(String::from_str("POST_ACK_WAIT: a Grant that carries a manifest has no lease"));
        },
    };
    let remaining_ms = if expires_at > now_unix_ms {
        expires_at - now_unix_ms
    } else {
        0
    };
    if remaining_ms == 0 {
        let mut e = String::from_str("POST_ACK_WAIT_REFUSED: ");
        let ghost head = e@;
        proof {
            lemma_starts_with_self(head);
        }
        push_str(&mut e, "the lease has already expired (expires_at_unix_ms=");
        push_decimal(&mut e, expires_at);
        push_str(&mut e, " now=");
        push_decimal(&mut e, now_unix_ms);
        push_str(&mut e, ")");
        proof {
            lemma_starts_with_append(head, head, e@.skip(head.len() as int));
            assert(head + e@.skip(head.len() as int) =~= e@);
        }
        return Err(e);
    }
    if remaining_ms > IO_TIMEOUT_MS {
        Ok(Some(remaining_ms))
    } else {
        Ok(Some(IO_TIMEOUT_MS))
    }
}

/// Which session loop a coordinator runs.
#[derive(Debug, Clone, Copy, PartialEq, Eq, Structural)]
pub enum SessionLane {
    /// The sequential loop: the only one that receives neighbor reports,
    /// heartbeats and attempt reports.
    Sequential,
    /// One thread per connection; it has no receiving loop for those frames.
    MultiAgent,
}

/// The lane the configuration selects.
pub fn lane_from_config(multi_agent: bool) -> (r: SessionLane)
    ensures
        r == (if multi_agent {
            SessionLane::MultiAgent
        } else {
            SessionLane::Sequential
        }),
{
    if multi_agent {
        SessionLane::MultiAgent
    } else {
        SessionLane::Sequential
    }
}

/// The start-up options that decide whether the receiving stages of a
/// session can be reached.
#[derive(Debug, Clone, Copy, PartialEq, Eq)]
pub struct SessionOptions {
    pub expect_neighbor_reports: u32,
    pub expect_heartbeats: u32,
    pub expect_attempt_reports: u32,
    /// A liveness store path was given.
    pub liveness_db_configured: bool,
    /// A control database to build Grants from was given.
    pub grant_from_control_db_configured: bool,
    pub resume_protocol: bool,
    pub send_grant_twice: bool,
    pub disconnect_after_ack: bool,
    pub drop_connection_after_ack_once: bool,
}

/// Why an option cannot be honoured on a lane.
#[derive(Debug, Clone, Copy, PartialEq, Eq, Structural)]
pub enum LaneRefusal {
    /// The lane has no receiving loop for the frames.
    NotOnMultiAgent,
    /// Resume returns before the receiving stage.
    NotWithResume,
    /// `--send-grant-twice` may end the session first.
    SendGrantTwice,
    /// `--disconnect-after-ack` may end the session first.
    DisconnectAfterAck,
    /// `--drop-connection-after-ack-once` may end the session first.
    DropConnectionAfterAckOnce,
    /// Attempt reports can only be stored against a control database.
    NeedsControlDb,
    /// A liveness store is only opened when heartbeats are expected.
    LivenessDbWithoutHeartbeats,
}

/// A hook that can end the session right after the ACK, in flag order.
pub open spec fn early_end_hook(o: SessionOptions) -> Option<LaneRefusal> {
    if o.send_grant_twice {
        Some(LaneRefusal::SendGrantTwice)
    } else if o.disconnect_after_ack {
        Some(LaneRefusal::DisconnectAfterAck)
    } else if o.drop_connection_after_ack_once {
        Some(LaneRefusal::DropConnectionAfterAckOnce)
    } else {
        None
    }
}

/// Whether neighbor reports can be received: only on the sequential lane,
/// without Resume, and without a hook that may end the session first.
pub open spec fn neighbor_report_refusal(o: SessionOptions, lane: SessionLane) -> Option<LaneRefusal> {
    if o.expect_neighbor_reports == 0 {
        None
    } else if lane == SessionLane::MultiAgent {
        Some(LaneRefusal::NotOnMultiAgent)
    } else if o.resume_protocol {
        Some(LaneRefusal::NotWithResume)
    } else {
        early_end_hook(o)
    }
}

/// Whether heartbeats can be received; a liveness store without expected
/// heartbeats is refused as well, since it would never be opened.
pub open spec fn heartbeat_refusal(o: SessionOptions, lane: SessionLane) -> Option<LaneRefusal> {
    if o.expect_heartbeats == 0 && o.liveness_db_configured {
        Some(LaneRefusal::LivenessDbWithoutHeartbeats)
    } else if o.expect_heartbeats == 0 {
        None
    } else if lane == SessionLane::MultiAgent {
        Some(LaneRefusal::NotOnMultiAgent)
    } else if o.resume_protocol {
        Some(LaneRefusal::NotWithResume)
    } else {
        early_end_hook(o)
    }
}

/// Whether attempt reports can be received and stored.
pub open spec fn attempt_report_refusal(o: SessionOptions, lane: SessionLane) -> Option<LaneRefusal> {
    if o.expect_attempt_reports == 0 {
        None
    } else if lane == SessionLane::MultiAgent {
        Some(LaneRefusal::NotOnMultiAgent)
    } else if !o.grant_from_control_db_configured {
        Some(LaneRefusal::NeedsControlDb)
    } else if o.resume_protocol {
        Some(LaneRefusal::NotWithResume)
    } else {
        early_end_hook(o)
    }
}

/// The sentence that explains a refusal, naming what was asked for.
pub open spec fn refusal_text(what: Seq<char>, why: LaneRefusal) -> Seq<char> {
    match why {
        LaneRefusal::NotOnMultiAgent => "the multi-agent lane does not receive "@ + what,
        LaneRefusal::NotWithResume => "the resume path returns before it receives "@ + what,
        LaneRefusal::SendGrantTwice => "--send-grant-twice may end the session before it receives "@ + what,
        LaneRefusal::DisconnectAfterAck => "--disconnect-after-ack may end the session before it receives "@
            + what,
        LaneRefusal::DropConnectionAfterAckOnce =>
            "--drop-connection-after-ack-once may end the session before it receives "@ + what,
        LaneRefusal::NeedsControlDb =>
            "--grant-from-control-db is needed: termination evidence is stored only against the attempt and reservation of that control database, for "@
            + what,
        LaneRefusal::LivenessDbWithoutHeartbeats =>
            "--liveness-db is opened only when heartbeats are expected; it is not taken and dropped, for "@
            + what,
    }
}

fn refusal_message(what: &str, why: LaneRefusal) -> (r: String)
    ensures
        r@ == refusal_text(what@, why),
{
    let mut r = match why {
        LaneRefusal::NotOnMultiAgent => String::from_str("the multi-agent lane does not receive "),
        LaneRefusal::NotWithResume => String::from_str("the resume path returns before it receives "),
        LaneRefusal::SendGrantTwice => String::from_str(
            "--send-grant-twice may end the session before it receives ",
        ),
        LaneRefusal::DisconnectAfterAck => String::from_str(
            "--disconnect-after-ack may end the session before it receives ",
        ),
        LaneRefusal::DropConnectionAfterAckOnce => String::from_str(
            "--drop-connection-after-ack-once may end the session before it receives ",
        ),
        LaneRefusal::NeedsControlDb => String::from_str(
            "--grant-from-control-db is needed: termination evidence is stored only against the attempt and reservation of that control database, for ",
        ),
        LaneRefusal::LivenessDbWithoutHeartbeats => String::from_str(
            "--liveness-db is opened only when heartbeats are expected; it is not taken and dropped, for ",
        ),
    };
    push_str(&mut r, what);
    r
}

fn hook_refusal(o: &SessionOptions) -> (r: Option<LaneRefusal>)
    ensures
        r == early_end_hook(*o),
{
    if o.send_grant_twice {
        Some(LaneRefusal::SendGrantTwice)
    } else if o.disconnect_after_ack {
        Some(LaneRefusal::DisconnectAfterAck)
    } else if o.drop_connection_after_ack_once {
        Some(LaneRefusal::DropConnectionAfterAckOnce)
    } else {
        None
    }
}

fn explain(what: &str, why: Option<LaneRefusal>) -> (r: Option<String>)
    ensures
        match why {
            None => r is None,
            Some(k) => r matches Some(m) && m@ == refusal_text(what@, k),
        },
{
    match why {
        None => None,
        Some(k) => Some(refusal_message(what, k)),
    }
}

/// Options that ask for neighbor reports are refused where the receiving
/// loop cannot be reached; accepting them and never receiving would be worse.
pub fn unsupported_neighbor_report_lane(options: &SessionOptions, lane: SessionLane) -> (r: Option<
    String,
>)
    ensures
        match neighbor_report_refusal(*options, lane) {
            None => r is None,
            Some(k) => r matches Some(m) && m@ == refusal_text("neighbor reports"@, k),
        },
{
    let why = if options.expect_neighbor_reports == 0 {
        None
    } else if lane == SessionLane::MultiAgent {
        Some(LaneRefusal::NotOnMultiAgent)
    } else if options.resume_protocol {
        Some(LaneRefusal::NotWithResume)
    } else {
        hook_refusal(options)
    };
    explain("neighbor reports", why)
}

/// Options that ask for heartbeats are refused where the heartbeat stage
/// cannot be reached, and a liveness store is refused without heartbeats.
pub fn unsupported_heartbeat_lane(options: &SessionOptions, lane: SessionLane) -> (r: Option<String>)
    ensures
        match heartbeat_refusal(*options, lane) {
            None => r is None,
            Some(k) => r matches Some(m) && m@ == refusal_text("heartbeats"@, k),
        },
{
    let why = if options.expect_heartbeats == 0 && options.liveness_db_configured {
        Some(LaneRefusal::LivenessDbWithoutHeartbeats)
    } else if options.expect_heartbeats == 0 {
        None
    } else if lane == SessionLane::MultiAgent {
        Some(LaneRefusal::NotOnMultiAgent)
    } else if options.resume_protocol {
        Some(LaneRefusal::NotWithResume)
    } else {
        hook_refusal(options)
    };
    explain("heartbeats", why)
}

/// Options that ask for attempt reports are refused where they cannot be
/// received, or cannot be stored for want of a control database.
pub fn unsupported_attempt_report_lane(options: &SessionOptions, lane: SessionLane) -> (r: Option<
    String,
>)
    ensures
        match attempt_report_refusal(*options, lane) {
            None => r is None,
            Some(k) => r matches Some(m) && m@ == refusal_text("attempt reports"@, k),
        },
{
    let why = if options.expect_attempt_reports == 0 {
        None
    } else if lane == SessionLane::MultiAgent {
        Some(LaneRefusal::NotOnMultiAgent)
    } else if !options.grant_from_control_db_configured {
        Some(LaneRefusal::NeedsControlDb)
    } else if options.resume_protocol {
        Some(LaneRefusal::NotWithResume)
    } else {
        hook_refusal(options)
    };
    explain("attempt reports", why)
}

/// Every option that asks for frames after the ACK is refused on the
/// multi-agent lane, and together with Resume.
pub proof fn law_receiving_options_need_the_sequential_lane(o: SessionOptions)
    ensures
        o.expect_neighbor_reports > 0 ==> neighbor_report_refusal(o, SessionLane::MultiAgent) is Some,
        o.expect_heartbeats > 0 ==> heartbeat_refusal(o, SessionLane::MultiAgent) is Some,
        o.expect_attempt_reports > 0 ==> attempt_report_refusal(o, SessionLane::MultiAgent) is Some,
        o.resume_protocol && o.expect_neighbor_reports > 0 ==> neighbor_report_refusal(o, SessionLane::Sequential) is Some,
        o.resume_protocol && o.expect_heartbeats > 0 ==> heartbeat_refusal(o, SessionLane::Sequential) is Some,
        o.resume_protocol && o.expect_attempt_reports > 0 ==> attempt_report_refusal(o, SessionLane::Sequential) is Some,
{
}

/// What a renewal request is answered, before the answer is signed.
#[derive(Debug, Clone, PartialEq, Eq)]
pub enum RenewPlan {
    /// A test-injected outcome; no lease is carried.
    PolicyOverride(i32),
    /// The cumulative lifetime limit is exceeded.
    MaxDurationExceeded,
    /// The lease was revoked.
    Revoked { revoked_at_unix_ms: u64 },
    /// The renewed lease to sign and carry.
    Renewed(StoredLease),
}

/// Where a renewal without a lease store takes its lease from: the values
/// the coordinator was started with.
#[derive(Debug, Clone, PartialEq, Eq)]
pub struct LegacyRenewal {
    pub lease_id: String,
    pub job_id: String,
    pub attempt_id: String,
    pub agent_device_id: String,
    pub coordinator_device_id: String,
    pub renewed_fence_epoch: u64,
    pub max_total_duration_seconds: u64,
}

/// The lease a renewal without a store issues: new expiry `now + extension`,
/// renew-after half-way, issued now.
pub open spec fn legacy_renewed_lease(l: LegacyRenewal, now: u64, extension_ms: u64) -> StoredLease {
    StoredLease {
        lease_id: l.lease_id,
        job_id: l.job_id,
        attempt_id: l.attempt_id,
        holder_node_id: l.agent_device_id,
        fence_epoch: l.renewed_fence_epoch,
        expires_at_unix_ms: (now + extension_ms) as u64,
        issuing_coordinator_id: l.coordinator_device_id,
        coordinator_term: 1,
        issued_at_unix_ms: now,
        renew_after_unix_ms: (now + extension_ms / 2) as u64,
        max_total_duration_seconds: l.max_total_duration_seconds,
        revoked_at_unix_ms: None,
    }
}

/// A renewal answered without a lease store renews the session's own lease
/// for the Agent that asked: the Agent holds it, this coordinator issued it,
/// it names the session's lease, Job and attempt at the renewed fencing
/// epoch, it lives exactly the extension from now, its renew-after point
/// lies within that span, and it is not revoked.
pub proof fn law_legacy_renewal_is_held_by_the_agent(l: LegacyRenewal, now: u64, extension_ms: u64)
    requires
        now + extension_ms <= u64::MAX,
    ensures
        ({
            let r = legacy_renewed_lease(l, now, extension_ms);
            &&& r.holder_node_id@ == l.agent_device_id@
            &&& r.issuing_coordinator_id@ == l.coordinator_device_id@
            &&& r.lease_id@ == l.lease_id@ && r.job_id@ == l.job_id@ && r.attempt_id@ == l.attempt_id@
            &&& r.fence_epoch == l.renewed_fence_epoch
            &&& r.issued_at_unix_ms == now
            &&& r.expires_at_unix_ms - r.issued_at_unix_ms == extension_ms
            &&& r.issued_at_unix_ms <= r.renew_after_unix_ms <= r.expires_at_unix_ms
            &&& r.revoked_at_unix_ms is None
        }),
{
}

/// A renewal against the lease store. With a test override the store is only
/// read: a revoked lease is still answered as revoked, an expired or unknown
/// lease is refused, an exceeded limit still wins over the override. Without
/// one the store renews under the duration limit. `None` is a refusal
/// (unknown or expired lease, or another store failure).
pub open spec fn store_renewal(
    m: LeaseMap,
    outcome_override: Option<i32>,
    lease_id: Seq<char>,
    now: u64,
    extension_ms: u64,
) -> (LeaseMap, Option<RenewPlan>) {
    match outcome_override {
        Some(o) => (
            m,
            if !m.contains_key(lease_id) {
                None
            } else if m[lease_id].revoked_at_unix_ms is Some {
                Some(RenewPlan::Revoked { revoked_at_unix_ms: m[lease_id].revoked_at_unix_ms->0 })
            } else if m[lease_id].expires_at_unix_ms <= now {
                None
            } else if max_duration_exceeded(m[lease_id], now) {
                Some(RenewPlan::MaxDurationExceeded)
            } else {
                Some(RenewPlan::PolicyOverride(o))
            },
        ),
        None => {
            let (m2, r) = renew_within_duration_step(
                m,
                lease_id,
                now,
                (now + extension_ms) as u64,
                (now + extension_ms / 2) as u64,
            );
            (
                m2,
                match r {
                    Err(LeaseStoreError::Revoked { revoked_at_unix_ms }) => Some(
                        RenewPlan::Revoked { revoked_at_unix_ms },
                    ),
                    Err(_) => None,
                    Ok(RenewDecision::MaxDurationExceeded(_)) => Some(RenewPlan::MaxDurationExceeded),
                    Ok(RenewDecision::Renewed(l)) => Some(RenewPlan::Renewed(l)),
                },
            )
        },
    }
}

fn renew_with_store(
    store: &mut CoordinatorLeaseStore,
    outcome_override: Option<i32>,
    now_unix_ms: u64,
    lease_id: &str,
    renew_extension_ms: u64,
) -> (r: Result<RenewPlan, String>)
    requires
        old(store).wf(),
        outcome_override is None ==> now_unix_ms + renew_extension_ms <= u64::MAX,
    ensures
        final(store).wf(),
        final(store)@ == store_renewal(old(store)@, outcome_override, lease_id@, now_unix_ms, renew_extension_ms).0,
        match store_renewal(old(store)@, outcome_override, lease_id@, now_unix_ms, renew_extension_ms).1 {
            Some(p) => r == Ok::<RenewPlan, String>(p),
            None => r is Err,
        },
{
    match outcome_override {
        Some(outcome) => {
            let stored = match store.get(lease_id) {
                Ok(Some(s)) => s,
                _ => {
                    let mut e = String::from_str("the renewal names lease_id ");
                    push_str(&mut e, lease_id);
                    push_str(&mut e, ", which is not in the lease store");
                    return Err(e);
                },
            };
            if let Some(revoked_at_unix_ms) = stored.revoked_at_unix_ms {
                Ok(RenewPlan::Revoked { revoked_at_unix_ms })
            } else if stored.expires_at_unix_ms <= now_unix_ms {
                let err = LeaseStoreError::Expired { expires_at_unix_ms: stored.expires_at_unix_ms };
                Err(with_context("lease store expired during renewal", err.message().as_str()))
            } else if stored.is_max_duration_exceeded(now_unix_ms) {
                Ok(RenewPlan::MaxDurationExceeded)
            } else {
                Ok(RenewPlan::PolicyOverride(outcome))
            }
        },
        None => {
            match store.renew_existing_within_duration(
                lease_id,
                now_unix_ms,
                now_unix_ms + renew_extension_ms,
                now_unix_ms + renew_extension_ms / 2,
            ) {
                Err(LeaseStoreError::Revoked { revoked_at_unix_ms }) => Ok(
                    RenewPlan::Revoked { revoked_at_unix_ms },
                ),
                Err(LeaseStoreError::Expired { expires_at_unix_ms }) => {
                    let err = LeaseStoreError::Expired { expires_at_unix_ms };
                    Err(with_context("lease store expired during renewal", err.message().as_str()))
                },
                Err(error) => Err(with_context("lease store renewal failed", error.message().as_str())),
                Ok(RenewDecision::MaxDurationExceeded(_)) => Ok(RenewPlan::MaxDurationExceeded),
                Ok(RenewDecision::Renewed(resolved)) => Ok(RenewPlan::Renewed(resolved)),
            }
        },
    }
}

/// Decides the answer to a renewal request. With a lease store the store
/// decides (see `store_renewal`) and keeps the stored fencing epoch; without
/// one a test override is answered as is, and otherwise a lease is issued
/// from the start-up values with the configured extension.
pub fn plan_renewal(
    store: &mut Option<CoordinatorLeaseStore>,
    outcome_override: Option<i32>,
    now_unix_ms: u64,
    lease_id: &str,
    renew_extension_ms: u64,
    legacy: &LegacyRenewal,
) -> (r: Result<RenewPlan, String>)
    requires
        *old(store) matches Some(s) ==> s.wf(),
        outcome_override is None ==> now_unix_ms + renew_extension_ms <= u64::MAX,
    ensures
        match *old(store) {
            Some(s) => {
                let (m, p) = store_renewal(s@, outcome_override, lease_id@, now_unix_ms, renew_extension_ms);
                &&& *final(store) matches Some(t) && t.wf() && t@ == m
                &&& match p {
                    Some(p) => r == Ok::<RenewPlan, String>(p),
                    None => r is Err,
                }
            },
            None => {
                &&& *final(store) is None
                &&& r == Ok::<RenewPlan, String>(
                    match outcome_override {
                        Some(o) => RenewPlan::PolicyOverride(o),
                        None => RenewPlan::Renewed(legacy_renewed_lease(*legacy, now_unix_ms, renew_extension_ms)),
                    },
                )
            },
        },
{
    let taken = store.take();
    match taken {
        Some(mut s) => {
            let r = renew_with_store(&mut s, outcome_override, now_unix_ms, lease_id, renew_extension_ms);
            *store = Some(s);
            r
        },
        None => match outcome_override {
            Some(outcome) => Ok(RenewPlan::PolicyOverride(outcome)),
            None => Ok(
                RenewPlan::Renewed(
                    StoredLease {
                        lease_id: copy_string(&legacy.lease_id),
                        job_id: copy_string(&legacy.job_id),
                        attempt_id: copy_string(&legacy.attempt_id),
                        holder_node_id: copy_string(&legacy.agent_device_id),
                        fence_epoch: legacy.renewed_fence_epoch,
                        expires_at_unix_ms: now_unix_ms + renew_extension_ms,
                        issuing_coordinator_id: copy_string(&legacy.coordinator_device_id),
                        coordinator_term: 1,
                        issued_at_unix_ms: now_unix_ms,
                        renew_after_unix_ms: now_unix_ms + renew_extension_ms / 2,
                        max_total_duration_seconds: legacy.max_total_duration_seconds,
                        revoked_at_unix_ms: None,
                    },
                ),
            ),
        },
    }
}

/// An override never hides a real refusal: with a lease store, a revoked
/// lease is answered as revoked and an exceeded limit as exceeded whatever
/// outcome was injected, and the injected path never changes the store.
pub proof fn law_override_never_hides_policy(
    m: LeaseMap,
    o: i32,
    lease_id: Seq<char>,
    now: u64,
    extension_ms: u64,
)
    requires
        m.contains_key(lease_id),
    ensures
        store_renewal(m, Some(o), lease_id, now, extension_ms).0 == m,
        m[lease_id].revoked_at_unix_ms matches Some(at) ==> store_renewal(m, Some(o), lease_id, now, extension_ms).1
            == Some(RenewPlan::Revoked { revoked_at_unix_ms: at }),
        m[lease_id].revoked_at_unix_ms is None && m[lease_id].expires_at_unix_ms > now && max_duration_exceeded(
            m[lease_id],
            now,
        ) ==> store_renewal(m, Some(o), lease_id, now, extension_ms).1 == Some(RenewPlan::MaxDurationExceeded),
{
}

/// The fields of a lease revocation notice, before it is signed.
#[derive(Debug, Clone, PartialEq, Eq)]
pub struct RevokeNoticeFields {
    pub schema_version: u32,
    pub lease_id: String,
    pub fence_epoch: u64,
    pub issued_at_unix_ms: u64,
}

/// A revocation notice names the issued lease and its fencing epoch unless
/// a test override replaces either; the overrides are the values that get
/// signed.
pub fn revoke_notice_fields(
    lease_id: &str,
    fence_epoch: u64,
    lease_id_override: Option<&str>,
    fence_epoch_override: Option<u64>,
    now_unix_ms: u64,
) -> (r: RevokeNoticeFields)
    ensures
        r.schema_version == 1,
        r.lease_id@ == match lease_id_override {
            Some(o) => o@,
            None => lease_id@,
        },
        r.fence_epoch == match fence_epoch_override {
            Some(e) => e,
            None => fence_epoch,
        },
        r.issued_at_unix_ms == now_unix_ms,
{
    RevokeNoticeFields {
        schema_version: 1,
        lease_id: match lease_id_override {
            Some(o) => String::from_str(o),
            None => String::from_str(lease_id),
        },
        fence_epoch: match fence_epoch_override {
            Some(e) => e,
            None => fence_epoch,
        },
        issued_at_unix_ms: now_unix_ms,
    }
}

/// Flips the lowest bit of a signature's last byte, for tests that need a
/// notice whose signature does not verify; an empty signature is refused.
pub fn corrupt_signature(signature: &mut Vec<u8>) -> (r: Result<(), String>)
    ensures
        old(signature)@.len() == 0 ==> r is Err && final(signature)@ == old(signature)@,
        old(signature)@.len() > 0 ==> r is Ok && final(signature)@ == old(signature)@.update(
            old(signature)@.len() - 1,
            old(signature)@.last() ^ 1u8,
        ),
{
    let n = signature.len();
    if n == 0 {
        return Err(String::from_str("RevokeLeaseNotice coordinator_signature is empty"));
    }
    let last = signature[n - 1] ^ 1u8;
    signature.set(n - 1, last);
    Ok(())
}

} // verus!
