//! Recording session status.
use vstd::prelude::*;

verus! {

/// Status of a recording session.
#[derive(Debug, Clone, Copy, PartialEq, Eq, Structural)]
pub enum SessionStatus {
    /// Session row created but ingestion not yet running.
    Starting,
    /// Actively recording.
    Recording,
    /// Recording with degraded storage (queue overflow, insert failures).
    Degraded,
    /// Shutdown in progress, final flush pending.
    Stopping,
    /// Final flush succeeded; session closed cleanly.
    Completed,
    /// Recording failed.
    Failed,
}

/// The stored name of a status.
pub open spec fn status_name(s: SessionStatus) -> Seq<char> {
    match s {
        SessionStatus::Starting => "STARTING"@,
        SessionStatus::Recording => "RECORDING"@,
        SessionStatus::Degraded => "DEGRADED"@,
        SessionStatus::Stopping => "STOPPING"@,
        SessionStatus::Completed => "COMPLETED"@,
        SessionStatus::Failed => "FAILED"@,
    }
}

impl SessionStatus {
    pub fn as_str(self) -> (r: &'static str)
        ensures
            r@ == status_name(self),
    {
        match self {
            SessionStatus::Starting => "STARTING",
            SessionStatus::Recording => "RECORDING",
            SessionStatus::Degraded => "DEGRADED",
            SessionStatus::Stopping => "STOPPING",
            SessionStatus::Completed => "COMPLETED",
            SessionStatus::Failed => "FAILED",
        }
    }
}

/// Whether a 128-bit value carries the version-4 and RFC 4122 variant bits
/// of a random UUID.
pub open spec fn is_v4_uuid(v: u128) -> bool {
    &&& v & 0xF000_0000_0000_0000_0000u128 == 0x4000_0000_0000_0000_0000u128
    &&& v & 0xC000_0000_0000_0000u128 == 0x8000_0000_0000_0000u128
}

/// A fresh random (version 4) session id, from `uuid::Uuid::new_v4`, as its
/// 128-bit value. Only its version and variant bits are claimed: the rest is
/// random.
#[verifier::external_body]
fn new_session_id() -> (r: u128)
    ensures
        is_v4_uuid(r),
{
    uuid::Uuid::new_v4().as_u128()
}

/// The current time in milliseconds since the Unix epoch, from
/// `chrono::Utc::now().timestamp_millis()`. Nothing is claimed of the value,
/// which depends on the machine's clock.
#[verifier::external_body]
fn utc_now_millis() -> (r: i64) {
    chrono::Utc::now().timestamp_millis()
}

/// One recording-process lifetime record.
#[derive(Debug, Clone)]
pub struct SessionRecord {
    pub session_id: u128,
    pub exchange: String,
    pub market_type: String,
    pub symbol: String,
    pub contract_type: String,
    /// Start time (ms since the Unix epoch).
    pub started_at: i64,
    /// End time (ms since the Unix epoch), once closed.
    pub ended_at: Option<i64>,
    pub software_version: String,
    pub git_commit: String,
    pub depth_stream: String,
    pub trade_stream: String,
    pub status: String,
}

impl SessionRecord {
    /// A new session record in STARTING state, with a fresh random id,
    /// started now.
    pub fn new(
        symbol: &str,
        exchange: &str,
        market_type: &str,
        contract_type: &str,
        depth_stream: &str,
        trade_stream: &str,
        software_version: &str,
        git_commit: &str,
    ) -> (r: Self)
        ensures
            r.symbol@ == symbol@ && r.exchange@ == exchange@,
            r.market_type@ == market_type@ && r.contract_type@ == contract_type@,
            r.depth_stream@ == depth_stream@ && r.trade_stream@ == trade_stream@,
            r.software_version@ == software_version@ && r.git_commit@ == git_commit@,
            r.ended_at is None,
            r.status@ == status_name(SessionStatus::Starting),
            is_v4_uuid(r.session_id),
    {
        SessionRecord {
            session_id: new_session_id(),
            exchange: exchange.to_string(),
            market_type: market_type.to_string(),
            symbol: symbol.to_string(),
            contract_type: contract_type.to_string(),
            started_at: utc_now_millis(),
            ended_at: None,
            software_version: software_version.to_string(),
            git_commit: git_commit.to_string(),
            depth_stream: depth_stream.to_string(),
            trade_stream: trade_stream.to_string(),
            status: SessionStatus::Starting.as_str().to_string(),
        }
    }
}

} // verus!
