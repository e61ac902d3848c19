//! The requests and responses that cross the control socket.

use vstd::prelude::*;

verus! {

/// Why a request failed.
#[derive(Debug, Clone, Copy, PartialEq, Eq, Structural)]
pub enum ErrorKind {
    BadRequest,
    NotFound,
    AuthFailed,
    NotRegenerable,
    HardExpired,
    UpstreamFailed,
    Internal,
    RestartAborted,
    CasMismatch,
    AlreadyClaimed,
    ClaimTokenMismatch,
    VaultLocked,
    VaultNotInitialized,
}

/// What a failure response reports.
#[derive(Debug, Clone, PartialEq, Eq)]
pub struct ErrorDetail {
    pub kind: ErrorKind,
    pub message: String,
    /// The version the key is at, for [`ErrorKind::CasMismatch`].
    pub current_version: Option<u64>,
    /// How long the holder's claim lasts, for [`ErrorKind::AlreadyClaimed`].
    pub claim_expires_in_secs: Option<u64>,
}

/// The body of a failure response.
#[derive(Debug, Clone, PartialEq, Eq)]
pub struct ErrBody {
    pub error: ErrorDetail,
}

/// macOS Full Disk Access as `status` reports it.
#[derive(Debug, Clone, Copy, PartialEq, Eq, Structural)]
pub enum FdaStatusWire {
    Granted,
    Denied,
    Unknown,
}

/// Whether the vault exists and is open.
#[derive(Debug, Clone, Copy, PartialEq, Eq, Structural)]
pub enum VaultStateWire {
    NotInitialized,
    Locked,
    Unlocked,
}

/// The value-free view of the vault that `status` reports.
#[derive(Debug, Clone, PartialEq, Eq)]
pub struct VaultStatusWire {
    pub state: VaultStateWire,
    pub vault_id: Option<String>,
    pub slots: Option<usize>,
    pub dek_generation: Option<u64>,
    pub dev_rp_slot: bool,
}

/// The value-free view of one entry that `status` and `kv.list` report.
#[derive(Debug, Clone, PartialEq, Eq)]
pub struct EntryInfo {
    pub name: String,
    pub state: String,
    pub regenerable: bool,
    pub defined: bool,
    pub has_value: bool,
    pub pin_remaining_secs: Option<u64>,
    pub value_type: Option<String>,
    pub source: Option<String>,
    pub backoff_until_secs: Option<u64>,
    pub guard_summary: Option<Vec<String>>,
    pub version: Option<u64>,
    pub claim_expires_in_secs: Option<u64>,
    pub locked: bool,
}

/// What a success response carries.
#[derive(Debug, Clone, PartialEq, Eq)]
pub enum OkPayload {
    Pong,
    Status {
        pid: u32,
        version: String,
        socket: String,
        entries: Vec<EntryInfo>,
        full_disk_access: Option<FdaStatusWire>,
        vault: Option<VaultStatusWire>,
    },
    List { keys: Vec<String>, entries: Vec<EntryInfo> },
    Stored { guard_applied: Vec<String>, version: Option<u64> },
    Claimed { version: u64, claim_token: String, claim_expires_in_secs: u64 },
    Unclaimed,
    Defined,
    Deleted { deleted: bool },
    Pinned { pin_remaining_secs: u64 },
    Unpinned { unpinned: bool },
    Get { value_b64: String },
    GetVerified { verified: bool, state: String },
    Restarting,
    CeremonyOpened { url: String, expires_in_secs: u64 },
    VaultInitialized { vault_id: String, recovery_code: String },
    VaultUnlocked { entries_restored: u64 },
    VaultLocked,
}

/// The body of a success response.
#[derive(Debug, Clone, PartialEq, Eq)]
pub struct OkBody {
    pub payload: OkPayload,
}

/// A reply to one request.
#[derive(Debug, Clone, PartialEq, Eq)]
pub enum Response {
    Success(OkBody),
    Failure(ErrBody),
}

/// The value of a `kv.set`.
#[derive(Debug, Clone, PartialEq, Eq)]
pub enum SetSource {
    Static { value_b64: String },
}

/// A command source: the argument vector with its working directory and
/// environment overlay.
#[derive(Debug, Clone, PartialEq, Eq)]
pub struct CommandSpecWire {
    pub argv: Vec<String>,
    pub cwd: Option<String>,
    pub env: Vec<(String, String)>,
}

/// A 1Password source.
#[derive(Debug, Clone, PartialEq, Eq)]
pub struct OpSpecWire {
    pub uri: String,
    pub account: Option<String>,
}

/// Where a definition's value comes from.
#[derive(Debug, Clone, PartialEq, Eq)]
pub enum SourceSpecWire {
    Command { command: CommandSpecWire },
    Op { op: OpSpecWire },
}

/// The value type of a definition and its parameters, each named once.
#[derive(Debug, Clone, PartialEq, Eq)]
pub struct ValueMetaWire {
    pub type_label: Option<String>,
    pub params: Vec<(String, String)>,
}

/// A constraint that a `kv.set` declares on who may read the value.
#[derive(Debug, Clone, PartialEq, Eq)]
pub enum GuardConstraintWire {
    SameUser,
    SameShell,
    SameAncestor { name: String },
    Command { name: String },
}

/// A request to the daemon.
#[derive(Debug, Clone, PartialEq, Eq)]
pub enum Request {
    Ping,
    Status,
    KvList,
    KvDel { key: String, with_define: bool },
    KvSet {
        key: String,
        source: SetSource,
        soft_ttl_secs: Option<u64>,
        hard_ttl_secs: Option<u64>,
        guard_constraints: Vec<GuardConstraintWire>,
        expected_version: Option<u64>,
        claim_token: Option<String>,
        persist: Option<bool>,
    },
    KvClaim { key: String, expected_version: u64, duration_secs: u64 },
    KvUnclaim { key: String, claim_token: String },
    KvDefine {
        key: String,
        source: SourceSpecWire,
        soft_ttl_secs: Option<u64>,
        hard_ttl_secs: Option<u64>,
        meta: ValueMetaWire,
    },
    KvGet { key: String, dry_run: bool },
    KvPin { key: String, duration_secs: u64 },
    KvUnpin { key: String },
    RestartGraceful,
}

/// `r` is the failure of this kind with this message and no further detail.
pub open spec fn is_error(r: Response, kind: ErrorKind, message: Seq<char>) -> bool {
    r matches Response::Failure(body) && body.error.kind == kind && body.error.message@ == message
        && body.error.current_version is None && body.error.claim_expires_in_secs is None
}

/// `r` is a success carrying `payload`.
pub open spec fn is_ok(r: Response, payload: OkPayload) -> bool {
    r == Response::Success(OkBody { payload })
}

/// `r` reports that the key is at version `current`, not at the one expected.
pub open spec fn is_cas_mismatch(r: Response, current: u64) -> bool {
    r matches Response::Failure(body) && body.error.kind == ErrorKind::CasMismatch
        && body.error.current_version == Some(current) && body.error.claim_expires_in_secs is None
        && body.error.message@ == "the key is at version "@ + crate::text::decimal(current as nat)
}

/// `r` reports that another caller holds the key's claim for `secs` more.
pub open spec fn is_already_claimed(r: Response, secs: u64) -> bool {
    r matches Response::Failure(body) && body.error.kind == ErrorKind::AlreadyClaimed
        && body.error.claim_expires_in_secs == Some(secs) && body.error.current_version is None
        && body.error.message@ == "another caller is refreshing this key for the next "@
        + crate::text::decimal(secs as nat) + "s"@
}

/// `r` is the value-free success of a dry run on an entry in `state`.
pub open spec fn is_verified(r: Response, state: Seq<char>) -> bool {
    r matches Response::Success(body) && body.payload matches OkPayload::GetVerified {
        verified,
        state: s,
    } && verified && s@ == state
}

/// `r` carries a value.
pub open spec fn carries_value(r: Response) -> bool {
    r matches Response::Success(body) && body.payload is Get
}

impl Response {
    /// Whether the request succeeded.
    pub fn is_ok(&self) -> (r: bool)
        ensures
            r == (*self is Success),
    {
        match self {
            Response::Success(_) => true,
            Response::Failure(_) => false,
        }
    }

    pub fn error(kind: ErrorKind, message: &str) -> (r: Response)
        ensures
            is_error(r, kind, message@),
    {
        Response::Failure(
            ErrBody {
                error: ErrorDetail {
                    kind,
                    message: message.to_owned(),
                    current_version: None,
                    claim_expires_in_secs: None,
                },
            },
        )
    }

    pub fn pong() -> (r: Response)
        ensures
            is_ok(r, OkPayload::Pong),
    {
        Response::Success(OkBody { payload: OkPayload::Pong })
    }

    pub fn deleted(deleted: bool) -> (r: Response)
        ensures
            is_ok(r, (OkPayload::Deleted { deleted })),
    {
        Response::Success(OkBody { payload: OkPayload::Deleted { deleted } })
    }

    pub fn cas_mismatch(current: u64) -> (r: Response)
        ensures
            is_cas_mismatch(r, current),
    {
        Response::Failure(
            ErrBody {
                error: ErrorDetail {
                    kind: ErrorKind::CasMismatch,
                    message: "the key is at version ".to_owned().concat(
                        crate::text::number_text(current).as_str(),
                    ),
                    current_version: Some(current),
                    claim_expires_in_secs: None,
                },
            },
        )
    }

    pub fn already_claimed(secs: u64) -> (r: Response)
        ensures
            is_already_claimed(r, secs),
    {
        Response::Failure(
            ErrBody {
                error: ErrorDetail {
                    kind: ErrorKind::AlreadyClaimed,
                    message: "another caller is refreshing this key for the next ".to_owned().concat(
                        crate::text::number_text(secs).as_str(),
                    ).concat("s"),
                    current_version: None,
                    claim_expires_in_secs: Some(secs),
                },
            },
        )
    }

    pub fn claimed_ack(version: u64, claim_token: String, claim_expires_in_secs: u64) -> (r:
        Response)
        ensures
            is_ok(r, (OkPayload::Claimed { version, claim_token, claim_expires_in_secs })),
    {
        Response::Success(
            OkBody { payload: OkPayload::Claimed { version, claim_token, claim_expires_in_secs } },
        )
    }

    pub fn unclaimed_ack() -> (r: Response)
        ensures
            is_ok(r, OkPayload::Unclaimed),
    {
        Response::Success(OkBody { payload: OkPayload::Unclaimed })
    }

    pub fn defined_ack() -> (r: Response)
        ensures
            is_ok(r, OkPayload::Defined),
    {
        Response::Success(OkBody { payload: OkPayload::Defined })
    }

    pub fn get(value_b64: String) -> (r: Response)
        ensures
            is_ok(r, (OkPayload::Get { value_b64 })),
    {
        Response::Success(OkBody { payload: OkPayload::Get { value_b64 } })
    }

    pub fn get_verified(state: &str) -> (r: Response)
        ensures
            is_verified(r, state@),
    {
        Response::Success(
            OkBody {
                payload: OkPayload::GetVerified { verified: true, state: state.to_owned() },
            },
        )
    }

    pub fn pinned(pin_remaining_secs: u64) -> (r: Response)
        ensures
            is_ok(r, (OkPayload::Pinned { pin_remaining_secs })),
    {
        Response::Success(OkBody { payload: OkPayload::Pinned { pin_remaining_secs } })
    }

    pub fn unpinned(unpinned: bool) -> (r: Response)
        ensures
            is_ok(r, (OkPayload::Unpinned { unpinned })),
    {
        Response::Success(OkBody { payload: OkPayload::Unpinned { unpinned } })
    }

    pub fn list_with_entries(keys: Vec<String>, entries: Vec<EntryInfo>) -> (r: Response)
        ensures
            is_ok(r, (OkPayload::List { keys, entries })),
    {
        Response::Success(OkBody { payload: OkPayload::List { keys, entries } })
    }

    pub fn status(
        pid: u32,
        version: String,
        socket: String,
        entries: Vec<EntryInfo>,
        full_disk_access: Option<FdaStatusWire>,
    ) -> (r: Response)
        ensures
            is_ok(
                r,
                (OkPayload::Status {
                    pid,
                    version,
                    socket,
                    entries,
                    full_disk_access,
                    vault: None,
                }),
            ),
    {
        Response::Success(
            OkBody {
                payload: OkPayload::Status {
                    pid,
                    version,
                    socket,
                    entries,
                    full_disk_access,
                    vault: None,
                },
            },
        )
    }

    /// The acknowledgement of a `kv.set` by a daemon that reports no version.
    pub fn set_ack_with_guard(guard_applied: Vec<String>) -> (r: Response)
        ensures
            is_ok(r, (OkPayload::Stored { guard_applied, version: None })),
    {
        Response::Success(OkBody { payload: OkPayload::Stored { guard_applied, version: None } })
    }

    pub fn set_ack_with_guard_and_version(guard_applied: Vec<String>, version: u64) -> (r: Response)
        ensures
            is_ok(r, (OkPayload::Stored { guard_applied, version: Some(version) })),
    {
        Response::Success(OkBody { payload: OkPayload::Stored { guard_applied, version: Some(version) } })
    }
}

} // verus!
