//! What every request handler shares: the shape of a key and the replies that
//! need nothing but the store's answer.

use vstd::prelude::*;

use crate::config;
use crate::config::MetaView;
use crate::namespace;
use crate::text;
use crate::wire;
use crate::wire::{ErrorKind, OkPayload, Response, ValueMetaWire};

verus! {

/// A key of the protocol: two identifiers joined by one `/`.
pub open spec fn is_protocol_key(key: Seq<char>) -> bool {
    exists|ns: Seq<char>, name: Seq<char>|
        namespace::is_identifier(ns) && namespace::is_identifier(name) && key
            == #[trigger] namespace::composed(ns, name)
}

/// `r` refuses `key` for its shape.
pub open spec fn is_bad_key(r: Response, key: Seq<char>) -> bool {
    wire::is_error(
        r,
        ErrorKind::BadRequest,
        "invalid key "@ + text::debug_text(key)
            + ": must be NS/KEY with both segments matching [A-Za-z0-9_]+"@,
    )
}

/// Refuse a key that is not two identifiers joined by one `/`.
pub fn validate_protocol_key(key: &str) -> (r: Result<(), Response>)
    ensures
        r is Ok <==> is_protocol_key(key@),
        r matches Err(resp) ==> is_bad_key(resp, key@),
{
    match namespace::split_composed(key) {
        Some((ns, name)) => Ok(()),
        None => Err(
            Response::error(
                ErrorKind::BadRequest,
                "invalid key ".to_owned().concat(text::quoted(key).as_str()).concat(
                    ": must be NS/KEY with both segments matching [A-Za-z0-9_]+",
                ).as_str(),
            ),
        ),
    }
}

/// The key lies in the namespace that the daemon keeps for itself.
pub open spec fn in_reserved_namespace(key: Seq<char>) -> bool {
    exists|rest: Seq<char>| key == #[trigger] namespace::composed("authsock"@, rest)
}

proof fn reserved_prefix(key: Seq<char>, ns: Seq<char>, rest: Seq<char>)
    requires
        key == ns.push('/') + rest,
        !ns.contains('/'),
    ensures
        in_reserved_namespace(key) <==> ns == "authsock"@,
{
    reveal_strlit("/");
    reveal_strlit("authsock");
    let own = "authsock"@;
    if ns == own {
        assert(key =~= namespace::composed(own, rest));
    }
    if in_reserved_namespace(key) {
        let tail = choose|tail: Seq<char>| key == #[trigger] namespace::composed(own, tail);
        assert(key[own.len() as int] == '/');
        assert(key[ns.len() as int] == '/');
        assert(!own.contains('/'));
        if ns.len() < own.len() {
            assert(own[ns.len() as int] == '/');
        }
        if own.len() < ns.len() {
            assert(ns[own.len() as int] == '/');
        }
        assert(ns =~= own) by {
            assert forall|i: int| 0 <= i < ns.len() implies ns[i] == own[i] by {
                assert(key[i] == ns[i]);
                assert(key[i] == own[i]);
            }
        }
    }
}

/// The namespace of a key that lies in a reserved one.
fn reserved_namespace_of<'a>(key: &'a str) -> (r: Option<&'a str>)
    ensures
        r is Some <==> in_reserved_namespace(key@),
        r matches Some(ns) ==> ns@ == "authsock"@,
{
    let cut = text::cut_at(key, '/');
    proof {
        if cut is None && in_reserved_namespace(key@) {
            reveal_strlit("/");
            let tail = choose|tail: Seq<char>|
                key@ == #[trigger] namespace::composed("authsock"@, tail);
            assert(key@["authsock"@.len() as int] == '/');
        }
    }
    match cut {
        Some((ns, rest)) => {
            proof {
                reserved_prefix(key@, ns@, rest@);
            }
            if namespace::is_reserved_namespace(ns) {
                Some(ns)
            } else {
                None
            }
        },
        None => None,
    }
}

/// Refuse to write a key of a reserved namespace.
pub fn reject_reserved_namespace_write(key: &str) -> (r: Result<(), Response>)
    ensures
        r is Ok <==> !in_reserved_namespace(key@) || !is_protocol_key(key@),
        r matches Err(resp) ==> wire::is_error(
            resp,
            ErrorKind::BadRequest,
            "namespace "@ + text::debug_text("authsock"@)
                + " is reserved and cannot be written to"@,
        ),
{
    match namespace::split_composed(key) {
        None => Ok(()),
        Some((ns, name)) => {
            proof {
                reveal_strlit("/");
                assert(key@ =~= ns@.push('/') + name@);
                reserved_prefix(key@, ns@, name@);
            }
            if namespace::is_reserved_namespace(ns) {
                Err(
                    Response::error(
                        ErrorKind::BadRequest,
                        "namespace ".to_owned().concat(text::quoted(ns).as_str()).concat(
                            " is reserved and cannot be written to",
                        ).as_str(),
                    ),
                )
            } else {
                Ok(())
            }
        },
    }
}

/// Refuse to read a key of a reserved namespace, whatever follows the
/// namespace.
pub fn reject_reserved_namespace_read(key: &str) -> (r: Result<(), Response>)
    ensures
        r is Ok <==> !in_reserved_namespace(key@),
        r matches Err(resp) ==> is_reserved_read(resp),
{
    match reserved_namespace_of(key) {
        Some(ns) => Err(
            Response::error(
                ErrorKind::BadRequest,
                "namespace ".to_owned().concat(text::quoted(ns).as_str()).concat(
                    " is reserved and cannot be read",
                ).as_str(),
            ),
        ),
        None => Ok(()),
    }
}

/// `r` refuses to read a key of a reserved namespace.
pub open spec fn is_reserved_read(r: Response) -> bool {
    wire::is_error(
        r,
        ErrorKind::BadRequest,
        "namespace "@ + text::debug_text("authsock"@) + " is reserved and cannot be read"@,
    )
}

/// The value type of a key and its parameters, as the store keeps them.
#[derive(Debug, Clone, PartialEq, Eq)]
pub struct ValueMeta {
    pub type_label: Option<String>,
    pub params: Vec<(String, String)>,
}

impl View for ValueMeta {
    type V = MetaView;

    open spec fn view(&self) -> MetaView {
        MetaView {
            type_label: self.type_label.deep_view(),
            params: config::param_texts(self.params@),
        }
    }
}

/// The metadata that the store keeps of what the wire carried: parameters
/// without a type are kept under an empty type label.
pub open spec fn stored_meta(meta: MetaView) -> MetaView {
    if meta.type_label is None && meta.params.len() > 0 {
        MetaView { type_label: Some(Seq::empty()), params: meta.params }
    } else {
        meta
    }
}

/// Take over the wire's metadata.
pub fn meta_from_wire(meta: ValueMetaWire) -> (r: ValueMeta)
    ensures
        r@ == stored_meta(meta@),
{
    let type_label = match meta.type_label {
        Some(label) => Some(label),
        None => if meta.params.is_empty() {
            None
        } else {
            Some(String::new())
        },
    };
    let out = ValueMeta { type_label, params: meta.params };
    assert(out@ =~= stored_meta(meta@));
    out
}

/// Metadata passes through the store unchanged wherever it names a type or has
/// no parameters, and what the store keeps always passes through unchanged.
pub proof fn stored_metadata_is_stable(meta: MetaView)
    ensures
        stored_meta(meta) == meta <==> meta.type_label is Some || meta.params.len() == 0,
        stored_meta(stored_meta(meta)) == stored_meta(meta),
        stored_meta(meta).params == meta.params,
{
}

/// The reply to a `kv.del`: whether something was deleted. A store that refused
/// deleted nothing.
pub fn deleted_reply(removed: Option<bool>) -> (r: Response)
    ensures
        wire::is_ok(r, (OkPayload::Deleted { deleted: removed == Some(true) })),
{
    match removed {
        Some(true) => Response::deleted(true),
        _ => Response::deleted(false),
    }
}

/// `r` is the reply to a `kv.unpin`.
pub open spec fn is_unpin_reply(r: Response, found: Option<bool>) -> bool {
    match found {
        Some(true) => wire::is_ok(r, (OkPayload::Unpinned { unpinned: true })),
        Some(false) => wire::is_error(r, ErrorKind::NotFound, "no such key"@),
        None => wire::is_error(r, ErrorKind::Internal, "capability mismatch"@),
    }
}

/// The reply to a `kv.unpin`: `found` says whether the key exists, `None` that
/// the store refused.
pub fn unpinned_reply(found: Option<bool>) -> (r: Response)
    ensures
        is_unpin_reply(r, found),
{
    match found {
        Some(true) => Response::unpinned(true),
        Some(false) => Response::error(ErrorKind::NotFound, "no such key"),
        None => Response::error(ErrorKind::Internal, "capability mismatch"),
    }
}

/// What the store said to pinning an entry.
#[derive(Debug, Clone, PartialEq, Eq)]
pub enum PinOutcome {
    Pinned,
    NotFound,
    HardExpired,
    AuthFailed(String),
    CapMismatch,
}

/// `r` is the reply to a `kv.pin`.
pub open spec fn is_pin_reply(r: Response, outcome: PinOutcome, duration_secs: u64) -> bool {
    match outcome {
        PinOutcome::Pinned => wire::is_ok(
            r,
            (OkPayload::Pinned { pin_remaining_secs: duration_secs }),
        ),
        PinOutcome::NotFound => wire::is_error(r, ErrorKind::NotFound, "no such key"@),
        PinOutcome::HardExpired => wire::is_error(
            r,
            ErrorKind::HardExpired,
            "entry is hard-expired (destroyed); cannot pin"@,
        ),
        PinOutcome::AuthFailed(e) => wire::is_error(r, ErrorKind::AuthFailed, e@),
        PinOutcome::CapMismatch => wire::is_error(r, ErrorKind::Internal, "capability mismatch"@),
    }
}

/// The reply to a `kv.pin`.
pub fn pinned_reply(outcome: PinOutcome, duration_secs: u64) -> (r: Response)
    ensures
        is_pin_reply(r, outcome, duration_secs),
{
    match outcome {
        PinOutcome::Pinned => Response::pinned(duration_secs),
        PinOutcome::NotFound => Response::error(ErrorKind::NotFound, "no such key"),
        PinOutcome::HardExpired => Response::error(
            ErrorKind::HardExpired,
            "entry is hard-expired (destroyed); cannot pin",
        ),
        PinOutcome::AuthFailed(e) => Response::error(ErrorKind::AuthFailed, e.as_str()),
        PinOutcome::CapMismatch => Response::error(ErrorKind::Internal, "capability mismatch"),
    }
}

/// The definition passes every check.
pub open spec fn define_admitted(
    key: Seq<char>,
    source: Result<(), String>,
    ttl: Result<(), String>,
) -> bool {
    is_protocol_key(key) && !in_reserved_namespace(key) && source is Ok && ttl is Ok
}

/// `resp` answers the first check that the definition does not pass.
pub open spec fn is_define_refusal(
    resp: Response,
    key: Seq<char>,
    source: Result<(), String>,
    ttl: Result<(), String>,
) -> bool {
    if !is_protocol_key(key) {
        is_bad_key(resp, key)
    } else if in_reserved_namespace(key) {
        wire::is_error(
            resp,
            ErrorKind::BadRequest,
            "namespace "@ + text::debug_text("authsock"@)
                + " is reserved and cannot be written to"@,
        )
    } else if source is Err {
        wire::is_error(resp, ErrorKind::BadRequest, source->Err_0@)
    } else {
        wire::is_error(resp, ErrorKind::BadRequest, ttl->Err_0@)
    }
}

/// Check a `kv.define` before the store is asked for anything: the key first,
/// then the source, then the times to live. `source` and `ttl` say what was
/// found of these two.
pub fn admit_define(key: &str, source: Result<(), String>, ttl: Result<(), String>) -> (r: Result<
    (),
    Response,
>)
    ensures
        r is Ok <==> define_admitted(key@, source, ttl),
        r matches Err(resp) ==> is_define_refusal(resp, key@, source, ttl),
{
    match validate_protocol_key(key) {
        Err(resp) => {
            return Err(resp);
        },
        Ok(()) => {},
    }
    match reject_reserved_namespace_write(key) {
        Err(resp) => {
            return Err(resp);
        },
        Ok(()) => {},
    }
    match source {
        Err(e) => {
            return Err(Response::error(ErrorKind::BadRequest, e.as_str()));
        },
        Ok(()) => {},
    }
    match ttl {
        Err(e) => Err(Response::error(ErrorKind::BadRequest, e.as_str())),
        Ok(()) => Ok(()),
    }
}

/// What the store said to a definition.
#[derive(Debug, Clone, PartialEq, Eq)]
pub enum DefineOutcome {
    Defined,
    /// Another definition of the key stands.
    Conflict,
    StaticNotDefinable,
    InvalidKey(String),
}

/// `r` is the reply to a `kv.define` to which the store said `outcome`.
pub open spec fn is_define_reply(r: Response, outcome: DefineOutcome) -> bool {
    match outcome {
        DefineOutcome::Defined => wire::is_ok(r, OkPayload::Defined),
        DefineOutcome::Conflict => wire::is_error(
            r,
            ErrorKind::BadRequest,
            "a different definition already exists for this key; delete it with `kv del KEY --with-define`, then re-define"@,
        ),
        DefineOutcome::StaticNotDefinable => wire::is_error(
            r,
            ErrorKind::BadRequest,
            "static sources cannot be defined; use `kv set` instead"@,
        ),
        DefineOutcome::InvalidKey(e) => wire::is_error(r, ErrorKind::BadRequest, e@),
    }
}

/// The reply to a `kv.define`.
pub fn defined_reply(outcome: DefineOutcome) -> (r: Response)
    ensures
        is_define_reply(r, outcome),
{
    match outcome {
        DefineOutcome::Defined => Response::defined_ack(),
        DefineOutcome::Conflict => Response::error(
            ErrorKind::BadRequest,
            "a different definition already exists for this key; delete it with `kv del KEY --with-define`, then re-define",
        ),
        DefineOutcome::StaticNotDefinable => Response::error(
            ErrorKind::BadRequest,
            "static sources cannot be defined; use `kv set` instead",
        ),
        DefineOutcome::InvalidKey(e) => Response::error(ErrorKind::BadRequest, e.as_str()),
    }
}

} // verus!
