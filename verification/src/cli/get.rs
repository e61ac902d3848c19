//! `kv get`: a value as it is, or a mask in its place.

use vstd::prelude::*;

use crate::cli::render;
use crate::mode::Mode;
use crate::wire::{OkPayload, Request, Response};

verus! {

/// What stands in place of the value of `key`.
pub open spec fn mask_text(key: Seq<char>, resolved: bool) -> Seq<char> {
    "<cache-warden:"@ + key + if resolved {
        ":masked>"@
    } else {
        ":failed>"@
    }
}

/// What stands in place of the value of `key`: whether it could be had, and
/// nothing of the value.
pub fn mask(key: &str, resolved: bool) -> (r: String)
    ensures
        r@ == mask_text(key@, resolved),
{
    "<cache-warden:".to_owned().concat(key).concat(
        if resolved {
            ":masked>"
        } else {
            ":failed>"
        },
    )
}

/// The request for the value of `key`: a dry run asks for none.
pub fn get_request(key: &str, mode: Mode) -> (r: Request)
    ensures
        r matches Request::KvGet { key: k, dry_run } && k@ == key@ && dry_run == (mode
            == Mode::DryRun),
{
    Request::KvGet { key: key.to_owned(), dry_run: mode.is_dry_run() }
}

/// What a reply to `kv get` prints.
#[derive(Debug, Clone, PartialEq, Eq)]
pub enum GetOutput {
    /// The bytes that this encodes, as they are.
    Value(String),
    /// A line.
    Masked(String),
    /// A line in a dry run, and the failure.
    Failed { line: Option<String>, message: String },
    /// The payload does not belong there.
    Unexpected(OkPayload),
}

/// What a reply to `kv get` prints.
pub fn get_output(key: &str, mode: Mode, resp: Response) -> (r: GetOutput)
    ensures
        match resp {
            Response::Success(body) => match body.payload {
                OkPayload::Get { value_b64 } => r == GetOutput::Value(value_b64),
                OkPayload::GetVerified { .. } => r matches GetOutput::Masked(line) && line@
                    == mask_text(key@, true),
                other => r == GetOutput::Unexpected(other),
            },
            Response::Failure(e) => r matches GetOutput::Failed { line, message } && message@
                == render::failure_text(e) && line.deep_view() == if mode == Mode::DryRun {
                Some(mask_text(key@, false))
            } else {
                None
            },
        },
{
    match resp {
        Response::Success(body) => match body.payload {
            OkPayload::Get { value_b64 } => GetOutput::Value(value_b64),
            OkPayload::GetVerified { .. } => GetOutput::Masked(mask(key, true)),
            other => GetOutput::Unexpected(other),
        },
        Response::Failure(e) => GetOutput::Failed {
            line: if mode.is_dry_run() {
                Some(mask(key, false))
            } else {
                None
            },
            message: render::describe_failure(&e),
        },
    }
}

} // verus!
