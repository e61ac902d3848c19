//! From the seed that is kept under a key to the code that it yields now.
//!
//! The seed is read where it lies and goes no further than the derivation; only
//! the code comes out.

use vstd::prelude::*;

use crate::daemon::handler::ValueMeta;
use crate::otp_type;
use crate::otp_type::OtpOverrides;

verus! {

/// Why no one-time code was derived.
#[derive(Debug, Clone, PartialEq, Eq)]
pub enum OtpError {
    Cap,
    NoValue,
    Derive(String),
}

impl OtpError {
    /// What the error says; it names neither the key nor the seed.
    pub fn message(&self) -> (r: String)
        ensures
            r@ == match *self {
                OtpError::Cap => "internal cap mismatch"@,
                OtpError::NoValue => "no value for otp key"@,
                OtpError::Derive(e) => e@,
            },
    {
        match self {
            OtpError::Cap => "internal cap mismatch".to_owned(),
            OtpError::NoValue => "no value for otp key".to_owned(),
            OtpError::Derive(e) => e.clone(),
        }
    }
}

/// The parameters of a key's value type; a key without a definition has none.
pub open spec fn params_of(meta: Option<ValueMeta>) -> Seq<(Seq<char>, Seq<char>)> {
    match meta {
        Some(m) => m@.params,
        None => seq![],
    }
}

/// `r` is the code of a key with this value type, where reading its seed gave
/// `seed`.
pub open spec fn is_code<P, F, G>(
    r: Result<String, OtpError>,
    meta: Option<ValueMeta>,
    seed: Result<Option<&[u8]>, ()>,
    now_secs: u64,
    resolve_seed: F,
    totp: G,
) -> bool where
    F: Fn(&str, OtpOverrides) -> Result<(Vec<u8>, P), String>,
    G: Fn(&[u8], u64, &P) -> Result<String, String>,
 {
    match seed {
        Err(_) => r == Err::<String, OtpError>(OtpError::Cap),
        Ok(None) => r == Err::<String, OtpError>(OtpError::NoValue),
        Ok(Some(bytes)) => match r {
            Ok(code) => otp_type::is_derived(
                Ok(code),
                bytes@,
                params_of(meta),
                now_secs,
                resolve_seed,
                totp,
            ),
            Err(OtpError::Derive(e)) => otp_type::is_derived(
                Err(e),
                bytes@,
                params_of(meta),
                now_secs,
                resolve_seed,
                totp,
            ),
            Err(_) => false,
        },
    }
}

/// The code that a key yields at `now_secs`, in seconds since the Unix epoch.
/// `seed` is what reading its value gave: an error where the store was asked
/// with the wrong capability. A key without a definition has no parameters of
/// its own.
pub fn get_code<P, F, G>(
    meta: Option<ValueMeta>,
    seed: Result<Option<&[u8]>, ()>,
    now_secs: u64,
    resolve_seed: F,
    totp: G,
) -> (r: Result<String, OtpError>) where
    F: Fn(&str, OtpOverrides) -> Result<(Vec<u8>, P), String>,
    G: Fn(&[u8], u64, &P) -> Result<String, String>,

    requires
        forall|s: &str, o: OtpOverrides| #[trigger] resolve_seed.requires((s, o)),
        forall|k: &[u8], n: u64, p: &P| #[trigger] totp.requires((k, n, p)),
    ensures
        is_code(r, meta, seed, now_secs, resolve_seed, totp),
{
    let meta_or_none = match meta {
        Some(m) => m,
        None => ValueMeta { type_label: None, params: Vec::new() },
    };
    assert(meta_or_none@.params =~= params_of(meta));
    let bytes = match seed {
        Err(_) => {
            return Err(OtpError::Cap);
        },
        Ok(None) => {
            return Err(OtpError::NoValue);
        },
        Ok(Some(b)) => b,
    };
    match otp_type::derive_code(bytes, &meta_or_none, now_secs, resolve_seed, totp) {
        Ok(code) => Ok(code),
        Err(e) => Err(OtpError::Derive(e)),
    }
}

} // verus!
