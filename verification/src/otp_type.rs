//! The `otp` value type: a stored seed of which only codes are given out.
//!
//! Seeds are kept as bytes and are read as text. The parameters of a key
//! override what an `otpauth://` seed says of itself; how a seed is resolved and
//! how a code is derived from it is the caller's.

use vstd::prelude::*;
use vstd::string::StringSliceAdditionalSpecFns;

use crate::config;
use crate::daemon::handler::ValueMeta;
use crate::text;
use crate::wire::ValueMetaWire;

verus! {

/// The label of the type.
pub const OTP_TYPE: &'static str = "otp";

/// The label names the otp type.
pub open spec fn labels_otp(label: Option<Seq<char>>) -> bool {
    label == Some("otp"@)
}

fn label_is_otp(label: &Option<String>) -> (r: bool)
    ensures
        r == labels_otp(label.deep_view()),
{
    match label {
        Some(t) => text::same_text(t.as_str(), OTP_TYPE),
        None => false,
    }
}

/// Whether the wire's metadata declares the otp type.
pub fn is_otp(meta: &ValueMetaWire) -> (r: bool)
    ensures
        r == labels_otp(meta@.type_label),
{
    label_is_otp(&meta.type_label)
}

/// Whether the store's metadata declares the otp type.
pub fn meta_is_otp(meta: &ValueMeta) -> (r: bool)
    ensures
        r == labels_otp(meta@.type_label),
{
    label_is_otp(&meta.type_label)
}

/// A hash that codes are made with.
#[derive(Debug, Clone, Copy, PartialEq, Eq, Structural)]
pub enum OtpAlgorithm {
    Sha1,
    Sha256,
    Sha512,
}

/// The hash of this name, in large or small letters.
pub open spec fn algorithm_of(name: Seq<char>) -> Option<OtpAlgorithm> {
    let word = text::lowered(name);
    if word == "sha1"@ {
        Some(OtpAlgorithm::Sha1)
    } else if word == "sha256"@ {
        Some(OtpAlgorithm::Sha256)
    } else if word == "sha512"@ {
        Some(OtpAlgorithm::Sha512)
    } else {
        None
    }
}

impl OtpAlgorithm {
    /// The hash of this name, in large or small letters.
    pub fn parse(name: &str) -> (r: Option<OtpAlgorithm>)
        ensures
            r == algorithm_of(name@),
    {
        let word = text::lowercase(name);
        if text::same_text(word.as_str(), "sha1") {
            Some(OtpAlgorithm::Sha1)
        } else if text::same_text(word.as_str(), "sha256") {
            Some(OtpAlgorithm::Sha256)
        } else if text::same_text(word.as_str(), "sha512") {
            Some(OtpAlgorithm::Sha512)
        } else {
            None
        }
    }
}

/// The parameters that a key gives; where it gives none the seed's own or the
/// default counts.
#[derive(Debug, Clone, Copy, PartialEq, Eq, Structural)]
pub struct OtpOverrides {
    pub digits: Option<u32>,
    pub period: Option<u64>,
    pub algorithm: Option<OtpAlgorithm>,
}

/// The number that a parameter stands for: decimal digits, with an optional
/// `+`.
pub open spec fn number_of(s: Seq<char>) -> Option<u64> {
    if s.len() > 0 && s[0] == '+' {
        text::parsed_digits(s.skip(1))
    } else {
        text::parsed_digits(s)
    }
}

fn parse_number(s: &str) -> (r: Option<u64>)
    ensures
        r == number_of(s@),
{
    proof {
        reveal_strlit("+");
        if s@.len() > 0 && s@[0] == '+' {
            assert("+"@.is_prefix_of(s@));
        }
    }
    match text::after_prefix(s, "+") {
        Some(rest) => {
            assert(s@.skip(1) =~= rest@);
            text::parse_digits(rest)
        },
        None => text::parse_digits(s),
    }
}

/// The parameters that a key gives, or the complaint about one of them.
pub open spec fn overrides(params: Seq<(Seq<char>, Seq<char>)>) -> Result<
    OtpOverrides,
    Seq<char>,
> {
    let digits = config::param_value(params, "digits"@);
    let period = config::param_value(params, "period"@);
    let algorithm = config::param_value(params, "algorithm"@);
    if digits is Some && !(number_of(digits->0) matches Some(n) && n <= u32::MAX) {
        Err("otp digits is not a number"@)
    } else if period is Some && number_of(period->0) is None {
        Err("otp period is not a number"@)
    } else if algorithm is Some && algorithm_of(algorithm->0) is None {
        Err("unknown otp algorithm (use sha1, sha256 or sha512)"@)
    } else {
        Ok(
            OtpOverrides {
                digits: match digits {
                    Some(d) => Some(number_of(d)->0 as u32),
                    None => None,
                },
                period: match period {
                    Some(p) => number_of(p),
                    None => None,
                },
                algorithm: match algorithm {
                    Some(a) => algorithm_of(a),
                    None => None,
                },
            },
        )
    }
}

/// The parameters that a key gives.
pub fn overrides_from_params(params: &[(String, String)]) -> (r: Result<OtpOverrides, String>)
    ensures
        match overrides(config::param_texts(params@)) {
            Ok(o) => r == Ok::<OtpOverrides, String>(o),
            Err(message) => r matches Err(e) && e@ == message,
        },
{
    let digits: Option<u32> = match config::find_param(params, "digits") {
        None => None,
        Some(s) => match parse_number(s.as_str()) {
            Some(n) => if n <= u32::MAX as u64 {
                Some(n as u32)
            } else {
                return Err("otp digits is not a number".to_owned());
            },
            None => {
                return Err("otp digits is not a number".to_owned());
            },
        },
    };
    let period: Option<u64> = match config::find_param(params, "period") {
        None => None,
        Some(s) => match parse_number(s.as_str()) {
            Some(n) => Some(n),
            None => {
                return Err("otp period is not a number".to_owned());
            },
        },
    };
    let algorithm = match config::find_param(params, "algorithm") {
        None => None,
        Some(s) => match OtpAlgorithm::parse(s.as_str()) {
            Some(a) => Some(a),
            None => {
                return Err("unknown otp algorithm (use sha1, sha256 or sha512)".to_owned());
            },
        },
    };
    Ok(OtpOverrides { digits, period, algorithm })
}

/// `std::str::from_utf8`: the text that the bytes encode, `None` exactly where
/// they are not valid UTF-8.
#[verifier::external_body]
fn utf8_text<'a>(bytes: &'a [u8]) -> (r: Option<&'a str>)
    ensures
        match r {
            Some(s) => s.spec_bytes() == bytes@,
            None => !vstd::utf8::valid_utf8(bytes@),
        },
{
    std::str::from_utf8(bytes).ok()
}

/// What a seed and its parameters are found to be before the seed is resolved:
/// the complaint, where there is one.
pub open spec fn seed_complaint(seed: Seq<u8>, params: Seq<(Seq<char>, Seq<char>)>) -> Option<
    Seq<char>,
> {
    if !vstd::utf8::valid_utf8(seed) {
        Some("otp seed is not valid text (expected base32 or otpauth:// URI)"@)
    } else {
        match overrides(params) {
            Ok(_) => None,
            Err(e) => Some(e),
        }
    }
}

/// Hand a seed, as text, and its parameters to `resolve`. What `resolve` gives
/// is what comes back; it is asked only where the seed is text and the
/// parameters are sound.
pub fn resolve<T, F>(seed: &[u8], params: &[(String, String)], resolve_seed: F) -> (r: Result<
    T,
    String,
>) where F: Fn(&str, OtpOverrides) -> Result<T, String>
    requires
        forall|s: &str, o: OtpOverrides| #[trigger] resolve_seed.requires((s, o)),
    ensures
        match seed_complaint(seed@, config::param_texts(params@)) {
            Some(message) => r matches Err(e) && e@ == message,
            None => exists|s: &str| #[trigger]
                s.spec_bytes() == seed@ && resolve_seed.ensures(
                    (s, overrides(config::param_texts(params@))->Ok_0),
                    r,
                ),
        },
{
    let text = match utf8_text(seed) {
        None => {
            return Err("otp seed is not valid text (expected base32 or otpauth:// URI)".to_owned());
        },
        Some(t) => t,
    };
    proof {
        vstd::utf8::encode_utf8_valid_utf8(text@);
    }
    match overrides_from_params(params) {
        Err(e) => Err(e),
        Ok(o) => resolve_seed(text, o),
    }
}

/// Check that a seed can be used under `meta`, without deriving a code.
pub fn validate_seed<T, F>(seed: &[u8], meta: &ValueMetaWire, resolve_seed: F) -> (r: Result<
    (),
    String,
>) where F: Fn(&str, OtpOverrides) -> Result<T, String>
    requires
        forall|s: &str, o: OtpOverrides| #[trigger] resolve_seed.requires((s, o)),
    ensures
        match seed_complaint(seed@, meta@.params) {
            Some(message) => r matches Err(e) && e@ == message,
            None => exists|s: &str, resolved: Result<T, String>| #[trigger]
                resolve_seed.ensures((s, overrides(meta@.params)->Ok_0), resolved)
                    && s.spec_bytes() == seed@ && match resolved {
                    Ok(_) => r is Ok,
                    Err(e) => r == Err::<(), String>(e),
                },
        },
{
    let resolved = resolve(seed, meta.params.as_slice(), resolve_seed);
    match resolved {
        Ok(_) => Ok(()),
        Err(e) => Err(e),
    }
}

/// `r` is what the seed yields at `now`: the complaint about it, or what
/// `resolve_seed` refuses it with, or what `totp` makes of what it resolves to.
pub open spec fn is_derived<P, F, G>(
    r: Result<String, String>,
    seed: Seq<u8>,
    params: Seq<(Seq<char>, Seq<char>)>,
    now: u64,
    resolve_seed: F,
    totp: G,
) -> bool where
    F: Fn(&str, OtpOverrides) -> Result<(Vec<u8>, P), String>,
    G: Fn(&[u8], u64, &P) -> Result<String, String>,
 {
    match seed_complaint(seed, params) {
        Some(message) => r matches Err(e) && e@ == message,
        None => exists|s: &str, resolved: Result<(Vec<u8>, P), String>| #[trigger]
            resolve_seed.ensures((s, overrides(params)->Ok_0), resolved) && s.spec_bytes() == seed
                && match resolved {
                Ok((key, resolved_params)) => exists|k: &[u8]| #[trigger]
                    totp.ensures((k, now, &resolved_params), r) && k@ == key@,
                Err(e) => r == Err::<String, String>(e),
            },
    }
}

/// Derive the code of `seed` at `now`, in seconds since the Unix epoch. The
/// seed is handed to `resolve_seed` alone, and only the code comes back.
pub fn derive_code<P, F, G>(
    seed: &[u8],
    meta: &ValueMeta,
    now: u64,
    resolve_seed: F,
    totp: G,
) -> (r: Result<String, String>) where
    F: Fn(&str, OtpOverrides) -> Result<(Vec<u8>, P), String>,
    G: Fn(&[u8], u64, &P) -> Result<String, String>,

    requires
        forall|s: &str, o: OtpOverrides| #[trigger] resolve_seed.requires((s, o)),
        forall|k: &[u8], n: u64, p: &P| #[trigger] totp.requires((k, n, p)),
    ensures
        is_derived(r, seed@, meta@.params, now, resolve_seed, totp),
{
    match resolve(seed, meta.params.as_slice(), resolve_seed) {
        Err(e) => Err(e),
        Ok((key, params)) => totp(key.as_slice(), now, &params),
    }
}

} // verus!
