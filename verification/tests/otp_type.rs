//! One-time codes: which keys have them, and what their seeds must be.

use cache_warden_cli::daemon::handler::ValueMeta;
use cache_warden_cli::daemon::otp_adapter::{get_code, OtpError};
use cache_warden_cli::otp_type::{
    derive_code, is_otp, meta_is_otp, overrides_from_params, validate_seed, OtpAlgorithm,
    OtpOverrides, OTP_TYPE,
};
use cache_warden_cli::wire::ValueMetaWire;

fn pairs(params: &[(&str, &str)]) -> Vec<(String, String)> {
    params.iter().map(|(k, v)| (k.to_string(), v.to_string())).collect()
}

fn wire_otp(params: &[(&str, &str)]) -> ValueMetaWire {
    ValueMetaWire { type_label: Some(OTP_TYPE.to_string()), params: pairs(params) }
}

fn core_otp(params: &[(&str, &str)]) -> ValueMeta {
    ValueMeta { type_label: Some(OTP_TYPE.to_string()), params: pairs(params) }
}

/// The bytes of a base32 text.
fn base32(text: &str) -> Result<Vec<u8>, String> {
    let alphabet = "ABCDEFGHIJKLMNOPQRSTUVWXYZ234567";
    let mut bits: u64 = 0;
    let mut count = 0;
    let mut out = Vec::new();
    for c in text.chars() {
        let digit = alphabet.find(c.to_ascii_uppercase()).ok_or("the seed is not base32")?;
        bits = (bits << 5) | digit as u64;
        count += 5;
        if count >= 8 {
            count -= 8;
            out.push((bits >> count) as u8);
        }
    }
    Ok(out)
}

/// A seed resolver: base32, or an otpauth URI whose parameters give way to the
/// overrides. Hands back the secret and the number of digits.
fn resolver(seed: &str, overrides: OtpOverrides) -> Result<(Vec<u8>, usize), String> {
    let mut secret = seed;
    let mut digits: usize = 6;
    if let Some(rest) = seed.strip_prefix("otpauth://totp/") {
        let query = rest.split('?').nth(1).unwrap_or("");
        for pair in query.split('&') {
            match pair.split_once('=') {
                Some(("secret", v)) => secret = v,
                Some(("digits", v)) => digits = v.parse().map_err(|_| "bad digits")?,
                _ => {}
            }
        }
    }
    if let Some(d) = overrides.digits {
        digits = d as usize;
    }
    Ok((base32(secret)?, digits))
}

/// A code of so many digits that depends on the secret and the time.
fn code_of(secret: &[u8], now: u64, digits: &usize) -> Result<String, String> {
    let sum: u64 = secret.iter().map(|b| *b as u64).sum::<u64>() + now / 30;
    Ok(format!("{:0width$}", sum % 1_000_000, width = *digits))
}

fn derive(seed: &[u8], meta: &ValueMeta) -> Result<String, String> {
    derive_code(seed, meta, 59, resolver, code_of)
}

#[test]
fn is_otp_detects_the_type_label() {
    assert!(is_otp(&wire_otp(&[])));
    assert!(meta_is_otp(&core_otp(&[])));
    assert!(!is_otp(&ValueMetaWire { type_label: None, params: Vec::new() }));
    assert!(!meta_is_otp(&ValueMeta { type_label: None, params: Vec::new() }));
}

#[test]
fn derive_code_from_raw_base32_seed() {
    let seed = b"GEZDGNBVGY3TQOJQGEZDGNBVGY3TQOJQ";
    let code = derive(seed, &core_otp(&[])).unwrap();
    assert_eq!(code.len(), 6, "default digits");
    assert!(code.chars().all(|c| c.is_ascii_digit()));
}

#[test]
fn derive_code_honors_digit_param() {
    let seed = b"GEZDGNBVGY3TQOJQGEZDGNBVGY3TQOJQ";
    let code = derive(seed, &core_otp(&[("digits", "8")])).unwrap();
    assert_eq!(code.len(), 8);
}

#[test]
fn derive_code_from_otpauth_uri_seed() {
    let seed = b"otpauth://totp/L?secret=GEZDGNBVGY3TQOJQGEZDGNBVGY3TQOJQ&digits=8";
    let code = derive(seed, &core_otp(&[])).unwrap();
    assert_eq!(code.len(), 8, "digits read from the URI");
}

#[test]
fn bad_seed_is_error_without_echo() {
    let seed = b"this is not a base32 seed !!!";
    let err = derive(seed, &core_otp(&[])).unwrap_err();
    assert!(!err.contains("this is not"), "must not echo the seed: {err}");
}

#[test]
fn validate_seed_accepts_good_and_rejects_bad() {
    assert!(validate_seed(b"GEZDGNBVGY3TQOJQ", &wire_otp(&[]), resolver).is_ok());
    assert!(validate_seed(b"!!!not base32!!!", &wire_otp(&[]), resolver).is_err());
}

#[test]
fn bad_algorithm_param_is_error() {
    let err = derive(b"GEZDGNBVGY3TQOJQ", &core_otp(&[("algorithm", "md5")])).unwrap_err();
    assert!(err.to_lowercase().contains("algorithm"), "{err}");
}

#[test]
fn a_seed_that_is_no_text_is_refused_before_it_is_resolved() {
    let err = derive(&[0xff, 0xfe], &core_otp(&[])).unwrap_err();
    assert_eq!(err, "otp seed is not valid text (expected base32 or otpauth:// URI)");
    let err = validate_seed(&[0xc3, 0x28], &wire_otp(&[]), resolver).unwrap_err();
    assert_eq!(err, "otp seed is not valid text (expected base32 or otpauth:// URI)");
}

#[test]
fn the_resolver_is_handed_the_seed_and_the_overrides() {
    let r = validate_seed(
        "GEZ\u{e9}".as_bytes(),
        &wire_otp(&[("digits", "7"), ("period", "60"), ("algorithm", "sha256")]),
        |seed: &str, o: OtpOverrides| -> Result<(), String> {
            Err(format!("{seed} {:?} {:?} {:?}", o.digits, o.period, o.algorithm))
        },
    );
    assert_eq!(r, Err("GEZ\u{e9} Some(7) Some(60) Some(Sha256)".to_string()));
}

#[test]
fn the_code_is_made_from_the_resolved_secret_at_the_given_time() {
    let seen = |secret: &[u8], now: u64, digits: &usize| -> Result<String, String> {
        Ok(format!("{secret:?} {now} {digits}"))
    };
    let code = derive_code(b"GEZA", &core_otp(&[]), 1111111109, resolver, seen);
    assert_eq!(code, Ok("[49, 50] 1111111109 6".to_string()));
}

#[test]
fn parameters_that_are_no_numbers_are_refused() {
    assert!(overrides_from_params(&pairs(&[("digits", "six")])).is_err());
    assert!(overrides_from_params(&pairs(&[("period", "-1")])).is_err());
    let o = overrides_from_params(&pairs(&[("algorithm", "SHA512"), ("digits", "8")])).unwrap();
    assert_eq!(o.algorithm, Some(OtpAlgorithm::Sha512));
    assert_eq!(o.digits, Some(8));
    assert_eq!(o.period, None);
}

#[test]
fn a_code_is_derived_of_what_reading_the_seed_gave() {
    let seed: &[u8] = b"GEZDGNBVGY3TQOJQ";
    let code = |meta: Option<ValueMeta>, read: Result<Option<&[u8]>, ()>| {
        get_code(meta, read, 59, resolver, code_of)
    };
    assert_eq!(code(Some(core_otp(&[])), Ok(Some(seed))), Ok("000526".to_string()));
    assert_eq!(
        code(Some(core_otp(&[("digits", "8")])), Ok(Some(seed))),
        Ok("00000526".to_string())
    );
    assert_eq!(code(None, Ok(Some(seed))), Ok("000526".to_string()), "without a definition");
    assert_eq!(code(Some(core_otp(&[])), Ok(None)), Err(OtpError::NoValue));
    assert_eq!(code(None, Err(())), Err(OtpError::Cap));
    assert_eq!(
        code(None, Ok(Some(&[0xc3, 0x28]))),
        Err(OtpError::Derive(
            "otp seed is not valid text (expected base32 or otpauth:// URI)".to_string()
        ))
    );
    assert_eq!(
        code(None, Ok(Some(b"!"))),
        Err(OtpError::Derive("the seed is not base32".to_string()))
    );
    let refusing = |_: &[u8], _: u64, _: &usize| Err("no clock".to_string());
    assert_eq!(
        get_code(None, Ok(Some(seed)), 59, resolver, refusing),
        Err(OtpError::Derive("no clock".to_string()))
    );
    assert_eq!(OtpError::Cap.message(), "internal cap mismatch");
    assert_eq!(OtpError::NoValue.message(), "no value for otp key");
    assert_eq!(OtpError::Derive("x".to_string()).message(), "x");
}
