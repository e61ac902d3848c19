//! Laws of one-time codes.

use vstd::prelude::*;
use vstd::string::StringSliceAdditionalSpecFns;

use crate::config;
use crate::daemon::handler::ValueMeta;
use crate::daemon::otp_adapter;
use crate::daemon::otp_adapter::OtpError;
use crate::otp_type;
use crate::otp_type::{OtpAlgorithm, OtpOverrides};
use crate::text;
use crate::wire::ValueMetaWire;

verus! {

/// Each hash goes by its own name, in large or small letters, and no other text
/// names one.
pub proof fn hashes_by_name(name: &str, lower: String, r: Option<OtpAlgorithm>)
    requires
        call_ensures(text::lowercase, (name,), lower),
        call_ensures(OtpAlgorithm::parse, (name,), r),
    ensures
        lower@ == "sha1"@ <==> r == Some(OtpAlgorithm::Sha1),
        lower@ == "sha256"@ <==> r == Some(OtpAlgorithm::Sha256),
        lower@ == "sha512"@ <==> r == Some(OtpAlgorithm::Sha512),
{
    reveal_strlit("sha1");
    reveal_strlit("sha256");
    reveal_strlit("sha512");
    assert("sha256"@[3] != "sha512"@[3]);
    assert("sha1"@.len() != "sha256"@.len());
    assert("sha1"@.len() != "sha512"@.len());
}

/// The value of a parameter is that of the first one of its name.
pub proof fn parameters_by_name(params: &[(String, String)], name: &str, r: Option<String>)
    requires
        call_ensures(config::find_param, (params, name), r),
    ensures
        match r {
            Some(value) => exists|i: int|
                0 <= i < params@.len() && (#[trigger] params@[i]).0@ == name@ && params@[i].1@
                    == value@ && forall|j: int|
                    0 <= j < i ==> (#[trigger] params@[j]).0@ != name@,
            None => forall|j: int| 0 <= j < params@.len() ==> (#[trigger] params@[j]).0@ != name@,
        },
{
    let texts = config::param_texts(params@);
    let i = first_of_name(texts, name@);
    assert forall|j: int| 0 <= j < params@.len() implies texts[j] == (
        (#[trigger] params@[j]).0@,
        params@[j].1@,
    ) by {}
    if r is Some {
        assert(texts[i] == (params@[i].0@, params@[i].1@));
    }
}

proof fn first_of_name(texts: Seq<(Seq<char>, Seq<char>)>, name: Seq<char>) -> (i: int)
    ensures
        match config::param_value(texts, name) {
            Some(value) => 0 <= i < texts.len() && texts[i] == (name, value) && forall|j: int|
                0 <= j < i ==> (#[trigger] texts[j]).0 != name,
            None => forall|j: int| 0 <= j < texts.len() ==> (#[trigger] texts[j]).0 != name,
        },
    decreases texts.len(),
{
    if texts.len() == 0 || texts[0].0 == name {
        0
    } else {
        let i = first_of_name(texts.skip(1), name);
        assert forall|j: int|
            1 <= j < texts.len() && (config::param_value(texts, name) is None || j < i
                + 1) implies (#[trigger] texts[j]).0 != name by {
            assert(texts.skip(1)[j - 1] == texts[j]);
        }
        i + 1
    }
}

/// A number as a parameter gives it: the text itself, or what stands behind a
/// leading `+`.
pub open spec fn number_part(value: Seq<char>) -> Seq<char> {
    if value.len() > 0 && value[0] == '+' {
        value.skip(1)
    } else {
        value
    }
}

/// A key that gives a number of digits gets codes of that many.
pub proof fn the_digits_are_those_given(
    params: &[(String, String)],
    name: &str,
    given: Option<String>,
    d: &str,
    n: Option<u64>,
    r: Result<OtpOverrides, String>,
)
    requires
        name@ == "digits"@,
        call_ensures(config::find_param, (params, name), given),
        given matches Some(v) ==> d@ == number_part(v@),
        call_ensures(text::parse_digits, (d,), n),
        call_ensures(otp_type::overrides_from_params, (params,), r),
    ensures
        r matches Ok(o) ==> match given {
            None => o.digits is None,
            Some(_) => n matches Some(k) && k <= u32::MAX && o.digits == Some(k as u32),
        },
        given is Some && (n is None || n->0 > u32::MAX) ==> r is Err,
{
}

/// A key that gives a period gets codes of that period.
pub proof fn the_period_is_that_given(
    params: &[(String, String)],
    name: &str,
    given: Option<String>,
    d: &str,
    n: Option<u64>,
    r: Result<OtpOverrides, String>,
)
    requires
        name@ == "period"@,
        call_ensures(config::find_param, (params, name), given),
        given matches Some(v) ==> d@ == number_part(v@),
        call_ensures(text::parse_digits, (d,), n),
        call_ensures(otp_type::overrides_from_params, (params,), r),
    ensures
        r matches Ok(o) ==> match given {
            None => o.period is None,
            Some(_) => n is Some && o.period == n,
        },
        given is Some && n is None ==> r is Err,
{
}

/// A key that names a hash gets codes of that hash.
pub proof fn the_hash_is_that_given(
    params: &[(String, String)],
    name: &str,
    given: Option<String>,
    a: &str,
    hash: Option<OtpAlgorithm>,
    r: Result<OtpOverrides, String>,
)
    requires
        name@ == "algorithm"@,
        call_ensures(config::find_param, (params, name), given),
        given matches Some(v) ==> a@ == v@,
        call_ensures(OtpAlgorithm::parse, (a,), hash),
        call_ensures(otp_type::overrides_from_params, (params,), r),
    ensures
        r matches Ok(o) ==> match given {
            None => o.algorithm is None,
            Some(_) => hash is Some && o.algorithm == hash,
        },
        given is Some && hash is None ==> r is Err,
{
}

/// What a definition gives of digits, period and hash is what its codes are
/// derived with.
pub proof fn declared_parameters_come_through(
    name: &str,
    value_type: Option<String>,
    digits: Option<u32>,
    period: Option<u64>,
    algorithm: Option<String>,
    meta: ValueMetaWire,
    params: &[(String, String)],
    r: Result<OtpOverrides, String>,
)
    requires
        call_ensures(
            config::build_kv_meta,
            (name, &value_type, digits, period, &algorithm),
            Ok(meta),
        ),
        params@ == meta.params@,
        call_ensures(otp_type::overrides_from_params, (params,), r),
    ensures
        r matches Ok(o) && o.digits == digits && o.period == period && o.algorithm is Some
            == algorithm is Some,
        algorithm matches Some(a) ==> forall|s: &str, hash: Option<OtpAlgorithm>|
            s@ == a@ && #[trigger] call_ensures(OtpAlgorithm::parse, (s,), hash) ==> (r matches Ok(
                o,
            ) && o.algorithm == hash),
{
    reveal_strlit("algorithm");
    reveal_strlit("digits");
    reveal_strlit("period");
    assert("algorithm"@.len() == 9 && "digits"@.len() == 6 && "period"@.len() == 6);
    assert("digits"@[0] != "period"@[0]);
    let a = config::optional_param(
        "algorithm"@,
        match algorithm {
            Some(a) => Some(text::lowered(a@)),
            None => None,
        },
    );
    let d = config::optional_param(
        "digits"@,
        match digits {
            Some(d) => Some(text::decimal(d as nat)),
            None => None,
        },
    );
    let p = config::optional_param(
        "period"@,
        match period {
            Some(p) => Some(text::decimal(p as nat)),
            None => None,
        },
    );
    let texts = config::param_texts(params@);
    if value_type is Some {
        assert(texts == a + d + p);
        found_behind(a, d + p, "algorithm"@);
        found_behind(a, d + p, "digits"@);
        found_behind(a, d + p, "period"@);
        found_behind(d, p, "algorithm"@);
        found_behind(d, p, "digits"@);
        found_behind(d, p, "period"@);
        found_behind(p, Seq::empty(), "algorithm"@);
        found_behind(p, Seq::empty(), "digits"@);
        found_behind(p, Seq::empty(), "period"@);
        assert(p + Seq::<(Seq<char>, Seq<char>)>::empty() =~= p);
        assert(a + d + p =~= a + (d + p));
        if let Some(n) = digits {
            written_number(n as u64);
        }
        if let Some(n) = period {
            written_number(n);
        }
        if let Some(name) = algorithm {
            lowered_twice(name@);
        }
    } else {
        assert(texts =~= Seq::<(Seq<char>, Seq<char>)>::empty());
    }
}

proof fn found_behind(
    front: Seq<(Seq<char>, Seq<char>)>,
    rest: Seq<(Seq<char>, Seq<char>)>,
    name: Seq<char>,
)
    requires
        front.len() <= 1,
    ensures
        config::param_value(front + rest, name) == if front.len() == 1 && front[0].0 == name {
            Some(front[0].1)
        } else {
            config::param_value(rest, name)
        },
{
    if front.len() == 1 {
        assert((front + rest)[0] == front[0]);
        assert((front + rest).skip(1) =~= rest);
    } else {
        assert(front + rest =~= rest);
    }
}

proof fn written_number(n: u64)
    ensures
        otp_type::number_of(text::decimal(n as nat)) == Some(n),
{
    text::decimal_reads_back(n as nat);
    assert(text::is_digit(text::decimal(n as nat)[0]));
}

proof fn lowered_twice(s: Seq<char>)
    ensures
        text::lowered(text::lowered(s)) == text::lowered(s),
{
    assert forall|i: int| 0 <= i < s.len() implies text::lower_char(
        text::lower_char(#[trigger] s[i]),
    ) == text::lower_char(s[i]) by {
        small_stays_small(s[i]);
    }
    assert(text::lowered(text::lowered(s)) =~= text::lowered(s));
}

proof fn small_stays_small(c: char)
    ensures
        text::lower_char(text::lower_char(c)) == text::lower_char(c),
{
}

/// Which values are one-time codes: those of the type that is called `otp`, on
/// the wire and in the store.
pub proof fn otp_values_by_type(
    wire: &ValueMetaWire,
    kept: &ValueMeta,
    on_wire: bool,
    in_store: bool,
)
    requires
        call_ensures(otp_type::is_otp, (wire,), on_wire),
        call_ensures(otp_type::meta_is_otp, (kept,), in_store),
    ensures
        on_wire <==> (wire.type_label matches Some(t) && t@ == "otp"@),
        in_store <==> (kept.type_label matches Some(t) && t@ == "otp"@),
{
}

/// A code is what `totp` makes, at the time that is given, of the key that
/// `resolve_seed` finds in the seed's text under the parameters of the key.
pub proof fn codes_come_of_the_seed<P, F, G>(
    seed: &[u8],
    meta: ValueMeta,
    now: u64,
    resolve_seed: F,
    totp: G,
    params: &[(String, String)],
    overrides: Result<OtpOverrides, String>,
    code: String,
) where
    F: Fn(&str, OtpOverrides) -> Result<(Vec<u8>, P), String>,
    G: Fn(&[u8], u64, &P) -> Result<String, String>,

    requires
        call_ensures(
            otp_type::derive_code::<P, F, G>,
            (seed, &meta, now, resolve_seed, totp),
            Ok(code),
        ),
        params@ == meta.params@,
        call_ensures(otp_type::overrides_from_params, (params,), overrides),
    ensures
        overrides matches Ok(o) && exists|s: &str, key: Vec<u8>, p: P, k: &[u8]|
            s.spec_bytes() == seed@ && #[trigger] resolve_seed.ensures((s, o), Ok((key, p)))
                && #[trigger] totp.ensures((k, now, &p), Ok(code)) && k@ == key@,
{
    let texts = config::param_texts(params@);
    assert(meta@.params == texts);
    let o = otp_type::overrides(texts)->Ok_0;
    let (s, resolved) = choose|s: &str, resolved: Result<(Vec<u8>, P), String>| #[trigger]
        resolve_seed.ensures((s, o), resolved) && s.spec_bytes() == seed@ && match resolved {
            Ok((key, p)) => exists|k: &[u8]| #[trigger]
                totp.ensures((k, now, &p), Ok(code)) && k@ == key@,
            Err(e) => false,
        };
    assert(resolved is Ok);
    let (key, p) = resolved->Ok_0;
    let k = choose|k: &[u8]| #[trigger] totp.ensures((k, now, &p), Ok(code)) && k@ == key@;
    assert(resolve_seed.ensures((s, o), Ok((key, p))));
    assert(totp.ensures((k, now, &p), Ok(code)));
}

/// No code comes of a seed that is no text, or of parameters that are not sound.
pub proof fn unsound_seeds_yield_nothing<P, F, G>(
    seed: &[u8],
    meta: ValueMeta,
    now: u64,
    resolve_seed: F,
    totp: G,
    params: &[(String, String)],
    overrides: Result<OtpOverrides, String>,
    r: Result<String, String>,
) where
    F: Fn(&str, OtpOverrides) -> Result<(Vec<u8>, P), String>,
    G: Fn(&[u8], u64, &P) -> Result<String, String>,

    requires
        call_ensures(
            otp_type::derive_code::<P, F, G>,
            (seed, &meta, now, resolve_seed, totp),
            r,
        ),
        params@ == meta.params@,
        call_ensures(otp_type::overrides_from_params, (params,), overrides),
        !vstd::utf8::valid_utf8(seed@) || overrides is Err,
    ensures
        r is Err,
{
    assert(meta@.params == config::param_texts(params@));
}

/// The code of a key is the code of the seed that was read; where none was read
/// there is none, and a store that was asked with the wrong capability says so.
pub proof fn codes_are_read_of_the_store<P, F, G>(
    meta: ValueMeta,
    seed: Result<Option<&[u8]>, ()>,
    now_secs: u64,
    resolve_seed: F,
    totp: G,
    r: Result<String, OtpError>,
) where
    F: Fn(&str, OtpOverrides) -> Result<(Vec<u8>, P), String>,
    G: Fn(&[u8], u64, &P) -> Result<String, String>,

    requires
        call_ensures(
            otp_adapter::get_code::<P, F, G>,
            (Some(meta), seed, now_secs, resolve_seed, totp),
            r,
        ),
    ensures
        seed is Err <==> r == Err::<String, OtpError>(OtpError::Cap),
        (seed matches Ok(None)) <==> r == Err::<String, OtpError>(OtpError::NoValue),
        r matches Ok(code) ==> (seed matches Ok(Some(bytes)) && otp_type::is_derived(
            Ok(code),
            bytes@,
            meta@.params,
            now_secs,
            resolve_seed,
            totp,
        )),
{
}

/// A seed is taken exactly where it is text, its parameters are sound and the
/// reader of seeds takes it with these parameters; what the reader gives is what
/// comes back.
pub proof fn seeds_are_read_with_their_parameters<T, F>(
    seed: &[u8],
    params: &[(String, String)],
    meta: &ValueMetaWire,
    resolve_seed: F,
    overrides: Result<OtpOverrides, String>,
    r: Result<T, String>,
    checked: Result<(), String>,
) where F: Fn(&str, OtpOverrides) -> Result<T, String>
    requires
        params@ == meta.params@,
        call_ensures(otp_type::overrides_from_params, (params,), overrides),
        call_ensures(otp_type::resolve::<T, F>, (seed, params, resolve_seed), r),
        call_ensures(otp_type::validate_seed::<T, F>, (seed, meta, resolve_seed), checked),
    ensures
        !vstd::utf8::valid_utf8(seed@) || overrides is Err ==> r is Err && checked is Err,
        vstd::utf8::valid_utf8(seed@) && overrides is Ok ==> exists|s: &str| #[trigger]
            s.spec_bytes() == seed@ && call_ensures(resolve_seed, (s, overrides->Ok_0), r),
        vstd::utf8::valid_utf8(seed@) && overrides is Ok ==> exists|
            s: &str,
            resolved: Result<T, String>,
        | #[trigger]
            call_ensures(resolve_seed, (s, overrides->Ok_0), resolved) && s.spec_bytes() == seed@
                && (checked is Ok <==> resolved is Ok),
{
    let texts = config::param_texts(params@);
    assert(meta@.params == texts);
    if vstd::utf8::valid_utf8(seed@) && overrides is Ok {
        let given = otp_type::overrides(texts)->Ok_0;
        assert(given == overrides->Ok_0);
        let (s, resolved) = choose|s: &str, resolved: Result<T, String>| #[trigger]
            resolve_seed.ensures((s, given), resolved) && s.spec_bytes() == seed@ && match resolved {
                Ok(_) => checked is Ok,
                Err(e) => checked == Err::<(), String>(e),
            };
        assert(call_ensures(resolve_seed, (s, overrides->Ok_0), resolved));
    }
}

} // verus!
