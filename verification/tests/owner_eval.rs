//! Owner verification.

use cache_warden_cli::daemon::owner_eval::{
    CodeSignatureVerifier, Hardening, OwnerDenied, SignatureCheck, CS_REQUIRE_LV, CS_RUNTIME,
};

#[test]
fn the_real_verifier_refuses_a_caller_it_cannot_identify() {
    assert_eq!(CodeSignatureVerifier.satisfies(true, None), Err(OwnerDenied::NoPeerToken));
}

/// Off macOS the platform check comes before everything else: the verifier
/// says "unsupported", never "no token".
#[test]
fn the_real_verifier_refuses_every_caller_off_macos() {
    assert_eq!(CodeSignatureVerifier.satisfies(false, None), Err(OwnerDenied::Unsupported));
    assert_eq!(
        CodeSignatureVerifier.satisfies(false, Some(SignatureCheck::Satisfied)),
        Err(OwnerDenied::Unsupported)
    );
}

#[test]
fn an_unsigned_caller_does_not_satisfy_an_owner() {
    assert!(matches!(
        CodeSignatureVerifier.satisfies(true, Some(SignatureCheck::Failed("no signature".into()))),
        Err(OwnerDenied::RequirementUnsatisfied(_))
    ));
}

#[test]
fn only_a_definite_yes_is_a_yes() {
    assert_eq!(CodeSignatureVerifier.satisfies(true, Some(SignatureCheck::Satisfied)), Ok(()));
    assert_eq!(
        CodeSignatureVerifier.satisfies(true, Some(SignatureCheck::RequirementUnparseable)),
        Err(OwnerDenied::RequirementMalformed)
    );
}

#[test]
fn denials_say_what_is_wrong() {
    assert_eq!(OwnerDenied::NoPeerToken.message(), "the caller could not be identified");
    assert_eq!(
        OwnerDenied::RequirementUnsatisfied("x".into()).message(),
        "the caller's code signature does not match the owner (x)"
    );
    assert!(!OwnerDenied::RequirementMalformed.message().is_empty());
    assert!(!OwnerDenied::Unsupported.message().is_empty());
}

/// Both premises present means no warning; anything missing says which, because
/// the two failures have different remedies.
#[test]
fn hardening_warns_about_exactly_what_is_missing() {
    let both = Hardening::of(Some(CS_RUNTIME | CS_REQUIRE_LV)).unwrap();
    assert_eq!(both.warning(), None);

    let no_runtime = Hardening::of(Some(CS_REQUIRE_LV)).unwrap();
    assert!(no_runtime.warning().unwrap().contains("hardened runtime"));

    let no_lv = Hardening::of(Some(CS_RUNTIME)).unwrap();
    assert!(no_lv.warning().unwrap().contains("library validation"));

    let neither = Hardening::of(Some(0)).unwrap();
    assert!(neither.warning().unwrap().contains("neither"));
}

/// Flags that cannot be read must not be mistaken for "nothing enabled": the
/// warning is advisory, and inventing one from missing data would train people
/// to ignore it.
#[test]
fn unreadable_flags_produce_no_warning_rather_than_a_false_one() {
    assert_eq!(Hardening::of(None), None);
}
