//! Whether a caller is the owner of an entry, by the code signature of its
//! process, and what is to be said about the hardening of a process that
//! declares itself an owner.

use vstd::prelude::*;

verus! {

/// Why a caller is not the owner. The distinctions are for the daemon's log
/// only; a caller is told no more than that it is not.
#[derive(Debug, Clone, PartialEq, Eq)]
pub enum OwnerDenied {
    /// The connection names no process.
    NoPeerToken,
    /// The process does not have the signature that the owner must have.
    RequirementUnsatisfied(String),
    /// The requirement could not be read, which is a fault of this program.
    RequirementMalformed,
    /// Signatures cannot be checked here.
    Unsupported,
}

impl OwnerDenied {
    pub fn message(&self) -> (r: String)
        ensures
            r@ == match *self {
                OwnerDenied::NoPeerToken => "the caller could not be identified"@,
                OwnerDenied::RequirementUnsatisfied(why) => {
                    "the caller's code signature does not match the owner ("@ + why@ + ")"@
                },
                OwnerDenied::RequirementMalformed => {
                    "the owner requirement this build assembled is malformed (a bug)"@
                },
                OwnerDenied::Unsupported => {
                    "code signatures cannot be evaluated on this platform"@
                },
            },
    {
        match self {
            OwnerDenied::NoPeerToken => "the caller could not be identified".to_owned(),
            OwnerDenied::RequirementUnsatisfied(why) => {
                "the caller's code signature does not match the owner (".to_owned().concat(
                    why.as_str(),
                ).concat(")")
            },
            OwnerDenied::RequirementMalformed => {
                "the owner requirement this build assembled is malformed (a bug)".to_owned()
            },
            OwnerDenied::Unsupported => {
                "code signatures cannot be evaluated on this platform".to_owned()
            },
        }
    }
}

/// What the system said to checking a process against a requirement.
#[derive(Debug, Clone, PartialEq, Eq)]
pub enum SignatureCheck {
    Satisfied,
    /// The requirement could not be read.
    RequirementUnparseable,
    Failed(String),
}

/// Judges callers by what the system says of their signatures.
#[derive(Debug, Clone, Copy, PartialEq, Eq, Structural)]
pub struct CodeSignatureVerifier;

impl CodeSignatureVerifier {
    /// Whether a caller is the owner: `supported` says that the platform can
    /// check signatures, `check` what it said, where the connection named a
    /// process. Whatever is not a definite yes is a no.
    pub fn satisfies(&self, supported: bool, check: Option<SignatureCheck>) -> (r: Result<
        (),
        OwnerDenied,
    >)
        ensures
            r is Ok <==> supported && check == Some(SignatureCheck::Satisfied),
            r matches Err(e) ==> if !supported {
                e is Unsupported
            } else {
                match check {
                    None => e is NoPeerToken,
                    Some(SignatureCheck::RequirementUnparseable) => e is RequirementMalformed,
                    Some(SignatureCheck::Failed(why)) => e
                        == OwnerDenied::RequirementUnsatisfied(why),
                    Some(SignatureCheck::Satisfied) => true,
                }
            },
    {
        if !supported {
            return Err(OwnerDenied::Unsupported);
        }
        match check {
            None => Err(OwnerDenied::NoPeerToken),
            Some(SignatureCheck::Satisfied) => Ok(()),
            Some(SignatureCheck::RequirementUnparseable) => Err(OwnerDenied::RequirementMalformed),
            Some(SignatureCheck::Failed(why)) => Err(OwnerDenied::RequirementUnsatisfied(why)),
        }
    }
}

/// The signing flag of the hardened runtime.
pub const CS_RUNTIME: u32 = 0x0001_0000;

/// The signing flag of library validation.
pub const CS_REQUIRE_LV: u32 = 0x0000_2000;

/// Whether a process is hardened: only then does its signature say what runs
/// inside it.
#[derive(Debug, Clone, Copy, PartialEq, Eq, Structural)]
pub struct Hardening {
    pub runtime: bool,
    pub library_validation: bool,
}

impl Hardening {
    /// What the signing flags of a process say; nothing where they could not be
    /// read.
    pub fn of(flags: Option<u32>) -> (r: Option<Hardening>)
        ensures
            r == match flags {
                Some(f) => Some(
                    Hardening {
                        runtime: f & CS_RUNTIME != 0,
                        library_validation: f & CS_REQUIRE_LV != 0,
                    },
                ),
                None => None,
            },
    {
        match flags {
            Some(f) => Some(
                Hardening {
                    runtime: f & CS_RUNTIME != 0,
                    library_validation: f & CS_REQUIRE_LV != 0,
                },
            ),
            None => None,
        }
    }

    /// What a declaring process is to be warned of, if anything.
    pub fn warning(&self) -> (r: Option<&'static str>)
        ensures
            match (self.runtime, self.library_validation) {
                (true, true) => r is None,
                (false, false) => r matches Some(w) && w@
                    == "neither hardened runtime nor library validation is enabled on the declaring process: code injected into it would run under its signature, so an owner requirement naming it is weaker than it looks"@,
                (false, true) => r matches Some(w) && w@
                    == "hardened runtime is not enabled on the declaring process: code injected into it would run under its signature"@,
                (true, false) => r matches Some(w) && w@
                    == "library validation is not enabled on the declaring process: it can load libraries signed by others, which then run under its signature"@,
            },
    {
        match (self.runtime, self.library_validation) {
            (true, true) => None,
            (false, false) => Some(
                "neither hardened runtime nor library validation is enabled on the declaring process: code injected into it would run under its signature, so an owner requirement naming it is weaker than it looks",
            ),
            (false, true) => Some(
                "hardened runtime is not enabled on the declaring process: code injected into it would run under its signature",
            ),
            (true, false) => Some(
                "library validation is not enabled on the declaring process: it can load libraries signed by others, which then run under its signature",
            ),
        }
    }
}

} // verus!
