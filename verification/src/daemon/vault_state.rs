//! The daemon's view of the encrypted vault.
//!
//! "Not created yet" and "closed" are told apart, because they call for
//! different answers. A closed vault is a working state: the daemon goes on
//! without the values in it. What only the vault itself can do (create, open,
//! read its file) the caller does; the outcome is handed in here.

use vstd::prelude::*;

use crate::wire::{VaultStateWire, VaultStatusWire};

verus! {

/// What the plain part of a vault's file tells.
#[derive(Debug, Clone, PartialEq, Eq)]
pub struct VaultHeader {
    pub path: String,
    pub vault_id: String,
    pub slots: usize,
    pub dek_generation: u64,
    /// A slot was registered against a development-only service.
    pub dev_rp_slot: bool,
}

/// `r` is what `vault` tells, of the file at `path`.
pub open spec fn is_header_at(r: VaultHeader, vault: VaultHeader, path: Seq<char>) -> bool {
    r.path@ == path && r.vault_id@ == vault.vault_id@ && r.slots == vault.slots
        && r.dek_generation == vault.dek_generation && r.dev_rp_slot == vault.dev_rp_slot
}

/// What `vault` tells, of the file at `path`: that is where it was read.
fn header_at(vault: VaultHeader, path: String) -> (r: VaultHeader)
    ensures
        is_header_at(r, vault, path@),
{
    VaultHeader {
        path,
        vault_id: vault.vault_id,
        slots: vault.slots,
        dek_generation: vault.dek_generation,
        dev_rp_slot: vault.dev_rp_slot,
    }
}

/// Why no vault was created.
#[derive(Debug, Clone, PartialEq, Eq)]
pub enum VaultInitError {
    /// There is one already.
    AlreadyExists,
    Vault(String),
}

impl VaultInitError {
    pub fn message(&self) -> (r: String)
        ensures
            r@ == match *self {
                VaultInitError::AlreadyExists => {
                    "a vault already exists here; `vault unlock` it, or move it aside to start over (its contents cannot be recovered without its recovery code)"@
                },
                VaultInitError::Vault(e) => e@,
            },
    {
        match self {
            VaultInitError::AlreadyExists => {
                "a vault already exists here; `vault unlock` it, or move it aside to start over (its contents cannot be recovered without its recovery code)".to_owned()
            },
            VaultInitError::Vault(e) => e.clone(),
        }
    }
}

/// Why the vault was not opened.
#[derive(Debug, Clone, PartialEq, Eq)]
pub enum VaultUnlockError {
    /// There is none yet.
    NotInitialized,
    Vault(String),
}

impl VaultUnlockError {
    pub fn message(&self) -> (r: String)
        ensures
            r@ == match *self {
                VaultUnlockError::NotInitialized => {
                    "no vault has been created yet; run `vault init`"@
                },
                VaultUnlockError::Vault(e) => e@,
            },
    {
        match self {
            VaultUnlockError::NotInitialized => {
                "no vault has been created yet; run `vault init`".to_owned()
            },
            VaultUnlockError::Vault(e) => e.clone(),
        }
    }
}

/// What reading the vault's file gave.
#[derive(Debug, Clone, PartialEq, Eq)]
pub enum OpenOutcome {
    Read(VaultHeader),
    /// There is no such file.
    Missing,
    Failed(String),
}

/// Where the vault lives and what state it is in.
#[derive(Debug, Clone, PartialEq, Eq)]
pub enum VaultState {
    NotInitialized { path: String },
    Locked { vault: VaultHeader },
    Unlocked { vault: VaultHeader },
}

/// What opening the vault calls for.
#[derive(Debug, Clone, PartialEq, Eq)]
pub enum UnlockPlan {
    /// It is open already.
    AlreadyOpen,
    /// There is none.
    NotInitialized,
    /// Read the file at `path` anew and open that.
    Open { path: String },
}

impl VaultState {
    /// Where the vault lives or will live.
    pub open spec fn location(self) -> Seq<char> {
        match self {
            VaultState::NotInitialized { path } => path@,
            VaultState::Locked { vault } => vault.path@,
            VaultState::Unlocked { vault } => vault.path@,
        }
    }

    /// The state of what was found at `path`. A missing file is no error; one
    /// that cannot be read is, because it may be what protects something.
    pub fn open_at(path: String, outcome: OpenOutcome) -> (r: Result<VaultState, String>)
        ensures
            match outcome {
                OpenOutcome::Read(header) => r matches Ok(VaultState::Locked { vault })
                    && is_header_at(vault, header, path@),
                OpenOutcome::Missing => r == Ok::<VaultState, String>(
                    VaultState::NotInitialized { path },
                ),
                OpenOutcome::Failed(e) => r == Err::<VaultState, String>(e),
            },
    {
        match outcome {
            OpenOutcome::Read(header) => Ok(VaultState::Locked { vault: header_at(header, path) }),
            OpenOutcome::Missing => Ok(VaultState::NotInitialized { path }),
            OpenOutcome::Failed(e) => Err(e),
        }
    }

    /// Where the vault lives or will live.
    pub fn path(&self) -> (r: &str)
        ensures
            r@ == self.location(),
    {
        match self {
            VaultState::NotInitialized { path } => path.as_str(),
            VaultState::Locked { vault } => vault.path.as_str(),
            VaultState::Unlocked { vault } => vault.path.as_str(),
        }
    }

    /// Whether the values in it can be read.
    pub fn is_unlocked(&self) -> (r: bool)
        ensures
            r == (*self is Unlocked),
    {
        match self {
            VaultState::Unlocked { .. } => true,
            _ => false,
        }
    }

    /// The open vault.
    pub fn unlocked(&self) -> (r: Option<&VaultHeader>)
        ensures
            match *self {
                VaultState::Unlocked { vault } => r == Some(&vault),
                _ => r is None,
            },
    {
        match self {
            VaultState::Unlocked { vault } => Some(vault),
            _ => None,
        }
    }

    /// Whether a slot was registered against a development-only service. This
    /// is known before the vault is opened.
    pub fn has_dev_rp_slot(&self) -> (r: bool)
        ensures
            r == match *self {
                VaultState::NotInitialized { .. } => false,
                VaultState::Locked { vault } => vault.dev_rp_slot,
                VaultState::Unlocked { vault } => vault.dev_rp_slot,
            },
    {
        match self {
            VaultState::NotInitialized { .. } => false,
            VaultState::Locked { vault } => vault.dev_rp_slot,
            VaultState::Unlocked { vault } => vault.dev_rp_slot,
        }
    }

    /// Where a vault is to be created; refused where there is one.
    pub fn plan_init(&self) -> (r: Result<String, VaultInitError>)
        ensures
            match *self {
                VaultState::NotInitialized { path } => r matches Ok(p) && p@ == path@,
                _ => r == Err::<String, VaultInitError>(VaultInitError::AlreadyExists),
            },
    {
        match self {
            VaultState::NotInitialized { path } => Ok(path.clone()),
            _ => Err(VaultInitError::AlreadyExists),
        }
    }

    /// After a vault was to be created: it is left open. Without success, or
    /// where there was one already, nothing changes.
    pub fn init(&mut self, created: Result<VaultHeader, String>) -> (r: Result<
        String,
        VaultInitError,
    >)
        ensures
            r is Ok <==> *old(self) is NotInitialized && created is Ok,
            r matches Ok(id) ==> (*final(self) matches VaultState::Unlocked { vault }
                && is_header_at(vault, created->Ok_0, old(self).location())) && id@
                == created->Ok_0.vault_id@,
            r matches Err(e) ==> *final(self) == *old(self) && if *old(self) is NotInitialized {
                e == VaultInitError::Vault(created->Err_0)
            } else {
                e == VaultInitError::AlreadyExists
            },
            final(self).location() == old(self).location(),
    {
        let path = match self.plan_init() {
            Ok(path) => path,
            Err(e) => {
                return Err(e);
            },
        };
        match created {
            Err(e) => Err(VaultInitError::Vault(e)),
            Ok(vault) => {
                let id = vault.vault_id.clone();
                *self = VaultState::Unlocked { vault: header_at(vault, path) };
                Ok(id)
            },
        }
    }

    /// What opening the vault calls for.
    pub fn plan_unlock(&self) -> (r: UnlockPlan)
        ensures
            match *self {
                VaultState::Unlocked { .. } => r is AlreadyOpen,
                VaultState::NotInitialized { .. } => r is NotInitialized,
                VaultState::Locked { vault } => r matches UnlockPlan::Open { path } && path@
                    == vault.path@,
            },
    {
        match self {
            VaultState::Unlocked { .. } => UnlockPlan::AlreadyOpen,
            VaultState::NotInitialized { .. } => UnlockPlan::NotInitialized,
            VaultState::Locked { vault } => UnlockPlan::Open { path: vault.path.clone() },
        }
    }

    /// After the vault was to be opened, by a recovery code or by a passkey. An
    /// attempt that fails leaves it exactly as it was; opening an open vault is
    /// no error.
    pub fn unlock(&mut self, opened: Result<VaultHeader, String>) -> (r: Result<
        (),
        VaultUnlockError,
    >)
        ensures
            match *old(self) {
                VaultState::Unlocked { .. } => r is Ok && *final(self) == *old(self),
                VaultState::NotInitialized { .. } => r == Err::<(), VaultUnlockError>(
                    VaultUnlockError::NotInitialized,
                ) && *final(self) == *old(self),
                VaultState::Locked { .. } => match opened {
                    Ok(header) => r is Ok && (*final(self) matches VaultState::Unlocked { vault }
                        && is_header_at(vault, header, old(self).location())),
                    Err(e) => r == Err::<(), VaultUnlockError>(VaultUnlockError::Vault(e))
                        && *final(self) == *old(self),
                },
            },
            r == Err::<(), VaultUnlockError>(VaultUnlockError::NotInitialized) <==> *old(
                self,
            ) is NotInitialized,
            r is Ok ==> *final(self) is Unlocked,
            r is Err ==> *final(self) == *old(self),
            final(self).location() == old(self).location(),
    {
        match self.plan_unlock() {
            UnlockPlan::AlreadyOpen => Ok(()),
            UnlockPlan::NotInitialized => Err(VaultUnlockError::NotInitialized),
            UnlockPlan::Open { path } => match opened {
                Ok(header) => {
                    *self = VaultState::Unlocked { vault: header_at(header, path) };
                    Ok(())
                },
                Err(e) => Err(VaultUnlockError::Vault(e)),
            },
        }
    }

    /// After the vault was to be closed: `reread` is what its file gave then.
    /// Closing a vault that is not open changes nothing.
    pub fn lock(&mut self, reread: OpenOutcome) -> (r: Result<(), String>)
        ensures
            match *old(self) {
                VaultState::Unlocked { vault } => match reread {
                    OpenOutcome::Read(header) => r is Ok && (*final(self) matches
                        VaultState::Locked { vault: v } && is_header_at(v, header, vault.path@)),
                    OpenOutcome::Missing => r is Ok && (*final(self) matches
                        VaultState::NotInitialized { path } && path@ == vault.path@),
                    OpenOutcome::Failed(e) => r == Err::<(), String>(e) && *final(self) == *old(
                        self,
                    ),
                },
                _ => r is Ok && *final(self) == *old(self),
            },
            r is Ok ==> !(*final(self) is Unlocked),
            final(self).location() == old(self).location(),
    {
        let path = match &*self {
            VaultState::Unlocked { vault } => vault.path.clone(),
            _ => {
                return Ok(());
            },
        };
        match VaultState::open_at(path, reread) {
            Ok(state) => {
                *self = state;
                Ok(())
            },
            Err(e) => Err(e),
        }
    }

    /// The value-free state that `status` reports.
    pub fn status_wire(&self) -> (r: VaultStatusWire)
        ensures
            match *self {
                VaultState::NotInitialized { .. } => r == (VaultStatusWire {
                    state: VaultStateWire::NotInitialized,
                    vault_id: None,
                    slots: None,
                    dek_generation: None,
                    dev_rp_slot: false,
                }),
                VaultState::Locked { vault } => is_status_of(r, VaultStateWire::Locked, vault),
                VaultState::Unlocked { vault } => is_status_of(r, VaultStateWire::Unlocked, vault),
            },
    {
        match self {
            VaultState::NotInitialized { .. } => VaultStatusWire {
                state: VaultStateWire::NotInitialized,
                vault_id: None,
                slots: None,
                dek_generation: None,
                dev_rp_slot: false,
            },
            VaultState::Locked { vault } => header_status(VaultStateWire::Locked, vault),
            VaultState::Unlocked { vault } => header_status(VaultStateWire::Unlocked, vault),
        }
    }
}

/// `r` reports a vault in `state` by its header.
pub open spec fn is_status_of(r: VaultStatusWire, state: VaultStateWire, vault: VaultHeader) -> bool {
    &&& r.state == state
    &&& r.vault_id.deep_view() == Some(vault.vault_id@)
    &&& r.slots == Some(vault.slots)
    &&& r.dek_generation == Some(vault.dek_generation)
    &&& r.dev_rp_slot == vault.dev_rp_slot
}

fn header_status(state: VaultStateWire, vault: &VaultHeader) -> (r: VaultStatusWire)
    ensures
        is_status_of(r, state, *vault),
{
    VaultStatusWire {
        state,
        vault_id: Some(vault.vault_id.clone()),
        slots: Some(vault.slots),
        dek_generation: Some(vault.dek_generation),
        dev_rp_slot: vault.dev_rp_slot,
    }
}

/// Where the vault lives: an explicit path, else the place that the profile
/// stands for.
pub fn resolve_path(path: Option<String>, profile_path: Option<String>) -> (r: Option<String>)
    ensures
        r == if path is Some {
            path
        } else {
            profile_path
        },
{
    match path {
        Some(p) => Some(p),
        None => profile_path,
    }
}

} // verus!
