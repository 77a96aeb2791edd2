//! The cached session credential of the target catalog, and what is done
//! with it before and after the calls that need it.

use vstd::prelude::*;
use crate::errors::Error;
use crate::storage::{insert_session_sql, insert_session_text, update_session_sql, update_session_text};

verus! {

/// A session token and the user it was issued for.
#[derive(Debug, PartialEq, Eq)]
pub struct CachedCredential {
    pub session_key: String,
    pub user: String,
}

impl Clone for CachedCredential {
    fn clone(&self) -> (copy: Self)
        ensures
            copy == *self,
    {
        CachedCredential { session_key: self.session_key.clone(), user: self.user.clone() }
    }
}

/// How a credential reaches the store's single slot.
#[derive(Clone, Copy, Debug, PartialEq, Eq, Structural)]
pub enum SlotWrite {
    /// The slot was empty: a row is inserted.
    Insert,
    /// The slot was taken: its row is overwritten.
    Update,
}

/// The single slot that holds the latest credential. What it holds is a
/// hint: nothing here says that the target catalog still accepts it.
#[derive(Debug)]
pub struct CredentialCache {
    slot: Option<CachedCredential>,
}

impl CredentialCache {
    /// What the slot holds.
    pub closed spec fn view(&self) -> Option<CachedCredential> {
        self.slot
    }

    /// The cache as read from the store. A failed read is a failure of the
    /// store, never an empty slot.
    pub fn load(read: Result<Option<CachedCredential>, String>) -> (cache: Result<
        CredentialCache,
        Error,
    >)
        ensures
            match read {
                Ok(slot) => cache is Ok && cache.unwrap()@ == slot,
                Err(cause) => cache matches Err(Error::StorageError(detail)) && detail == cause,
            },
    {
        match read {
            Ok(slot) => Ok(CredentialCache { slot }),
            Err(cause) => Err(Error::StorageError(cause)),
        }
    }

    /// The credential in the slot, if there is one.
    pub fn get(&self) -> (credential: Option<CachedCredential>)
        ensures
            credential == self@,
    {
        match &self.slot {
            Some(c) => Some(c.clone()),
            None => None,
        }
    }

    /// Puts a credential in the slot, over whatever it held, and says how
    /// the store follows: by an insert where the slot was empty, by an
    /// update where it was not.
    pub fn put(&mut self, credential: CachedCredential) -> (write: SlotWrite)
        ensures
            final(self)@ == Some(credential),
            write == if old(self)@ is None {
                SlotWrite::Insert
            } else {
                SlotWrite::Update
            },
    {
        let write = match &self.slot {
            None => SlotWrite::Insert,
            Some(_) => SlotWrite::Update,
        };
        self.slot = Some(credential);
        write
    }
}

/// The statement by which the store follows a `put`.
pub fn put_sql(write: SlotWrite) -> (sql: String)
    ensures
        sql@ == match write {
            SlotWrite::Insert => insert_session_text(),
            SlotWrite::Update => update_session_text(),
        },
{
    match write {
        SlotWrite::Insert => insert_session_sql(),
        SlotWrite::Update => update_session_sql(),
    }
}

/// Where a credential stands between the cache and the target catalog.
#[derive(Debug, PartialEq, Eq)]
pub enum CredentialState {
    /// None is at hand.
    Absent,
    /// Taken from the cache; no call has shown yet that it is accepted.
    Untrusted(CachedCredential),
    /// Freshly issued, or accepted by a call.
    Confirmed(CachedCredential),
    /// A call was refused for want of authorization.
    Invalid,
}

/// What has to happen before calls that need authorization are made.
#[derive(Debug, PartialEq, Eq)]
pub enum AuthStep {
    /// Hand this credential to the client of the target catalog.
    Install(CachedCredential),
    /// Obtain a fresh credential through the interactive flow.
    Authorize,
}

/// How the target catalog took a call made with the installed credential.
#[derive(Clone, Copy, Debug, PartialEq, Eq, Structural)]
pub enum CallResult {
    /// The credential was accepted.
    Accepted,
    /// The call was refused for want of authorization.
    Unauthorized,
}

impl CredentialState {
    /// The credential that the client of the target catalog holds, if any.
    pub open spec fn installed(self) -> Option<CachedCredential> {
        match self {
            CredentialState::Untrusted(c) => Some(c),
            CredentialState::Confirmed(c) => Some(c),
            CredentialState::Absent => None,
            CredentialState::Invalid => None,
        }
    }

    /// The state at the start of a run: what the cache holds is taken on
    /// trust until it is used.
    pub fn from_cache(cache: &CredentialCache) -> (state: CredentialState)
        ensures
            state == match cache@ {
                Some(c) => CredentialState::Untrusted(c),
                None => CredentialState::Absent,
            },
    {
        match cache.get() {
            Some(c) => CredentialState::Untrusted(c),
            None => CredentialState::Absent,
        }
    }

    /// Whether a credential is installed, as every call that needs
    /// authorization demands.
    pub fn is_installed(&self) -> (yes: bool)
        ensures
            yes <==> self.installed() is Some,
    {
        match self {
            CredentialState::Untrusted(_) => true,
            CredentialState::Confirmed(_) => true,
            CredentialState::Absent => false,
            CredentialState::Invalid => false,
        }
    }

    /// What to do next: install the credential at hand, or obtain one.
    pub fn next_step(&self) -> (step: AuthStep)
        ensures
            step == match self.installed() {
                Some(c) => AuthStep::Install(c),
                None => AuthStep::Authorize,
            },
    {
        match self {
            CredentialState::Untrusted(c) => AuthStep::Install(c.clone()),
            CredentialState::Confirmed(c) => AuthStep::Install(c.clone()),
            CredentialState::Absent => AuthStep::Authorize,
            CredentialState::Invalid => AuthStep::Authorize,
        }
    }

    /// The state after a call. A refusal invalidates whatever was
    /// installed; an acceptance confirms it.
    pub fn after_call(self, result: CallResult) -> (state: CredentialState)
        ensures
            state == match result {
                CallResult::Unauthorized => CredentialState::Invalid,
                CallResult::Accepted => match self {
                    CredentialState::Untrusted(c) => CredentialState::Confirmed(c),
                    other => other,
                },
            },
    {
        match result {
            CallResult::Unauthorized => CredentialState::Invalid,
            CallResult::Accepted => match self {
                CredentialState::Untrusted(c) => CredentialState::Confirmed(c),
                other => other,
            },
        }
    }

    /// Takes a freshly issued credential: it is put in the cache, over
    /// whatever the cache held, and is the one installed from now on.
    pub fn authorized(cache: &mut CredentialCache, fresh: CachedCredential) -> (next: (
        CredentialState,
        SlotWrite,
    ))
        ensures
            next.0 == CredentialState::Confirmed(fresh),
            final(cache)@ == Some(fresh),
            next.1 == if old(cache)@ is None {
                SlotWrite::Insert
            } else {
                SlotWrite::Update
            },
    {
        let write = cache.put(fresh.clone());
        (CredentialState::Confirmed(fresh), write)
    }
}

} // verus!
