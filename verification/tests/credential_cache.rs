use rsyncer::credentials::{
    AuthStep, CachedCredential, CallResult, CredentialCache, CredentialState, SlotWrite,
};
use rsyncer::errors::Error;

fn credential(key: &str) -> CachedCredential {
    CachedCredential { session_key: key.to_string(), user: "listener".to_string() }
}

#[test]
fn empty_cache_holds_nothing() {
    let cache = CredentialCache::load(Ok(None)).unwrap();
    assert_eq!(cache.get(), None);
}

#[test]
fn loaded_credential_is_returned() {
    let cache = CredentialCache::load(Ok(Some(credential("k1")))).unwrap();
    assert_eq!(cache.get(), Some(credential("k1")));
}

#[test]
fn failed_read_is_a_storage_error_not_an_empty_cache() {
    let failed = CredentialCache::load(Err("database is locked".to_string()));
    match failed {
        Err(error) => {
            assert_eq!(error, Error::StorageError("database is locked".to_string()));
            assert!(error.is_fatal());
        }
        Ok(_) => panic!("a failed read gave a cache"),
    }
}

#[test]
fn put_inserts_first_and_overwrites_after() {
    let mut cache = CredentialCache::load(Ok(None)).unwrap();
    assert_eq!(cache.put(credential("k1")), SlotWrite::Insert);
    assert_eq!(cache.get(), Some(credential("k1")));
    assert_eq!(cache.put(credential("k2")), SlotWrite::Update);
    assert_eq!(cache.get(), Some(credential("k2")));
    assert_eq!(cache.put(credential("k2")), SlotWrite::Update);
    assert_eq!(cache.get(), Some(credential("k2")));
}

#[test]
fn cached_credential_is_installed_untrusted() {
    let cache = CredentialCache::load(Ok(Some(credential("k1")))).unwrap();
    let state = CredentialState::from_cache(&cache);
    assert_eq!(state, CredentialState::Untrusted(credential("k1")));
    assert!(state.is_installed());
    assert_eq!(state.next_step(), AuthStep::Install(credential("k1")));
}

#[test]
fn missing_credential_asks_for_authorization() {
    let cache = CredentialCache::load(Ok(None)).unwrap();
    let state = CredentialState::from_cache(&cache);
    assert_eq!(state, CredentialState::Absent);
    assert!(!state.is_installed());
    assert_eq!(state.next_step(), AuthStep::Authorize);
}

#[test]
fn accepted_call_confirms_and_refused_call_invalidates() {
    let untrusted = CredentialState::Untrusted(credential("k1"));
    assert_eq!(
        untrusted.after_call(CallResult::Accepted),
        CredentialState::Confirmed(credential("k1"))
    );
    let untrusted = CredentialState::Untrusted(credential("k1"));
    let invalid = untrusted.after_call(CallResult::Unauthorized);
    assert_eq!(invalid, CredentialState::Invalid);
    assert!(!invalid.is_installed());
    assert_eq!(invalid.next_step(), AuthStep::Authorize);
    assert_eq!(
        CredentialState::Confirmed(credential("k1")).after_call(CallResult::Unauthorized),
        CredentialState::Invalid
    );
    assert_eq!(
        CredentialState::Confirmed(credential("k1")).after_call(CallResult::Accepted),
        CredentialState::Confirmed(credential("k1"))
    );
    assert_eq!(CredentialState::Absent.after_call(CallResult::Accepted), CredentialState::Absent);
    assert_eq!(
        CredentialState::Invalid.after_call(CallResult::Accepted),
        CredentialState::Invalid
    );
}

#[test]
fn fresh_credential_is_cached_and_confirmed() {
    let mut cache = CredentialCache::load(Ok(None)).unwrap();
    let (state, write) = CredentialState::authorized(&mut cache, credential("fresh"));
    assert_eq!(state, CredentialState::Confirmed(credential("fresh")));
    assert_eq!(write, SlotWrite::Insert);
    assert_eq!(cache.get(), Some(credential("fresh")));
    let (state, write) = CredentialState::authorized(&mut cache, credential("fresher"));
    assert_eq!(state.next_step(), AuthStep::Install(credential("fresher")));
    assert_eq!(write, SlotWrite::Update);
    assert_eq!(cache.get(), Some(credential("fresher")));
}
