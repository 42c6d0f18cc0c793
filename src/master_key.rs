//! A shared, lock-protected slot for the master secret, wiped when replaced
//! or cleared.
use std::sync::Arc;
use vstd::prelude::*;
use vstd::rwlock::{RwLock, RwLockPredicate};
use zeroize::Zeroize;

verus! {

/// The secret held by the cache.
pub struct SecretKey {
    key: String,
}

/// Relies on `zeroize::Zeroize` for `String`: every byte is overwritten with
/// zero and the string is emptied.
#[verifier::external_body]
fn wipe_string(s: &mut String)
    ensures
        final(s)@.len() == 0,
    opens_invariants none
    no_unwind
{
    s.zeroize();
}

impl Drop for SecretKey {
    /// Wipes the secret when it goes away, whichever handle drops it last.
    fn drop(&mut self)
        opens_invariants none
        no_unwind
    {
        wipe_string(&mut self.key);
    }
}

/// The slot's invariant: any value, empty or holding a secret, may be stored.
pub struct AnySecret;

impl RwLockPredicate<Option<SecretKey>> for AnySecret {
    open spec fn inv(self, v: Option<SecretKey>) -> bool {
        true
    }
}

/// A master secret shared between handles; clones refer to the same slot.
/// Another handle may change the slot at any time, so a read says nothing
/// about what an earlier write stored.
#[derive(Clone)]
pub struct MasterKeyCache {
    inner: Arc<RwLock<Option<SecretKey>, AnySecret>>,
}

impl MasterKeyCache {
    /// An empty cache.
    pub fn new() -> (r: Self) {
        let lock = RwLock::new(None, Ghost(AnySecret));
        MasterKeyCache { inner: Arc::new(lock) }
    }

    /// Stores `key`, wiping the secret it replaces.
    pub fn set(&self, key: String) {
        let (_replaced, handle) = self.inner.acquire_write();
        handle.release_write(Some(SecretKey { key }));
    }

    /// A copy of the stored secret, if one is stored.
    pub fn get(&self) -> (r: Option<String>) {
        let handle = self.inner.acquire_read();
        let r = match handle.borrow() {
            Some(secret) => Some(secret.key.clone()),
            None => None,
        };
        handle.release_read();
        r
    }

    /// Whether a secret is stored.
    pub fn is_set(&self) -> (r: bool) {
        let handle = self.inner.acquire_read();
        let r = handle.borrow().is_some();
        handle.release_read();
        r
    }

    /// Removes the stored secret, wiping it.
    pub fn clear(&self) {
        let (_replaced, handle) = self.inner.acquire_write();
        handle.release_write(None);
    }
}

impl Default for MasterKeyCache {
    fn default() -> (r: Self) {
        MasterKeyCache::new()
    }
}

} // verus!
