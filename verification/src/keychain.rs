//! In-memory keychain: password-derived keys valid over height ranges.

use vstd::prelude::*;

use crate::crypto::derive_keypair;
use crate::crypto::public_of;
use crate::crypto::secret_wf;
use crate::crypto::sign_digest;
use crate::crypto::verify_ok;
use crate::error::Error;

verus! {

/// The public keys a keychain exposes: for each entry, the inclusive start
/// and exclusive end of its height range, and the public key bytes.
pub type KeychainEntries = Seq<(u64, u64, Seq<u8>)>;

/// The public key for `height`, scanning the entries from index `i` on.
pub open spec fn key_at_from(entries: KeychainEntries, height: u64, i: int) -> Option<Seq<u8>>
    decreases entries.len() - i,
{
    if i < 0 || i >= entries.len() {
        None
    } else if entries[i].0 <= height < entries[i].1 {
        Some(entries[i].2)
    } else {
        key_at_from(entries, height, i + 1)
    }
}

/// The public key the keychain holds for `height`, if any. Its presence
/// declares "this node is a validator at `height`".
pub open spec fn key_at(entries: KeychainEntries, height: u64) -> Option<Seq<u8>> {
    key_at_from(entries, height, 0)
}

/// Default in-memory implementation of a keychain.
///
/// Secrets are derived deterministically from a password; each entry holds
/// the derived secret and public key for a height range.
#[derive(Debug)]
pub struct MemoryKeychain {
    keys: Vec<(u64, u64, [u8; 32], [u8; 64])>,
}

impl View for MemoryKeychain {
    type V = KeychainEntries;

    /// The stored ranges with their public keys; secrets stay hidden.
    closed spec fn view(&self) -> KeychainEntries {
        Seq::new(
            self.keys@.len(),
            |i: int| (self.keys@[i].0, self.keys@[i].1, self.keys@[i].3@),
        )
    }
}

impl MemoryKeychain {
    #[verifier::type_invariant]
    spec fn wf(self) -> bool {
        forall|i: int|
            0 <= i < self.keys@.len() ==> {
                &&& secret_wf(#[trigger] self.keys@[i].2@)
                &&& self.keys@[i].3@ == public_of(self.keys@[i].2@)
            }
    }

    /// An empty keychain, a validator for no height.
    pub fn new() -> (r: Self)
        ensures
            r@.len() == 0,
    {
        Self { keys: Vec::new() }
    }

    /// Add a new password-generated secret to the keychain, replacing any
    /// prior content; the key is held for every height.
    pub fn insert(&mut self, password: &[u8])
        ensures
            final(self)@.len() == 1,
            final(self)@[0].0 == 0,
            final(self)@[0].1 == u64::MAX,
            final(self)@[0].2.len() == 64,
    {
        let (secret, public) = derive_keypair(password);
        let mut keys: Vec<(u64, u64, [u8; 32], [u8; 64])> = Vec::new();
        keys.push((0, u64::MAX, secret, public));
        self.keys = keys;
    }

    /// Fetch the public key of the node for the given height.
    pub fn public(&self, height: u64) -> (r: Option<[u8; 64]>)
        ensures
            match key_at(self@, height) {
                Some(p) => r is Some && r->Some_0@ == p,
                None => r is None,
            },
    {
        let mut i: usize = 0;
        loop
            invariant
                0 <= i <= self.keys.len(),
                key_at(self@, height) == key_at_from(self@, height, i as int),
            decreases self.keys.len() - i,
        {
            if i >= self.keys.len() {
                return None;
            }
            let entry = &self.keys[i];
            if entry.0 <= height && height < entry.1 {
                return Some(entry.3);
            }
            i += 1;
        }
    }

    /// The node is a validator if the keychain provides a public key for the
    /// requested height.
    pub fn is_validator_for(&self, height: u64) -> (r: bool)
        ensures
            r == (key_at(self@, height) is Some),
    {
        self.public(height).is_some()
    }

    /// Sign a 32-byte digest with the key held for `height`; fails exactly
    /// when no key is held there. The signature verifies under the public
    /// key that [`Self::public`] reports for the same height.
    pub fn sign(&self, height: u64, digest: &[u8; 32]) -> (r: Result<[u8; 64], Error>)
        ensures
            r is Ok <==> key_at(self@, height) is Some,
            r is Ok ==> verify_ok(r->Ok_0@, key_at(self@, height)->Some_0, digest@),
            r is Err ==> r->Err_0 == Error::NotRoundValidator,
    {
        proof {
            use_type_invariant(self);
        }
        let mut i: usize = 0;
        loop
            invariant
                0 <= i <= self.keys.len(),
                key_at(self@, height) == key_at_from(self@, height, i as int),
                self.wf(),
            decreases self.keys.len() - i,
        {
            if i >= self.keys.len() {
                return Err(Error::NotRoundValidator);
            }
            let entry = &self.keys[i];
            if entry.0 <= height && height < entry.1 {
                match sign_digest(&entry.2, digest) {
                    Some(signature) => {
                        return Ok(signature);
                    }
                    None => {
                        proof {
                            assert(false);
                        }
                        return Err(Error::NotRoundValidator);
                    }
                }
            }
            i += 1;
        }
    }
}

} // verus!
