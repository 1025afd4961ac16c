//! A signed vote from a validator.

use vstd::prelude::*;

use crate::byteops::be_bytes;
use crate::byteops::push_be_bytes;
use crate::crypto::public_key_of;
use crate::crypto::public_of;
use crate::crypto::secret_wf;
use crate::crypto::sha256;
use crate::crypto::sha256_of;
use crate::crypto::sign_digest;
use crate::crypto::verify_ok;
use crate::crypto::verify_signature;
use crate::error::Error;
use crate::keychain::key_at;
use crate::keychain::MemoryKeychain;
use crate::step::Step;

verus! {

/// The plain content of a vote.
pub struct VoteData {
    /// Identifier of the block the vote is about.
    pub block_id: Seq<u8>,
    /// Target block height.
    pub height: u64,
    /// Target height round.
    pub round: u64,
    /// Signature over the vote digest.
    pub signature: Seq<u8>,
    /// Proposed step.
    pub step: Step,
    /// Public key of the vote's author.
    pub validator: Seq<u8>,
}

/// The byte string a vote's digest is computed over: the big-endian height,
/// the big-endian round, the block id and the step's ladder position.
pub open spec fn vote_preimage(height: u64, round: u64, block_id: Seq<u8>, step: Step) -> Seq<u8> {
    be_bytes(height) + be_bytes(round) + block_id + seq![step.ordinal() as u8]
}

/// The digest a vote's signature covers.
pub open spec fn vote_digest(height: u64, round: u64, block_id: Seq<u8>, step: Step) -> Seq<u8> {
    sha256_of(vote_preimage(height, round, block_id, step))
}

/// A vote is valid exactly when its signature verifies under its own
/// validator key over its own digest.
pub open spec fn vote_valid(v: VoteData) -> bool {
    verify_ok(v.signature, v.validator, vote_digest(v.height, v.round, v.block_id, v.step))
}

/// A vote from a validator.
///
/// These votes are consumed to produce state change in the reactor.
#[derive(Debug, Clone, Copy)]
pub struct Vote {
    block_id: [u8; 32],
    height: u64,
    round: u64,
    signature: [u8; 64],
    step: Step,
    validator: [u8; 64],
}

impl View for Vote {
    type V = VoteData;

    closed spec fn view(&self) -> VoteData {
        VoteData {
            block_id: self.block_id@,
            height: self.height,
            round: self.round,
            signature: self.signature@,
            step: self.step,
            validator: self.validator@,
        }
    }
}

/// Compute the digest a vote signature covers.
pub(crate) fn digest(height: u64, round: u64, block_id: &[u8; 32], step: Step) -> (r: [u8; 32])
    ensures
        r@ == vote_digest(height, round, block_id@, step),
{
    let mut preimage: Vec<u8> = Vec::new();
    push_be_bytes(&mut preimage, height);
    push_be_bytes(&mut preimage, round);
    let mut i: usize = 0;
    while i < 32
        invariant
            0 <= i <= 32,
            preimage@ == be_bytes(height) + be_bytes(round) + block_id@.take(i as int),
        decreases 32 - i,
    {
        preimage.push(block_id[i]);
        proof {
            assert(block_id@.take(i + 1) =~= block_id@.take(i as int).push(block_id@[i as int]));
            assert(preimage@ =~= be_bytes(height) + be_bytes(round) + block_id@.take(i + 1));
        }
        i += 1;
    }
    preimage.push(step.as_u8());
    proof {
        assert(block_id@.take(32) =~= block_id@);
        assert(preimage@ =~= vote_preimage(height, round, block_id@, step));
    }
    sha256(preimage.as_slice())
}

impl Vote {
    /// Create a new vote from a given signature.
    pub fn new(
        validator: [u8; 64],
        signature: [u8; 64],
        height: u64,
        round: u64,
        block_id: [u8; 32],
        step: Step,
    ) -> (r: Self)
        ensures
            r@ == (VoteData {
                block_id: block_id@,
                height,
                round,
                signature: signature@,
                step,
                validator: validator@,
            }),
    {
        Self { block_id, height, round, signature, step, validator }
    }

    /// Block id of the step.
    pub fn block_id(&self) -> (r: &[u8; 32])
        ensures
            r@ == self@.block_id,
    {
        &self.block_id
    }

    /// Target block height.
    pub fn height(&self) -> (r: u64)
        ensures
            r == self@.height,
    {
        self.height
    }

    /// Target height round.
    pub fn round(&self) -> (r: u64)
        ensures
            r == self@.round,
    {
        self.round
    }

    /// Signature provided by the owner of the vote.
    pub fn signature(&self) -> (r: &[u8; 64])
        ensures
            r@ == self@.signature,
    {
        &self.signature
    }

    /// Proposed step.
    pub fn step(&self) -> (r: Step)
        ensures
            r == self@.step,
    {
        self.step
    }

    /// Network identification of the author.
    pub fn validator(&self) -> (r: &[u8; 64])
        ensures
            r@ == self@.validator,
    {
        &self.validator
    }

    /// Produce a guaranteed-correct signed vote with the keychain's key for
    /// `height`; fails exactly when the keychain holds no key there.
    pub fn signed(
        keychain: &MemoryKeychain,
        height: u64,
        round: u64,
        block_id: [u8; 32],
        step: Step,
    ) -> (r: Result<Self, Error>)
        ensures
            r is Ok <==> key_at(keychain@, height) is Some,
            r is Err ==> r->Err_0 == Error::NotRoundValidator,
            r is Ok ==> {
                let v = r->Ok_0@;
                &&& v.block_id == block_id@
                &&& v.height == height
                &&& v.round == round
                &&& v.step == step
                &&& v.validator == key_at(keychain@, height)->Some_0
                &&& vote_valid(v)
            },
    {
        let validator = match keychain.public(height) {
            Some(p) => p,
            None => {
                return Err(Error::NotRoundValidator);
            }
        };
        let d = digest(height, round, &block_id, step);
        match keychain.sign(height, &d) {
            Ok(signature) => Ok(Self::new(validator, signature, height, round, block_id, step)),
            Err(e) => Err(e),
        }
    }

    /// Produce a signed vote directly from a secret key; `None` exactly when
    /// the bytes are not a valid secret key.
    pub fn signed_with_key(
        secret: &[u8; 32],
        height: u64,
        round: u64,
        block_id: [u8; 32],
        step: Step,
    ) -> (r: Option<Self>)
        ensures
            r is Some <==> secret_wf(secret@),
            r is Some ==> {
                let v = r->Some_0@;
                &&& v.block_id == block_id@
                &&& v.height == height
                &&& v.round == round
                &&& v.step == step
                &&& v.validator == public_of(secret@)
                &&& vote_valid(v)
            },
    {
        let validator = match public_key_of(secret) {
            Some(p) => p,
            None => {
                return None;
            }
        };
        let d = digest(height, round, &block_id, step);
        match sign_digest(secret, &d) {
            Some(signature) => Some(
                Self::new(validator, signature, height, round, block_id, step),
            ),
            None => None,
        }
    }

    /// Validate the signature of the vote.
    pub fn validate(&self) -> (r: Result<(), Error>)
        ensures
            r is Ok <==> vote_valid(self@),
            r is Err ==> r->Err_0 == Error::InvalidSignature,
    {
        let d = digest(self.height, self.round, &self.block_id, self.step);
        if verify_signature(&self.signature, &self.validator, &d) {
            Ok(())
        } else {
            Err(Error::InvalidSignature)
        }
    }
}

} // verus!
