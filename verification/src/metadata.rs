//! Consensus metadata: validators, authorized blocks, per-cell steps, and
//! the commit-driven garbage collection.

use vstd::prelude::*;

use crate::byteops::bytes32_eq;
use crate::byteops::bytes64_eq;
use crate::byteops::bytes64_lt;
use crate::byteops::lemma_lex_transitive;
use crate::byteops::lemma_lex_trichotomy;
use crate::byteops::lex_lt;
use crate::error::Error;
use crate::seqext::lemma_filter_contained;
use crate::seqext::lemma_filter_ordered;
use crate::step::Step;
use crate::vote::vote_valid;
use crate::vote::Vote;

verus! {

/// Authorized blocks: block id bytes mapped to the height they are cleared
/// for.
pub type BlockSeq = Seq<(Seq<u8>, u64)>;

/// Propose authorizations: height mapped to the single block a leader may
/// propose there.
pub type ProposeSeq = Seq<(u64, Seq<u8>)>;

/// Validators: key bytes with the inclusive height range they are valid in,
/// strictly sorted by key.
pub type ValidatorSeq = Seq<(Seq<u8>, u64, u64)>;

/// Step cells: a (height, round, validator key) triple mapped to the highest
/// observed step.
pub type StepSeq = Seq<((u64, u64, Seq<u8>), Step)>;

/// The plain content of the consensus metadata.
#[verifier::ext_equal]
pub struct MetadataView {
    /// Block height of the last commit; `u64::MAX` means "never".
    pub committed_height: u64,
    /// Running sum of `1 + round` over all commits; drives leader rotation.
    pub committed_rounds: u64,
    /// Blocks cleared for commit at a specific height.
    pub authorized_blocks: BlockSeq,
    /// The single block a leader may propose at a height.
    pub propose_blocks: ProposeSeq,
    /// Validators with their inclusive validity ranges.
    pub validators: ValidatorSeq,
    /// Highest observed step per (height, round, validator).
    pub steps: StepSeq,
}

/// The height a block id is authorized for, scanning from index `i`.
pub open spec fn blocks_find_from(s: BlockSeq, id: Seq<u8>, i: int) -> Option<u64>
    decreases s.len() - i,
{
    if i < 0 || i >= s.len() {
        None
    } else if s[i].0 == id {
        Some(s[i].1)
    } else {
        blocks_find_from(s, id, i + 1)
    }
}

/// The height a block id is authorized for, if any.
pub open spec fn blocks_find(s: BlockSeq, id: Seq<u8>) -> Option<u64> {
    blocks_find_from(s, id, 0)
}

/// The block id authorized for propose at a height, scanning from index `i`.
pub open spec fn propose_find_from(s: ProposeSeq, height: u64, i: int) -> Option<Seq<u8>>
    decreases s.len() - i,
{
    if i < 0 || i >= s.len() {
        None
    } else if s[i].0 == height {
        Some(s[i].1)
    } else {
        propose_find_from(s, height, i + 1)
    }
}

/// The block id authorized for propose at a height, if any.
pub open spec fn propose_find(s: ProposeSeq, height: u64) -> Option<Seq<u8>> {
    propose_find_from(s, height, 0)
}

/// The validity range of a validator key, scanning from index `i`.
pub open spec fn validator_find_from(s: ValidatorSeq, key: Seq<u8>, i: int) -> Option<(u64, u64)>
    decreases s.len() - i,
{
    if i < 0 || i >= s.len() {
        None
    } else if s[i].0 == key {
        Some((s[i].1, s[i].2))
    } else {
        validator_find_from(s, key, i + 1)
    }
}

/// The validity range of a validator key, if any.
pub open spec fn validator_find(s: ValidatorSeq, key: Seq<u8>) -> Option<(u64, u64)> {
    validator_find_from(s, key, 0)
}

/// The step observed for a (height, round, validator) cell, scanning from
/// index `i`.
pub open spec fn step_find_from(s: StepSeq, height: u64, round: u64, key: Seq<u8>, i: int) -> Option<
    Step,
>
    decreases s.len() - i,
{
    if i < 0 || i >= s.len() {
        None
    } else if s[i].0 == (height, round, key) {
        Some(s[i].1)
    } else {
        step_find_from(s, height, round, key, i + 1)
    }
}

/// The step observed for a (height, round, validator) cell, if any.
pub open spec fn step_find(s: StepSeq, height: u64, round: u64, key: Seq<u8>) -> Option<Step> {
    step_find_from(s, height, round, key, 0)
}

/// Whether `key` is a validator at `height`: registered, with a validity
/// range containing the height.
pub open spec fn is_validator_at(s: ValidatorSeq, key: Seq<u8>, height: u64) -> bool {
    match validator_find(s, key) {
        Some(range) => range.0 <= height && height <= range.1,
        None => false,
    }
}

/// The validator keys valid at `height`, in the stored (canonically sorted)
/// order.
pub open spec fn validators_at(s: ValidatorSeq, height: u64) -> Seq<Seq<u8>>
    decreases s.len(),
{
    if s.len() == 0 {
        Seq::empty()
    } else {
        let rest = validators_at(s.drop_last(), height);
        let e = s.last();
        if e.1 <= height && height <= e.2 {
            rest.push(e.0)
        } else {
            rest
        }
    }
}

/// How many cells of (height, round) hold exactly the given step.
pub open spec fn count_steps_exact(s: StepSeq, height: u64, round: u64, step: Step) -> int
    decreases s.len(),
{
    if s.len() == 0 {
        0
    } else {
        count_steps_exact(s.drop_last(), height, round, step) + if s.last().0.0 == height
            && s.last().0.1 == round && s.last().1 == step {
            1int
        } else {
            0int
        }
    }
}

/// How many cells of (height, round) hold the given step or a higher one.
pub open spec fn count_steps_at_least(s: StepSeq, height: u64, round: u64, step: Step) -> int
    decreases s.len(),
{
    if s.len() == 0 {
        0
    } else {
        count_steps_at_least(s.drop_last(), height, round, step) + if s.last().0.0 == height
            && s.last().0.1 == round && s.last().1.ordinal() >= step.ordinal() {
            1int
        } else {
            0int
        }
    }
}

/// Replace the height of a block id, or append the pair if the id is new.
pub open spec fn blocks_put(s: BlockSeq, id: Seq<u8>, height: u64) -> BlockSeq
    decreases s.len(),
{
    if s.len() == 0 {
        seq![(id, height)]
    } else if s[0].0 == id {
        seq![(id, height)] + s.drop_first()
    } else {
        seq![s[0]] + blocks_put(s.drop_first(), id, height)
    }
}

/// Replace the block id of a height, or append the pair if the height is new.
pub open spec fn propose_put(s: ProposeSeq, height: u64, id: Seq<u8>) -> ProposeSeq
    decreases s.len(),
{
    if s.len() == 0 {
        seq![(height, id)]
    } else if s[0].0 == height {
        seq![(height, id)] + s.drop_first()
    } else {
        seq![s[0]] + propose_put(s.drop_first(), height, id)
    }
}

/// Replace the range of a validator key, or insert the entry at its sorted
/// position if the key is new.
pub open spec fn validators_put(s: ValidatorSeq, key: Seq<u8>, from: u64, to: u64) -> ValidatorSeq
    decreases s.len(),
{
    if s.len() == 0 {
        seq![(key, from, to)]
    } else if lex_lt(s[0].0, key) {
        seq![s[0]] + validators_put(s.drop_first(), key, from, to)
    } else if s[0].0 == key {
        seq![(key, from, to)] + s.drop_first()
    } else {
        seq![(key, from, to)] + s
    }
}

/// Replace the step of a cell, or append the cell if it is new.
pub open spec fn steps_put(s: StepSeq, height: u64, round: u64, key: Seq<u8>, step: Step) -> StepSeq
    decreases s.len(),
{
    if s.len() == 0 {
        seq![((height, round, key), step)]
    } else if s[0].0 == (height, round, key) {
        seq![((height, round, key), step)] + s.drop_first()
    } else {
        seq![s[0]] + steps_put(s.drop_first(), height, round, key, step)
    }
}

/// Whether a vote would advance its cell: the cell is absent or holds a
/// strictly lower step.
pub open spec fn step_advances(s: StepSeq, height: u64, round: u64, key: Seq<u8>, step: Step) -> bool {
    match step_find(s, height, round, key) {
        None => true,
        Some(cur) => step.ordinal() > cur.ordinal(),
    }
}

/// The metadata after a successful commit of (height, round): everything at
/// the committed height or below is purged, expired validators leave, the
/// committed height advances and the round accounting accumulates.
pub open spec fn commit_view(m: MetadataView, height: u64, round: u64) -> MetadataView {
    MetadataView {
        committed_height: height,
        committed_rounds: m.committed_rounds.wrapping_add(1u64.wrapping_add(round)),
        authorized_blocks: m.authorized_blocks.filter(|e: (Seq<u8>, u64)| height < e.1),
        propose_blocks: m.propose_blocks.filter(|e: (u64, Seq<u8>)| height < e.0),
        validators: m.validators.filter(|e: (Seq<u8>, u64, u64)| height < e.2),
        steps: m.steps.filter(|e: ((u64, u64, Seq<u8>), Step)| height < e.0.0),
    }
}

/// No two entries authorize the same block id.
pub open spec fn distinct_blocks(s: BlockSeq) -> bool {
    forall|i: int, j: int| 0 <= i < j < s.len() ==> (#[trigger] s[i]).0 != (#[trigger] s[j]).0
}

/// No two entries authorize a propose for the same height.
pub open spec fn distinct_propose(s: ProposeSeq) -> bool {
    forall|i: int, j: int| 0 <= i < j < s.len() ==> (#[trigger] s[i]).0 != (#[trigger] s[j]).0
}

/// Validator entries are strictly sorted by key, in the canonical byte
/// order; in particular every key occurs once.
pub open spec fn sorted_validators(s: ValidatorSeq) -> bool {
    &&& forall|i: int, j: int|
        0 <= i < j < s.len() ==> lex_lt((#[trigger] s[i]).0, (#[trigger] s[j]).0)
    &&& forall|i: int| 0 <= i < s.len() ==> (#[trigger] s[i]).0.len() == 64
}

/// No two entries describe the same (height, round, validator) cell.
pub open spec fn distinct_steps(s: StepSeq) -> bool {
    forall|i: int, j: int| 0 <= i < j < s.len() ==> (#[trigger] s[i]).0 != (#[trigger] s[j]).0
}

/// Well-formedness of the metadata: each store is a map (no duplicate keys)
/// and the validator set is kept in canonical order.
pub open spec fn metadata_wf(m: MetadataView) -> bool {
    &&& distinct_blocks(m.authorized_blocks)
    &&& distinct_propose(m.propose_blocks)
    &&& sorted_validators(m.validators)
    &&& distinct_steps(m.steps)
}

/// Consensus metadata.
#[derive(Debug)]
pub struct Metadata {
    committed_height: u64,
    committed_rounds: u64,
    authorized_blocks: Vec<([u8; 32], u64)>,
    propose_blocks: Vec<(u64, [u8; 32])>,
    validators: Vec<([u8; 64], u64, u64)>,
    steps: Vec<((u64, u64, [u8; 64]), Step)>,
}

/// The plain content of a stored block-authorization table.
pub open spec fn blocks_view(v: Seq<([u8; 32], u64)>) -> BlockSeq {
    Seq::new(v.len(), |i: int| (v[i].0@, v[i].1))
}

/// The plain content of a stored propose-authorization table.
pub open spec fn propose_view(v: Seq<(u64, [u8; 32])>) -> ProposeSeq {
    Seq::new(v.len(), |i: int| (v[i].0, v[i].1@))
}

/// The plain content of a stored validator table.
pub open spec fn validators_view(v: Seq<([u8; 64], u64, u64)>) -> ValidatorSeq {
    Seq::new(v.len(), |i: int| (v[i].0@, v[i].1, v[i].2))
}

/// The plain content of a stored step table.
pub open spec fn steps_view(v: Seq<((u64, u64, [u8; 64]), Step)>) -> StepSeq {
    Seq::new(v.len(), |i: int| ((v[i].0.0, v[i].0.1, v[i].0.2@), v[i].1))
}

impl View for Metadata {
    type V = MetadataView;

    closed spec fn view(&self) -> MetadataView {
        MetadataView {
            committed_height: self.committed_height,
            committed_rounds: self.committed_rounds,
            authorized_blocks: blocks_view(self.authorized_blocks@),
            propose_blocks: propose_view(self.propose_blocks@),
            validators: validators_view(self.validators@),
            steps: steps_view(self.steps@),
        }
    }
}

impl Default for Metadata {
    /// Fresh metadata, equal to [`Metadata::new`].
    fn default() -> (r: Self)
        ensures
            r.wf(),
            r@.committed_height == u64::MAX,
            r@.committed_rounds == 0,
            r@.authorized_blocks.len() == 0,
            r@.propose_blocks.len() == 0,
            r@.validators.len() == 0,
            r@.steps.len() == 0,
    {
        Self::new()
    }
}

impl Metadata {
    /// Height representing a `never` commit.
    pub const HEIGHT_NEVER: u64 = u64::MAX;

    /// Well-formedness; every constructor establishes it and every method
    /// preserves it.
    pub open spec fn wf(&self) -> bool {
        metadata_wf(self@)
    }

    /// Fresh metadata: nothing committed, no validators, no blocks, no steps.
    pub fn new() -> (r: Self)
        ensures
            r.wf(),
            r@.committed_height == u64::MAX,
            r@.committed_rounds == 0,
            r@.authorized_blocks.len() == 0,
            r@.propose_blocks.len() == 0,
            r@.validators.len() == 0,
            r@.steps.len() == 0,
    {
        Self {
            committed_height: u64::MAX,
            committed_rounds: 0,
            authorized_blocks: Vec::new(),
            propose_blocks: Vec::new(),
            validators: Vec::new(),
            steps: Vec::new(),
        }
    }

    /// Block height of the last commit.
    pub fn committed_height(&self) -> (r: u64)
        ensures
            r == self@.committed_height,
    {
        self.committed_height
    }

    /// Total committed rounds.
    pub fn committed_rounds(&self) -> (r: u64)
        ensures
            r == self@.committed_rounds,
    {
        self.committed_rounds
    }

    /// Check if the block is authorized for the given height.
    pub fn is_block_authorized(&self, block_id: &[u8; 32], height: u64) -> (r: bool)
        ensures
            r == (blocks_find(self@.authorized_blocks, block_id@) == Some(height)),
    {
        let mut i: usize = 0;
        loop
            invariant
                0 <= i <= self.authorized_blocks.len(),
                blocks_find(self@.authorized_blocks, block_id@) == blocks_find_from(
                    self@.authorized_blocks,
                    block_id@,
                    i as int,
                ),
            decreases self.authorized_blocks.len() - i,
        {
            if i >= self.authorized_blocks.len() {
                return false;
            }
            let entry = &self.authorized_blocks[i];
            if bytes32_eq(&entry.0, block_id) {
                return entry.1 == height;
            }
            i += 1;
        }
    }

    /// Return the authorized block for propose for the given height, if
    /// present.
    pub fn authorized_propose(&self, height: u64) -> (r: Option<[u8; 32]>)
        ensures
            match propose_find(self@.propose_blocks, height) {
                Some(id) => r is Some && r->Some_0@ == id,
                None => r is None,
            },
    {
        let mut i: usize = 0;
        loop
            invariant
                0 <= i <= self.propose_blocks.len(),
                propose_find(self@.propose_blocks, height) == propose_find_from(
                    self@.propose_blocks,
                    height,
                    i as int,
                ),
            decreases self.propose_blocks.len() - i,
        {
            if i >= self.propose_blocks.len() {
                return None;
            }
            let entry = &self.propose_blocks[i];
            if entry.0 == height {
                return Some(entry.1);
            }
            i += 1;
        }
    }

    /// Sorted validators filtered per height.
    pub fn validators_at_height(&self, height: u64) -> (r: Vec<[u8; 64]>)
        ensures
            r@.len() == validators_at(self@.validators, height).len(),
            forall|k: int|
                0 <= k < r@.len() ==> (#[trigger] r@[k])@ == validators_at(
                    self@.validators,
                    height,
                )[k],
    {
        let mut out: Vec<[u8; 64]> = Vec::new();
        let mut i: usize = 0;
        while i < self.validators.len()
            invariant
                0 <= i <= self.validators.len(),
                out@.len() == validators_at(self@.validators.take(i as int), height).len(),
                forall|k: int|
                    0 <= k < out@.len() ==> (#[trigger] out@[k])@ == validators_at(
                        self@.validators.take(i as int),
                        height,
                    )[k],
            decreases self.validators.len() - i,
        {
            let entry = &self.validators[i];
            proof {
                assert(self@.validators.take(i + 1).drop_last() =~= self@.validators.take(
                    i as int,
                ));
                assert(self@.validators.take(i + 1).last() == self@.validators[i as int]);
            }
            if entry.1 <= height && height <= entry.2 {
                out.push(entry.0);
            }
            i += 1;
        }
        proof {
            assert(self@.validators.take(self.validators@.len() as int) =~= self@.validators);
        }
        out
    }

    /// Validators count per height.
    pub fn validators_at_height_count(&self, height: u64) -> (r: usize)
        ensures
            r == validators_at(self@.validators, height).len(),
    {
        let vs = self.validators_at_height(height);
        vs.len()
    }

    /// Step count for a given round.
    pub fn step_count(&self, height: u64, round: u64, step: Step) -> (r: usize)
        ensures
            r == count_steps_exact(self@.steps, height, round, step),
    {
        let mut count: usize = 0;
        let mut i: usize = 0;
        while i < self.steps.len()
            invariant
                0 <= i <= self.steps.len(),
                count <= i,
                count == count_steps_exact(self@.steps.take(i as int), height, round, step),
            decreases self.steps.len() - i,
        {
            let entry = &self.steps[i];
            proof {
                assert(self@.steps.take(i + 1).drop_last() =~= self@.steps.take(i as int));
                assert(self@.steps.take(i + 1).last() == self@.steps[i as int]);
            }
            if entry.0.0 == height && entry.0.1 == round && entry.1.as_u8() == step.as_u8() {
                proof {
                    assert(self@.steps[i as int].1 == entry.1);
                    assert(entry.1.ordinal() == step.ordinal() ==> entry.1 == step);
                }
                count += 1;
            }
            i += 1;
        }
        proof {
            assert(self@.steps.take(self.steps@.len() as int) =~= self@.steps);
        }
        count
    }

    /// Evaluate the step count for a given round, including the validators
    /// that are in subsequent steps: a higher vote counts for every lower
    /// step.
    pub fn evaluate_step_count(&self, height: u64, round: u64, step: Step) -> (r: usize)
        ensures
            r == count_steps_at_least(self@.steps, height, round, step),
    {
        let mut count: usize = 0;
        let mut i: usize = 0;
        while i < self.steps.len()
            invariant
                0 <= i <= self.steps.len(),
                count <= i,
                count == count_steps_at_least(self@.steps.take(i as int), height, round, step),
            decreases self.steps.len() - i,
        {
            let entry = &self.steps[i];
            proof {
                assert(self@.steps.take(i + 1).drop_last() =~= self@.steps.take(i as int));
                assert(self@.steps.take(i + 1).last() == self@.steps[i as int]);
            }
            if entry.0.0 == height && entry.0.1 == round && entry.1.as_u8() >= step.as_u8() {
                count += 1;
            }
            i += 1;
        }
        proof {
            assert(self@.steps.take(self.steps@.len() as int) =~= self@.steps);
        }
        count
    }

    /// Fetch the current step of a validator for a given round.
    pub fn validator_step(&self, height: u64, round: u64, key: &[u8; 64]) -> (r: Option<Step>)
        ensures
            r == step_find(self@.steps, height, round, key@),
    {
        let mut i: usize = 0;
        loop
            invariant
                0 <= i <= self.steps.len(),
                step_find(self@.steps, height, round, key@) == step_find_from(
                    self@.steps,
                    height,
                    round,
                    key@,
                    i as int,
                ),
            decreases self.steps.len() - i,
        {
            if i >= self.steps.len() {
                return None;
            }
            let entry = &self.steps[i];
            if entry.0.0 == height && entry.0.1 == round && bytes64_eq(&entry.0.2, key) {
                return Some(entry.1);
            }
            i += 1;
        }
    }

    /// Validate a vote: the author must be a validator at the vote's height
    /// and the signature must be valid. Membership is checked first, so an
    /// unknown author always reports `ValidatorNotFound`.
    pub fn validate(&self, vote: &Vote) -> (r: Result<(), Error>)
        ensures
            r is Ok <==> is_validator_at(self@.validators, vote@.validator, vote@.height)
                && vote_valid(vote@),
            !is_validator_at(self@.validators, vote@.validator, vote@.height) ==> r == Err::<
                (),
                Error,
            >(Error::ValidatorNotFound),
            is_validator_at(self@.validators, vote@.validator, vote@.height) && !vote_valid(
                vote@,
            ) ==> r == Err::<(), Error>(Error::InvalidSignature),
    {
        let height = vote.height();
        let validator = vote.validator();
        if !self.is_height_validator(validator, height) {
            return Err(Error::ValidatorNotFound);
        }
        match vote.validate() {
            Ok(_) => Ok(()),
            Err(_) => Err(Error::InvalidSignature),
        }
    }

    /// Whether the key is a registered validator whose range contains the
    /// height.
    pub fn is_height_validator(&self, key: &[u8; 64], height: u64) -> (r: bool)
        ensures
            r == is_validator_at(self@.validators, key@, height),
    {
        let mut i: usize = 0;
        loop
            invariant
                0 <= i <= self.validators.len(),
                validator_find(self@.validators, key@) == validator_find_from(
                    self@.validators,
                    key@,
                    i as int,
                ),
            decreases self.validators.len() - i,
        {
            if i >= self.validators.len() {
                return false;
            }
            let entry = &self.validators[i];
            if bytes64_eq(&entry.0, key) {
                return entry.1 <= height && height <= entry.2;
            }
            i += 1;
        }
    }

    /// Register `validator` for the inclusive height range
    /// `[height, height + validity]` (wrapping), overwriting any prior range.
    pub fn add_validator(&mut self, validator: [u8; 64], height: u64, validity: u64)
        requires
            old(self).wf(),
        ensures
            final(self).wf(),
            final(self)@ == (MetadataView {
                validators: validators_put(
                    old(self)@.validators,
                    validator@,
                    height,
                    height.wrapping_add(validity),
                ),
                ..old(self)@
            }),
    {
        let to = height.wrapping_add(validity);
        let mut i: usize = 0;
        while i < self.validators.len() && bytes64_lt(&self.validators[i].0, &validator)
            invariant
                0 <= i <= self.validators.len(),
                forall|j: int|
                    0 <= j < i ==> lex_lt((#[trigger] self@.validators[j]).0, validator@),
            decreases self.validators.len() - i,
        {
            i += 1;
        }
        let ghost pre = self@.validators;
        if i < self.validators.len() && bytes64_eq(&self.validators[i].0, &validator) {
            proof {
                lemma_validators_put_found(pre, validator@, height, to, i as int);
            }
            let slot = vstd::std_specs::vec::vec_index_mut(&mut self.validators, i);
            *slot = (validator, height, to);
            proof {
                assert(self@.validators =~= pre.update(i as int, (validator@, height, to)));
                assert(self@ =~= (MetadataView { validators: validators_put(
                    pre,
                    validator@,
                    height,
                    to,
                ), ..old(self)@ }));
            }
        } else {
            proof {
                if i < pre.len() {
                    lemma_lex_trichotomy(pre[i as int].0, validator@);
                }
                lemma_validators_put_insert(pre, validator@, height, to, i as int);
            }
            self.validators.insert(i, (validator, height, to));
            proof {
                assert(self@.validators =~= pre.insert(i as int, (validator@, height, to)));
                assert(self@ =~= (MetadataView { validators: validators_put(
                    pre,
                    validator@,
                    height,
                    to,
                ), ..old(self)@ }));
            }
        }
        proof {
            lemma_validators_put_sorted(pre, validator@, height, to);
        }
    }

    /// Authorize the provided block for commit at the given height; heights
    /// at or below the committed height are ignored.
    pub fn authorize_block(&mut self, block_id: [u8; 32], height: u64)
        requires
            old(self).wf(),
        ensures
            final(self).wf(),
            old(self)@.committed_height.wrapping_add(1) <= height ==> final(self)@
                == (MetadataView {
                authorized_blocks: blocks_put(
                    old(self)@.authorized_blocks,
                    block_id@,
                    height,
                ),
                ..old(self)@
            }),
            !(old(self)@.committed_height.wrapping_add(1) <= height) ==> final(self)@ == old(
                self,
            )@,
    {
        if !(self.committed_height.wrapping_add(1) <= height) {
            return ;
        }
        let ghost pre = self@.authorized_blocks;
        let mut i: usize = 0;
        loop
            invariant
                0 <= i <= self.authorized_blocks.len(),
                self@.authorized_blocks == pre,
                self.wf(),
                self@ == old(self)@,
                old(self)@.committed_height.wrapping_add(1) <= height,
                forall|j: int| 0 <= j < i ==> (#[trigger] pre[j]).0 != block_id@,
            decreases self.authorized_blocks.len() - i,
        {
            if i >= self.authorized_blocks.len() {
                proof {
                    lemma_blocks_put_missing(pre, block_id@, height);
                }
                self.authorized_blocks.push((block_id, height));
                proof {
                    assert(self@.authorized_blocks =~= pre.push((block_id@, height)));
                    assert(self@ =~= (MetadataView { authorized_blocks: blocks_put(
                        pre,
                        block_id@,
                        height,
                    ), ..old(self)@ }));
                    assert forall|a: int, b: int|
                        0 <= a < b < self@.authorized_blocks.len() implies (
                    #[trigger] self@.authorized_blocks[a]).0 != (
                    #[trigger] self@.authorized_blocks[b]).0 by {
                        if b < pre.len() {
                            assert(pre[a].0 != pre[b].0);
                        } else {
                            assert(pre[a].0 != block_id@);
                        }
                    }
                }
                return ;
            }
            if bytes32_eq(&self.authorized_blocks[i].0, &block_id) {
                proof {
                    lemma_blocks_put_found(pre, block_id@, height, i as int);
                }
                let slot = vstd::std_specs::vec::vec_index_mut(&mut self.authorized_blocks, i);
                *slot = (block_id, height);
                proof {
                    assert(self@.authorized_blocks =~= pre.update(i as int, (block_id@, height)));
                    assert(self@ =~= (MetadataView { authorized_blocks: blocks_put(
                        pre,
                        block_id@,
                        height,
                    ), ..old(self)@ }));
                    assert forall|a: int, b: int|
                        0 <= a < b < self@.authorized_blocks.len() implies (
                    #[trigger] self@.authorized_blocks[a]).0 != (
                    #[trigger] self@.authorized_blocks[b]).0 by {
                        assert(self@.authorized_blocks[a].0 == pre[a].0);
                        assert(self@.authorized_blocks[b].0 == pre[b].0);
                        assert(pre[a].0 != pre[b].0);
                    }
                }
                return ;
            }
            i += 1;
        }
    }

    /// Authorize the propose protocol for the given height; heights at or
    /// below the committed height are ignored.
    pub fn authorize_block_propose(&mut self, height: u64, block_id: [u8; 32])
        requires
            old(self).wf(),
        ensures
            final(self).wf(),
            old(self)@.committed_height.wrapping_add(1) <= height ==> final(self)@
                == (MetadataView {
                propose_blocks: propose_put(old(self)@.propose_blocks, height, block_id@),
                ..old(self)@
            }),
            !(old(self)@.committed_height.wrapping_add(1) <= height) ==> final(self)@ == old(
                self,
            )@,
    {
        if !(self.committed_height.wrapping_add(1) <= height) {
            return ;
        }
        let ghost pre = self@.propose_blocks;
        let mut i: usize = 0;
        loop
            invariant
                0 <= i <= self.propose_blocks.len(),
                self@.propose_blocks == pre,
                self.wf(),
                self@ == old(self)@,
                old(self)@.committed_height.wrapping_add(1) <= height,
                forall|j: int| 0 <= j < i ==> (#[trigger] pre[j]).0 != height,
            decreases self.propose_blocks.len() - i,
        {
            if i >= self.propose_blocks.len() {
                proof {
                    lemma_propose_put_missing(pre, height, block_id@);
                }
                self.propose_blocks.push((height, block_id));
                proof {
                    assert(self@.propose_blocks =~= pre.push((height, block_id@)));
                    assert(self@ =~= (MetadataView { propose_blocks: propose_put(
                        pre,
                        height,
                        block_id@,
                    ), ..old(self)@ }));
                    assert forall|a: int, b: int|
                        0 <= a < b < self@.propose_blocks.len() implies (
                    #[trigger] self@.propose_blocks[a]).0 != (
                    #[trigger] self@.propose_blocks[b]).0 by {
                        if b < pre.len() {
                            assert(pre[a].0 != pre[b].0);
                        } else {
                            assert(pre[a].0 != height);
                        }
                    }
                }
                return ;
            }
            if self.propose_blocks[i].0 == height {
                proof {
                    lemma_propose_put_found(pre, height, block_id@, i as int);
                }
                let slot = vstd::std_specs::vec::vec_index_mut(&mut self.propose_blocks, i);
                *slot = (height, block_id);
                proof {
                    assert(self@.propose_blocks =~= pre.update(i as int, (height, block_id@)));
                    assert(self@ =~= (MetadataView { propose_blocks: propose_put(
                        pre,
                        height,
                        block_id@,
                    ), ..old(self)@ }));
                    assert forall|a: int, b: int|
                        0 <= a < b < self@.propose_blocks.len() implies (
                    #[trigger] self@.propose_blocks[a]).0 != (
                    #[trigger] self@.propose_blocks[b]).0 by {
                        assert(self@.propose_blocks[a].0 == pre[a].0);
                        assert(self@.propose_blocks[b].0 == pre[b].0);
                        assert(pre[a].0 != pre[b].0);
                    }
                }
                return ;
            }
            i += 1;
        }
    }

    /// Upgrade a validator step, returning true iff there was a change: the
    /// cell was absent or held a strictly lower step. Equal or lower votes
    /// are silently ignored, so a cell only ever moves forward in the ladder.
    pub fn upgrade_validator_step(&mut self, vote: &Vote) -> (r: bool)
        requires
            old(self).wf(),
        ensures
            final(self).wf(),
            r == step_advances(
                old(self)@.steps,
                vote@.height,
                vote@.round,
                vote@.validator,
                vote@.step,
            ),
            r ==> final(self)@ == (MetadataView {
                steps: steps_put(
                    old(self)@.steps,
                    vote@.height,
                    vote@.round,
                    vote@.validator,
                    vote@.step,
                ),
                ..old(self)@
            }),
            !r ==> final(self)@ == old(self)@,
    {
        let height = vote.height();
        let round = vote.round();
        let validator = *vote.validator();
        let step = vote.step();

        let ghost pre = self@.steps;
        let mut i: usize = 0;
        loop
            invariant
                0 <= i <= self.steps.len(),
                self@.steps == pre,
                self.wf(),
                self@ == old(self)@,
                height == vote@.height,
                round == vote@.round,
                validator@ == vote@.validator,
                step == vote@.step,
                step_find(pre, height, round, validator@) == step_find_from(
                    pre,
                    height,
                    round,
                    validator@,
                    i as int,
                ),
                forall|j: int| 0 <= j < i ==> (#[trigger] pre[j]).0 != (height, round, validator@),
            decreases self.steps.len() - i,
        {
            if i >= self.steps.len() {
                proof {
                    lemma_steps_put_missing(pre, height, round, validator@, step);
                }
                self.steps.push(((height, round, validator), step));
                proof {
                    assert(self@.steps =~= pre.push(((height, round, validator@), step)));
                    assert(self@ =~= (MetadataView { steps: steps_put(
                        pre,
                        height,
                        round,
                        validator@,
                        step,
                    ), ..old(self)@ }));
                    assert forall|a: int, b: int|
                        0 <= a < b < self@.steps.len() implies (#[trigger] self@.steps[a]).0 != (
                    #[trigger] self@.steps[b]).0 by {
                        if b < pre.len() {
                            assert(pre[a].0 != pre[b].0);
                        } else {
                            assert(pre[a].0 != (height, round, validator@));
                        }
                    }
                }
                return true;
            }
            let entry = &self.steps[i];
            if entry.0.0 == height && entry.0.1 == round && bytes64_eq(&entry.0.2, &validator) {
                if step.as_u8() > entry.1.as_u8() {
                    proof {
                        lemma_steps_put_found(pre, height, round, validator@, step, i as int);
                    }
                    let slot = vstd::std_specs::vec::vec_index_mut(&mut self.steps, i);
                    *slot = ((height, round, validator), step);
                    proof {
                        assert(self@.steps =~= pre.update(
                            i as int,
                            ((height, round, validator@), step),
                        ));
                        assert(self@ =~= (MetadataView { steps: steps_put(
                            pre,
                            height,
                            round,
                            validator@,
                            step,
                        ), ..old(self)@ }));
                        assert forall|a: int, b: int|
                            0 <= a < b < self@.steps.len() implies (#[trigger] self@.steps[a]).0
                            != (#[trigger] self@.steps[b]).0 by {
                            assert(self@.steps[a].0 == pre[a].0);
                            assert(self@.steps[b].0 == pre[b].0);
                            assert(pre[a].0 != pre[b].0);
                        }
                    }
                    return true;
                }
                return false;
            }
            i += 1;
        }
    }

    /// Commit (height, round). Commits are strictly sequential: the call
    /// succeeds exactly when `height` is the next expected height, purging
    /// all metadata at or below it and advancing the committed height.
    #[verifier::loop_isolation(false)]
    pub fn commit(&mut self, height: u64, round: u64) -> (r: bool)
        requires
            old(self).wf(),
        ensures
            final(self).wf(),
            r == (old(self)@.committed_height.wrapping_add(1) == height),
            r ==> final(self)@ == commit_view(old(self)@, height, round),
            !r ==> final(self)@ == old(self)@,
            r ==> final(self)@.committed_height == old(self)@.committed_height.wrapping_add(1),
            r ==> forall|i: int|
                0 <= i < final(self)@.steps.len() ==> (#[trigger] final(self)@.steps[i]).0.0
                    > height,
    {
        broadcast use Seq::lemma_filter_push;

        if self.committed_height.wrapping_add(1) != height {
            return false;
        }

        let ghost pre = self@;

        let ghost bp = |e: (Seq<u8>, u64)| height < e.1;
        let mut blocks: Vec<([u8; 32], u64)> = Vec::new();
        let mut i: usize = 0;
        while i < self.authorized_blocks.len()
            invariant
                0 <= i <= self.authorized_blocks.len(),
                self@ == pre,
                old(self)@.committed_height.wrapping_add(1) == height,
                blocks_view(blocks@) == blocks_view(self.authorized_blocks@).take(i as int).filter(
                    bp,
                ),
            decreases self.authorized_blocks.len() - i,
        {
            let ghost bv = blocks_view(self.authorized_blocks@);
            proof {
                assert(bv.take(i + 1).drop_last() =~= bv.take(i as int));
                assert(bv.take(i + 1) =~= bv.take(i as int).push(bv[i as int]));
                bv.take(i as int).lemma_filter_push(bv[i as int], bp);
            }
            let entry = &self.authorized_blocks[i];
            if height < entry.1 {
                blocks.push(*entry);
                proof {
                    assert(blocks_view(blocks@) =~= bv.take(i as int).filter(bp).push(
                        bv[i as int],
                    ));
                }
            }
            i += 1;
        }
        proof {
            assert(blocks_view(self.authorized_blocks@).take(
                self.authorized_blocks@.len() as int,
            ) =~= pre.authorized_blocks);
        }

        let ghost pp = |e: (u64, Seq<u8>)| height < e.0;
        let mut props: Vec<(u64, [u8; 32])> = Vec::new();
        let mut i: usize = 0;
        while i < self.propose_blocks.len()
            invariant
                0 <= i <= self.propose_blocks.len(),
                self@ == pre,
                old(self)@.committed_height.wrapping_add(1) == height,
                propose_view(props@) == propose_view(self.propose_blocks@).take(i as int).filter(
                    pp,
                ),
            decreases self.propose_blocks.len() - i,
        {
            let ghost pv = propose_view(self.propose_blocks@);
            proof {
                assert(pv.take(i + 1).drop_last() =~= pv.take(i as int));
                assert(pv.take(i + 1) =~= pv.take(i as int).push(pv[i as int]));
                pv.take(i as int).lemma_filter_push(pv[i as int], pp);
            }
            let entry = &self.propose_blocks[i];
            if height < entry.0 {
                props.push(*entry);
                proof {
                    assert(propose_view(props@) =~= pv.take(i as int).filter(pp).push(
                        pv[i as int],
                    ));
                }
            }
            i += 1;
        }
        proof {
            assert(propose_view(self.propose_blocks@).take(self.propose_blocks@.len() as int)
                =~= pre.propose_blocks);
        }

        let ghost vp = |e: (Seq<u8>, u64, u64)| height < e.2;
        let mut vals: Vec<([u8; 64], u64, u64)> = Vec::new();
        let mut i: usize = 0;
        while i < self.validators.len()
            invariant
                0 <= i <= self.validators.len(),
                self@ == pre,
                old(self)@.committed_height.wrapping_add(1) == height,
                validators_view(vals@) == validators_view(self.validators@).take(
                    i as int,
                ).filter(vp),
            decreases self.validators.len() - i,
        {
            let ghost vv = validators_view(self.validators@);
            proof {
                assert(vv.take(i + 1).drop_last() =~= vv.take(i as int));
                assert(vv.take(i + 1) =~= vv.take(i as int).push(vv[i as int]));
                vv.take(i as int).lemma_filter_push(vv[i as int], vp);
            }
            let entry = &self.validators[i];
            if height < entry.2 {
                vals.push(*entry);
                proof {
                    assert(validators_view(vals@) =~= vv.take(i as int).filter(vp).push(
                        vv[i as int],
                    ));
                }
            }
            i += 1;
        }
        proof {
            assert(validators_view(self.validators@).take(self.validators@.len() as int)
                =~= pre.validators);
        }

        let ghost sp = |e: ((u64, u64, Seq<u8>), Step)| height < e.0.0;
        let mut cells: Vec<((u64, u64, [u8; 64]), Step)> = Vec::new();
        let mut i: usize = 0;
        while i < self.steps.len()
            invariant
                0 <= i <= self.steps.len(),
                self@ == pre,
                old(self)@.committed_height.wrapping_add(1) == height,
                steps_view(cells@) == steps_view(self.steps@).take(i as int).filter(sp),
            decreases self.steps.len() - i,
        {
            let ghost sv = steps_view(self.steps@);
            proof {
                assert(sv.take(i + 1).drop_last() =~= sv.take(i as int));
                assert(sv.take(i + 1) =~= sv.take(i as int).push(sv[i as int]));
                sv.take(i as int).lemma_filter_push(sv[i as int], sp);
            }
            let entry = &self.steps[i];
            if height < entry.0.0 {
                cells.push(*entry);
                proof {
                    assert(steps_view(cells@) =~= sv.take(i as int).filter(sp).push(sv[i as int]));
                }
            }
            i += 1;
        }
        proof {
            assert(steps_view(self.steps@).take(self.steps@.len() as int) =~= pre.steps);
        }

        self.authorized_blocks = blocks;
        self.propose_blocks = props;
        self.validators = vals;
        self.steps = cells;
        self.committed_rounds = self.committed_rounds.wrapping_add(1u64.wrapping_add(round));
        self.committed_height = height;

        proof {
            assert(self@ =~= commit_view(pre, height, round));
            lemma_filter_contained(pre.steps, sp);
            assert forall|i: int|
                0 <= i < self@.steps.len() implies (#[trigger] self@.steps[i]).0.0 > height by {
                pre.steps.lemma_filter_pred(sp, i);
            }
            lemma_filter_ordered(
                pre.authorized_blocks,
                bp,
                |a: (Seq<u8>, u64), b: (Seq<u8>, u64)| a.0 != b.0,
            );
            lemma_filter_ordered(
                pre.propose_blocks,
                pp,
                |a: (u64, Seq<u8>), b: (u64, Seq<u8>)| a.0 != b.0,
            );
            lemma_filter_ordered(
                pre.validators,
                vp,
                |a: (Seq<u8>, u64, u64), b: (Seq<u8>, u64, u64)| lex_lt(a.0, b.0),
            );
            lemma_filter_contained(pre.validators, vp);
            assert forall|i: int|
                0 <= i < self@.validators.len() implies (#[trigger] self@.validators[i]).0.len()
                == 64 by {
                let x = self@.validators[i];
                assert(pre.validators.contains(x));
                let k = choose|k: int| 0 <= k < pre.validators.len() && pre.validators[k] == x;
            }
            lemma_filter_ordered(
                pre.steps,
                sp,
                |a: ((u64, u64, Seq<u8>), Step), b: ((u64, u64, Seq<u8>), Step)| a.0 != b.0,
            );
        }

        true
    }
}

proof fn lemma_blocks_put_found(s: BlockSeq, id: Seq<u8>, height: u64, i: int)
    requires
        0 <= i < s.len(),
        s[i].0 == id,
        forall|j: int| 0 <= j < i ==> (#[trigger] s[j]).0 != id,
    ensures
        blocks_put(s, id, height) == s.update(i, (id, height)),
    decreases i,
{
    if i == 0 {
        assert(blocks_put(s, id, height) =~= s.update(0, (id, height)));
    } else {
        lemma_blocks_put_found(s.drop_first(), id, height, i - 1);
        assert(seq![s[0]] + s.drop_first().update(i - 1, (id, height)) =~= s.update(
            i,
            (id, height),
        ));
    }
}

proof fn lemma_blocks_put_missing(s: BlockSeq, id: Seq<u8>, height: u64)
    requires
        forall|j: int| 0 <= j < s.len() ==> (#[trigger] s[j]).0 != id,
    ensures
        blocks_put(s, id, height) == s.push((id, height)),
    decreases s.len(),
{
    if s.len() == 0 {
        assert(blocks_put(s, id, height) =~= s.push((id, height)));
    } else {
        lemma_blocks_put_missing(s.drop_first(), id, height);
        assert(seq![s[0]] + s.drop_first().push((id, height)) =~= s.push((id, height)));
    }
}

proof fn lemma_propose_put_found(s: ProposeSeq, height: u64, id: Seq<u8>, i: int)
    requires
        0 <= i < s.len(),
        s[i].0 == height,
        forall|j: int| 0 <= j < i ==> (#[trigger] s[j]).0 != height,
    ensures
        propose_put(s, height, id) == s.update(i, (height, id)),
    decreases i,
{
    if i == 0 {
        assert(propose_put(s, height, id) =~= s.update(0, (height, id)));
    } else {
        lemma_propose_put_found(s.drop_first(), height, id, i - 1);
        assert(seq![s[0]] + s.drop_first().update(i - 1, (height, id)) =~= s.update(
            i,
            (height, id),
        ));
    }
}

proof fn lemma_propose_put_missing(s: ProposeSeq, height: u64, id: Seq<u8>)
    requires
        forall|j: int| 0 <= j < s.len() ==> (#[trigger] s[j]).0 != height,
    ensures
        propose_put(s, height, id) == s.push((height, id)),
    decreases s.len(),
{
    if s.len() == 0 {
        assert(propose_put(s, height, id) =~= s.push((height, id)));
    } else {
        lemma_propose_put_missing(s.drop_first(), height, id);
        assert(seq![s[0]] + s.drop_first().push((height, id)) =~= s.push((height, id)));
    }
}

proof fn lemma_steps_put_found(s: StepSeq, height: u64, round: u64, key: Seq<u8>, step: Step, i: int)
    requires
        0 <= i < s.len(),
        s[i].0 == (height, round, key),
        forall|j: int| 0 <= j < i ==> (#[trigger] s[j]).0 != (height, round, key),
    ensures
        steps_put(s, height, round, key, step) == s.update(i, ((height, round, key), step)),
    decreases i,
{
    if i == 0 {
        assert(steps_put(s, height, round, key, step) =~= s.update(0, ((height, round, key), step)));
    } else {
        lemma_steps_put_found(s.drop_first(), height, round, key, step, i - 1);
        assert(seq![s[0]] + s.drop_first().update(i - 1, ((height, round, key), step)) =~= s.update(
            i,
            ((height, round, key), step),
        ));
    }
}

proof fn lemma_steps_put_missing(s: StepSeq, height: u64, round: u64, key: Seq<u8>, step: Step)
    requires
        forall|j: int| 0 <= j < s.len() ==> (#[trigger] s[j]).0 != (height, round, key),
    ensures
        steps_put(s, height, round, key, step) == s.push(((height, round, key), step)),
    decreases s.len(),
{
    if s.len() == 0 {
        assert(steps_put(s, height, round, key, step) =~= s.push(((height, round, key), step)));
    } else {
        lemma_steps_put_missing(s.drop_first(), height, round, key, step);
        assert(seq![s[0]] + s.drop_first().push(((height, round, key), step)) =~= s.push(
            ((height, round, key), step),
        ));
    }
}

proof fn lemma_validators_put_found(s: ValidatorSeq, key: Seq<u8>, from: u64, to: u64, i: int)
    requires
        sorted_validators(s),
        key.len() == 64,
        0 <= i < s.len(),
        s[i].0 == key,
        forall|j: int| 0 <= j < i ==> lex_lt((#[trigger] s[j]).0, key),
    ensures
        validators_put(s, key, from, to) == s.update(i, (key, from, to)),
    decreases i,
{
    if i == 0 {
        lemma_lex_trichotomy(s[0].0, key);
        assert(validators_put(s, key, from, to) =~= s.update(0, (key, from, to)));
    } else {
        assert(forall|a: int, b: int|
            0 <= a < b < s.drop_first().len() ==> lex_lt(
                (#[trigger] s.drop_first()[a]).0,
                (#[trigger] s.drop_first()[b]).0,
            ));
        lemma_validators_put_found(s.drop_first(), key, from, to, i - 1);
        assert(seq![s[0]] + s.drop_first().update(i - 1, (key, from, to)) =~= s.update(
            i,
            (key, from, to),
        ));
    }
}

proof fn lemma_validators_put_insert(s: ValidatorSeq, key: Seq<u8>, from: u64, to: u64, i: int)
    requires
        sorted_validators(s),
        key.len() == 64,
        0 <= i <= s.len(),
        forall|j: int| 0 <= j < i ==> lex_lt((#[trigger] s[j]).0, key),
        i < s.len() ==> !lex_lt(s[i].0, key) && s[i].0 != key,
    ensures
        validators_put(s, key, from, to) == s.insert(i, (key, from, to)),
    decreases i,
{
    if i == 0 {
        if s.len() > 0 {
            lemma_lex_trichotomy(s[0].0, key);
        }
        assert(validators_put(s, key, from, to) =~= s.insert(0, (key, from, to)));
    } else {
        assert(forall|a: int, b: int|
            0 <= a < b < s.drop_first().len() ==> lex_lt(
                (#[trigger] s.drop_first()[a]).0,
                (#[trigger] s.drop_first()[b]).0,
            ));
        lemma_validators_put_insert(s.drop_first(), key, from, to, i - 1);
        assert(seq![s[0]] + s.drop_first().insert(i - 1, (key, from, to)) =~= s.insert(
            i,
            (key, from, to),
        ));
    }
}

/// Updating or inserting a validator keeps the table strictly sorted.
proof fn lemma_validators_put_sorted(s: ValidatorSeq, key: Seq<u8>, from: u64, to: u64)
    requires
        sorted_validators(s),
        key.len() == 64,
    ensures
        sorted_validators(validators_put(s, key, from, to)),
    decreases s.len(),
{
    if s.len() == 0 {
    } else if lex_lt(s[0].0, key) {
        assert(forall|a: int, b: int|
            0 <= a < b < s.drop_first().len() ==> lex_lt(
                (#[trigger] s.drop_first()[a]).0,
                (#[trigger] s.drop_first()[b]).0,
            ));
        lemma_validators_put_sorted(s.drop_first(), key, from, to);
        lemma_validators_put_keys(s.drop_first(), key, from, to);
        let out = validators_put(s, key, from, to);
        let rest = validators_put(s.drop_first(), key, from, to);
        assert forall|a: int, b: int| 0 <= a < b < out.len() implies lex_lt(
            (#[trigger] out[a]).0,
            (#[trigger] out[b]).0,
        ) by {
            if a == 0 {
                assert(out[b] == rest[b - 1]);
                let x = rest[b - 1];
                if x.0 == key {
                } else {
                    let u = choose|u: int|
                        0 <= u < s.drop_first().len() && s.drop_first()[u] == x;
                    assert(s[u + 1] == x);
                    assert(lex_lt(s[0].0, s[u + 1].0));
                }
            } else {
                assert(out[a] == rest[a - 1] && out[b] == rest[b - 1]);
            }
        }
    } else if s[0].0 == key {
        let out = validators_put(s, key, from, to);
        assert forall|a: int, b: int| 0 <= a < b < out.len() implies lex_lt(
            (#[trigger] out[a]).0,
            (#[trigger] out[b]).0,
        ) by {
            if a == 0 {
                assert(out[b] == s.drop_first()[b - 1]);
                assert(lex_lt(s[0].0, s[b].0));
            } else {
                assert(out[a] == s[a] && out[b] == s[b]);
            }
        }
    } else {
        lemma_lex_trichotomy(s[0].0, key);
        let out = validators_put(s, key, from, to);
        assert forall|a: int, b: int| 0 <= a < b < out.len() implies lex_lt(
            (#[trigger] out[a]).0,
            (#[trigger] out[b]).0,
        ) by {
            if a == 0 {
                assert(out[b] == s[b - 1]);
                if b == 1 {
                } else {
                    assert(lex_lt(s[0].0, s[b - 1].0));
                    lemma_lex_transitive(key, s[0].0, s[b - 1].0);
                }
            } else {
                assert(out[a] == s[a - 1] && out[b] == s[b - 1]);
            }
        }
    }
}

/// Every entry of an updated validator table is the new entry or one of the
/// old entries.
proof fn lemma_validators_put_keys(s: ValidatorSeq, key: Seq<u8>, from: u64, to: u64)
    ensures
        forall|t: int|
            0 <= t < validators_put(s, key, from, to).len() ==> (#[trigger] validators_put(
                s,
                key,
                from,
                to,
            )[t]).0 == key || s.contains(validators_put(s, key, from, to)[t]),
    decreases s.len(),
{
    let out = validators_put(s, key, from, to);
    if s.len() == 0 {
    } else if lex_lt(s[0].0, key) {
        lemma_validators_put_keys(s.drop_first(), key, from, to);
        let rest = validators_put(s.drop_first(), key, from, to);
        assert forall|t: int| 0 <= t < out.len() implies (#[trigger] out[t]).0 == key
            || s.contains(out[t]) by {
            if t == 0 {
                assert(s[0] == out[0]);
            } else {
                assert(out[t] == rest[t - 1]);
                if rest[t - 1].0 != key {
                    let u = choose|u: int|
                        0 <= u < s.drop_first().len() && s.drop_first()[u] == rest[t - 1];
                    assert(s[u + 1] == rest[t - 1]);
                }
            }
        }
    } else if s[0].0 == key {
        assert forall|t: int| 0 <= t < out.len() implies (#[trigger] out[t]).0 == key
            || s.contains(out[t]) by {
            if t > 0 {
                assert(out[t] == s[t]);
            }
        }
    } else {
        assert forall|t: int| 0 <= t < out.len() implies (#[trigger] out[t]).0 == key
            || s.contains(out[t]) by {
            if t > 0 {
                assert(out[t] == s[t - 1]);
            }
        }
    }
}

proof fn lemma_step_find_shift(s: StepSeq, height: u64, round: u64, key: Seq<u8>, i: int)
    requires
        0 <= i,
        s.len() > 0,
    ensures
        step_find_from(s, height, round, key, i + 1) == step_find_from(
            s.drop_first(),
            height,
            round,
            key,
            i,
        ),
    decreases s.len() - i,
{
    if i + 1 < s.len() {
        lemma_step_find_shift(s, height, round, key, i + 1);
    }
}

/// Looking a cell up after an upgrade: the upgraded cell holds the new step,
/// every other cell is unchanged.
pub proof fn lemma_step_find_put(
    s: StepSeq,
    height: u64,
    round: u64,
    key: Seq<u8>,
    step: Step,
    h2: u64,
    r2: u64,
    v2: Seq<u8>,
)
    ensures
        step_find(steps_put(s, height, round, key, step), h2, r2, v2) == if (h2, r2, v2) == (
            height,
            round,
            key,
        ) {
            Some(step)
        } else {
            step_find(s, h2, r2, v2)
        },
    decreases s.len(),
{
    let out = steps_put(s, height, round, key, step);
    if s.len() == 0 {
    } else if s[0].0 == (height, round, key) {
        if (h2, r2, v2) != (height, round, key) {
            lemma_step_find_shift(out, h2, r2, v2, 0);
            lemma_step_find_shift(s, h2, r2, v2, 0);
            assert(out.drop_first() =~= s.drop_first());
        }
    } else {
        lemma_step_find_put(s.drop_first(), height, round, key, step, h2, r2, v2);
        assert(out.drop_first() =~= steps_put(s.drop_first(), height, round, key, step));
        if out[0].0 != (h2, r2, v2) {
            lemma_step_find_shift(out, h2, r2, v2, 0);
        }
        if s[0].0 != (h2, r2, v2) {
            lemma_step_find_shift(s, h2, r2, v2, 0);
        }
    }
}

/// A cell's step never decreases under an upgrade: after a vote advances its
/// own cell, every cell that held a step still holds one at least as high.
pub proof fn lemma_upgrade_monotone(
    s: StepSeq,
    height: u64,
    round: u64,
    key: Seq<u8>,
    step: Step,
    h2: u64,
    r2: u64,
    v2: Seq<u8>,
)
    requires
        step_advances(s, height, round, key, step),
    ensures
        match step_find(s, h2, r2, v2) {
            Some(cur) => {
                &&& step_find(steps_put(s, height, round, key, step), h2, r2, v2) is Some
                &&& step_find(
                    steps_put(s, height, round, key, step),
                    h2,
                    r2,
                    v2,
                )->Some_0.ordinal() >= cur.ordinal()
            },
            None => true,
        },
{
    lemma_step_find_put(s, height, round, key, step, h2, r2, v2);
}

/// An upgrade that advanced a cell cannot advance it again: applied twice
/// with the same vote, `upgrade_validator_step` answers true then false.
pub proof fn lemma_upgrade_twice(s: StepSeq, height: u64, round: u64, key: Seq<u8>, step: Step)
    requires
        step_advances(s, height, round, key, step),
    ensures
        !step_advances(steps_put(s, height, round, key, step), height, round, key, step),
{
    lemma_step_find_put(s, height, round, key, step, height, round, key);
}

/// Authorizing the same block at the same height twice changes nothing
/// beyond the first authorization.
pub proof fn lemma_authorize_idempotent(s: BlockSeq, id: Seq<u8>, height: u64)
    ensures
        blocks_put(blocks_put(s, id, height), id, height) == blocks_put(s, id, height),
    decreases s.len(),
{
    let once = blocks_put(s, id, height);
    if s.len() == 0 {
        assert(blocks_put(once, id, height) =~= once);
    } else if s[0].0 == id {
        assert(blocks_put(once, id, height) =~= once);
    } else {
        lemma_authorize_idempotent(s.drop_first(), id, height);
        assert(once.drop_first() =~= blocks_put(s.drop_first(), id, height));
        assert(blocks_put(once, id, height) =~= seq![s[0]] + blocks_put(
            once.drop_first(),
            id,
            height,
        ));
        assert(blocks_put(once, id, height) =~= once);
    }
}

} // verus!
