//! A stake pool: a range-indexed validator set with merge and conflict
//! rules.

use vstd::prelude::*;

use crate::byteops::bytes64_eq;
use crate::error::Error;

verus! {

/// One end of a height range.
#[derive(Debug, Clone, Copy)]
pub enum HeightBound {
    /// The bound is part of the range.
    Included(u64),
    /// The bound is just outside the range.
    Excluded(u64),
    /// The range extends to the end of the height space.
    Unbounded,
}

/// The half-open range a pair of bounds describes: the inclusive start and
/// the exclusive end, saturating at the ends of the height space.
pub open spec fn normal_range(start: HeightBound, end: HeightBound) -> (u64, u64) {
    let s: u64 = match start {
        HeightBound::Included(v) => v,
        HeightBound::Excluded(v) => if v == u64::MAX {
            u64::MAX
        } else {
            (v + 1) as u64
        },
        HeightBound::Unbounded => 0,
    };
    let e: u64 = match end {
        HeightBound::Included(v) => if v == u64::MAX {
            u64::MAX
        } else {
            (v + 1) as u64
        },
        HeightBound::Excluded(v) => v,
        HeightBound::Unbounded => u64::MAX,
    };
    (s, e)
}

/// Turn a pair of bounds into a half-open `[start, end)` height range.
pub fn normalize_range(start: HeightBound, end: HeightBound) -> (r: (u64, u64))
    ensures
        r == normal_range(start, end),
{
    let s = match start {
        HeightBound::Included(v) => v,
        HeightBound::Excluded(v) => v.saturating_add(1),
        HeightBound::Unbounded => 0,
    };
    let e = match end {
        HeightBound::Included(v) => v.saturating_add(1),
        HeightBound::Excluded(v) => v,
        HeightBound::Unbounded => u64::MAX,
    };
    (s, e)
}

/// Registered stake for a validator.
///
/// The used key might not reflect the canonical validator set; it is only
/// used to verify the signatures of the chosen protocol.
#[derive(Debug, Clone, Copy, PartialEq, Eq, PartialOrd, Ord, Hash)]
pub struct Stake {
    /// One-time key for a height range.
    pub key: [u8; 64],
    /// Staked value.
    pub value: u64,
}

/// The plain content of a stake table: for each entry the inclusive start
/// and exclusive end of its range, and the stake held over it.
pub type StakeSeq = Seq<(u64, u64, Stake)>;

/// Whether the half-open range of entry `e` contains either end of the
/// half-open range `[start, end)`.
pub open spec fn range_touches(e: (u64, u64, Stake), start: u64, end: u64) -> bool {
    (e.0 <= start && start < e.1) || (e.0 <= end && end < e.1)
}

/// Two stakes carry the same key bytes and the same value.
pub open spec fn stake_feq(a: Stake, b: Stake) -> bool {
    a.key@ == b.key@ && a.value == b.value
}

/// The first entry from index `i` on holding this very stake whose range
/// touches `[start, end)`; merge candidate.
pub open spec fn merge_idx_from(s: StakeSeq, start: u64, end: u64, stake: Stake, i: int) -> Option<
    int,
>
    decreases s.len() - i,
{
    if i < 0 || i >= s.len() {
        None
    } else if stake_feq(s[i].2, stake) && range_touches(s[i], start, end) {
        Some(i)
    } else {
        merge_idx_from(s, start, end, stake, i + 1)
    }
}

/// The first entry from index `i` on whose range touches `[start, end)`;
/// conflict candidate.
pub open spec fn touch_idx_from(s: StakeSeq, start: u64, end: u64, i: int) -> Option<int>
    decreases s.len() - i,
{
    if i < 0 || i >= s.len() {
        None
    } else if range_touches(s[i], start, end) {
        Some(i)
    } else {
        touch_idx_from(s, start, end, i + 1)
    }
}

/// Replace the stake of an exact `[start, end)` range, or append the entry
/// if the range is new.
pub open spec fn stakes_put(s: StakeSeq, start: u64, end: u64, stake: Stake) -> StakeSeq
    decreases s.len(),
{
    if s.len() == 0 {
        seq![(start, end, stake)]
    } else if s[0].0 == start && s[0].1 == end {
        seq![(start, end, stake)] + s.drop_first()
    } else {
        seq![s[0]] + stakes_put(s.drop_first(), start, end, stake)
    }
}

/// The first stake from index `i` on whose range contains `height`.
pub open spec fn stake_at_from(s: StakeSeq, height: u64, i: int) -> Option<Stake>
    decreases s.len() - i,
{
    if i < 0 || i >= s.len() {
        None
    } else if s[i].0 <= height && height < s[i].1 {
        Some(s[i].2)
    } else {
        stake_at_from(s, height, i + 1)
    }
}

/// The first stake whose range contains `height`, if any.
pub open spec fn stake_at(s: StakeSeq, height: u64) -> Option<Stake> {
    stake_at_from(s, height, 0)
}

/// Per-validator set of stakes over height ranges.
#[derive(Debug, Clone)]
pub struct StakeKeys {
    keys: Vec<(u64, u64, Stake)>,
}

impl View for StakeKeys {
    type V = StakeSeq;

    closed spec fn view(&self) -> StakeSeq {
        self.keys@
    }
}

impl Default for StakeKeys {
    /// An empty stake table.
    fn default() -> (r: Self)
        ensures
            r@.len() == 0,
    {
        Self { keys: Vec::new() }
    }
}

impl StakeKeys {
    /// Register a stake over the half-open range the bounds describe.
    ///
    /// If the range intersects an existing entry carrying the same key and
    /// value, the two ranges are merged into one. An intersection with any
    /// other entry is a duplicated stake and rejected. Otherwise the range
    /// is added as a new entry.
    pub fn add_stake_range(&mut self, start: HeightBound, end: HeightBound, stake: Stake) -> (r:
        Result<(), Error>)
        ensures
            ({
                let (s, e) = normal_range(start, end);
                match merge_idx_from(old(self)@, s, e, stake, 0) {
                    Some(j) => {
                        let lo = if old(self)@[j].0 <= s {
                            old(self)@[j].0
                        } else {
                            s
                        };
                        let hi = if old(self)@[j].1 >= e {
                            old(self)@[j].1
                        } else {
                            e
                        };
                        &&& r is Ok
                        &&& final(self)@ == stakes_put(old(self)@.remove(j), lo, hi, stake)
                    },
                    None => match touch_idx_from(old(self)@, s, e, 0) {
                        Some(k) => {
                            &&& r is Err
                            &&& r->Err_0 == (Error::DuplicatedStake {
                                height: old(self)@[k].0,
                                valid_before: old(self)@[k].1,
                            })
                            &&& final(self)@ == old(self)@
                        },
                        None => {
                            &&& r is Ok
                            &&& final(self)@ == stakes_put(old(self)@, s, e, stake)
                        },
                    },
                }
            }),
    {
        let (s, e) = normalize_range(start, end);

        // Check if an equivalent stake intersects the arguments; if so,
        // extend it.
        let mut i: usize = 0;
        loop
            invariant
                0 <= i <= self.keys.len(),
                self@ == old(self)@,
                (s, e) == normal_range(start, end),
                merge_idx_from(self@, s, e, stake, 0) == merge_idx_from(
                    self@,
                    s,
                    e,
                    stake,
                    i as int,
                ),
            ensures
                self@ == old(self)@,
                merge_idx_from(self@, s, e, stake, 0) is None,
            decreases self.keys.len() - i,
        {
            if i >= self.keys.len() {
                break;
            }
            let entry = self.keys[i];
            let same = bytes64_eq(&entry.2.key, &stake.key) && entry.2.value == stake.value;
            if same && ((entry.0 <= s && s < entry.1) || (entry.0 <= e && e < entry.1)) {
                let lo = if entry.0 <= s {
                    entry.0
                } else {
                    s
                };
                let hi = if entry.1 >= e {
                    entry.1
                } else {
                    e
                };
                proof {
                    assert(entry == self@[i as int]);
                    assert(merge_idx_from(self@, s, e, stake, i as int) == Some(i as int));
                }
                self.keys.remove(i);
                self.put_range(lo, hi, stake);
                return Ok(());
            }
            i += 1;
        }

        // Extending is not possible; an intersection with any other entry
        // is forbidden from this point.
        let mut i: usize = 0;
        loop
            invariant
                0 <= i <= self.keys.len(),
                self@ == old(self)@,
                (s, e) == normal_range(start, end),
                merge_idx_from(self@, s, e, stake, 0) is None,
                touch_idx_from(self@, s, e, 0) == touch_idx_from(self@, s, e, i as int),
            ensures
                self@ == old(self)@,
                merge_idx_from(self@, s, e, stake, 0) is None,
                touch_idx_from(self@, s, e, 0) is None,
            decreases self.keys.len() - i,
        {
            if i >= self.keys.len() {
                break;
            }
            let entry = self.keys[i];
            if (entry.0 <= s && s < entry.1) || (entry.0 <= e && e < entry.1) {
                proof {
                    assert(entry == self@[i as int]);
                    assert(touch_idx_from(self@, s, e, i as int) == Some(i as int));
                }
                return Err(Error::DuplicatedStake { height: entry.0, valid_before: entry.1 });
            }
            i += 1;
        }

        self.put_range(s, e, stake);
        Ok(())
    }

    /// Write the stake for an exact range, replacing a prior entry with the
    /// very same range.
    fn put_range(&mut self, start: u64, end: u64, stake: Stake)
        ensures
            final(self)@ == stakes_put(old(self)@, start, end, stake),
    {
        let mut i: usize = 0;
        loop
            invariant
                0 <= i <= self.keys.len(),
                self@ == old(self)@,
                forall|j: int|
                    0 <= j < i ==> !((#[trigger] self@[j]).0 == start && self@[j].1 == end),
            decreases self.keys.len() - i,
        {
            if i >= self.keys.len() {
                proof {
                    lemma_stakes_put_missing(self@, start, end, stake);
                }
                self.keys.push((start, end, stake));
                return ;
            }
            let entry = self.keys[i];
            if entry.0 == start && entry.1 == end {
                proof {
                    lemma_stakes_put_found(self@, start, end, stake, i as int);
                }
                let slot = vstd::std_specs::vec::vec_index_mut(&mut self.keys, i);
                *slot = (start, end, stake);
                proof {
                    assert(self@ =~= old(self)@.update(i as int, (start, end, stake)));
                }
                return ;
            }
            i += 1;
        }
    }

    /// Remove all stake entries.
    pub fn clear(&mut self)
        ensures
            final(self)@.len() == 0,
    {
        self.keys.clear();
    }

    /// Return the stake for a given height, if any.
    pub fn fetch(&self, height: u64) -> (r: Option<Stake>)
        ensures
            r == stake_at(self@, height),
    {
        let mut i: usize = 0;
        loop
            invariant
                0 <= i <= self.keys.len(),
                stake_at(self@, height) == stake_at_from(self@, height, i as int),
            decreases self.keys.len() - i,
        {
            if i >= self.keys.len() {
                return None;
            }
            let entry = self.keys[i];
            if entry.0 <= height && height < entry.1 {
                return Some(entry.2);
            }
            i += 1;
        }
    }

    /// Return the stake held over exactly the range `[start, end)`, if any.
    pub fn range_stake(&self, start: u64, end: u64) -> (r: Option<Stake>)
        ensures
            match r {
                Some(st) => exists|j: int|
                    0 <= j < self@.len() && self@[j] == (start, end, st),
                None => forall|j: int|
                    0 <= j < self@.len() ==> !((#[trigger] self@[j]).0 == start && self@[j].1
                        == end),
            },
    {
        let mut i: usize = 0;
        loop
            invariant
                0 <= i <= self.keys.len(),
                forall|j: int|
                    0 <= j < i ==> !((#[trigger] self@[j]).0 == start && self@[j].1 == end),
            decreases self.keys.len() - i,
        {
            if i >= self.keys.len() {
                return None;
            }
            let entry = self.keys[i];
            if entry.0 == start && entry.1 == end {
                proof {
                    assert(self@[i as int] == (start, end, entry.2));
                }
                return Some(entry.2);
            }
            i += 1;
        }
    }

    /// Remove all entries carrying the provided key.
    #[verifier::loop_isolation(false)]
    pub fn purge_key(&mut self, key: &[u8; 64])
        ensures
            final(self)@ == old(self)@.filter(|e: (u64, u64, Stake)| e.2.key@ != key@),
    {
        broadcast use Seq::lemma_filter_push;

        let ghost p = |e: (u64, u64, Stake)| e.2.key@ != key@;
        let mut kept: Vec<(u64, u64, Stake)> = Vec::new();
        let mut i: usize = 0;
        while i < self.keys.len()
            invariant
                0 <= i <= self.keys.len(),
                self@ == old(self)@,
                kept@ == self@.take(i as int).filter(p),
            decreases self.keys.len() - i,
        {
            proof {
                assert(self@.take(i + 1).drop_last() =~= self@.take(i as int));
                assert(self@.take(i + 1) =~= self@.take(i as int).push(self@[i as int]));
                self@.take(i as int).lemma_filter_push(self@[i as int], p);
            }
            let entry = self.keys[i];
            if !bytes64_eq(&entry.2.key, key) {
                kept.push(entry);
            }
            i += 1;
        }
        proof {
            assert(self@.take(self.keys@.len() as int) =~= self@);
        }
        self.keys = kept;
    }

    /// The total staked value over all entries whose range contains the
    /// height, saturating at the top of the value space.
    pub fn staked_at(&self, height: u64) -> (r: u64)
        ensures
            r == sum_staked(self@, height),
    {
        let mut total: u64 = 0;
        let mut i: usize = 0;
        while i < self.keys.len()
            invariant
                0 <= i <= self.keys.len(),
                total == sum_staked(self@.take(i as int), height),
            decreases self.keys.len() - i,
        {
            proof {
                assert(self@.take(i + 1).drop_last() =~= self@.take(i as int));
            }
            let entry = self.keys[i];
            if entry.0 <= height && height < entry.1 {
                total = total.saturating_add(entry.2.value);
            }
            i += 1;
        }
        proof {
            assert(self@.take(self.keys@.len() as int) =~= self@);
        }
        total
    }
}

/// The total staked value at a height, saturating at `u64::MAX`.
pub open spec fn sum_staked(s: StakeSeq, height: u64) -> u64
    decreases s.len(),
{
    if s.len() == 0 {
        0
    } else {
        let rest = sum_staked(s.drop_last(), height);
        let e = s.last();
        if e.0 <= height && height < e.1 {
            if rest + e.2.value <= u64::MAX {
                (rest + e.2.value) as u64
            } else {
                u64::MAX
            }
        } else {
            rest
        }
    }
}

proof fn lemma_stakes_put_found(s: StakeSeq, start: u64, end: u64, stake: Stake, i: int)
    requires
        0 <= i < s.len(),
        s[i].0 == start,
        s[i].1 == end,
        forall|j: int| 0 <= j < i ==> !((#[trigger] s[j]).0 == start && s[j].1 == end),
    ensures
        stakes_put(s, start, end, stake) == s.update(i, (start, end, stake)),
    decreases i,
{
    if i == 0 {
        assert(stakes_put(s, start, end, stake) =~= s.update(0, (start, end, stake)));
    } else {
        lemma_stakes_put_found(s.drop_first(), start, end, stake, i - 1);
        assert(seq![s[0]] + s.drop_first().update(i - 1, (start, end, stake)) =~= s.update(
            i,
            (start, end, stake),
        ));
    }
}

proof fn lemma_stakes_put_missing(s: StakeSeq, start: u64, end: u64, stake: Stake)
    requires
        forall|j: int| 0 <= j < s.len() ==> !((#[trigger] s[j]).0 == start && s[j].1 == end),
    ensures
        stakes_put(s, start, end, stake) == s.push((start, end, stake)),
    decreases s.len(),
{
    if s.len() == 0 {
        assert(stakes_put(s, start, end, stake) =~= s.push((start, end, stake)));
    } else {
        lemma_stakes_put_missing(s.drop_first(), start, end, stake);
        assert(seq![s[0]] + s.drop_first().push((start, end, stake)) =~= s.push(
            (start, end, stake),
        ));
    }
}

/// The plain content of a stake pool: each validator identity with its
/// stake table.
pub type StakePoolSeq = Seq<(Seq<u8>, StakeSeq)>;

/// The stake table of a validator, scanning from index `i`.
pub open spec fn pool_find_from(s: StakePoolSeq, validator: Seq<u8>, i: int) -> Option<StakeSeq>
    decreases s.len() - i,
{
    if i < 0 || i >= s.len() {
        None
    } else if s[i].0 == validator {
        Some(s[i].1)
    } else {
        pool_find_from(s, validator, i + 1)
    }
}

/// The stake table of a validator, if any.
pub open spec fn pool_find(s: StakePoolSeq, validator: Seq<u8>) -> Option<StakeSeq> {
    pool_find_from(s, validator, 0)
}

/// A stake pool, mapping a validator identity to a set of BFT stakes.
#[derive(Debug, Clone)]
pub struct StakePool {
    validators: Vec<([u8; 64], StakeKeys)>,
}

impl View for StakePool {
    type V = StakePoolSeq;

    closed spec fn view(&self) -> StakePoolSeq {
        Seq::new(self.validators@.len(), |i: int| (self.validators@[i].0@, self.validators@[i].1@))
    }
}

impl Default for StakePool {
    /// An empty pool.
    fn default() -> (r: Self)
        ensures
            r@.len() == 0,
    {
        Self { validators: Vec::new() }
    }
}

impl StakePool {
    /// Add a stake valid within the provided height bounds.
    ///
    /// The validator is the permanent identity of the staker, while the
    /// stake key is the volatile per-height key. Intersecting bounds merge
    /// if, and only if, key and value match; otherwise the function halts
    /// with a duplicated-stake error.
    pub fn stake(
        &mut self,
        validator: [u8; 64],
        start: HeightBound,
        end: HeightBound,
        stake: Stake,
    ) -> (r: Result<(), Error>)
        ensures
            r is Err ==> r->Err_0 matches Error::DuplicatedStake { .. },
            match pool_find(final(self)@, validator@) {
                Some(t) => {
                    let prior = match pool_find(old(self)@, validator@) {
                        Some(t0) => t0,
                        None => Seq::empty(),
                    };
                    let (s, e) = normal_range(start, end);
                    match merge_idx_from(prior, s, e, stake, 0) {
                        Some(j) => r is Ok && t == stakes_put(
                            prior.remove(j),
                            if prior[j].0 <= s {
                                prior[j].0
                            } else {
                                s
                            },
                            if prior[j].1 >= e {
                                prior[j].1
                            } else {
                                e
                            },
                            stake,
                        ),
                        None => match touch_idx_from(prior, s, e, 0) {
                            Some(k) => r is Err && t == prior,
                            None => r is Ok && t == stakes_put(prior, s, e, stake),
                        },
                    }
                },
                None => false,
            },
    {
        let mut i: usize = 0;
        loop
            invariant
                0 <= i <= self.validators.len(),
                self@ == old(self)@,
                pool_find(self@, validator@) == pool_find_from(self@, validator@, i as int),
                forall|j: int| 0 <= j < i ==> (#[trigger] self@[j]).0 != validator@,
            ensures
                self@ == old(self)@,
                pool_find(self@, validator@) is None,
                forall|j: int| 0 <= j < self@.len() ==> (#[trigger] self@[j]).0 != validator@,
            decreases self.validators.len() - i,
        {
            if i >= self.validators.len() {
                break;
            }
            if bytes64_eq(&self.validators[i].0, &validator) {
                let ghost pre_pool = self@;
                let mut entry = self.validators.remove(i);
                let r = entry.1.add_stake_range(start, end, stake);
                let ghost keys_after = entry.1@;
                self.validators.insert(i, entry);
                proof {
                    assert(self@ =~= pre_pool.update(i as int, (validator@, keys_after)));
                    lemma_pool_find_update(pre_pool, validator@, keys_after, i as int);
                }
                return r;
            }
            i += 1;
        }

        let mut keys = StakeKeys::default();
        let r = keys.add_stake_range(start, end, stake);
        let ghost pre_pool = self@;
        self.validators.push((validator, keys));
        proof {
            assert(self@ =~= pre_pool.push((validator@, keys@)));
            lemma_pool_find_push(pre_pool, validator@, keys@);
        }
        r
    }

    /// Remove all stake entries for the given validator, if present.
    pub fn clear(&mut self, validator: &[u8; 64])
        ensures
            match pool_find(old(self)@, validator@) {
                Some(_) => pool_find(final(self)@, validator@) matches Some(t) && t.len() == 0,
                None => final(self)@ == old(self)@,
            },
    {
        let mut i: usize = 0;
        loop
            invariant
                0 <= i <= self.validators.len(),
                self@ == old(self)@,
                pool_find(self@, validator@) == pool_find_from(self@, validator@, i as int),
                forall|j: int| 0 <= j < i ==> (#[trigger] self@[j]).0 != validator@,
            decreases self.validators.len() - i,
        {
            if i >= self.validators.len() {
                return ;
            }
            if bytes64_eq(&self.validators[i].0, validator) {
                let ghost pre_pool = self@;
                let mut entry = self.validators.remove(i);
                entry.1.clear();
                let ghost keys_after = entry.1@;
                self.validators.insert(i, entry);
                proof {
                    assert(self@ =~= pre_pool.update(i as int, (validator@, keys_after)));
                    lemma_pool_find_update(pre_pool, validator@, keys_after, i as int);
                }
                return ;
            }
            i += 1;
        }
    }

    /// Return the stake of a validator for a given height.
    pub fn fetch(&self, validator: &[u8; 64], height: u64) -> (r: Option<Stake>)
        ensures
            r == match pool_find(self@, validator@) {
                Some(t) => stake_at(t, height),
                None => None::<Stake>,
            },
    {
        let mut i: usize = 0;
        loop
            invariant
                0 <= i <= self.validators.len(),
                pool_find(self@, validator@) == pool_find_from(self@, validator@, i as int),
            decreases self.validators.len() - i,
        {
            if i >= self.validators.len() {
                return None;
            }
            if bytes64_eq(&self.validators[i].0, validator) {
                return self.validators[i].1.fetch(height);
            }
            i += 1;
        }
    }

    /// Remove every entry of every validator that carries the stake key.
    pub fn purge_key(&mut self, key: &[u8; 64])
        ensures
            final(self)@.len() == old(self)@.len(),
            forall|i: int|
                0 <= i < old(self)@.len() ==> #[trigger] final(self)@[i] == (
                    old(self)@[i].0,
                    old(self)@[i].1.filter(|e: (u64, u64, Stake)| e.2.key@ != key@),
                ),
    {
        let mut i: usize = 0;
        while i < self.validators.len()
            invariant
                0 <= i <= self.validators.len(),
                self@.len() == old(self)@.len(),
                forall|j: int|
                    i <= j < old(self)@.len() ==> #[trigger] self@[j] == old(self)@[j],
                forall|j: int|
                    0 <= j < i ==> #[trigger] self@[j] == (
                        old(self)@[j].0,
                        old(self)@[j].1.filter(|e: (u64, u64, Stake)| e.2.key@ != key@),
                    ),
            decreases self.validators.len() - i,
        {
            let ghost pre_pool = self@;
            let mut entry = self.validators.remove(i);
            entry.1.purge_key(key);
            let ghost keys_after = entry.1@;
            self.validators.insert(i, entry);
            proof {
                assert(self@ =~= pre_pool.update(
                    i as int,
                    (pre_pool[i as int].0, keys_after),
                ));
            }
            i += 1;
        }
    }

    /// The total staked value for a given height, over all validators,
    /// saturating at the top of the value space.
    pub fn total_staked(&self, height: u64) -> (r: u64)
        ensures
            r == sum_pool(self@, height),
    {
        let mut total: u64 = 0;
        let mut i: usize = 0;
        while i < self.validators.len()
            invariant
                0 <= i <= self.validators.len(),
                total == sum_pool(self@.take(i as int), height),
            decreases self.validators.len() - i,
        {
            proof {
                assert(self@.take(i + 1).drop_last() =~= self@.take(i as int));
            }
            let part = self.validators[i].1.staked_at(height);
            total = total.saturating_add(part);
            i += 1;
        }
        proof {
            assert(self@.take(self.validators@.len() as int) =~= self@);
        }
        total
    }
}

/// The total staked value at a height over a whole pool, saturating at
/// `u64::MAX`.
pub open spec fn sum_pool(s: StakePoolSeq, height: u64) -> u64
    decreases s.len(),
{
    if s.len() == 0 {
        0
    } else {
        let rest = sum_pool(s.drop_last(), height);
        let part = sum_staked(s.last().1, height);
        if rest + part <= u64::MAX {
            (rest + part) as u64
        } else {
            u64::MAX
        }
    }
}

proof fn lemma_pool_find_shift(s: StakePoolSeq, validator: Seq<u8>, i: int)
    requires
        0 <= i,
        s.len() > 0,
    ensures
        pool_find_from(s, validator, i + 1) == pool_find_from(s.drop_first(), validator, i),
    decreases s.len() - i,
{
    if i + 1 < s.len() {
        lemma_pool_find_shift(s, validator, i + 1);
    }
}

proof fn lemma_pool_find_update(s: StakePoolSeq, validator: Seq<u8>, t: StakeSeq, i: int)
    requires
        0 <= i < s.len(),
        s[i].0 == validator,
        forall|j: int| 0 <= j < i ==> (#[trigger] s[j]).0 != validator,
    ensures
        pool_find(s.update(i, (validator, t)), validator) == Some(t),
    decreases i,
{
    let out = s.update(i, (validator, t));
    if i == 0 {
    } else {
        lemma_pool_find_update(s.drop_first(), validator, t, i - 1);
        assert(out.drop_first() =~= s.drop_first().update(i - 1, (validator, t)));
        lemma_pool_find_shift(out, validator, 0);
    }
}

proof fn lemma_pool_find_push(s: StakePoolSeq, validator: Seq<u8>, t: StakeSeq)
    requires
        forall|j: int| 0 <= j < s.len() ==> (#[trigger] s[j]).0 != validator,
    ensures
        pool_find(s.push((validator, t)), validator) == Some(t),
    decreases s.len(),
{
    let out = s.push((validator, t));
    if s.len() == 0 {
    } else {
        lemma_pool_find_push(s.drop_first(), validator, t);
        assert(out.drop_first() =~= s.drop_first().push((validator, t)));
        lemma_pool_find_shift(out, validator, 0);
    }
}

} // verus!
