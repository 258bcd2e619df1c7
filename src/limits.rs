//! Configuration of each pallet's share of the block weight.
//!
//! A [`PalletsWeightDistributionBuilder`] collects `(pallet, fraction)` entries; `build`
//! accepts them only where no pallet is named twice and the fractions add up to at most
//! one whole.

use vstd::prelude::*;
use crate::assoc::{entries_view, keys_unique, map_of, position_of};
use crate::per_bill::{Perbill, ACCURACY};

verus! {

/// Why a set of entries is not a valid distribution.
#[derive(Clone, Copy, Debug, PartialEq, Eq, Structural)]
pub enum PalletWeightDistributionError {
    /// A pallet is named by more than one entry.
    PalletAlreadyExists,
    /// The fractions add up to more than one whole.
    TotalWeightExceeded,
}

/// The sum of the fractions of `s`, in parts per billion.
pub open spec fn total_parts(s: Seq<(Seq<char>, Perbill)>) -> nat
    decreases s.len(),
{
    if s.len() == 0 {
        0
    } else {
        total_parts(s.drop_last()) + s.last().1@
    }
}

/// Whether entries make a valid distribution.
pub open spec fn valid_distribution(s: Seq<(Seq<char>, Perbill)>) -> bool {
    keys_unique(s) && total_parts(s) <= ACCURACY
}

/// A validated map from pallet name to its fraction of the block weight.
///
/// No pallet occurs twice, and the fractions add up to at most one whole.
#[derive(Debug)]
pub struct PalletsWeightDistribution {
    pallets: Vec<(String, Perbill)>,
}

impl View for PalletsWeightDistribution {
    type V = Seq<(Seq<char>, Perbill)>;

    /// The configured entries, in the order in which they were added.
    closed spec fn view(&self) -> Seq<(Seq<char>, Perbill)> {
        entries_view(self.pallets@)
    }
}

impl PalletsWeightDistribution {
    #[verifier::type_invariant]
    spec fn valid(self) -> bool {
        valid_distribution(entries_view(self.pallets@))
    }

    /// The fraction configured for `pallet`, if any.
    pub open spec fn spec_get(&self, pallet: Seq<char>) -> Option<Perbill> {
        if map_of(self@).contains_key(pallet) {
            Some(map_of(self@)[pallet])
        } else {
            None
        }
    }

    /// The distribution that limits no pallet.
    pub fn new() -> (r: Self)
        ensures
            r@ == Seq::<(Seq<char>, Perbill)>::empty(),
    {
        let r = PalletsWeightDistribution { pallets: Vec::new() };
        assert(entries_view(r.pallets@) =~= Seq::<(Seq<char>, Perbill)>::empty());
        r
    }

    /// Start building a distribution.
    pub fn build_with() -> (r: PalletsWeightDistributionBuilder)
        ensures
            r@ == Seq::<(Seq<char>, Perbill)>::empty(),
    {
        PalletsWeightDistributionBuilder::new()
    }

    /// The fraction configured for `pallet`, or `None` where the pallet is not limited.
    pub fn get(&self, pallet: &str) -> (r: Option<&Perbill>)
        ensures
            match r {
                Some(p) => self.spec_get(pallet@) == Some(*p),
                None => self.spec_get(pallet@) is None,
            },
    {
        proof {
            use_type_invariant(self);
        }
        let key = pallet.to_owned();
        match position_of(&self.pallets, &key) {
            Some(i) => {
                proof {
                    crate::assoc::lemma_map_of_index(self@, i as int);
                }
                Some(&self.pallets[i].1)
            },
            None => None,
        }
    }

    /// The configured entries, in the order in which they were added.
    pub fn entries(&self) -> (r: Vec<(String, Perbill)>)
        ensures
            entries_view(r@) == self@,
    {
        let ghost s = entries_view(self.pallets@);
        let mut r: Vec<(String, Perbill)> = Vec::new();
        let mut i: usize = 0;
        while i < self.pallets.len()
            invariant
                s == entries_view(self.pallets@),
                i <= self.pallets@.len(),
                entries_view(r@) == s.subrange(0, i as int),
            decreases self.pallets@.len() - i,
        {
            let entry = (self.pallets[i].0.clone(), self.pallets[i].1);
            assert(entry.0@ == s[i as int].0);
            assert(entry.1 == s[i as int].1);
            let ghost before = r@;
            r.push(entry);
            assert(entries_view(r@) =~= entries_view(before).push(s[i as int]));
            assert(entries_view(r@) =~= s.subrange(0, i + 1));
            i = i + 1;
        }
        assert(s.subrange(0, i as int) =~= s);
        r
    }

    /// The number of configured pallets.
    pub fn len(&self) -> (r: usize)
        ensures
            r == self@.len(),
    {
        self.pallets.len()
    }
}

impl Default for PalletsWeightDistribution {
    fn default() -> (r: Self)
        ensures
            r@ == Seq::<(Seq<char>, Perbill)>::empty(),
    {
        PalletsWeightDistribution::new()
    }
}

/// Collects entries for a [`PalletsWeightDistribution`]; nothing is checked before `build`.
#[derive(Debug)]
pub struct PalletsWeightDistributionBuilder {
    pallets: Vec<(String, Perbill)>,
}

impl View for PalletsWeightDistributionBuilder {
    type V = Seq<(Seq<char>, Perbill)>;

    /// The pending entries, in the order in which they were added.
    closed spec fn view(&self) -> Seq<(Seq<char>, Perbill)> {
        entries_view(self.pallets@)
    }
}

impl PalletsWeightDistributionBuilder {
    /// A builder with no entries.
    pub fn new() -> (r: Self)
        ensures
            r@ == Seq::<(Seq<char>, Perbill)>::empty(),
    {
        let r = PalletsWeightDistributionBuilder { pallets: Vec::new() };
        assert(entries_view(r.pallets@) =~= Seq::<(Seq<char>, Perbill)>::empty());
        r
    }

    /// Add `pallet` with the given fraction of the block weight.
    pub fn add(self, pallet: &str, fraction: Perbill) -> (r: Self)
        ensures
            r@ == self@.push((pallet@, fraction)),
    {
        let mut pallets = self.pallets;
        pallets.push((pallet.to_owned(), fraction));
        let r = PalletsWeightDistributionBuilder { pallets };
        assert(r@ =~= self@.push((pallet@, fraction)));
        r
    }

    /// Validate the entries: the fractions must add up to at most one whole, then no
    /// pallet may be named twice.
    pub fn build(self) -> (r: Result<PalletsWeightDistribution, PalletWeightDistributionError>)
        ensures
            total_parts(self@) > ACCURACY ==> r == Err::<PalletsWeightDistribution, _>(
                PalletWeightDistributionError::TotalWeightExceeded,
            ),
            total_parts(self@) <= ACCURACY && !keys_unique(self@) ==> r == Err::<
                PalletsWeightDistribution,
                _,
            >(PalletWeightDistributionError::PalletAlreadyExists),
            valid_distribution(self@) ==> r is Ok && r->Ok_0@ == self@,
    {
        let ghost s = self@;
        let n = self.pallets.len();
        let mut total = Perbill::zero();
        let mut i: usize = 0;
        while i < n
            invariant
                n == self.pallets@.len(),
                s == entries_view(self.pallets@),
                i <= n,
                total@ <= ACCURACY,
                total@ == total_parts(s.subrange(0, i as int)),
            decreases n - i,
        {
            assert(s.subrange(0, i + 1).drop_last() =~= s.subrange(0, i as int));
            match total.checked_add(self.pallets[i].1) {
                Some(t) => total = t,
                None => {
                    proof {
                        lemma_total_parts_prefix(s, i + 1);
                    }
                    return Err(PalletWeightDistributionError::TotalWeightExceeded);
                },
            }
            i = i + 1;
        }
        assert(s.subrange(0, n as int) =~= s);

        let mut pallets: Vec<(String, Perbill)> = Vec::new();
        let mut j: usize = 0;
        while j < n
            invariant
                n == self.pallets@.len(),
                s == entries_view(self.pallets@),
                total_parts(s) <= ACCURACY,
                j <= n,
                entries_view(pallets@) == s.subrange(0, j as int),
                keys_unique(s.subrange(0, j as int)),
            decreases n - j,
        {
            let entry = (self.pallets[j].0.clone(), self.pallets[j].1);
            match position_of(&pallets, &entry.0) {
                Some(k) => {
                    assert(entries_view(pallets@).len() == pallets@.len());
                    assert(s.len() == n);
                    assert(k < j);
                    assert(s.subrange(0, j as int)[k as int] == s[k as int]);
                    assert(entry.0@ == s[j as int].0);
                    assert(s[k as int].0 == s[j as int].0);
                    assert(!keys_unique(s));
                    return Err(PalletWeightDistributionError::PalletAlreadyExists);
                },
                None => {
                    proof {
                        crate::assoc::lemma_map_of_push(s.subrange(0, j as int), s[j as int].0, s[j as int].1);
                    }
                    pallets.push(entry);
                    assert(entries_view(pallets@) =~= s.subrange(0, j + 1));
                    assert(s.subrange(0, j as int).push(s[j as int]) =~= s.subrange(0, j + 1));
                },
            }
            j = j + 1;
        }
        assert(s.subrange(0, n as int) =~= s);
        Ok(PalletsWeightDistribution { pallets })
    }

    /// Validate the entries as `build` does; the caller vouches that they are valid.
    pub fn build_or_panic(self) -> (r: PalletsWeightDistribution)
        requires
            valid_distribution(self@),
        ensures
            r@ == self@,
    {
        match self.build() {
            Ok(d) => d,
            Err(_) => {
                proof {
                    assert(false);
                }
                PalletsWeightDistribution::new()
            },
        }
    }
}

/// The total of a prefix is at most the total of the whole.
pub proof fn lemma_total_parts_prefix(s: Seq<(Seq<char>, Perbill)>, i: int)
    requires
        0 <= i <= s.len(),
    ensures
        total_parts(s.subrange(0, i)) <= total_parts(s),
    decreases s.len() - i,
{
    if i < s.len() {
        lemma_total_parts_prefix(s, i + 1);
        assert(s.subrange(0, i + 1).drop_last() =~= s.subrange(0, i));
    } else {
        assert(s.subrange(0, i) =~= s);
    }
}

/// The order in which pallets are added does not matter to `build`: swapping two
/// neighbouring entries keeps the total of the fractions and whether a pallet is named twice.
/// Any reordering is a series of such swaps.
pub proof fn lemma_build_ignores_order(s: Seq<(Seq<char>, Perbill)>, i: int)
    requires
        0 <= i,
        i + 1 < s.len(),
    ensures
        total_parts(s.update(i, s[i + 1]).update(i + 1, s[i])) == total_parts(s),
        keys_unique(s.update(i, s[i + 1]).update(i + 1, s[i])) == keys_unique(s),
    decreases s.len(),
{
    let t = s.update(i, s[i + 1]).update(i + 1, s[i]);
    if s.len() == i + 2 {
        let p = s.subrange(0, i);
        assert(s.drop_last() =~= p.push(s[i]));
        assert(s.drop_last().drop_last() =~= p);
        assert(t.drop_last() =~= p.push(s[i + 1]));
        assert(t.drop_last().drop_last() =~= p);
        assert(total_parts(s.drop_last()) == total_parts(p) + s[i].1@);
        assert(total_parts(t.drop_last()) == total_parts(p) + s[i + 1].1@);
    } else {
        lemma_build_ignores_order(s.drop_last(), i);
        assert(t.drop_last() =~= s.drop_last().update(i, s[i + 1]).update(i + 1, s[i]));
    }
    let perm = |a: int|
        if a == i {
            i + 1
        } else if a == i + 1 {
            i
        } else {
            a
        };
    assert forall|a: int| 0 <= a < s.len() implies #[trigger] t[a] == s[perm(a)] by {}
    if keys_unique(s) {
        assert forall|a: int, b: int|
            0 <= a < t.len() && 0 <= b < t.len() && a != b implies #[trigger] t[a].0
            != #[trigger] t[b].0 by {
            assert(t[a] == s[perm(a)]);
            assert(t[b] == s[perm(b)]);
        }
    }
    if keys_unique(t) {
        assert forall|a: int, b: int|
            0 <= a < s.len() && 0 <= b < s.len() && a != b implies #[trigger] s[a].0
            != #[trigger] s[b].0 by {
            assert(t[perm(a)] == s[a]);
            assert(t[perm(b)] == s[b]);
        }
    }
}

} // verus!
