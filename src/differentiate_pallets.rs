//! The per-block admission check: each transaction's weight is charged to its pallet, and a
//! transaction that would take a limited pallet past its share of the block is rejected.

use vstd::prelude::*;
use crate::assoc::{entries_view, keys_unique, map_of, position_of};
use crate::limits::PalletsWeightDistribution;
use crate::per_bill::{Perbill, ACCURACY};
use crate::weight::{fits_within, saturated_sum, Weight};

verus! {

/// Why a transaction is not admitted.
#[derive(Clone, Copy, Debug, PartialEq, Eq, Structural)]
pub enum InvalidTransaction {
    /// The transaction would take its pallet past its share of the block weight.
    ExhaustsResources,
}

/// The runtime's parameters for the admission check.
#[derive(Debug)]
pub struct Config {
    /// Each limited pallet's fraction of the block weight.
    pub pallets_weight_distribution: PalletsWeightDistribution,
    /// The most weight that one block may hold.
    pub max_block: Weight,
    /// The fixed weight charged for every transaction on top of its own.
    pub base_extrinsic: Weight,
}

/// The most weight that a pallet with fraction `f` may use in a block of `max_block`.
pub open spec fn pallet_max_weight(f: Perbill, max_block: Weight) -> Weight {
    Weight {
        ref_time: (f@ * max_block.ref_time / (ACCURACY as int)) as u64,
        proof_size: (f@ * max_block.proof_size / (ACCURACY as int)) as u64,
    }
}

/// What `pallet` has used in this block; nothing where it has no entry.
pub open spec fn consumed_or_zero(consumed: Map<Seq<char>, Weight>, pallet: Seq<char>) -> Weight {
    if consumed.contains_key(pallet) {
        consumed[pallet]
    } else {
        Weight { ref_time: 0, proof_size: 0 }
    }
}

/// Every limited pallet's total is within its share of the block.
pub open spec fn within_limits(config: &Config, consumed: Map<Seq<char>, Weight>) -> bool {
    forall|k: Seq<char>|
        #[trigger] consumed.contains_key(k) ==> match config.pallets_weight_distribution.spec_get(
            k,
        ) {
            Some(f) => {
                let cap = pallet_max_weight(f, config.max_block);
                consumed[k].ref_time <= cap.ref_time && consumed[k].proof_size <= cap.proof_size
            },
            None => true,
        }
}

/// The outcome of one admission check: the result and the totals afterwards.
pub open spec fn pre_dispatch_outcome(
    config: &Config,
    consumed: Map<Seq<char>, Weight>,
    pallet_id: Seq<char>,
    weight: Weight,
) -> (Result<(), InvalidTransaction>, Map<Seq<char>, Weight>) {
    match config.pallets_weight_distribution.spec_get(pallet_id) {
        None => (Ok(()), consumed),
        Some(f) => {
            let cap = pallet_max_weight(f, config.max_block);
            let ext = saturated_sum(weight, config.base_extrinsic);
            let cur = consumed_or_zero(consumed, pallet_id);
            let ref_time = cur.ref_time + ext.ref_time;
            let proof_size = cur.proof_size + ext.proof_size;
            if fits_within(ref_time, proof_size, cap) {
                (
                    Ok(()),
                    consumed.insert(
                        pallet_id,
                        Weight { ref_time: ref_time as u64, proof_size: proof_size as u64 },
                    ),
                )
            } else {
                (Err(InvalidTransaction::ExhaustsResources), consumed)
            }
        },
    }
}

/// A transaction of a pallet without a configured fraction is admitted, and nothing is
/// charged for it.
pub proof fn lemma_unlimited_pallet_admitted(
    config: &Config,
    consumed: Map<Seq<char>, Weight>,
    pallet_id: Seq<char>,
    weight: Weight,
)
    requires
        config.pallets_weight_distribution.spec_get(pallet_id) is None,
    ensures
        pre_dispatch_outcome(config, consumed, pallet_id, weight)
            == (Ok::<(), InvalidTransaction>(()), consumed),
{
}

/// A block starts with every pallet within its share.
pub proof fn lemma_new_block_within_limits(config: &Config)
    ensures
        within_limits(config, Map::<Seq<char>, Weight>::empty()),
{
}

/// Whatever a transaction asks, every limited pallet stays within its share of the block:
/// an admitted transaction leaves its pallet's total at most `floor(f * max_block)` in each
/// dimension, and a rejected one changes nothing.
pub proof fn lemma_admission_keeps_limits(
    config: &Config,
    consumed: Map<Seq<char>, Weight>,
    pallet_id: Seq<char>,
    weight: Weight,
)
    requires
        within_limits(config, consumed),
    ensures
        within_limits(config, pre_dispatch_outcome(config, consumed, pallet_id, weight).1),
{
    let after = pre_dispatch_outcome(config, consumed, pallet_id, weight).1;
    assert forall|k: Seq<char>| #[trigger] after.contains_key(k) && k != pallet_id implies
        consumed.contains_key(k) by {}
}

/// The weight that each pallet has used in the current block.
#[derive(Debug)]
pub struct Pallet {
    consumed_weight: Vec<(String, Weight)>,
}

impl View for Pallet {
    type V = Map<Seq<char>, Weight>;

    /// Each pallet charged in this block, to its total.
    closed spec fn view(&self) -> Map<Seq<char>, Weight> {
        map_of(entries_view(self.consumed_weight@))
    }
}

impl Pallet {
    /// No pallet has two entries.
    pub closed spec fn wf(&self) -> bool {
        keys_unique(entries_view(self.consumed_weight@))
    }

    /// A pallet at the start of a block: nothing charged.
    pub fn new() -> (r: Self)
        ensures
            r.wf(),
            r@ == Map::<Seq<char>, Weight>::empty(),
    {
        let r = Pallet { consumed_weight: Vec::new() };
        assert(entries_view(r.consumed_weight@) =~= Seq::<(Seq<char>, Weight)>::empty());
        assert(r@ =~= Map::<Seq<char>, Weight>::empty());
        r
    }

    /// What `pallet` has used in this block, or `None` where nothing was charged to it.
    pub fn consumed_weight(&self, pallet: &str) -> (r: Option<Weight>)
        requires
            self.wf(),
        ensures
            r == (if self@.contains_key(pallet@) {
                Some(self@[pallet@])
            } else {
                None
            }),
    {
        let key = pallet.to_owned();
        match position_of(&self.consumed_weight, &key) {
            Some(i) => {
                proof {
                    crate::assoc::lemma_map_of_index(entries_view(self.consumed_weight@), i as int);
                }
                Some(self.consumed_weight[i].1)
            },
            None => None,
        }
    }

    /// End of block: forget all that was charged.
    pub fn on_finalize(&mut self)
        ensures
            final(self).wf(),
            final(self)@ == Map::<Seq<char>, Weight>::empty(),
            forall|k: Seq<char>|
                #[trigger] consumed_or_zero(final(self)@, k) == (Weight { ref_time: 0, proof_size: 0 }),
    {
        self.consumed_weight.clear();
        assert(entries_view(self.consumed_weight@) =~= Seq::<(Seq<char>, Weight)>::empty());
        assert(self@ =~= Map::<Seq<char>, Weight>::empty());
    }
}

/// The admission check for transactions, which charges each to its pallet.
#[derive(Clone, Copy, Debug, PartialEq, Eq, Structural)]
pub struct DifferentiatePallets {}

impl DifferentiatePallets {
    /// The admission check; it holds no state of its own.
    pub fn new() -> (r: Self) {
        DifferentiatePallets {}
    }

    /// Charge `weight`, plus the base weight of a transaction, to `pallet_id`.
    ///
    /// A pallet without a configured fraction is admitted and not charged. A limited
    /// pallet is charged only where its new total stays within its share of the block in
    /// both dimensions; otherwise the transaction is rejected and nothing changes.
    pub fn do_pre_dispatch(
        config: &Config,
        pallet: &mut Pallet,
        pallet_id: &str,
        weight: Weight,
    ) -> (r: Result<(), InvalidTransaction>)
        requires
            old(pallet).wf(),
        ensures
            final(pallet).wf(),
            (r, final(pallet)@) == pre_dispatch_outcome(config, old(pallet)@, pallet_id@, weight),
            within_limits(config, old(pallet)@) ==> within_limits(config, final(pallet)@),
    {
        let limit = match config.pallets_weight_distribution.get(pallet_id) {
            Some(limit) => *limit,
            None => return Ok(()),
        };
        let max_block = config.max_block;
        let pallet_max_weight = Weight::from_parts(
            limit.mul_floor(max_block.ref_time()),
            limit.mul_floor(max_block.proof_size()),
        );
        let extrinsic_weight = weight.saturating_add(config.base_extrinsic);
        let key = pallet_id.to_owned();
        let ghost s = entries_view(pallet.consumed_weight@);
        let pos = position_of(&pallet.consumed_weight, &key);
        let current = match pos {
            Some(i) => {
                proof {
                    crate::assoc::lemma_map_of_index(s, i as int);
                }
                pallet.consumed_weight[i].1
            },
            None => Weight::zero(),
        };
        assert(current == consumed_or_zero(old(pallet)@, pallet_id@));
        let new_weight = match current.checked_add(&extrinsic_weight) {
            Some(w) => w,
            None => return Err(InvalidTransaction::ExhaustsResources),
        };
        if !new_weight.all_lte(pallet_max_weight) {
            return Err(InvalidTransaction::ExhaustsResources);
        }
        match pos {
            Some(i) => {
                proof {
                    crate::assoc::lemma_map_of_update(s, i as int, new_weight);
                }
                pallet.consumed_weight.set(i, (key, new_weight));
                assert(entries_view(pallet.consumed_weight@) =~= s.update(
                    i as int,
                    (s[i as int].0, new_weight),
                ));
            },
            None => {
                proof {
                    crate::assoc::lemma_map_of_push(s, pallet_id@, new_weight);
                }
                pallet.consumed_weight.push((key, new_weight));
                assert(entries_view(pallet.consumed_weight@) =~= s.push((pallet_id@, new_weight)));
            },
        }
        proof {
            if within_limits(config, old(pallet)@) {
                lemma_admission_keeps_limits(config, old(pallet)@, pallet_id@, weight);
            }
        }
        Ok(())
    }
}

} // verus!
