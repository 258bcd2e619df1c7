//! Per-pallet shares of the block weight.
//!
//! A [`PalletsWeightDistribution`] assigns each configured pallet a fraction of the
//! block's maximum weight. [`DifferentiatePallets::do_pre_dispatch`] charges each
//! transaction's weight to its pallet and rejects the transaction when the pallet's
//! running total for the block would exceed its share. [`Pallet::on_finalize`]
//! clears the running totals at the end of a block.

pub mod assoc;
pub mod differentiate_pallets;
pub mod limits;
pub mod per_bill;
pub mod weight;

pub use differentiate_pallets::{Config, DifferentiatePallets, InvalidTransaction, Pallet};
pub use limits::{
    PalletWeightDistributionError, PalletsWeightDistribution, PalletsWeightDistributionBuilder,
};
pub use per_bill::Perbill;
pub use weight::Weight;
