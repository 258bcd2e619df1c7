use pallet_quota::{
    Config, DifferentiatePallets, InvalidTransaction, Pallet, Perbill, PalletsWeightDistribution,
    Weight,
};

const WEIGHT_REF_TIME_PER_SECOND: u64 = 1_000_000_000_000;

fn runtime_config() -> Config {
    Config {
        pallets_weight_distribution: PalletsWeightDistribution::build_with()
            .add("System", Perbill::from_percent(50))
            .build_or_panic(),
        max_block: Weight::from_parts(2u64 * WEIGHT_REF_TIME_PER_SECOND, u64::MAX),
        base_extrinsic: Weight::from_parts(125_000_000, 0),
    }
}

fn scenario_config() -> Config {
    Config {
        pallets_weight_distribution: PalletsWeightDistribution::build_with()
            .add("A", Perbill::from_percent(50))
            .build_or_panic(),
        max_block: Weight::from_parts(1_000_000, 1_000_000),
        base_extrinsic: Weight::zero(),
    }
}

fn cost(c: u64) -> Weight {
    Weight::from_parts(c, 0)
}

#[test]
fn pallet_cannot_exceed_limit() {
    let config = runtime_config();
    let mut pallet = Pallet::new();
    let weight = config.max_block;

    assert_eq!(
        DifferentiatePallets::do_pre_dispatch(&config, &mut pallet, "System", weight),
        Err(InvalidTransaction::ExhaustsResources)
    );
    assert_eq!(pallet.consumed_weight("System"), None);
}

#[test]
fn pallet_can_pass_check() {
    let config = runtime_config();
    let mut pallet = Pallet::new();
    let weight = Weight::from_parts(1, 1);

    assert_eq!(
        DifferentiatePallets::do_pre_dispatch(&config, &mut pallet, "System", weight),
        Ok(())
    );

    assert!(pallet.consumed_weight("System").unwrap().all_gte(weight));

    assert_eq!(
        DifferentiatePallets::do_pre_dispatch(&config, &mut pallet, "System", weight),
        Ok(())
    );
}

#[test]
fn pallet_unlimited() {
    let config = runtime_config();
    let mut pallet = Pallet::new();
    let weight = config.max_block;

    assert_eq!(
        DifferentiatePallets::do_pre_dispatch(&config, &mut pallet, "Balances", weight),
        Ok(())
    );
    assert_eq!(pallet.consumed_weight("Balances"), None);
}

#[test]
fn base_weight_is_charged_with_each_transaction() {
    let config = runtime_config();
    let mut pallet = Pallet::new();
    let weight = Weight::from_parts(1, 1);
    assert_eq!(
        DifferentiatePallets::do_pre_dispatch(&config, &mut pallet, "System", weight),
        Ok(())
    );
    assert_eq!(
        DifferentiatePallets::do_pre_dispatch(&config, &mut pallet, "System", weight),
        Ok(())
    );
    assert_eq!(
        pallet.consumed_weight("System"),
        Some(Weight::from_parts(250_000_002, 2))
    );
}

#[test]
fn share_of_block_is_enforced_until_reset() {
    let config = scenario_config();
    let mut pallet = Pallet::new();

    assert_eq!(
        DifferentiatePallets::do_pre_dispatch(&config, &mut pallet, "A", cost(400_000)),
        Ok(())
    );
    assert_eq!(pallet.consumed_weight("A"), Some(cost(400_000)));
    assert_eq!(
        DifferentiatePallets::do_pre_dispatch(&config, &mut pallet, "A", cost(200_000)),
        Err(InvalidTransaction::ExhaustsResources)
    );
    assert_eq!(pallet.consumed_weight("A"), Some(cost(400_000)));
    assert_eq!(
        DifferentiatePallets::do_pre_dispatch(&config, &mut pallet, "B", cost(999_999_999)),
        Ok(())
    );
    assert_eq!(pallet.consumed_weight("B"), None);
}

#[test]
fn rejection_does_not_lock_out_pallet() {
    let config = scenario_config();
    let mut pallet = Pallet::new();

    assert!(DifferentiatePallets::do_pre_dispatch(&config, &mut pallet, "A", cost(400_000)).is_ok());
    assert!(DifferentiatePallets::do_pre_dispatch(&config, &mut pallet, "A", cost(200_000)).is_err());
    assert_eq!(
        DifferentiatePallets::do_pre_dispatch(&config, &mut pallet, "A", cost(50_000)),
        Ok(())
    );
    assert_eq!(pallet.consumed_weight("A"), Some(cost(450_000)));
}

#[test]
fn end_of_block_restarts_totals() {
    let config = scenario_config();
    let mut pallet = Pallet::new();

    assert!(DifferentiatePallets::do_pre_dispatch(&config, &mut pallet, "A", cost(400_000)).is_ok());
    assert!(DifferentiatePallets::do_pre_dispatch(&config, &mut pallet, "A", cost(200_000)).is_err());
    assert!(DifferentiatePallets::do_pre_dispatch(&config, &mut pallet, "A", cost(50_000)).is_ok());

    pallet.on_finalize();
    assert_eq!(pallet.consumed_weight("A"), None);
    pallet.on_finalize();
    assert_eq!(pallet.consumed_weight("A"), None);

    assert_eq!(
        DifferentiatePallets::do_pre_dispatch(&config, &mut pallet, "A", cost(500_000)),
        Ok(())
    );
    assert_eq!(pallet.consumed_weight("A"), Some(cost(500_000)));
}

#[test]
fn cap_is_exact_in_both_dimensions() {
    let config = scenario_config();
    let mut pallet = Pallet::new();

    assert_eq!(
        DifferentiatePallets::do_pre_dispatch(&config, &mut pallet, "A", Weight::from_parts(1, 500_001)),
        Err(InvalidTransaction::ExhaustsResources)
    );
    assert_eq!(
        DifferentiatePallets::do_pre_dispatch(&config, &mut pallet, "A", Weight::from_parts(500_000, 500_000)),
        Ok(())
    );
    assert_eq!(
        DifferentiatePallets::do_pre_dispatch(&config, &mut pallet, "A", Weight::from_parts(0, 0)),
        Ok(())
    );
    assert_eq!(
        DifferentiatePallets::do_pre_dispatch(&config, &mut pallet, "A", Weight::from_parts(1, 0)),
        Err(InvalidTransaction::ExhaustsResources)
    );
}

#[test]
fn overflowing_total_is_rejected() {
    let config = Config {
        pallets_weight_distribution: PalletsWeightDistribution::build_with()
            .add("A", Perbill::one())
            .build_or_panic(),
        max_block: Weight::from_parts(u64::MAX, u64::MAX),
        base_extrinsic: Weight::from_parts(1, 1),
    };
    let mut pallet = Pallet::new();

    assert_eq!(
        DifferentiatePallets::do_pre_dispatch(&config, &mut pallet, "A", Weight::from_parts(u64::MAX - 1, 0)),
        Ok(())
    );
    assert_eq!(pallet.consumed_weight("A"), Some(Weight::from_parts(u64::MAX, 1)));
    assert_eq!(
        DifferentiatePallets::do_pre_dispatch(&config, &mut pallet, "A", Weight::zero()),
        Err(InvalidTransaction::ExhaustsResources)
    );
    assert_eq!(pallet.consumed_weight("A"), Some(Weight::from_parts(u64::MAX, 1)));
}

#[test]
fn zero_share_admits_nothing_with_base_weight() {
    let config = Config {
        pallets_weight_distribution: PalletsWeightDistribution::build_with()
            .add("A", Perbill::zero())
            .build_or_panic(),
        max_block: Weight::from_parts(1_000, 1_000),
        base_extrinsic: Weight::from_parts(1, 0),
    };
    let mut pallet = Pallet::new();
    assert_eq!(
        DifferentiatePallets::do_pre_dispatch(&config, &mut pallet, "A", Weight::zero()),
        Err(InvalidTransaction::ExhaustsResources)
    );
    let _ = DifferentiatePallets::new();
}
