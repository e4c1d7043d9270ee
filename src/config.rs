use crate::bonding_curve::BondingCurve;
use vstd::prelude::*;

verus! {

/// A 32-byte account address.
pub type Address = [u8; 32];

/// Settings shared by every curve: who may change them, where fees and
/// proceeds go, the fee rates in basis points, and the shape of new curves.
#[derive(Clone, Copy, Debug, PartialEq, Eq)]
pub struct GlobalConfig {
    pub authority: Address,
    pub fee_recipient: Address,
    pub migration_account: Address,
    pub deploy_fee: u64,
    pub buy_fee_bps: u16,
    pub sell_fee_bps: u16,
    pub token_supply: u64,
    pub token_threshold: u64,
    pub curve_a: u64,
}

/// The configuration as first set, one value for each field.
pub fn initialize(
    authority: Address,
    fee_recipient: Address,
    migration_account: Address,
    deploy_fee: u64,
    buy_fee_bps: u16,
    sell_fee_bps: u16,
    token_supply: u64,
    token_threshold: u64,
    curve_a: u64,
) -> (r: GlobalConfig)
    ensures
        r == (GlobalConfig {
            authority,
            fee_recipient,
            migration_account,
            deploy_fee,
            buy_fee_bps,
            sell_fee_bps,
            token_supply,
            token_threshold,
            curve_a,
        }),
{
    GlobalConfig {
        authority,
        fee_recipient,
        migration_account,
        deploy_fee,
        buy_fee_bps,
        sell_fee_bps,
        token_supply,
        token_threshold,
        curve_a,
    }
}

/// `new` where it is `Some`, else `current`.
pub open spec fn override_with<T>(current: T, new: Option<T>) -> T {
    match new {
        Some(v) => v,
        None => current,
    }
}

/// Replaces each field for which a new value is given and keeps the others.
pub fn update_config(
    config: &mut GlobalConfig,
    authority: Option<Address>,
    fee_recipient: Option<Address>,
    migration_account: Option<Address>,
    deploy_fee: Option<u64>,
    buy_fee_bps: Option<u16>,
    sell_fee_bps: Option<u16>,
    token_supply: Option<u64>,
    token_threshold: Option<u64>,
    curve_a: Option<u64>,
)
    ensures
        *final(config) == (GlobalConfig {
            authority: override_with(old(config).authority, authority),
            fee_recipient: override_with(old(config).fee_recipient, fee_recipient),
            migration_account: override_with(old(config).migration_account, migration_account),
            deploy_fee: override_with(old(config).deploy_fee, deploy_fee),
            buy_fee_bps: override_with(old(config).buy_fee_bps, buy_fee_bps),
            sell_fee_bps: override_with(old(config).sell_fee_bps, sell_fee_bps),
            token_supply: override_with(old(config).token_supply, token_supply),
            token_threshold: override_with(old(config).token_threshold, token_threshold),
            curve_a: override_with(old(config).curve_a, curve_a),
        }),
{
    if let Some(v) = authority {
        config.authority = v;
    }
    if let Some(v) = fee_recipient {
        config.fee_recipient = v;
    }
    if let Some(v) = migration_account {
        config.migration_account = v;
    }
    if let Some(v) = deploy_fee {
        config.deploy_fee = v;
    }
    if let Some(v) = buy_fee_bps {
        config.buy_fee_bps = v;
    }
    if let Some(v) = sell_fee_bps {
        config.sell_fee_bps = v;
    }
    if let Some(v) = token_supply {
        config.token_supply = v;
    }
    if let Some(v) = token_threshold {
        config.token_threshold = v;
    }
    if let Some(v) = curve_a {
        config.curve_a = v;
    }
}

/// The curve of a newly created token, shaped by the current configuration:
/// nothing collected and the whole threshold for sale.
pub fn create(config: &GlobalConfig) -> (r: BondingCurve)
    requires
        config.curve_a > 0,
    ensures
        r.wf(),
        r == (BondingCurve {
            reserve_sol: 0,
            reserve_token: config.token_threshold,
            token_threshold: config.token_threshold,
            curve_a: config.curve_a,
        }),
{
    BondingCurve::new(config.token_threshold, config.curve_a)
}

} // verus!
