use meme_pad::bonding_curve::BondingCurve;
use meme_pad::config::{create, initialize, update_config, GlobalConfig};

fn sample() -> GlobalConfig {
    initialize([1; 32], [2; 32], [3; 32], 20_000_000, 100, 150, 1_000_000_000_000_000, 793_099_999_845_341, 2_720_310_557)
}

#[test]
fn initialize_sets_every_field() {
    let c = sample();
    assert_eq!(c.authority, [1; 32]);
    assert_eq!(c.fee_recipient, [2; 32]);
    assert_eq!(c.migration_account, [3; 32]);
    assert_eq!(c.deploy_fee, 20_000_000);
    assert_eq!(c.buy_fee_bps, 100);
    assert_eq!(c.sell_fee_bps, 150);
    assert_eq!(c.token_supply, 1_000_000_000_000_000);
    assert_eq!(c.token_threshold, 793_099_999_845_341);
    assert_eq!(c.curve_a, 2_720_310_557);
}

#[test]
fn update_config_replaces_only_given_fields() {
    let mut c = sample();
    update_config(&mut c, None, Some([9; 32]), None, None, Some(250), None, None, Some(5), None);
    let mut expected = sample();
    expected.fee_recipient = [9; 32];
    expected.buy_fee_bps = 250;
    expected.token_threshold = 5;
    assert_eq!(c, expected);
    let before = c;
    update_config(&mut c, None, None, None, None, None, None, None, None, None);
    assert_eq!(c, before);
    update_config(&mut c, Some([7; 32]), Some([8; 32]), Some([6; 32]), Some(1), Some(2), Some(3), Some(4), Some(5), Some(6));
    assert_eq!(c, initialize([7; 32], [8; 32], [6; 32], 1, 2, 3, 4, 5, 6));
}

#[test]
fn create_starts_a_full_curve() {
    let c = sample();
    assert_eq!(
        create(&c),
        BondingCurve { reserve_sol: 0, reserve_token: 793_099_999_845_341, token_threshold: 793_099_999_845_341, curve_a: 2_720_310_557 }
    );
}
