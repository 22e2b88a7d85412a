use moonproto::state::{BalancesState, GlobalBalance};

fn with_wallet(amount: f64) -> GlobalBalance {
    GlobalBalance { btc_balance_total: amount.to_bits(), btc_balance_full: amount.to_bits(), ..GlobalBalance::default() }
}

#[test]
fn balance_hash_matches_wrapping_double_bit_vectors() {
    for (amount, expected) in [
        (0.0, 0),
        (1.0, 0x8b1b_c328_5493_7bd6),
        (4.0, 0xde8d_19eb_f675_6ec0),
        (100.0, 0x48d3_a0e2_cff8_33ea),
        (200.0, 0xeada_57da_504c_11c1),
        (375.0, 0x8214_49a1_5269_f5ba),
        (786.0, 0x0625_72a4_51ca_b7ec),
        (0.01, 0x3eb3_0d49_117d_216e),
        (-42.4, 0x977e_efc8_d31e_e67a),
    ] {
        let global = with_wallet(amount);
        assert_eq!(global.balance_hash(), expected, "amount={amount}");
    }
}

#[test]
fn balance_hash_does_not_cancel_equal_wallet_fields() {
    let mut seen = std::collections::HashSet::new();
    for amount in 0..100_000 {
        let global = with_wallet(amount as f64);
        assert!(seen.insert(global.balance_hash()), "collision at {amount}");
    }
}

#[test]
fn balance_hash_uses_all_four_wire_totals_but_not_derived_pnl() {
    let global = GlobalBalance::default();
    let two = 2.0f64.to_bits();
    let variants = [
        GlobalBalance { btc_balance_total: two, ..global },
        GlobalBalance { btc_balance_locked: two, ..global },
        GlobalBalance { btc_balance_full: two, ..global },
        GlobalBalance { special_coin_balance: two, ..global },
    ];
    let hashes: std::collections::HashSet<_> = variants.iter().map(GlobalBalance::balance_hash).collect();
    assert_eq!(hashes.len(), variants.len());
    assert!(!hashes.contains(&global.balance_hash()));
    assert_eq!(global.balance_hash(), GlobalBalance { total_pnl: 123.0f64.to_bits(), ..global }.balance_hash());
}

#[test]
fn new_and_cleared_balances_are_zero() {
    let mut s = BalancesState::new();
    assert_eq!(s.global().total_pnl, 0);
    assert_eq!(s.last_epoch, 0);
    s.global.btc_balance_total = 1.0f64.to_bits();
    s.last_epoch = 5;
    s.clear();
    assert_eq!(*s.global(), GlobalBalance::default());
    assert_eq!(s.last_epoch, 0);
}
