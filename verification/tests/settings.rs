use moonproto::settings::{
    ClientSettingsCommand, KernelLicenseStateCommand, LevManage, RuntimeStateCommand, SettingsState, UICommand,
};
use moonproto::shared_config::clipboard::gzip_compress;
use moonproto::shared_config::config::{serialize_payload, SharedConfig};
use moonproto::state::{MoonTime, SettingsEvent};

fn compact(uid: u64, x_sell: i32) -> ClientSettingsCommand {
    ClientSettingsCommand {
        uid,
        x_sell,
        x_sell_scalp: 10,
        x_tmode: false,
        fixed_sell_mode: false,
        fixed_sell_price: 0.0f64.to_bits(),
        price_drop_level: 0.0f32.to_bits(),
        trailing_drop: 0.0f32.to_bits(),
        trailing_stop: false,
        g_take_profit: 0.0f64.to_bits(),
        use_g_take_profit: false,
        panic_if_price_drop: false,
        buy_iceberg: false,
        sell_iceberg: false,
        sign_orders: true,
        coins_black_list_text: String::new(),
        use_coins_black_list: false,
        use_manual_strategy: false,
        free_position_check: false,
        vol_drop_level: 0,
        use_stop_market: false,
        s_price: [0.0f32.to_bits(); 6],
        sb_num: 0,
        join_sell_kind: 0,
    }
}

fn lev(uid: u64, fix_lev: i32, lev_control: &str) -> LevManage {
    LevManage {
        uid,
        cmd_ver: 1,
        auto_max_order: false,
        auto_lev_up: false,
        auto_isolated: false,
        auto_cross: false,
        auto_fix_lev: true,
        fix_lev,
        tlg_report: false,
        lev_control: lev_control.to_string(),
    }
}

fn apply_shared_config(st: &mut SettingsState, cfg: &SharedConfig) {
    let payload = serialize_payload(cfg).unwrap();
    let data = gzip_compress(&payload).unwrap();
    let event = st.apply(UICommand::SharedConfig { data });
    assert!(matches!(event, Some(SettingsEvent::SharedConfigUpdated)));
}

#[test]
fn client_settings_stores_snapshot() {
    let mut st = SettingsState::new();
    let ev = st.apply(UICommand::ClientSettings(compact(1, 50)));
    assert!(matches!(ev, Some(SettingsEvent::ClientSettingsUpdated)));
    assert_eq!(st.client_settings().unwrap().x_sell, 50);
}

#[test]
fn inbound_mm_orders_subscribe_is_ignored_like_delphi_client() {
    let mut st = SettingsState::new();
    let ev = st.apply(UICommand::MMOrdersSubscribe { uid: 1, subscribe: true });
    assert!(ev.is_none());
    assert!(st.client_settings().is_none());
}

#[test]
fn inbound_dex_switch_is_ignored_like_delphi_client() {
    let mut st = SettingsState::new();
    let ev = st.apply(UICommand::SwitchDex { uid: 1, dex_name: "Uni".to_string() });
    assert!(ev.is_none());
}

#[test]
fn inbound_spot_switch_is_ignored_like_delphi_client() {
    let mut st = SettingsState::new();
    // Spot market kind `Predict`.
    let ev = st.apply(UICommand::SwitchSpot { uid: 1, spot_index: 1 });
    assert!(ev.is_none());
}

#[test]
fn arb_activate_stores_valid_until() {
    let mut st = SettingsState::new();
    let ev = st.apply(UICommand::ArbActivateNotify { uid: 1, arb_valid: 45000.5f64.to_bits() });
    assert_eq!(st.arb_valid_until().map(f64::from_bits), Some(45000.5));
    assert!(matches!(
        ev,
        Some(SettingsEvent::ArbActivated { arb_valid_days, .. }) if f64::from_bits(arb_valid_days) == 45000.5
    ));
}

#[test]
fn lev_manage_stores_snapshot() {
    let mut st = SettingsState::new();
    let _ = st.apply(UICommand::LevManage(LevManage { auto_max_order: true, auto_isolated: true, ..lev(1, 10, "BTC") }));
    assert!(st.lev_manage().is_some());
    assert_eq!(st.lev_manage().unwrap().fix_lev, 10);
}

#[test]
fn shared_config_builder_requires_a_real_full_snapshot() {
    assert!(SettingsState::new().build_shared_config().is_none());
}

#[test]
fn full_snapshot_supersedes_older_compact_settings() {
    let mut st = SettingsState::new();
    st.apply(UICommand::ClientSettings(compact(0, 25)));

    let mut full = SharedConfig::default();
    full.trading.x_sell = 75;
    apply_shared_config(&mut st, &full);

    assert_eq!(st.build_shared_config().unwrap().trading.x_sell, 75);
}

#[test]
fn newer_compact_settings_are_overlaid_on_the_full_snapshot() {
    let mut st = SettingsState::new();
    let mut full = SharedConfig::default();
    full.trading.x_sell = 75;
    apply_shared_config(&mut st, &full);

    st.apply(UICommand::ClientSettings(compact(0, 25)));

    assert_eq!(st.build_shared_config().unwrap().trading.x_sell, 25);
}

#[test]
fn leverage_overlay_uses_the_same_receive_order_rule() {
    let mut st = SettingsState::new();
    st.apply(UICommand::LevManage(lev(1, 12, "")));
    let mut full = SharedConfig::default();
    full.trading.auto_manage_lev.fix_lev = 20;
    apply_shared_config(&mut st, &full);
    assert_eq!(st.build_shared_config().unwrap().trading.auto_manage_lev.fix_lev, 20);

    st.apply(UICommand::LevManage(lev(2, 15, "")));
    assert_eq!(st.build_shared_config().unwrap().trading.auto_manage_lev.fix_lev, 15);
}

#[test]
fn runtime_state_stores_snapshot() {
    let mut st = SettingsState::new();
    let ev = st.apply(UICommand::RuntimeState(RuntimeStateCommand { uid: 1, is_started: true, auto_detect_active: false }));
    assert!(matches!(ev, Some(SettingsEvent::RuntimeStateUpdated)));
    let runtime = st.runtime_state().unwrap();
    assert!(runtime.is_started);
    assert!(!runtime.auto_detect_active);
}

#[test]
fn kernel_license_state_stores_snapshot() {
    let mut st = SettingsState::new();
    let ev = st.apply(UICommand::KernelLicenseState(KernelLicenseStateCommand {
        uid: 1,
        paid_version: true,
        reg_id: 42,
        order_count: 3,
        use_moon_strike: true,
        use_load_charts: false,
        use_web_hook: true,
        use_moon_streamer: false,
        use_algo_mod: true,
        use_ref_mod: false,
        use_back_mod: true,
        news_valid_until: Some(MoonTime { unix_millis: 1_000 }),
        news_trial_used: true,
        arb_active: false,
        arb_valid_until: Some(MoonTime { unix_millis: 2_000 }),
        moon_credits: 100,
        moon_credits_hold: 20,
        moon_credits_auction: 7,
        can_use_watcher: true,
    }));
    assert!(matches!(ev, Some(SettingsEvent::KernelLicenseStateUpdated)));
    let state = st.kernel_license_state().unwrap();
    assert!(state.paid_version);
    assert_eq!(state.reg_id, 42);
    assert_eq!(state.moon_credits, 100);
    assert!(state.can_use_watcher);
}

#[test]
fn hyperliquid_request_limit_updates_and_clears_state() {
    let mut st = SettingsState::new();
    let ev = st.apply(UICommand::HyperliquidRequestLimitState { uid: 1, requests_left: Some(12_345) });
    assert!(matches!(ev, Some(SettingsEvent::HyperliquidRequestLimitUpdated)));
    assert_eq!(st.hyperliquid_requests_left(), Some(12_345));

    st.apply(UICommand::HyperliquidRequestLimitState { uid: 2, requests_left: None });
    assert_eq!(st.hyperliquid_requests_left(), None);
}

#[test]
fn action_commands_pass_through_without_state() {
    let mut st = SettingsState::new();
    let ev = st.apply(UICommand::StratStartStop { uid: 1, is_start: true });
    assert!(ev.is_none());
    // No retained state changes.
    assert!(st.client_settings().is_none());

    let ev = st.apply(UICommand::RestartNow { uid: 2 });
    assert!(ev.is_none());
    assert!(st.runtime_state().is_none());

    let ev = st.apply(UICommand::KernelLicenseStateRequest { uid: 3, activate_feature: 0 });
    assert!(ev.is_none());
    assert!(st.kernel_license_state().is_none());
}

#[test]
fn broken_full_snapshot_is_dropped() {
    let mut st = SettingsState::new();
    let mut full = SharedConfig::default();
    full.trading.x_sell = 75;
    apply_shared_config(&mut st, &full);
    let ev = st.apply(UICommand::SharedConfig { data: vec![1, 2, 3] });
    assert!(ev.is_none());
    assert_eq!(st.shared_config().unwrap().trading.x_sell, 75);
    let garbage = gzip_compress(b"not a payload").unwrap();
    assert!(st.apply(UICommand::SharedConfig { data: garbage }).is_none());
    assert_eq!(st.build_shared_config().unwrap().trading.x_sell, 75);
}

#[test]
fn compact_and_leverage_overlays_combine_and_keep_the_rest() {
    let mut st = SettingsState::new();
    let mut full = SharedConfig::default();
    full.trading.x_sell = 75;
    full.trading.max_orders = 11;
    apply_shared_config(&mut st, &full);
    let mut c = compact(1, 30);
    c.coins_black_list_text = "DOGE".to_string();
    c.sb_num = 4;
    c.join_sell_kind = 2;
    st.apply(UICommand::ClientSettings(c));
    st.apply(UICommand::LevManage(lev(2, 7, "ETH")));
    let built = st.build_shared_config().unwrap();
    assert_eq!(built.trading.x_sell, 30);
    assert_eq!(built.trading.coins_black_list_text, "DOGE");
    assert_eq!(built.ui.hotkeys_config.sb_num, 4);
    assert_eq!(built.trading.multi_orders.join_sell_kind, 2);
    assert_eq!(built.trading.auto_manage_lev.fix_lev, 7);
    assert_eq!(built.trading.auto_lev_control, "ETH");
    assert_eq!(built.trading.max_orders, 11);
    // The kept snapshot itself is not changed by building.
    assert_eq!(st.shared_config().unwrap().trading.x_sell, 75);
}

#[test]
fn version_update_is_passed_on_without_state() {
    let mut st = SettingsState::new();
    let ev = st.apply(UICommand::UpdateVersion { uid: 9, version_name: "7.1".to_string(), is_release: true });
    assert!(matches!(ev, Some(SettingsEvent::VersionUpdate { ref version_name, is_release: true, .. }) if version_name == "7.1"));
    assert!(st.client_settings().is_none());
}

#[test]
fn parse_fallback_follows_the_last_compact_snapshot() {
    let mut st = SettingsState::new();
    assert_eq!(st.client_settings_parse_fallback().x_sell, 0);
    assert!(st.client_settings_parse_fallback().coins_black_list_text.is_empty());
    let mut c = compact(4, 33);
    c.coins_black_list_text = "BNB".to_string();
    st.apply(UICommand::ClientSettings(c));
    assert_eq!(st.client_settings_parse_fallback().x_sell, 33);
    assert_eq!(st.client_settings_parse_fallback().coins_black_list_text, "BNB");
}
