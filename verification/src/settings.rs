//! Settings sync state: the latest settings snapshots received from the core.
//!
//! The state keeps the latest snapshot of each settings command; applying
//! them to an application's UI or engine is the consumer's business. Action
//! commands that clients send to the core are ignored if they ever arrive.

use crate::shared_config::clipboard::{gzip_decompress, gzip_decompress_spec};
use crate::shared_config::config::{parse_payload, payload_holds, payload_ok, SharedConfig};
use crate::shared_config::float_records::{HotkeysConfig, MultiOrdersConfig, OrdersControl};
use crate::shared_config::records::AutoManageLevConfig;
use crate::shared_config::trading::TradingSection;
use crate::shared_config::ui::UiSection;
use crate::state::{MoonTime, SettingsEvent};
use vstd::prelude::*;

verus! {

/// The compact client-settings snapshot: the fields that the state keeps and
/// that overlay the safe-share config. Float fields are IEEE-754 bits.
#[derive(Debug, Clone)]
pub struct ClientSettingsCommand {
    pub uid: u64,
    pub x_sell: i32,
    pub x_sell_scalp: i32,
    pub x_tmode: bool,
    pub fixed_sell_mode: bool,
    /// (IEEE-754 bits of the `f64` value.)
    pub fixed_sell_price: u64,
    /// (IEEE-754 bits of the `f32` value.)
    pub price_drop_level: u32,
    /// (IEEE-754 bits of the `f32` value.)
    pub trailing_drop: u32,
    pub trailing_stop: bool,
    /// (IEEE-754 bits of the `f64` value.)
    pub g_take_profit: u64,
    pub use_g_take_profit: bool,
    pub panic_if_price_drop: bool,
    pub buy_iceberg: bool,
    pub sell_iceberg: bool,
    pub sign_orders: bool,
    pub coins_black_list_text: String,
    pub use_coins_black_list: bool,
    pub use_manual_strategy: bool,
    pub free_position_check: bool,
    pub vol_drop_level: i32,
    pub use_stop_market: bool,
    /// Hotkey sell prices (IEEE-754 bits of the `f32` values).
    pub s_price: [u32; 6],
    pub sb_num: u8,
    pub join_sell_kind: u8,
}

/// Whether `a` and `b` hold the same compact settings (texts by their characters).
pub open spec fn same_client_settings(a: ClientSettingsCommand, b: ClientSettingsCommand) -> bool {
    &&& a.coins_black_list_text@ == b.coins_black_list_text@
    &&& a == (ClientSettingsCommand { coins_black_list_text: a.coins_black_list_text, ..b })
}

/// A copy of compact settings.
fn copy_client_settings(c: &ClientSettingsCommand) -> (r: ClientSettingsCommand)
    ensures
        same_client_settings(r, *c),
{
    ClientSettingsCommand { coins_black_list_text: c.coins_black_list_text.clone(), ..*c }
}

impl ClientSettingsCommand {
    /// Whether every field is zero, false or empty.
    pub open spec fn is_default(&self) -> bool {
        &&& self.coins_black_list_text@ == Seq::<char>::empty()
        &&& *self == (ClientSettingsCommand {
            uid: 0,
            x_sell: 0,
            x_sell_scalp: 0,
            x_tmode: false,
            fixed_sell_mode: false,
            fixed_sell_price: 0,
            price_drop_level: 0,
            trailing_drop: 0,
            trailing_stop: false,
            g_take_profit: 0,
            use_g_take_profit: false,
            panic_if_price_drop: false,
            buy_iceberg: false,
            sell_iceberg: false,
            sign_orders: false,
            coins_black_list_text: self.coins_black_list_text,
            use_coins_black_list: false,
            use_manual_strategy: false,
            free_position_check: false,
            vol_drop_level: 0,
            use_stop_market: false,
            s_price: [0u32, 0u32, 0u32, 0u32, 0u32, 0u32],
            sb_num: 0,
            join_sell_kind: 0,
        })
    }
}

impl Default for ClientSettingsCommand {
    fn default() -> (r: Self)
        ensures
            r.is_default(),
    {
        ClientSettingsCommand {
            uid: 0,
            x_sell: 0,
            x_sell_scalp: 0,
            x_tmode: false,
            fixed_sell_mode: false,
            fixed_sell_price: 0,
            price_drop_level: 0,
            trailing_drop: 0,
            trailing_stop: false,
            g_take_profit: 0,
            use_g_take_profit: false,
            panic_if_price_drop: false,
            buy_iceberg: false,
            sell_iceberg: false,
            sign_orders: false,
            coins_black_list_text: String::new(),
            use_coins_black_list: false,
            use_manual_strategy: false,
            free_position_check: false,
            vol_drop_level: 0,
            use_stop_market: false,
            s_price: [0u32, 0u32, 0u32, 0u32, 0u32, 0u32],
            sb_num: 0,
            join_sell_kind: 0,
        }
    }
}

/// Leverage-management settings snapshot.
#[derive(Debug, Clone)]
pub struct LevManage {
    pub uid: u64,
    pub cmd_ver: u16,
    pub auto_max_order: bool,
    pub auto_lev_up: bool,
    pub auto_isolated: bool,
    pub auto_cross: bool,
    pub auto_fix_lev: bool,
    pub fix_lev: i32,
    pub tlg_report: bool,
    pub lev_control: String,
}

/// Started/passive-mode state of the MoonBot core.
#[derive(Debug, Clone, Copy)]
pub struct RuntimeStateCommand {
    pub uid: u64,
    pub is_started: bool,
    pub auto_detect_active: bool,
}

/// License, module and MoonCredits state of the core.
#[derive(Debug, Clone, Copy)]
pub struct KernelLicenseStateCommand {
    pub uid: u64,
    pub paid_version: bool,
    pub reg_id: i64,
    pub order_count: i32,
    pub use_moon_strike: bool,
    pub use_load_charts: bool,
    pub use_web_hook: bool,
    pub use_moon_streamer: bool,
    pub use_algo_mod: bool,
    pub use_ref_mod: bool,
    pub use_back_mod: bool,
    pub news_valid_until: Option<MoonTime>,
    pub news_trial_used: bool,
    pub arb_active: bool,
    pub arb_valid_until: Option<MoonTime>,
    pub moon_credits: i64,
    pub moon_credits_hold: i64,
    pub moon_credits_auction: i64,
    pub can_use_watcher: bool,
}

/// An inbound settings-level command.
#[derive(Debug, Clone)]
pub enum UICommand {
    /// Full compact settings snapshot.
    ClientSettings(ClientSettingsCommand),
    /// Gzip-compressed safe-share payload: the full settings snapshot.
    SharedConfig { data: Vec<u8> },
    /// Leverage-management snapshot.
    LevManage(LevManage),
    /// Core runtime state.
    RuntimeState(RuntimeStateCommand),
    /// License state.
    KernelLicenseState(KernelLicenseStateCommand),
    /// Remaining HyperLiquid address-level action requests; `None` clears it.
    HyperliquidRequestLimitState { uid: u64, requests_left: Option<u64> },
    /// Arbitrage valid-until, as the IEEE-754 bits of a Delphi day count.
    ArbActivateNotify { uid: u64, arb_valid: u64 },
    /// Remote update command.
    UpdateVersion { uid: u64, version_name: String, is_release: bool },
    /// Request for the settings snapshots (client to core).
    SettingsRequest { uid: u64 },
    /// Start or stop strategies (client to core).
    StratStartStop { uid: u64, is_start: bool },
    /// Subscribe to market-maker orders (client to core).
    MMOrdersSubscribe { uid: u64, subscribe: bool },
    /// Switch the DEX (client to core).
    SwitchDex { uid: u64, dex_name: String },
    /// Switch the spot market kind (client to core).
    SwitchSpot { uid: u64, spot_index: u8 },
    /// Restart the core (client to core).
    RestartNow { uid: u64 },
    /// Request the license state (client to core).
    KernelLicenseStateRequest { uid: u64, activate_feature: u8 },
    /// Any other client-to-core action command, by its id.
    OtherAction { cmd_id: u8, uid: u64 },
    /// Internal trigger to refresh the market listing.
    NewMarketNotify { uid: u64 },
    /// Command from a future protocol version.
    Skipped { cmd_id: u8, uid: u64, ver: u16 },
    /// Unknown subcommand.
    Unknown { cmd_id: u8, uid: u64 },
}

/// What the settings state holds.
pub struct SettingsView {
    pub client_settings: Option<ClientSettingsCommand>,
    /// Settings whose fields fill in what an older compact packet omits: the
    /// last compact snapshot, or the defaults before any.
    pub client_settings_fallback: ClientSettingsCommand,
    pub lev_manage: Option<LevManage>,
    /// The last full snapshot: its payload bytes and the config parsed from them.
    pub full: Option<(Seq<u8>, SharedConfig)>,
    pub update_revision: u64,
    pub client_settings_revision: u64,
    pub lev_manage_revision: u64,
    pub shared_config_revision: u64,
    pub runtime_state: Option<RuntimeStateCommand>,
    pub kernel_license_state: Option<KernelLicenseStateCommand>,
    pub hyperliquid_requests_left: Option<u64>,
    pub arb_valid_until: Option<u64>,
}

/// The revision after `u`: one more, and after the largest one, one again.
pub open spec fn next_revision(u: u64) -> u64 {
    if u == u64::MAX {
        1
    } else {
        (u + 1) as u64
    }
}

/// The payload of a full snapshot from its compressed bytes, if it unpacks
/// and parses.
pub open spec fn full_snapshot_of(z: Seq<u8>) -> Option<Seq<u8>> {
    match gzip_decompress_spec(z) {
        Ok(p) => if payload_ok(p) {
            Some(p)
        } else {
            None
        },
        Err(_) => None,
    }
}

/// The compact settings that arrived after the last full snapshot, if any.
pub open spec fn newer_client(v: SettingsView) -> Option<ClientSettingsCommand> {
    if v.client_settings_revision > v.shared_config_revision {
        v.client_settings
    } else {
        None
    }
}

/// The leverage settings that arrived after the last full snapshot, if any.
pub open spec fn newer_lev(v: SettingsView) -> Option<LevManage> {
    if v.lev_manage_revision > v.shared_config_revision {
        v.lev_manage
    } else {
        None
    }
}

/// `c` is `base` with the compact settings laid over it (`c == base` when there are none).
pub open spec fn client_laid(base: SharedConfig, client: Option<ClientSettingsCommand>, c: SharedConfig) -> bool {
    match client {
        None => c == base,
        Some(s) => {
            &&& c == (SharedConfig {
                trading: TradingSection {
                    x_sell: s.x_sell,
                    x_sell_scalp: s.x_sell_scalp,
                    x_t_mode: s.x_tmode,
                    fixed_sell_mode: s.fixed_sell_mode,
                    fixed_sell_price: s.fixed_sell_price,
                    price_drop_level: s.price_drop_level,
                    trailing_drop: s.trailing_drop,
                    trailing_stop: s.trailing_stop,
                    g_take_profit: s.g_take_profit,
                    use_g_take_profit: s.use_g_take_profit,
                    panic_if_price_drop: s.panic_if_price_drop,
                    buy_iceberg: s.buy_iceberg,
                    sell_iceberg: s.sell_iceberg,
                    orders_control: OrdersControl { sign_orders: s.sign_orders, ..base.trading.orders_control },
                    coins_black_list_text: c.trading.coins_black_list_text,
                    use_coins_black_list: s.use_coins_black_list,
                    use_manual_strategy: s.use_manual_strategy,
                    free_position_check: s.free_position_check,
                    vol_drop_level: s.vol_drop_level,
                    use_stop_market: s.use_stop_market,
                    multi_orders: MultiOrdersConfig { join_sell_kind: s.join_sell_kind, ..base.trading.multi_orders },
                    ..base.trading
                },
                ui: UiSection {
                    hotkeys_config: HotkeysConfig { s_price: s.s_price, sb_num: s.sb_num, ..base.ui.hotkeys_config },
                    ..base.ui
                },
                ..base
            })
            &&& c.trading.coins_black_list_text@ == s.coins_black_list_text@
        },
    }
}

/// `c` is `base` with the leverage settings laid over it (`c == base` when there are none).
pub open spec fn lev_laid(base: SharedConfig, lev: Option<LevManage>, c: SharedConfig) -> bool {
    match lev {
        None => c == base,
        Some(l) => {
            &&& c == (SharedConfig {
                trading: TradingSection {
                    auto_manage_lev: AutoManageLevConfig {
                        auto_max_order: l.auto_max_order,
                        auto_lev_up: l.auto_lev_up,
                        auto_isolated: l.auto_isolated,
                        auto_cross: l.auto_cross,
                        auto_fix_lev: l.auto_fix_lev,
                        fix_lev: l.fix_lev,
                        tlg_report: l.tlg_report,
                        ..base.trading.auto_manage_lev
                    },
                    auto_lev_control: c.trading.auto_lev_control,
                    ..base.trading
                },
                ..base
            })
            &&& c.trading.auto_lev_control@ == l.lev_control@
        },
    }
}

/// `c` is `base` with the compact settings, then the leverage settings, laid over it.
pub open spec fn overlaid(
    base: SharedConfig,
    client: Option<ClientSettingsCommand>,
    lev: Option<LevManage>,
    c: SharedConfig,
) -> bool {
    exists|mid: SharedConfig| client_laid(base, client, mid) && #[trigger] lev_laid(mid, lev, c)
}

/// `c` is the config of payload `p` with the newer compact and leverage
/// settings laid over it.
pub open spec fn built_from(
    p: Seq<u8>,
    client: Option<ClientSettingsCommand>,
    lev: Option<LevManage>,
    c: SharedConfig,
) -> bool {
    exists|base: SharedConfig| payload_holds(p, base) && #[trigger] overlaid(base, client, lev, c)
}

/// No snapshot revision is ahead of the update revision: true until the
/// revision counter wraps around.
pub open spec fn revisions_ordered(v: SettingsView) -> bool {
    &&& v.client_settings_revision <= v.update_revision
    &&& v.lev_manage_revision <= v.update_revision
    &&& v.shared_config_revision <= v.update_revision
}

/// The compact settings' fields, each where the safe-share config keeps it.
pub open spec fn takes_client_fields(c: SharedConfig, s: ClientSettingsCommand) -> bool {
    &&& c.trading.x_sell == s.x_sell
    &&& c.trading.x_sell_scalp == s.x_sell_scalp
    &&& c.trading.x_t_mode == s.x_tmode
    &&& c.trading.fixed_sell_mode == s.fixed_sell_mode
    &&& c.trading.fixed_sell_price == s.fixed_sell_price
    &&& c.trading.price_drop_level == s.price_drop_level
    &&& c.trading.trailing_drop == s.trailing_drop
    &&& c.trading.trailing_stop == s.trailing_stop
    &&& c.trading.g_take_profit == s.g_take_profit
    &&& c.trading.use_g_take_profit == s.use_g_take_profit
    &&& c.trading.panic_if_price_drop == s.panic_if_price_drop
    &&& c.trading.buy_iceberg == s.buy_iceberg
    &&& c.trading.sell_iceberg == s.sell_iceberg
    &&& c.trading.orders_control.sign_orders == s.sign_orders
    &&& c.trading.coins_black_list_text@ == s.coins_black_list_text@
    &&& c.trading.use_coins_black_list == s.use_coins_black_list
    &&& c.trading.use_manual_strategy == s.use_manual_strategy
    &&& c.trading.free_position_check == s.free_position_check
    &&& c.trading.vol_drop_level == s.vol_drop_level
    &&& c.trading.use_stop_market == s.use_stop_market
    &&& c.ui.hotkeys_config.s_price == s.s_price
    &&& c.ui.hotkeys_config.sb_num == s.sb_num
    &&& c.trading.multi_orders.join_sell_kind == s.join_sell_kind
}

/// The leverage settings' fields, each where the safe-share config keeps it.
pub open spec fn takes_lev_fields(c: SharedConfig, l: LevManage) -> bool {
    &&& c.trading.auto_manage_lev.auto_max_order == l.auto_max_order
    &&& c.trading.auto_manage_lev.auto_lev_up == l.auto_lev_up
    &&& c.trading.auto_manage_lev.auto_isolated == l.auto_isolated
    &&& c.trading.auto_manage_lev.auto_cross == l.auto_cross
    &&& c.trading.auto_manage_lev.auto_fix_lev == l.auto_fix_lev
    &&& c.trading.auto_manage_lev.fix_lev == l.fix_lev
    &&& c.trading.auto_manage_lev.tlg_report == l.tlg_report
    &&& c.trading.auto_lev_control@ == l.lev_control@
}

/// The first part of [`keeps_other_trading_fields`].
pub open spec fn keeps_trading_fields_1(base: SharedConfig, c: SharedConfig) -> bool {
    &&& c.trading.auto_delete_logs == base.trading.auto_delete_logs
    &&& c.trading.log_level == base.trading.log_level
    &&& c.trading.binance_connection == base.trading.binance_connection
    &&& c.trading.auto_start == base.trading.auto_start
    &&& c.trading.auto_start_2 == base.trading.auto_start_2
    &&& c.trading.fav_markets == base.trading.fav_markets
    &&& c.trading.x_ask == base.trading.x_ask
    &&& c.trading.play_with == base.trading.play_with
    &&& c.trading.check_glass == base.trading.check_glass
    &&& c.trading.max_orders == base.trading.max_orders
    &&& c.trading.auto_sell_partial == base.trading.auto_sell_partial
    &&& c.trading.price_range == base.trading.price_range
    &&& c.trading.sell_auto_move == base.trading.sell_auto_move
    &&& c.trading.pump_q_level == base.trading.pump_q_level
    &&& c.trading.sell_x2_level == base.trading.sell_x2_level
    &&& c.trading.cancel_buy_on_sell_fill == base.trading.cancel_buy_on_sell_fill
    &&& c.trading.auto_cancel_buy_order == base.trading.auto_cancel_buy_order
    &&& c.trading.panic_if_vol_drop == base.trading.panic_if_vol_drop
    &&& c.trading.manual_mode == base.trading.manual_mode
    &&& c.trading.draw_all_buy == base.trading.draw_all_buy
    &&& c.trading.engine_check_buy == base.trading.engine_check_buy
    &&& c.trading.use_manual_balance == base.trading.use_manual_balance
    &&& c.trading.fixed_trade_balance == base.trading.fixed_trade_balance
    &&& c.trading.use_current_ask == base.trading.use_current_ask
    &&& c.trading.show_order_comment == base.trading.show_order_comment
    &&& c.trading.chart_clean_up_time == base.trading.chart_clean_up_time
}

/// The second part of [`keeps_other_trading_fields`].
pub open spec fn keeps_trading_fields_2(base: SharedConfig, c: SharedConfig) -> bool {
    &&& c.trading.moonbot_config == base.trading.moonbot_config
    &&& c.trading.dbl_click_panic_sell == base.trading.dbl_click_panic_sell
    &&& c.trading.h_pos_black_list_text == base.trading.h_pos_black_list_text
    &&& c.trading.trailing_float == base.trading.trailing_float
    &&& c.trading.h_pos_black_list_add == base.trading.h_pos_black_list_add
    &&& c.trading.random_price == base.trading.random_price
    &&& c.trading.report_config == base.trading.report_config
    &&& c.trading.dont_buy_delisted == base.trading.dont_buy_delisted
    &&& c.trading.dont_buy_new_coins == base.trading.dont_buy_new_coins
    &&& c.trading.auto_cancel_lower_buy == base.trading.auto_cancel_lower_buy
    &&& c.trading.buy_on_enter == base.trading.buy_on_enter
    &&& c.trading.auto_buy_bnb == base.trading.auto_buy_bnb
    &&& c.trading.auto_buy_bnb_level == base.trading.auto_buy_bnb_level
    &&& c.trading.auto_buy_bnb_volume == base.trading.auto_buy_bnb_volume
    &&& c.trading.order_replace_click_buy == base.trading.order_replace_click_buy
    &&& c.trading.dont_buy_forward == base.trading.dont_buy_forward
    &&& c.trading.chart_split_zones == base.trading.chart_split_zones
    &&& c.trading.draw_stop == base.trading.draw_stop
    &&& c.trading.max_order == base.trading.max_order
    &&& c.trading.unlimited_orders == base.trading.unlimited_orders
    &&& c.trading.manual_strategy == base.trading.manual_strategy
    &&& c.trading.x9_mode == base.trading.x9_mode
    &&& c.trading.fixed_balance_warning == base.trading.fixed_balance_warning
    &&& c.trading.trades_gap_time == base.trading.trades_gap_time
    &&& c.trading.iceberg_step == base.trading.iceberg_step
    &&& c.trading.order_set_click == base.trading.order_set_click
}

/// The third part of [`keeps_other_trading_fields`].
pub open spec fn keeps_trading_fields_3(base: SharedConfig, c: SharedConfig) -> bool {
    &&& c.trading.pending_order_set_click == base.trading.pending_order_set_click
    &&& c.trading.pending_orders_spread == base.trading.pending_orders_spread
    &&& c.trading.pending_orders_spread_h_delta == base.trading.pending_orders_spread_h_delta
    &&& c.trading.buy_pending_spread == base.trading.buy_pending_spread
    &&& c.trading.buy_stop_pending_spread == base.trading.buy_stop_pending_spread
    &&& c.trading.tm_panic_sell_closed == base.trading.tm_panic_sell_closed
    &&& c.trading.tm_send_only_share == base.trading.tm_send_only_share
    &&& c.trading.tm_cancel_closed == base.trading.tm_cancel_closed
    &&& c.trading.tm_cancel_buy_on_fill == base.trading.tm_cancel_buy_on_fill
    &&& c.trading.multi_commands == base.trading.multi_commands
    &&& c.trading.iceberg_click_count == base.trading.iceberg_click_count
    &&& c.trading.tm_send_first_sell == base.trading.tm_send_first_sell
    &&& c.trading.tm_sell_if_master_not_filled == base.trading.tm_sell_if_master_not_filled
    &&& c.trading.tm_max_order == base.trading.tm_max_order
    &&& c.trading.order_replace_click_sell == base.trading.order_replace_click_sell
    &&& c.trading.alert_config == base.trading.alert_config
    &&& c.trading.use_moon_bl == base.trading.use_moon_bl
    &&& c.trading.correct_order_price == base.trading.correct_order_price
    &&& c.trading.f_binance_commission == base.trading.f_binance_commission
    &&& c.trading.spot_config == base.trading.spot_config
    &&& c.trading.use_book_ticker == base.trading.use_book_ticker
    &&& c.trading.exclude_black_list_delta == base.trading.exclude_black_list_delta
    &&& c.trading.m_avg_use_vol_weight == base.trading.m_avg_use_vol_weight
    &&& c.trading.pending_buy_price == base.trading.pending_buy_price
    &&& c.trading.futures_rules == base.trading.futures_rules
    &&& c.trading.cashback_settings == base.trading.cashback_settings
}

/// The fourth part of [`keeps_other_trading_fields`].
pub open spec fn keeps_trading_fields_4(base: SharedConfig, c: SharedConfig) -> bool {
    &&& c.trading.auto_lower_lev == base.trading.auto_lower_lev
    &&& c.trading.transfer_config == base.trading.transfer_config
    &&& c.trading.min_balance == base.trading.min_balance
    &&& c.trading.auto_close_zero_pos == base.trading.auto_close_zero_pos
    &&& c.trading.send_shots_config == base.trading.send_shots_config
    &&& c.trading.use_lev_for_take == base.trading.use_lev_for_take
    &&& c.trading.bybit_commission == base.trading.bybit_commission
    &&& c.trading.auto_reduce_order == base.trading.auto_reduce_order
    &&& c.trading.gate_commission == base.trading.gate_commission
    &&& c.trading.manual_strats_names == base.trading.manual_strats_names
    &&& c.trading.manual_strats_config == base.trading.manual_strats_config
    &&& c.trading.clear_triggers_string == base.trading.clear_triggers_string
    &&& c.trading.no_trades_markets_text == base.trading.no_trades_markets_text
    &&& c.trading.use_websocket_api == base.trading.use_websocket_api
    &&& c.trading.order_book_levels_ws == base.trading.order_book_levels_ws
    &&& c.trading.arb_view_config == base.trading.arb_view_config
    &&& c.trading.deltas_by_trades == base.trading.deltas_by_trades
    &&& c.trading.ignore_strat_sell_price == base.trading.ignore_strat_sell_price
    &&& c.trading.use_hl_fast_ioc == base.trading.use_hl_fast_ioc
    &&& c.trading.unknown_tail == base.trading.unknown_tail
    &&& c.trading.orders_control.active == base.trading.orders_control.active
    &&& c.trading.orders_control.min_price == base.trading.orders_control.min_price
    &&& c.trading.orders_control.max_time == base.trading.orders_control.max_time
    &&& c.trading.orders_control.h_pos_control == base.trading.orders_control.h_pos_control
    &&& c.trading.orders_control.h_pos_report == base.trading.orders_control.h_pos_report
    &&& c.trading.orders_control.h_pos_auto_sell == base.trading.orders_control.h_pos_auto_sell
}

/// The fifth part of [`keeps_other_trading_fields`].
pub open spec fn keeps_trading_fields_5(base: SharedConfig, c: SharedConfig) -> bool {
    &&& c.trading.orders_control.ignore_replacing_bug == base.trading.orders_control.ignore_replacing_bug
    &&& c.trading.orders_control.ignore_protection == base.trading.orders_control.ignore_protection
    &&& c.trading.orders_control.liq_control == base.trading.orders_control.liq_control
    &&& c.trading.multi_orders.ver == base.trading.multi_orders.ver
    &&& c.trading.multi_orders.use_multi_orders == base.trading.multi_orders.use_multi_orders
    &&& c.trading.multi_orders.buy_set_click == base.trading.multi_orders.buy_set_click
    &&& c.trading.multi_orders.buy_move_click == base.trading.multi_orders.buy_move_click
    &&& c.trading.multi_orders.sell_move_click == base.trading.multi_orders.sell_move_click
    &&& c.trading.multi_orders.replace_buy_kind == base.trading.multi_orders.replace_buy_kind
    &&& c.trading.multi_orders.replace_sell_kind == base.trading.multi_orders.replace_sell_kind
    &&& c.trading.multi_orders.split_sells == base.trading.multi_orders.split_sells
    &&& c.trading.multi_orders.show_orders_num == base.trading.multi_orders.show_orders_num
    &&& c.trading.multi_orders.kir_style == base.trading.multi_orders.kir_style
    &&& c.trading.multi_orders.fix_pos == base.trading.multi_orders.fix_pos
    &&& c.trading.multi_orders.short_set_click == base.trading.multi_orders.short_set_click
    &&& c.trading.multi_orders.pending_short_set_click == base.trading.multi_orders.pending_short_set_click
    &&& c.trading.multi_orders.done_opacity == base.trading.multi_orders.done_opacity
    &&& c.trading.multi_orders.buy_move_click_2 == base.trading.multi_orders.buy_move_click_2
    &&& c.trading.multi_orders.sell_move_click_2 == base.trading.multi_orders.sell_move_click_2
    &&& c.trading.multi_orders.replace_buy_kind_2 == base.trading.multi_orders.replace_buy_kind_2
    &&& c.trading.multi_orders.replace_sell_kind_2 == base.trading.multi_orders.replace_sell_kind_2
    &&& c.trading.multi_orders.same_hotkeys_for_move == base.trading.multi_orders.same_hotkeys_for_move
    &&& c.trading.multi_orders.short_buy_move_click == base.trading.multi_orders.short_buy_move_click
    &&& c.trading.multi_orders.short_sell_move_click == base.trading.multi_orders.short_sell_move_click
    &&& c.trading.multi_orders.short_buy_move_click_2 == base.trading.multi_orders.short_buy_move_click_2
    &&& c.trading.multi_orders.short_sell_move_click_2 == base.trading.multi_orders.short_sell_move_click_2
}

/// The first part of [`keeps_other_ui_fields`].
pub open spec fn keeps_ui_fields_1(base: SharedConfig, c: SharedConfig) -> bool {
    &&& c.ui.hide_demo_button == base.ui.hide_demo_button
    &&& c.ui.confirm_close == base.ui.confirm_close
    &&& c.ui.new_markets_on_top == base.ui.new_markets_on_top
    &&& c.ui.coins_sort_order == base.ui.coins_sort_order
    &&& c.ui.strat_editor_chapters == base.ui.strat_editor_chapters
    &&& c.ui.markets_table_config == base.ui.markets_table_config
    &&& c.ui.main_button_index_1 == base.ui.main_button_index_1
    &&& c.ui.strat_expanded_state == base.ui.strat_expanded_state
    &&& c.ui.unknown_tail == base.ui.unknown_tail
    &&& c.ui.hotkeys_config.filled == base.ui.hotkeys_config.filled
    &&& c.ui.hotkeys_config.ver == base.ui.hotkeys_config.ver
    &&& c.ui.hotkeys_config.o_size == base.ui.hotkeys_config.o_size
    &&& c.ui.hotkeys_config.b_num == base.ui.hotkeys_config.b_num
    &&& c.ui.hotkeys_config.o_keys == base.ui.hotkeys_config.o_keys
    &&& c.ui.hotkeys_config.split_parts == base.ui.hotkeys_config.split_parts
    &&& c.ui.hotkeys_config.s_keys == base.ui.hotkeys_config.s_keys
    &&& c.ui.hotkeys_config.cancel_buy == base.ui.hotkeys_config.cancel_buy
    &&& c.ui.hotkeys_config.panic_sell == base.ui.hotkeys_config.panic_sell
    &&& c.ui.hotkeys_config.join_sells == base.ui.hotkeys_config.join_sells
    &&& c.ui.hotkeys_config.switch_charts == base.ui.hotkeys_config.switch_charts
    &&& c.ui.hotkeys_config.reload_book == base.ui.hotkeys_config.reload_book
    &&& c.ui.hotkeys_config.new_long == base.ui.hotkeys_config.new_long
}

/// The second part of [`keeps_other_ui_fields`].
pub open spec fn keeps_ui_fields_2(base: SharedConfig, c: SharedConfig) -> bool {
    &&& c.ui.hotkeys_config.new_short == base.ui.hotkeys_config.new_short
    &&& c.ui.hotkeys_config.split_order == base.ui.hotkeys_config.split_order
    &&& c.ui.hotkeys_config.shift_buy_up == base.ui.hotkeys_config.shift_buy_up
    &&& c.ui.hotkeys_config.shift_buy_down == base.ui.hotkeys_config.shift_buy_down
    &&& c.ui.hotkeys_config.shift_sell_up == base.ui.hotkeys_config.shift_sell_up
    &&& c.ui.hotkeys_config.shift_sell_down == base.ui.hotkeys_config.shift_sell_down
    &&& c.ui.hotkeys_config.make_shot == base.ui.hotkeys_config.make_shot
    &&& c.ui.hotkeys_config.make_shot_bot == base.ui.hotkeys_config.make_shot_bot
    &&& c.ui.hotkeys_config.reload_chart == base.ui.hotkeys_config.reload_chart
    &&& c.ui.hotkeys_config.scale_plus == base.ui.hotkeys_config.scale_plus
    &&& c.ui.hotkeys_config.scale_minus == base.ui.hotkeys_config.scale_minus
    &&& c.ui.hotkeys_config.sell_plus == base.ui.hotkeys_config.sell_plus
    &&& c.ui.hotkeys_config.sell_minus == base.ui.hotkeys_config.sell_minus
    &&& c.ui.hotkeys_config.spy_mode == base.ui.hotkeys_config.spy_mode
    &&& c.ui.hotkeys_config.show_charts == base.ui.hotkeys_config.show_charts
    &&& c.ui.hotkeys_config.split_order_x == base.ui.hotkeys_config.split_order_x
    &&& c.ui.hotkeys_config.switch_figure == base.ui.hotkeys_config.switch_figure
    &&& c.ui.hotkeys_config.fit_sells == base.ui.hotkeys_config.fit_sells
    &&& c.ui.hotkeys_config.panic_sell_one == base.ui.hotkeys_config.panic_sell_one
    &&& c.ui.hotkeys_config.cancel_all_buys == base.ui.hotkeys_config.cancel_all_buys
    &&& c.ui.hotkeys_config.broadcast == base.ui.hotkeys_config.broadcast
}

/// `c` has the trading fields of `base` that neither the compact nor the
/// leverage settings carry.
pub open spec fn keeps_other_trading_fields(base: SharedConfig, c: SharedConfig) -> bool {
    &&& keeps_trading_fields_1(base, c)
    &&& keeps_trading_fields_2(base, c)
    &&& keeps_trading_fields_3(base, c)
    &&& keeps_trading_fields_4(base, c)
    &&& keeps_trading_fields_5(base, c)
}

/// `c` has the interface fields of `base` that the compact settings do not carry.
pub open spec fn keeps_other_ui_fields(base: SharedConfig, c: SharedConfig) -> bool {
    &&& keeps_ui_fields_1(base, c)
    &&& keeps_ui_fields_2(base, c)
}

/// A config built from a full snapshot carries every field of the newer
/// compact settings and of the newer leverage settings in the place of the
/// same name, and every other field as the snapshot has it; with no newer
/// settings it is the snapshot's config.
pub proof fn law_overlay_takes_snapshot_fields(
    p: Seq<u8>,
    client: Option<ClientSettingsCommand>,
    lev: Option<LevManage>,
    c: SharedConfig,
)
    requires
        built_from(p, client, lev, c),
    ensures
        client matches Some(s) ==> takes_client_fields(c, s),
        lev matches Some(l) ==> takes_lev_fields(c, l),
        exists|base: SharedConfig| {
            &&& payload_holds(p, base)
            &&& c.config_version == base.config_version
            &&& c.signals == base.signals
            &&& c.visual == base.visual
            &&& c.theme == base.theme
            &&& c.ini == base.ini
            &&& keeps_other_trading_fields(base, c)
            &&& keeps_other_ui_fields(base, c)
            &&& (client is None && lev is None ==> c == base)
        },
{
    let base = choose|base: SharedConfig| payload_holds(p, base) && #[trigger] overlaid(base, client, lev, c);
    let mid = choose|mid: SharedConfig| client_laid(base, client, mid) && #[trigger] lev_laid(mid, lev, c);
    lemma_client_laid_fields(base, client, mid);
    lemma_lev_laid_fields(mid, lev, c);
    if let Some(s) = client {
        lemma_lev_keeps_client_fields(mid, lev, c, s);
    }
    lemma_laid_keeps_trading_fields_1(base, client, mid, lev, c);
    lemma_laid_keeps_trading_fields_2(base, client, mid, lev, c);
    lemma_laid_keeps_trading_fields_3(base, client, mid, lev, c);
    lemma_laid_keeps_trading_fields_4(base, client, mid, lev, c);
    lemma_laid_keeps_trading_fields_5(base, client, mid, lev, c);
    lemma_laid_keeps_ui_fields_1(base, client, mid, lev, c);
    lemma_laid_keeps_ui_fields_2(base, client, mid, lev, c);
    assert(payload_holds(p, base));
}

/// Laying compact, then leverage settings keeps the fields of [`keeps_trading_fields_1`].
proof fn lemma_laid_keeps_trading_fields_1(
    base: SharedConfig,
    client: Option<ClientSettingsCommand>,
    mid: SharedConfig,
    lev: Option<LevManage>,
    c: SharedConfig,
)
    requires
        client_laid(base, client, mid),
        lev_laid(mid, lev, c),
    ensures
        keeps_trading_fields_1(base, c),
{
    match client {
        Some(s) => lemma_client_laid_keeps_trading_fields_1(base, s, mid),
        None => {},
    }
    match lev {
        Some(l) => lemma_lev_laid_keeps_trading_fields_1(mid, l, c),
        None => {},
    }
}

/// Laying compact settings keeps the fields of [`keeps_trading_fields_1`].
#[verifier::spinoff_prover]
proof fn lemma_client_laid_keeps_trading_fields_1(base: SharedConfig, s: ClientSettingsCommand, c: SharedConfig)
    requires
        client_laid(base, Some(s), c),
    ensures
        keeps_trading_fields_1(base, c),
{
}

/// Laying leverage settings keeps the fields of [`keeps_trading_fields_1`].
#[verifier::spinoff_prover]
proof fn lemma_lev_laid_keeps_trading_fields_1(base: SharedConfig, l: LevManage, c: SharedConfig)
    requires
        lev_laid(base, Some(l), c),
    ensures
        keeps_trading_fields_1(base, c),
{
}

/// Laying compact, then leverage settings keeps the fields of [`keeps_trading_fields_2`].
proof fn lemma_laid_keeps_trading_fields_2(
    base: SharedConfig,
    client: Option<ClientSettingsCommand>,
    mid: SharedConfig,
    lev: Option<LevManage>,
    c: SharedConfig,
)
    requires
        client_laid(base, client, mid),
        lev_laid(mid, lev, c),
    ensures
        keeps_trading_fields_2(base, c),
{
    match client {
        Some(s) => lemma_client_laid_keeps_trading_fields_2(base, s, mid),
        None => {},
    }
    match lev {
        Some(l) => lemma_lev_laid_keeps_trading_fields_2(mid, l, c),
        None => {},
    }
}

/// Laying compact settings keeps the fields of [`keeps_trading_fields_2`].
#[verifier::spinoff_prover]
proof fn lemma_client_laid_keeps_trading_fields_2(base: SharedConfig, s: ClientSettingsCommand, c: SharedConfig)
    requires
        client_laid(base, Some(s), c),
    ensures
        keeps_trading_fields_2(base, c),
{
}

/// Laying leverage settings keeps the fields of [`keeps_trading_fields_2`].
#[verifier::spinoff_prover]
proof fn lemma_lev_laid_keeps_trading_fields_2(base: SharedConfig, l: LevManage, c: SharedConfig)
    requires
        lev_laid(base, Some(l), c),
    ensures
        keeps_trading_fields_2(base, c),
{
}

/// Laying compact, then leverage settings keeps the fields of [`keeps_trading_fields_3`].
proof fn lemma_laid_keeps_trading_fields_3(
    base: SharedConfig,
    client: Option<ClientSettingsCommand>,
    mid: SharedConfig,
    lev: Option<LevManage>,
    c: SharedConfig,
)
    requires
        client_laid(base, client, mid),
        lev_laid(mid, lev, c),
    ensures
        keeps_trading_fields_3(base, c),
{
    match client {
        Some(s) => lemma_client_laid_keeps_trading_fields_3(base, s, mid),
        None => {},
    }
    match lev {
        Some(l) => lemma_lev_laid_keeps_trading_fields_3(mid, l, c),
        None => {},
    }
}

/// Laying compact settings keeps the fields of [`keeps_trading_fields_3`].
#[verifier::spinoff_prover]
proof fn lemma_client_laid_keeps_trading_fields_3(base: SharedConfig, s: ClientSettingsCommand, c: SharedConfig)
    requires
        client_laid(base, Some(s), c),
    ensures
        keeps_trading_fields_3(base, c),
{
}

/// Laying leverage settings keeps the fields of [`keeps_trading_fields_3`].
#[verifier::spinoff_prover]
proof fn lemma_lev_laid_keeps_trading_fields_3(base: SharedConfig, l: LevManage, c: SharedConfig)
    requires
        lev_laid(base, Some(l), c),
    ensures
        keeps_trading_fields_3(base, c),
{
}

/// Laying compact, then leverage settings keeps the fields of [`keeps_trading_fields_4`].
proof fn lemma_laid_keeps_trading_fields_4(
    base: SharedConfig,
    client: Option<ClientSettingsCommand>,
    mid: SharedConfig,
    lev: Option<LevManage>,
    c: SharedConfig,
)
    requires
        client_laid(base, client, mid),
        lev_laid(mid, lev, c),
    ensures
        keeps_trading_fields_4(base, c),
{
    match client {
        Some(s) => lemma_client_laid_keeps_trading_fields_4(base, s, mid),
        None => {},
    }
    match lev {
        Some(l) => lemma_lev_laid_keeps_trading_fields_4(mid, l, c),
        None => {},
    }
}

/// Laying compact settings keeps the fields of [`keeps_trading_fields_4`].
#[verifier::spinoff_prover]
proof fn lemma_client_laid_keeps_trading_fields_4(base: SharedConfig, s: ClientSettingsCommand, c: SharedConfig)
    requires
        client_laid(base, Some(s), c),
    ensures
        keeps_trading_fields_4(base, c),
{
}

/// Laying leverage settings keeps the fields of [`keeps_trading_fields_4`].
#[verifier::spinoff_prover]
proof fn lemma_lev_laid_keeps_trading_fields_4(base: SharedConfig, l: LevManage, c: SharedConfig)
    requires
        lev_laid(base, Some(l), c),
    ensures
        keeps_trading_fields_4(base, c),
{
}

/// Laying compact, then leverage settings keeps the fields of [`keeps_trading_fields_5`].
proof fn lemma_laid_keeps_trading_fields_5(
    base: SharedConfig,
    client: Option<ClientSettingsCommand>,
    mid: SharedConfig,
    lev: Option<LevManage>,
    c: SharedConfig,
)
    requires
        client_laid(base, client, mid),
        lev_laid(mid, lev, c),
    ensures
        keeps_trading_fields_5(base, c),
{
    match client {
        Some(s) => lemma_client_laid_keeps_trading_fields_5(base, s, mid),
        None => {},
    }
    match lev {
        Some(l) => lemma_lev_laid_keeps_trading_fields_5(mid, l, c),
        None => {},
    }
}

/// Laying compact settings keeps the fields of [`keeps_trading_fields_5`].
#[verifier::spinoff_prover]
proof fn lemma_client_laid_keeps_trading_fields_5(base: SharedConfig, s: ClientSettingsCommand, c: SharedConfig)
    requires
        client_laid(base, Some(s), c),
    ensures
        keeps_trading_fields_5(base, c),
{
}

/// Laying leverage settings keeps the fields of [`keeps_trading_fields_5`].
#[verifier::spinoff_prover]
proof fn lemma_lev_laid_keeps_trading_fields_5(base: SharedConfig, l: LevManage, c: SharedConfig)
    requires
        lev_laid(base, Some(l), c),
    ensures
        keeps_trading_fields_5(base, c),
{
}

/// Laying compact, then leverage settings keeps the fields of [`keeps_ui_fields_1`].
proof fn lemma_laid_keeps_ui_fields_1(
    base: SharedConfig,
    client: Option<ClientSettingsCommand>,
    mid: SharedConfig,
    lev: Option<LevManage>,
    c: SharedConfig,
)
    requires
        client_laid(base, client, mid),
        lev_laid(mid, lev, c),
    ensures
        keeps_ui_fields_1(base, c),
{
    match client {
        Some(s) => lemma_client_laid_keeps_ui_fields_1(base, s, mid),
        None => {},
    }
    match lev {
        Some(l) => lemma_lev_laid_keeps_ui_fields_1(mid, l, c),
        None => {},
    }
}

/// Laying compact settings keeps the fields of [`keeps_ui_fields_1`].
#[verifier::spinoff_prover]
proof fn lemma_client_laid_keeps_ui_fields_1(base: SharedConfig, s: ClientSettingsCommand, c: SharedConfig)
    requires
        client_laid(base, Some(s), c),
    ensures
        keeps_ui_fields_1(base, c),
{
}

/// Laying leverage settings keeps the fields of [`keeps_ui_fields_1`].
#[verifier::spinoff_prover]
proof fn lemma_lev_laid_keeps_ui_fields_1(base: SharedConfig, l: LevManage, c: SharedConfig)
    requires
        lev_laid(base, Some(l), c),
    ensures
        keeps_ui_fields_1(base, c),
{
}

/// Laying compact, then leverage settings keeps the fields of [`keeps_ui_fields_2`].
proof fn lemma_laid_keeps_ui_fields_2(
    base: SharedConfig,
    client: Option<ClientSettingsCommand>,
    mid: SharedConfig,
    lev: Option<LevManage>,
    c: SharedConfig,
)
    requires
        client_laid(base, client, mid),
        lev_laid(mid, lev, c),
    ensures
        keeps_ui_fields_2(base, c),
{
    match client {
        Some(s) => lemma_client_laid_keeps_ui_fields_2(base, s, mid),
        None => {},
    }
    match lev {
        Some(l) => lemma_lev_laid_keeps_ui_fields_2(mid, l, c),
        None => {},
    }
}

/// Laying compact settings keeps the fields of [`keeps_ui_fields_2`].
#[verifier::spinoff_prover]
proof fn lemma_client_laid_keeps_ui_fields_2(base: SharedConfig, s: ClientSettingsCommand, c: SharedConfig)
    requires
        client_laid(base, Some(s), c),
    ensures
        keeps_ui_fields_2(base, c),
{
}

/// Laying leverage settings keeps the fields of [`keeps_ui_fields_2`].
#[verifier::spinoff_prover]
proof fn lemma_lev_laid_keeps_ui_fields_2(base: SharedConfig, l: LevManage, c: SharedConfig)
    requires
        lev_laid(base, Some(l), c),
    ensures
        keeps_ui_fields_2(base, c),
{
}

/// Laying compact settings over a config puts each of their fields in place
/// and leaves the version and the other sections.
#[verifier::spinoff_prover]
proof fn lemma_client_laid_fields(base: SharedConfig, client: Option<ClientSettingsCommand>, c: SharedConfig)
    requires
        client_laid(base, client, c),
    ensures
        client matches Some(s) ==> takes_client_fields(c, s),
        c.config_version == base.config_version,
        c.signals == base.signals,
        c.visual == base.visual,
        c.theme == base.theme,
        c.ini == base.ini,
{
}

/// Laying leverage settings over a config puts each of their fields in place
/// and leaves the version and the other sections.
#[verifier::spinoff_prover]
proof fn lemma_lev_laid_fields(base: SharedConfig, lev: Option<LevManage>, c: SharedConfig)
    requires
        lev_laid(base, lev, c),
    ensures
        lev matches Some(l) ==> takes_lev_fields(c, l),
        c.config_version == base.config_version,
        c.signals == base.signals,
        c.visual == base.visual,
        c.theme == base.theme,
        c.ini == base.ini,
        c.ui == base.ui,
{
}

/// Laying leverage settings keeps the compact settings' fields.
#[verifier::spinoff_prover]
proof fn lemma_lev_keeps_client_fields(base: SharedConfig, lev: Option<LevManage>, c: SharedConfig, s: ClientSettingsCommand)
    requires
        lev_laid(base, lev, c),
        takes_client_fields(base, s),
    ensures
        takes_client_fields(c, s),
{
}

/// The state's invariant: a kept full snapshot parses, to the kept config.
pub open spec fn settings_wf(v: SettingsView) -> bool {
    v.full matches Some((p, c)) ==> payload_ok(p) && payload_holds(p, c)
}

/// Lay compact settings over a config.
fn lay_client(cfg: &mut SharedConfig, s: &ClientSettingsCommand)
    ensures
        client_laid(*old(cfg), Some(*s), *final(cfg)),
{
    cfg.absorb_client_settings_raw(
        s.x_sell,
        s.x_sell_scalp,
        s.x_tmode,
        s.fixed_sell_mode,
        s.fixed_sell_price,
        s.price_drop_level,
        s.trailing_drop,
        s.trailing_stop,
        s.g_take_profit,
        s.use_g_take_profit,
        s.panic_if_price_drop,
        s.buy_iceberg,
        s.sell_iceberg,
        s.sign_orders,
        s.coins_black_list_text.as_str(),
        s.use_coins_black_list,
        s.use_manual_strategy,
        s.free_position_check,
        s.vol_drop_level,
        s.use_stop_market,
        &s.s_price,
        s.sb_num,
        s.join_sell_kind,
    );
}

/// Lay leverage settings over a config.
fn lay_lev(cfg: &mut SharedConfig, l: &LevManage)
    ensures
        lev_laid(*old(cfg), Some(*l), *final(cfg)),
{
    cfg.absorb_lev_manage_raw(
        l.auto_max_order,
        l.auto_lev_up,
        l.auto_isolated,
        l.auto_cross,
        l.auto_fix_lev,
        l.fix_lev,
        l.tlg_report,
        l.lev_control.as_str(),
    );
}

/// Synchronized settings state, updated from inbound settings commands.
/// Every accepted full snapshot replaces the kept one.
#[derive(Debug, Clone)]
pub struct SettingsState {
    client_settings: Option<ClientSettingsCommand>,
    client_settings_fallback: ClientSettingsCommand,
    lev_manage: Option<LevManage>,
    /// The last full snapshot: its payload and the config parsed from it.
    shared: Option<(Vec<u8>, SharedConfig)>,
    update_revision: u64,
    client_settings_revision: u64,
    lev_manage_revision: u64,
    shared_config_revision: u64,
    runtime_state: Option<RuntimeStateCommand>,
    kernel_license_state: Option<KernelLicenseStateCommand>,
    hyperliquid_requests_left: Option<u64>,
    /// Arbitrage valid-until, as the IEEE-754 bits of a Delphi day count.
    arb_valid_until: Option<u64>,
}

impl View for SettingsState {
    type V = SettingsView;

    closed spec fn view(&self) -> SettingsView {
        SettingsView {
            client_settings: self.client_settings,
            client_settings_fallback: self.client_settings_fallback,
            lev_manage: self.lev_manage,
            full: match self.shared {
                Some((p, c)) => Some((p@, c)),
                None => None,
            },
            update_revision: self.update_revision,
            client_settings_revision: self.client_settings_revision,
            lev_manage_revision: self.lev_manage_revision,
            shared_config_revision: self.shared_config_revision,
            runtime_state: self.runtime_state,
            kernel_license_state: self.kernel_license_state,
            hyperliquid_requests_left: self.hyperliquid_requests_left,
            arb_valid_until: self.arb_valid_until,
        }
    }
}

impl SettingsState {
    /// The state's invariant.
    pub open spec fn wf(&self) -> bool {
        settings_wf(self@)
    }

    /// Nothing received yet.
    pub fn new() -> (r: Self)
        ensures
            r.wf(),
            revisions_ordered(r@),
            r@.client_settings_fallback.is_default(),
            r@ == (SettingsView {
                client_settings: None,
                client_settings_fallback: r@.client_settings_fallback,
                lev_manage: None,
                full: None,
                update_revision: 0,
                client_settings_revision: 0,
                lev_manage_revision: 0,
                shared_config_revision: 0,
                runtime_state: None,
                kernel_license_state: None,
                hyperliquid_requests_left: None,
                arb_valid_until: None,
            }),
    {
        SettingsState {
            client_settings: None,
            client_settings_fallback: ClientSettingsCommand::default(),
            lev_manage: None,
            shared: None,
            update_revision: 0,
            client_settings_revision: 0,
            lev_manage_revision: 0,
            shared_config_revision: 0,
            runtime_state: None,
            kernel_license_state: None,
            hyperliquid_requests_left: None,
            arb_valid_until: None,
        }
    }

    /// The last compact settings snapshot.
    pub fn client_settings(&self) -> (r: Option<&ClientSettingsCommand>)
        ensures
            match r {
                Some(x) => self@.client_settings == Some(*x),
                None => self@.client_settings is None,
            },
    {
        self.client_settings.as_ref()
    }

    /// Settings that fill in the fields an older compact packet omits.
    pub fn client_settings_parse_fallback(&self) -> (r: &ClientSettingsCommand)
        ensures
            *r == self@.client_settings_fallback,
    {
        &self.client_settings_fallback
    }

    /// The last leverage-management snapshot.
    pub fn lev_manage(&self) -> (r: Option<&LevManage>)
        ensures
            match r {
                Some(x) => self@.lev_manage == Some(*x),
                None => self@.lev_manage is None,
            },
    {
        self.lev_manage.as_ref()
    }

    /// The config of the last full snapshot.
    pub fn shared_config(&self) -> (r: Option<&SharedConfig>)
        ensures
            match r {
                Some(x) => self@.full matches Some((_, c)) && c == *x,
                None => self@.full is None,
            },
    {
        match &self.shared {
            Some((_, c)) => Some(c),
            None => None,
        }
    }

    /// The last core runtime state.
    pub fn runtime_state(&self) -> (r: Option<RuntimeStateCommand>)
        ensures
            r == self@.runtime_state,
    {
        self.runtime_state
    }

    /// The last license state.
    pub fn kernel_license_state(&self) -> (r: Option<KernelLicenseStateCommand>)
        ensures
            r == self@.kernel_license_state,
    {
        self.kernel_license_state
    }

    /// Remaining HyperLiquid address-level action requests, if published.
    pub fn hyperliquid_requests_left(&self) -> (r: Option<u64>)
        ensures
            r == self@.hyperliquid_requests_left,
    {
        self.hyperliquid_requests_left
    }

    /// Arbitrage valid-until, as the IEEE-754 bits of a Delphi day count.
    pub fn arb_valid_until(&self) -> (r: Option<u64>)
        ensures
            r == self@.arb_valid_until,
    {
        self.arb_valid_until
    }

    /// Revision of the last full snapshot.
    pub fn shared_config_revision(&self) -> (r: u64)
        ensures
            r == self@.shared_config_revision,
    {
        self.shared_config_revision
    }

    /// Step the update revision and return it.
    fn next_update_revision(&mut self) -> (r: u64)
        ensures
            r == next_revision(old(self)@.update_revision),
            final(self)@ == (SettingsView { update_revision: r, ..old(self)@ }),
    {
        self.update_revision = if self.update_revision == u64::MAX {
            1
        } else {
            self.update_revision + 1
        };
        self.update_revision
    }

    /// The last full snapshot with the compact and leverage settings that
    /// arrived after it laid over it; `None` before any full snapshot.
    pub fn build_shared_config(&self) -> (r: Option<SharedConfig>)
        requires
            self.wf(),
        ensures
            match self@.full {
                None => r is None,
                Some((p, _)) => r matches Some(c) && built_from(p, newer_client(self@), newer_lev(self@), c),
            },
            r matches Some(c) ==> (newer_client(self@) matches Some(s) ==> takes_client_fields(c, s)),
            r matches Some(c) ==> (newer_lev(self@) matches Some(l) ==> takes_lev_fields(c, l)),
    {
        let p = match &self.shared {
            None => {
                return None;
            },
            Some((p, _)) => p,
        };
        let mut cfg = match parse_payload(p.as_slice()) {
            Ok(c) => c,
            Err(_) => {
                return None;
            },
        };
        let ghost base = cfg;
        let ghost client = newer_client(self@);
        let ghost lev = newer_lev(self@);
        if self.client_settings_revision > self.shared_config_revision {
            match &self.client_settings {
                Some(s) => lay_client(&mut cfg, s),
                None => {},
            }
        }
        let ghost mid = cfg;
        assert(client_laid(base, client, mid));
        if self.lev_manage_revision > self.shared_config_revision {
            match &self.lev_manage {
                Some(l) => lay_lev(&mut cfg, l),
                None => {},
            }
        }
        assert(lev_laid(mid, lev, cfg));
        assert(overlaid(base, client, lev, cfg));
        proof {
            assert(built_from(p@, client, lev, cfg));
            law_overlay_takes_snapshot_fields(p@, client, lev, cfg);
        }
        Some(cfg)
    }

    /// Apply an inbound settings command. Snapshots replace the previous ones;
    /// compact, leverage and full snapshots also step the update revision and
    /// take it as their own; a full snapshot
    /// that does not unpack or parse is dropped; action commands change
    /// nothing. Returns the event to publish, if any.
    pub fn apply(&mut self, cmd: UICommand) -> (r: Option<SettingsEvent>)
        requires
            old(self).wf(),
        ensures
            final(self).wf(),
            match cmd {
                UICommand::ClientSettings(c) => {
                    &&& r == Some(SettingsEvent::ClientSettingsUpdated)
                    &&& same_client_settings(final(self)@.client_settings_fallback, c)
                    &&& final(self)@ == (SettingsView {
                        client_settings: Some(c),
                        client_settings_fallback: final(self)@.client_settings_fallback,
                        update_revision: next_revision(old(self)@.update_revision),
                        client_settings_revision: next_revision(old(self)@.update_revision),
                        ..old(self)@
                    })
                    &&& (revisions_ordered(old(self)@) && old(self)@.update_revision < u64::MAX) ==> {
                        &&& revisions_ordered(final(self)@)
                        &&& newer_client(final(self)@) == Some(c)
                        &&& newer_lev(final(self)@) == newer_lev(old(self)@)
                    }
                },
                UICommand::SharedConfig { data } => match full_snapshot_of(data@) {
                    Some(p) => {
                        &&& r == Some(SettingsEvent::SharedConfigUpdated)
                        &&& final(self)@.full matches Some((q, c)) && q == p && payload_holds(p, c)
                        &&& final(self)@ == (SettingsView {
                            full: final(self)@.full,
                            update_revision: next_revision(old(self)@.update_revision),
                            shared_config_revision: next_revision(old(self)@.update_revision),
                            ..old(self)@
                        })
                        &&& (revisions_ordered(old(self)@) && old(self)@.update_revision < u64::MAX) ==> {
                            &&& revisions_ordered(final(self)@)
                            &&& newer_client(final(self)@) is None
                            &&& newer_lev(final(self)@) is None
                        }
                    },
                    None => r is None && final(self)@ == old(self)@,
                },
                UICommand::LevManage(l) => {
                    &&& r == Some(SettingsEvent::LevManageUpdated)
                    &&& final(self)@ == (SettingsView {
                        lev_manage: Some(l),
                        update_revision: next_revision(old(self)@.update_revision),
                        lev_manage_revision: next_revision(old(self)@.update_revision),
                        ..old(self)@
                    })
                    &&& (revisions_ordered(old(self)@) && old(self)@.update_revision < u64::MAX) ==> {
                        &&& revisions_ordered(final(self)@)
                        &&& newer_lev(final(self)@) == Some(l)
                        &&& newer_client(final(self)@) == newer_client(old(self)@)
                    }
                },
                UICommand::RuntimeState(s) => {
                    &&& r == Some(SettingsEvent::RuntimeStateUpdated)
                    &&& final(self)@ == (SettingsView { runtime_state: Some(s), ..old(self)@ })
                },
                UICommand::KernelLicenseState(s) => {
                    &&& r == Some(SettingsEvent::KernelLicenseStateUpdated)
                    &&& final(self)@ == (SettingsView { kernel_license_state: Some(s), ..old(self)@ })
                },
                UICommand::HyperliquidRequestLimitState { uid, requests_left } => {
                    &&& r == Some(SettingsEvent::HyperliquidRequestLimitUpdated)
                    &&& final(self)@ == (SettingsView { hyperliquid_requests_left: requests_left, ..old(self)@ })
                },
                UICommand::ArbActivateNotify { uid, arb_valid } => {
                    &&& r == Some(SettingsEvent::ArbActivated { uid, arb_valid_days: arb_valid })
                    &&& final(self)@ == (SettingsView { arb_valid_until: Some(arb_valid), ..old(self)@ })
                },
                UICommand::UpdateVersion { uid, version_name, is_release } => {
                    &&& r == Some(SettingsEvent::VersionUpdate { uid, version_name, is_release })
                    &&& final(self)@ == old(self)@
                },
                UICommand::Skipped { cmd_id, uid, ver } => {
                    &&& r == Some(SettingsEvent::Skipped { cmd_id, uid, ver })
                    &&& final(self)@ == old(self)@
                },
                UICommand::Unknown { cmd_id, uid } => {
                    &&& r == Some(SettingsEvent::Unknown { cmd_id, uid })
                    &&& final(self)@ == old(self)@
                },
                _ => r is None && final(self)@ == old(self)@,
            },
    {
        match cmd {
            UICommand::ClientSettings(c) => {
                let rev = self.next_update_revision();
                self.client_settings_fallback = copy_client_settings(&c);
                self.client_settings = Some(c);
                self.client_settings_revision = rev;
                Some(SettingsEvent::ClientSettingsUpdated)
            },
            UICommand::SharedConfig { data } => {
                let payload = match gzip_decompress(data.as_slice()) {
                    Ok(p) => p,
                    Err(_) => {
                        return None;
                    },
                };
                match parse_payload(payload.as_slice()) {
                    Ok(cfg) => {
                        let rev = self.next_update_revision();
                        self.shared = Some((payload, cfg));
                        self.shared_config_revision = rev;
                        Some(SettingsEvent::SharedConfigUpdated)
                    },
                    Err(_) => None,
                }
            },
            UICommand::LevManage(l) => {
                let rev = self.next_update_revision();
                self.lev_manage = Some(l);
                self.lev_manage_revision = rev;
                Some(SettingsEvent::LevManageUpdated)
            },
            UICommand::RuntimeState(s) => {
                self.runtime_state = Some(s);
                Some(SettingsEvent::RuntimeStateUpdated)
            },
            UICommand::KernelLicenseState(s) => {
                self.kernel_license_state = Some(s);
                Some(SettingsEvent::KernelLicenseStateUpdated)
            },
            UICommand::HyperliquidRequestLimitState { uid, requests_left } => {
                self.hyperliquid_requests_left = requests_left;
                Some(SettingsEvent::HyperliquidRequestLimitUpdated)
            },
            UICommand::ArbActivateNotify { uid, arb_valid } => {
                self.arb_valid_until = Some(arb_valid);
                Some(SettingsEvent::ArbActivated { uid, arb_valid_days: arb_valid })
            },
            UICommand::UpdateVersion { uid, version_name, is_release } => {
                Some(SettingsEvent::VersionUpdate { uid, version_name, is_release })
            },
            UICommand::Skipped { cmd_id, uid, ver } => Some(SettingsEvent::Skipped { cmd_id, uid, ver }),
            UICommand::Unknown { cmd_id, uid } => Some(SettingsEvent::Unknown { cmd_id, uid }),
            UICommand::SettingsRequest { .. }
            | UICommand::StratStartStop { .. }
            | UICommand::MMOrdersSubscribe { .. }
            | UICommand::SwitchDex { .. }
            | UICommand::SwitchSpot { .. }
            | UICommand::RestartNow { .. }
            | UICommand::KernelLicenseStateRequest { .. }
            | UICommand::OtherAction { .. }
            | UICommand::NewMarketNotify { .. } => None,
        }
    }
}

} // verus!
