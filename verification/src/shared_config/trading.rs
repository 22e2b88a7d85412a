//! The trading section: order sizes, sell rules, risk limits and the trading sub-records.

use crate::le::{le_u32, le_u64, lemma_le_u32_roundtrip};
use crate::shared_config::error::{SharedConfigError};
use crate::shared_config::reader::{ConfigReader, eof_msg, i32_at, u32_at, u64_at};
use crate::shared_config::writer::{ConfigWriter, bool_byte, flag_of, lemma_bool_byte, lemma_wrote_all_of_wrote, lemma_wrote_all_then, string_fits, string_x_bytes};
use crate::shared_config::codec_lemmas::{lemma_le_i32_roundtrip, lemma_seq_split, lemma_subrange_of_prefix, lemma_u64_at_le};
use crate::shared_config::ini::{tail_of};
use crate::shared_config::signals::{lemma_parts_at, lemma_text_at, read_text, string_end, string_ok, text_at};
use crate::shared_config::arb_view::{parse_arb_view};
use crate::shared_config::float_records::{AUTO_START_CONFIG2_LEN, AUTO_START_CONFIG_LEN, AutoStartConfig, AutoStartConfig2, MULTI_ORDERS_CONFIG_LEN, MultiOrdersConfig, ORDERS_CONTROL_LEN, OrdersControl, SPOT_CONFIG_LEN, SpotConfig, auto_start_config2_at, auto_start_config2_bytes, auto_start_config_at, auto_start_config_bytes, lemma_auto_start_config2_at, lemma_auto_start_config2_roundtrip, lemma_auto_start_config_at, lemma_auto_start_config_roundtrip, lemma_multi_orders_config_at, lemma_multi_orders_config_roundtrip, lemma_orders_control_at, lemma_orders_control_roundtrip, lemma_spot_config_at, lemma_spot_config_roundtrip, multi_orders_config_at, multi_orders_config_bytes, orders_control_at, orders_control_bytes, read_auto_start_config, read_auto_start_config2, read_multi_orders_config, read_orders_control, read_spot_config, spot_config_at, spot_config_bytes, write_auto_start_config, write_auto_start_config2, write_multi_orders_config, write_orders_control, write_spot_config};
use crate::shared_config::records::{ALERT_CONFIG_LEN, ARB_VIEW_CONFIG_LEN, ASSET_TRANSFER_CONFIG_LEN, AUTO_MANAGE_LEV_CONFIG_LEN, AlertConfig, ArbViewConfig, AssetTransferConfig, AutoManageLevConfig, CASH_BACK_SETTINGS_LEN, CashBackSettings, MANUAL_STRATS_CONFIG_LEN, MOON_BOT_CONFIG_LEN, ManualStratsConfig, MoonBotConfig, REPORT_CONFIG_LEN, ReportConfig, SEND_SHOTS_CONFIG_LEN, SendShotsConfig, alert_config_at, alert_config_bytes, arb_view_config_at, arb_view_config_bytes, asset_transfer_config_at, asset_transfer_config_bytes, auto_manage_lev_config_at, auto_manage_lev_config_bytes, cash_back_settings_at, cash_back_settings_bytes, lemma_alert_config_at, lemma_alert_config_roundtrip, lemma_arb_view_config_at, lemma_arb_view_config_roundtrip, lemma_asset_transfer_config_at, lemma_asset_transfer_config_roundtrip, lemma_auto_manage_lev_config_at, lemma_auto_manage_lev_config_roundtrip, lemma_cash_back_settings_at, lemma_cash_back_settings_roundtrip, lemma_manual_strats_config_at, lemma_manual_strats_config_roundtrip, lemma_moon_bot_config_at, lemma_moon_bot_config_roundtrip, lemma_report_config_at, lemma_report_config_roundtrip, lemma_send_shots_config_at, lemma_send_shots_config_roundtrip, manual_strats_config_at, manual_strats_config_bytes, moon_bot_config_at, moon_bot_config_bytes, read_alert_config, read_asset_transfer_config, read_auto_manage_lev_config, read_cash_back_settings, read_manual_strats_config, read_moon_bot_config, read_report_config, read_send_shots_config, report_config_at, report_config_bytes, send_shots_config_at, send_shots_config_bytes, write_alert_config, write_arb_view_config, write_asset_transfer_config, write_auto_manage_lev_config, write_cash_back_settings, write_manual_strats_config, write_moon_bot_config, write_report_config, write_send_shots_config};
use crate::shared_config::utf16::utf16_encode;
use crate::shared_config::writer::lemma_units_bytes_len;
use vstd::prelude::*;

verus! {

broadcast use crate::le::group_le_len;
/// Order execution, risk management, and position control settings.
#[derive(Clone, Debug)]
pub struct TradingSection {
    /// Auto-delete old log files after this many days.
    pub auto_delete_logs: i32,
    /// Log verbosity level (0 = minimal, higher = more detail).
    pub log_level: i32,
    /// API connection variant index (exchange-specific, e.g. 0 = default).
    pub binance_connection: i32,
    /// Automatic start/stop and panic-sell rules.
    pub auto_start: AutoStartConfig,
    /// Extended auto-start rules (restart on BTC movement, session caps).
    pub auto_start_2: AutoStartConfig2,
    /// Comma-separated list of favorited market tickers.
    pub fav_markets: String,
    /// Buy price offset from ask, in price steps.
    pub x_ask: i32,
    /// Take-profit sell price offset from buy, in slider units.
    /// Mirrors [`ClientSettingsCommand::x_sell`].
    pub x_sell: i32,
    /// Scalp/quick sell offset in slider units.
    /// Mirrors [`ClientSettingsCommand::x_sell_scalp`].
    pub x_sell_scalp: i32,
    /// Order size as a share of the total trade balance, in thousandths:
    /// order = balance * play_with / 1000 (multiplied by leverage on futures).
    /// The main size slider in MoonBot. Ignored when a fixed manual balance is
    /// set.
    pub play_with: i32,
    /// Check orderbook depth before placing a buy order.
    pub check_glass: bool,
    /// Maximum concurrent open buy orders.
    pub max_orders: i32,
    /// Percentage of buy fill that triggers automatic sell (100 = wait for
    /// full fill).
    pub auto_sell_partial: i32,
    /// Acceptable price range for buys (in price steps from ask).
    pub price_range: i32,
    /// Auto-move sell orders to the best orderbook position.
    pub sell_auto_move: bool,
    /// Minimum PumpQ score a market must have for pump-signal autobuy; the
    /// signal is skipped below it. PumpQ is MoonBot's market-quality metric
    /// computed from recent volume/price history.
    pub pump_q_level: i32,
    /// Volume percentile threshold for doubling sell quantity.
    pub sell_x2_level: i32,
    /// Cancel the pending buy when a sell order fills.
    pub cancel_buy_on_sell_fill: bool,
    /// Auto-cancel an unfilled buy order after a timeout. Composite scale:
    /// values below 30 are seconds, values 30 and above mean
    /// `(value - 29)` minutes.
    pub auto_cancel_buy_order: i32,
    /// Volume-drop percentage that triggers panic sell (when enabled).
    /// Mirrors [`ClientSettingsCommand::vol_drop_level`].
    pub vol_drop_level: i32,
    /// Price-drop percentage that triggers panic sell.
    /// Mirrors [`ClientSettingsCommand::price_drop_level`].
    /// (IEEE-754 bits of the `f32` value.)
    pub price_drop_level: u32,
    /// Panic-sell if volume drops below threshold.
    pub panic_if_vol_drop: bool,
    /// Panic-sell if price drops below threshold.
    /// Mirrors [`ClientSettingsCommand::panic_if_price_drop`].
    pub panic_if_price_drop: bool,
    /// Manual mode — all autobuy sources are disabled.
    pub manual_mode: bool,
    /// Draw all pending buy orders on the chart (not only the selected one).
    pub draw_all_buy: bool,
    /// Enable trailing-stop logic globally.
    /// Mirrors [`ClientSettingsCommand::trailing_stop`].
    pub trailing_stop: bool,
    /// Trailing-stop drop threshold (negative = below peak, e.g. -2.0 %).
    /// Mirrors [`ClientSettingsCommand::trailing_drop`].
    /// (IEEE-754 bits of the `f32` value.)
    pub trailing_drop: u32,
    /// Engine double-checks balance before placing a buy.
    pub engine_check_buy: bool,
    /// Use a fixed trade amount instead of a percentage of balance.
    pub use_manual_balance: bool,
    /// Fixed trade amount in quote currency.
    /// (IEEE-754 bits of the `f64` value.)
    pub fixed_trade_balance: u64,
    /// Use the current ask price for buys (vs. last trade price).
    pub use_current_ask: bool,
    /// Global take-profit percentage.
    /// Mirrors [`ClientSettingsCommand::g_take_profit`].
    /// (IEEE-754 bits of the `f64` value.)
    pub g_take_profit: u64,
    /// Enable global take-profit.
    /// Mirrors [`ClientSettingsCommand::use_g_take_profit`].
    pub use_g_take_profit: bool,
    /// Show order comments (strategy name / signal source) on the chart.
    pub show_order_comment: bool,
    /// Clean up stale chart data after this many minutes of inactivity.
    pub chart_clean_up_time: i32,
    /// MoonBot service settings (silent mode, margin, group delay).
    pub moonbot_config: MoonBotConfig,
    /// Require double-click on the Panic Sell button to activate.
    pub dbl_click_panic_sell: bool,
    /// Permanent coin blacklist text (one ticker per line).
    /// Mirrors [`ClientSettingsCommand::coins_black_list_text`].
    pub coins_black_list_text: String,
    /// Enable permanent coin blacklist.
    /// Mirrors [`ClientSettingsCommand::use_coins_black_list`].
    pub use_coins_black_list: bool,
    /// Hanging-position blacklist tickers (position control).
    pub h_pos_black_list_text: String,
    /// Trailing-stop floating percentage.
    /// (IEEE-754 bits of the `f64` value.)
    pub trailing_float: u64,
    /// Additional hanging-position blacklist entries.
    pub h_pos_black_list_add: String,
    /// Add small random noise to order price (avoid detection).
    pub random_price: bool,
    /// Report/history display settings.
    pub report_config: ReportConfig,
    /// Skip buying delisted coins.
    pub dont_buy_delisted: bool,
    /// Skip buying coins listed less than N minutes ago.
    pub dont_buy_new_coins: i32,
    /// Auto-cancel a buy order placed below the current price after this many
    /// minutes.
    pub auto_cancel_lower_buy: i32,
    /// Auto-buy by pressing Enter in the token search box.
    pub buy_on_enter: bool,
    /// Auto-purchase BNB when balance is low (for Binance commissions).
    pub auto_buy_bnb: bool,
    /// Minimum BNB balance that triggers auto-buy.
    /// (IEEE-754 bits of the `f64` value.)
    pub auto_buy_bnb_level: u64,
    /// Amount of BNB to purchase when auto-buy triggers.
    /// (IEEE-754 bits of the `f64` value.)
    pub auto_buy_bnb_volume: u64,
    /// Mouse click action that replaces a buy order's price.
    pub order_replace_click_buy: u8,
    /// Skip buying forward contracts / pre-market tokens.
    pub dont_buy_forward: bool,
    /// Show split-zone lines on chart (visual price zones).
    pub chart_split_zones: bool,
    /// Draw stop-loss line on the chart.
    pub draw_stop: bool,
    /// Maximum single order size in quote currency (0 = no limit).
    /// (IEEE-754 bits of the `f64` value.)
    pub max_order: u64,
    /// Remove the max-orders limit entirely.
    pub unlimited_orders: bool,
    /// Use manual strategy for order parameters.
    pub use_manual_strategy: bool,
    /// Name of the manual strategy.
    pub manual_strategy: String,
    /// Use x9 (9-grid) mode for order splitting.
    pub x9_mode: bool,
    /// Shared scale flag — multiply offsets by 10 when true.
    /// Mirrors [`ClientSettingsCommand::x_tmode`].
    pub x_t_mode: bool,
    /// Runtime one-shot flag: the fixed-balance warning dialog has already
    /// been shown. Not a user setting.
    pub fixed_balance_warning: bool,
    /// Minimum gap between trades in milliseconds.
    pub trades_gap_time: i32,
    /// Use iceberg orders for buys.
    /// Mirrors [`ClientSettingsCommand::buy_iceberg`].
    pub buy_iceberg: bool,
    /// Use iceberg orders for sells.
    /// Mirrors [`ClientSettingsCommand::sell_iceberg`].
    pub sell_iceberg: bool,
    /// Iceberg slice size as a fraction of total.
    /// (IEEE-754 bits of the `f64` value.)
    pub iceberg_step: u64,
    /// Mouse click action that places a new buy order at price.
    pub order_set_click: u8,
    /// Mouse click action that places a pending (limit) buy order.
    pub pending_order_set_click: u8,
    /// Spread percentage for pending orders above/below market.
    /// (IEEE-754 bits of the `f64` value.)
    pub pending_orders_spread: u64,
    /// High-delta threshold for pending order spread adjustment.
    /// (IEEE-754 bits of the `f64` value.)
    pub pending_orders_spread_h_delta: u64,
    /// Legacy, no consumers in current MoonBot code (default 1). Kept for wire
    /// compatibility only.
    pub buy_pending_spread: i32,
    /// Legacy, no consumers in current MoonBot code (default 1). Kept for wire
    /// compatibility only.
    pub buy_stop_pending_spread: i32,
    /// On thin-client: panic-sell positions when master closes.
    pub tm_panic_sell_closed: bool,
    /// Thin-client: only forward share commands, not full replays.
    pub tm_send_only_share: bool,
    /// Multi-orders (MoonFriend): when this master bot's sell order completes,
    /// send `cmd_CancelBuy` for the market to the linked user bots.
    pub tm_cancel_closed: bool,
    /// Multi-orders (MoonFriend): when this master bot's buy order fills, send
    /// `cmd_CancelBuy` to the linked user bots 5 seconds later.
    pub tm_cancel_buy_on_fill: bool,
    /// Allow multi-commands (batch order operations from thin-client).
    pub multi_commands: bool,
    /// Runtime counter of iceberg button clicks on the chart. Not a user
    /// setting.
    pub iceberg_click_count: i32,
    /// Multi-orders (MoonFriend): right after the master's buy completes, send
    /// `cmd_Sell` with the master's sell price to the linked bots — otherwise
    /// each linked bot places the sell at its own strategy price.
    pub tm_send_first_sell: bool,
    /// Thin-client: auto-sell if master buy is not filled.
    pub tm_sell_if_master_not_filled: bool,
    /// Thin-client: max order size override (0 = follow master).
    /// (IEEE-754 bits of the `f64` value.)
    pub tm_max_order: u64,
    /// Multi-order mode settings (visual order grid behavior).
    pub multi_orders: MultiOrdersConfig,
    /// Mouse click action that replaces a sell order's price.
    pub order_replace_click_sell: u8,
    /// Chart price-alert configuration.
    pub alert_config: AlertConfig,
    /// Use the MoonBot-curated coin blacklist from the cloud.
    pub use_moon_bl: bool,
    /// Auto-correct order price to the nearest valid tick.
    pub correct_order_price: bool,
    /// Binance Futures commission rate override.
    /// (IEEE-754 bits of the `f64` value.)
    pub f_binance_commission: u64,
    /// Spot chart panel display settings.
    pub spot_config: SpotConfig,
    /// Prefer WebSocket best-bid/ask stream over REST polling.
    pub use_book_ticker: bool,
    /// Exclude blacklisted coins from delta calculations.
    pub exclude_black_list_delta: bool,
    /// Check and auto-close orphaned (zero-size) positions.
    /// Mirrors [`ClientSettingsCommand::free_position_check`].
    pub free_position_check: bool,
    /// Order lifecycle watchdog settings.
    pub orders_control: OrdersControl,
    /// Use volume-weighted moving average for market analysis.
    pub m_avg_use_vol_weight: bool,
    /// Use pending-buy price instead of current ask for sell calculations.
    pub pending_buy_price: bool,
    /// Fixed sell mode toggle.
    /// Mirrors [`ClientSettingsCommand::fixed_sell_mode`].
    pub fixed_sell_mode: bool,
    /// Fixed sell price value.
    /// Mirrors [`ClientSettingsCommand::fixed_sell_price`].
    /// (IEEE-754 bits of the `f64` value.)
    pub fixed_sell_price: u64,
    /// Enable futures-specific safety rules (position mode checks etc.).
    pub futures_rules: bool,
    /// Cashback (BNB holder discount) tracking settings.
    pub cashback_settings: CashBackSettings,
    /// Automatically lower leverage if the exchange rejects the current level.
    pub auto_lower_lev: bool,
    /// Asset/funds transfer panel display settings.
    pub transfer_config: AssetTransferConfig,
    /// Minimum balance to keep in the account (negative = disabled).
    /// (IEEE-754 bits of the `f64` value.)
    pub min_balance: u64,
    /// Automatic leverage management settings.
    pub auto_manage_lev: AutoManageLevConfig,
    /// Leverage control expression (e.g. "1k def 5k BTC*").
    pub auto_lev_control: String,
    /// Use stop-market orders instead of stop-limit.
    /// Mirrors [`ClientSettingsCommand::use_stop_market`].
    pub use_stop_market: bool,
    /// Auto-close zero-quantity ghost positions.
    pub auto_close_zero_pos: bool,
    /// Telegram screenshot sharing settings.
    pub send_shots_config: SendShotsConfig,
    /// Include leverage in take-profit calculations.
    pub use_lev_for_take: bool,
    /// ByBit commission rate multiplier (e.g. 1.001 = 0.1% fee).
    /// (IEEE-754 bits of the `f64` value.)
    pub bybit_commission: u64,
    /// Auto-reduce oversized orders to match available balance.
    pub auto_reduce_order: bool,
    /// Gate.io commission rate multiplier.
    /// (IEEE-754 bits of the `f64` value.)
    pub gate_commission: u64,
    /// User-defined manual strategy names (slots 1..10).
    pub manual_strats_names: [String; 10],
    /// Manual strategy buttons / hotkeys config.
    pub manual_strats_config: ManualStratsConfig,
    /// Trigger-clear expression (e.g. "1-200" = clear triggers for IDs 1..200).
    pub clear_triggers_string: String,
    /// Tickers that should not generate trade signals (one per line).
    pub no_trades_markets_text: String,
    /// Use WebSocket-based API for order placement (vs REST).
    pub use_websocket_api: bool,
    /// Order book depth levels for WebSocket stream.
    pub order_book_levels_ws: i32,
    /// Arbitrage panel display settings.
    pub arb_view_config: ArbViewConfig,
    /// Compute deltas from trade stream instead of orderbook.
    pub deltas_by_trades: bool,
    /// Ignore strategy-defined sell price, use global settings instead.
    pub ignore_strat_sell_price: bool,
    /// Use HyperLiquid's fast IOC (Immediate-Or-Cancel) order mode.
    pub use_hl_fast_ioc: bool,
    /// Opaque bytes from a newer MoonBot version (preserved for roundtrip).
    pub unknown_tail: Vec<u8>,
}

impl TradingSection {
    /// Whether every field holds the value that [`TradingSection::default`] gives.
    pub open spec fn is_default(&self) -> bool {
        &&& self.auto_delete_logs == 7
        &&& self.log_level == 3
        &&& self.binance_connection == 0
        &&& self.fav_markets@ == Seq::<char>::empty()
        &&& self.x_ask == 0
        &&& self.x_sell == 5
        &&& self.x_sell_scalp == 10
        &&& self.play_with == 20
        &&& self.check_glass == false
        &&& self.max_orders == 30
        &&& self.auto_sell_partial == 100
        &&& self.price_range == 1
        &&& self.sell_auto_move == false
        &&& self.pump_q_level == 30
        &&& self.sell_x2_level == 80
        &&& self.cancel_buy_on_sell_fill == false
        &&& self.auto_cancel_buy_order == 20
        &&& self.vol_drop_level == 7
        &&& self.price_drop_level == 0xbf800000
        &&& self.panic_if_vol_drop == false
        &&& self.panic_if_price_drop == false
        &&& self.manual_mode == false
        &&& self.draw_all_buy == false
        &&& self.trailing_stop == false
        &&& self.trailing_drop == 0xc0000000
        &&& self.engine_check_buy == false
        &&& self.use_manual_balance == true
        &&& self.fixed_trade_balance == 0x4059000000000000
        &&& self.use_current_ask == false
        &&& self.g_take_profit == 0x4000000000000000
        &&& self.use_g_take_profit == true
        &&& self.show_order_comment == false
        &&& self.chart_clean_up_time == 30
        &&& self.dbl_click_panic_sell == false
        &&& self.coins_black_list_text@ == Seq::<char>::empty()
        &&& self.use_coins_black_list == false
        &&& self.h_pos_black_list_text@ == Seq::<char>::empty()
        &&& self.trailing_float == 0x0000000000000000
        &&& self.h_pos_black_list_add@ == Seq::<char>::empty()
        &&& self.random_price == false
        &&& self.dont_buy_delisted == true
        &&& self.dont_buy_new_coins == 60
        &&& self.auto_cancel_lower_buy == 180
        &&& self.buy_on_enter == true
        &&& self.auto_buy_bnb == false
        &&& self.auto_buy_bnb_level == 0x3ff0000000000000
        &&& self.auto_buy_bnb_volume == 0x4000000000000000
        &&& self.order_replace_click_buy == 0
        &&& self.dont_buy_forward == true
        &&& self.chart_split_zones == false
        &&& self.draw_stop == true
        &&& self.max_order == 0x0000000000000000
        &&& self.unlimited_orders == false
        &&& self.use_manual_strategy == false
        &&& self.manual_strategy@ == Seq::<char>::empty()
        &&& self.x9_mode == false
        &&& self.x_t_mode == false
        &&& self.fixed_balance_warning == false
        &&& self.trades_gap_time == 7000
        &&& self.buy_iceberg == false
        &&& self.sell_iceberg == true
        &&& self.iceberg_step == 0x3fb999999999999a
        &&& self.order_set_click == 1
        &&& self.pending_order_set_click == 0
        &&& self.pending_orders_spread == 0x3fe0000000000000
        &&& self.pending_orders_spread_h_delta == 0x3fb999999999999a
        &&& self.buy_pending_spread == 0
        &&& self.buy_stop_pending_spread == 0
        &&& self.tm_panic_sell_closed == true
        &&& self.tm_send_only_share == false
        &&& self.tm_cancel_closed == false
        &&& self.tm_cancel_buy_on_fill == false
        &&& self.multi_commands == false
        &&& self.iceberg_click_count == 0
        &&& self.tm_send_first_sell == true
        &&& self.tm_sell_if_master_not_filled == false
        &&& self.tm_max_order == 0x0000000000000000
        &&& self.order_replace_click_sell == 2
        &&& self.use_moon_bl == true
        &&& self.correct_order_price == false
        &&& self.f_binance_commission == 0x0000000000000000
        &&& self.use_book_ticker == false
        &&& self.exclude_black_list_delta == false
        &&& self.free_position_check == false
        &&& self.m_avg_use_vol_weight == true
        &&& self.pending_buy_price == true
        &&& self.fixed_sell_mode == true
        &&& self.fixed_sell_price == 0x3ff0000000000000
        &&& self.futures_rules == true
        &&& self.auto_lower_lev == false
        &&& self.min_balance == 0xbff0000000000000
        &&& self.auto_lev_control@ == Seq::<char>::empty()
        &&& self.use_stop_market == false
        &&& self.auto_close_zero_pos == false
        &&& self.use_lev_for_take == false
        &&& self.bybit_commission == 0x3ff004189374bc6a
        &&& self.auto_reduce_order == false
        &&& self.gate_commission == 0x3ff004189374bc6a
        &&& forall|i: int| 0 <= i < 10 ==> self.manual_strats_names@[i]@ == Seq::<char>::empty()
        &&& self.clear_triggers_string@ == "1-200"@
        &&& self.no_trades_markets_text@ == Seq::<char>::empty()
        &&& self.use_websocket_api == false
        &&& self.order_book_levels_ws == 2
        &&& self.deltas_by_trades == false
        &&& self.ignore_strat_sell_price == false
        &&& self.use_hl_fast_ioc == false
        &&& self.unknown_tail@.len() == 0
        &&& self.auto_start.is_default()
        &&& self.auto_start_2.is_default()
        &&& self.moonbot_config.is_default()
        &&& self.report_config.is_default()
        &&& self.multi_orders.is_default()
        &&& self.alert_config.is_default()
        &&& self.spot_config.is_default()
        &&& self.orders_control.is_default()
        &&& self.cashback_settings.is_default()
        &&& self.transfer_config.is_default()
        &&& self.auto_manage_lev.is_default()
        &&& self.send_shots_config.is_default()
        &&& self.manual_strats_config.is_default()
        &&& self.arb_view_config.is_default()
    }
}

impl Default for TradingSection {
    fn default() -> (r: Self)
        ensures
            r.is_default(),
    {
        TradingSection {
            auto_delete_logs: 7,
            log_level: 3,
            binance_connection: 0,
            auto_start: AutoStartConfig::default(),
            auto_start_2: AutoStartConfig2::default(),
            fav_markets: String::new(),
            x_ask: 0,
            x_sell: 5,
            x_sell_scalp: 10,
            play_with: 20,
            check_glass: false,
            max_orders: 30,
            auto_sell_partial: 100,
            price_range: 1,
            sell_auto_move: false,
            pump_q_level: 30,
            sell_x2_level: 80,
            cancel_buy_on_sell_fill: false,
            auto_cancel_buy_order: 20,
            vol_drop_level: 7,
            price_drop_level: 0xbf800000,
            panic_if_vol_drop: false,
            panic_if_price_drop: false,
            manual_mode: false,
            draw_all_buy: false,
            trailing_stop: false,
            trailing_drop: 0xc0000000,
            engine_check_buy: false,
            use_manual_balance: true,
            fixed_trade_balance: 0x4059000000000000,
            use_current_ask: false,
            g_take_profit: 0x4000000000000000,
            use_g_take_profit: true,
            show_order_comment: false,
            chart_clean_up_time: 30,
            moonbot_config: MoonBotConfig::default(),
            dbl_click_panic_sell: false,
            coins_black_list_text: String::new(),
            use_coins_black_list: false,
            h_pos_black_list_text: String::new(),
            trailing_float: 0x0000000000000000,
            h_pos_black_list_add: String::new(),
            random_price: false,
            report_config: ReportConfig::default(),
            dont_buy_delisted: true,
            dont_buy_new_coins: 60,
            auto_cancel_lower_buy: 180,
            buy_on_enter: true,
            auto_buy_bnb: false,
            auto_buy_bnb_level: 0x3ff0000000000000,
            auto_buy_bnb_volume: 0x4000000000000000,
            order_replace_click_buy: 0,
            dont_buy_forward: true,
            chart_split_zones: false,
            draw_stop: true,
            max_order: 0x0000000000000000,
            unlimited_orders: false,
            use_manual_strategy: false,
            manual_strategy: String::new(),
            x9_mode: false,
            x_t_mode: false,
            fixed_balance_warning: false,
            trades_gap_time: 7000,
            buy_iceberg: false,
            sell_iceberg: true,
            iceberg_step: 0x3fb999999999999a,
            order_set_click: 1,
            pending_order_set_click: 0,
            pending_orders_spread: 0x3fe0000000000000,
            pending_orders_spread_h_delta: 0x3fb999999999999a,
            buy_pending_spread: 0,
            buy_stop_pending_spread: 0,
            tm_panic_sell_closed: true,
            tm_send_only_share: false,
            tm_cancel_closed: false,
            tm_cancel_buy_on_fill: false,
            multi_commands: false,
            iceberg_click_count: 0,
            tm_send_first_sell: true,
            tm_sell_if_master_not_filled: false,
            tm_max_order: 0x0000000000000000,
            multi_orders: MultiOrdersConfig::default(),
            order_replace_click_sell: 2,
            alert_config: AlertConfig::default(),
            use_moon_bl: true,
            correct_order_price: false,
            f_binance_commission: 0x0000000000000000,
            spot_config: SpotConfig::default(),
            use_book_ticker: false,
            exclude_black_list_delta: false,
            free_position_check: false,
            orders_control: OrdersControl::default(),
            m_avg_use_vol_weight: true,
            pending_buy_price: true,
            fixed_sell_mode: true,
            fixed_sell_price: 0x3ff0000000000000,
            futures_rules: true,
            cashback_settings: CashBackSettings::default(),
            auto_lower_lev: false,
            transfer_config: AssetTransferConfig::default(),
            min_balance: 0xbff0000000000000,
            auto_manage_lev: AutoManageLevConfig::default(),
            auto_lev_control: String::new(),
            use_stop_market: false,
            auto_close_zero_pos: false,
            send_shots_config: SendShotsConfig::default(),
            use_lev_for_take: false,
            bybit_commission: 0x3ff004189374bc6a,
            auto_reduce_order: false,
            gate_commission: 0x3ff004189374bc6a,
            manual_strats_names: [String::new(), String::new(), String::new(), String::new(), String::new(), String::new(), String::new(), String::new(), String::new(), String::new()],
            manual_strats_config: ManualStratsConfig::default(),
            clear_triggers_string: "1-200".to_owned(),
            no_trades_markets_text: String::new(),
            use_websocket_api: false,
            order_book_levels_ws: 2,
            arb_view_config: ArbViewConfig::default(),
            deltas_by_trades: false,
            ignore_strat_sell_price: false,
            use_hl_fast_ioc: false,
            unknown_tail: Vec::new(),
        }
    }
}

/// Fixed-width fields of the trading section from `auto_delete_logs` to `binance_connection`, in wire order.
#[derive(Clone, Copy, Debug)]
pub struct TradingRun1 {
    /// Auto-delete old log files after this many days.
    pub auto_delete_logs: i32,
    /// Log verbosity level (0 = minimal, higher = more detail).
    pub log_level: i32,
    /// API connection variant index (exchange-specific, e.g. 0 = default).
    pub binance_connection: i32,
}

/// Wire size of [`TradingRun1`].
pub const TRADING_RUN1_LEN: usize = 12;

/// Wire bytes of a [`TradingRun1`], field after field.
pub open spec fn trading_run1_bytes(c: TradingRun1) -> Seq<u8> {
    le_u32(c.auto_delete_logs as u32)
        + le_u32(c.log_level as u32)
        + le_u32(c.binance_connection as u32)
}

/// Whether `c` is the [`TradingRun1`] stored at `p`.
pub open spec fn trading_run1_at(d: Seq<u8>, p: int, c: TradingRun1) -> bool {
    &&& c.auto_delete_logs == i32_at(d, p)
    &&& c.log_level == i32_at(d, p + 4)
    &&& c.binance_connection == i32_at(d, p + 8)
}

/// Read a [`TradingRun1`].
pub fn read_trading_run1(r: &mut ConfigReader) -> (res: Result<TradingRun1, SharedConfigError>)
    ensures
        final(r).bytes() == old(r).bytes(),
        old(r).at() + TRADING_RUN1_LEN <= old(r).bytes().len() ==> (res matches Ok(c) && trading_run1_at(
            old(r).bytes(),
            old(r).at(),
            c,
        ) && final(r).at() == old(r).at() + TRADING_RUN1_LEN),
        old(r).at() + TRADING_RUN1_LEN > old(r).bytes().len() ==> (res matches Err(e) && e@ == eof_msg()),
{
    Ok(TradingRun1 {
        auto_delete_logs: r.read_i32()?,
        log_level: r.read_i32()?,
        binance_connection: r.read_i32()?,
    })
}

/// Write a [`TradingRun1`].
pub fn write_trading_run1(w: &mut ConfigWriter, c: &TradingRun1)
    requires
        old(w).wf(),
    ensures
        final(w).wf(),
        final(w).wrote_all(old(w), true, trading_run1_bytes(*c)),
{
    let ghost w0 = *w;
    let ghost wb = *w;
    w.write_i32(c.auto_delete_logs);
    proof { lemma_wrote_all_of_wrote(wb, *w, le_u32(c.auto_delete_logs as u32)); }
    let ghost wb = *w;
    w.write_i32(c.log_level);
    proof {
        lemma_wrote_all_of_wrote(wb, *w, le_u32(c.log_level as u32));
        lemma_wrote_all_then(w0, wb, *w, true, le_u32(c.auto_delete_logs as u32), true, le_u32(c.log_level as u32));
    }
    let ghost wb = *w;
    w.write_i32(c.binance_connection);
    proof {
        lemma_wrote_all_of_wrote(wb, *w, le_u32(c.binance_connection as u32));
        lemma_wrote_all_then(w0, wb, *w, true, le_u32(c.auto_delete_logs as u32) + le_u32(c.log_level as u32), true, le_u32(c.binance_connection as u32));
    }
}

/// The fields of a [`TradingRun1`] read back from its bytes.
pub proof fn lemma_trading_run1_at(c: TradingRun1, d: Seq<u8>, o: int)
    requires
        0 <= o,
        o + 12 <= d.len(),
        d.subrange(o, o + 12) == trading_run1_bytes(c),
    ensures
        trading_run1_bytes(c).len() == 12,
        trading_run1_at(d, o, c),
{
    let b0 = le_u32(c.auto_delete_logs as u32);
    let b1 = b0 + le_u32(c.log_level as u32);
    let b2 = b1 + le_u32(c.binance_connection as u32);
    let e = d.subrange(o, o + 12);
    assert(e == b2);
    lemma_seq_split(b1, le_u32(c.binance_connection as u32));
    lemma_subrange_of_prefix(e, 12, 0, 8);
    lemma_subrange_of_prefix(e, 12, 8, 12);
    lemma_seq_split(b0, le_u32(c.log_level as u32));
    lemma_subrange_of_prefix(e, 8, 0, 4);
    lemma_subrange_of_prefix(e, 8, 4, 8);
    assert(e.subrange(0, 4) == le_u32(c.auto_delete_logs as u32));
    lemma_le_i32_roundtrip(c.auto_delete_logs);
    assert(d[o + 0] == e.subrange(0, 4)[0] && d[o + 1] == e.subrange(0, 4)[1] && d[o + 2] == e.subrange(0, 4)[2] && d[o + 3] == e.subrange(0, 4)[3]);
    assert(e.subrange(4, 8) == le_u32(c.log_level as u32));
    lemma_le_i32_roundtrip(c.log_level);
    assert(d[o + 4] == e.subrange(4, 8)[0] && d[o + 5] == e.subrange(4, 8)[1] && d[o + 6] == e.subrange(4, 8)[2] && d[o + 7] == e.subrange(4, 8)[3]);
    assert(e.subrange(8, 12) == le_u32(c.binance_connection as u32));
    lemma_le_i32_roundtrip(c.binance_connection);
    assert(d[o + 8] == e.subrange(8, 12)[0] && d[o + 9] == e.subrange(8, 12)[1] && d[o + 10] == e.subrange(8, 12)[2] && d[o + 11] == e.subrange(8, 12)[3]);
}

/// Reading back the bytes of a [`TradingRun1`] gives the same record.
pub proof fn lemma_trading_run1_roundtrip(c: TradingRun1, rest: Seq<u8>)
    ensures
        trading_run1_bytes(c).len() == TRADING_RUN1_LEN,
        trading_run1_at(trading_run1_bytes(c) + rest, 0, c),
{
    lemma_seq_split(trading_run1_bytes(c), rest);
    lemma_trading_run1_at(c, trading_run1_bytes(c) + rest, 0);
}

/// The fields of a [`TradingSection`] that a [`TradingRun1`] holds.
pub open spec fn trading_run1_of(s: TradingSection) -> TradingRun1 {
    TradingRun1 { auto_delete_logs: s.auto_delete_logs, log_level: s.log_level, binance_connection: s.binance_connection }
}

/// Copy the fields of a [`TradingSection`] that a [`TradingRun1`] holds.
fn trading_run1_from(s: &TradingSection) -> (r: TradingRun1)
    ensures
        r == trading_run1_of(*s),
{
    TradingRun1 { auto_delete_logs: s.auto_delete_logs, log_level: s.log_level, binance_connection: s.binance_connection }
}

/// Fixed-width fields of the trading section from `x_ask` to `chart_clean_up_time`, in wire order.
#[derive(Clone, Copy, Debug)]
pub struct TradingRun2 {
    /// Buy price offset from ask, in price steps.
    pub x_ask: i32,
    /// Take-profit sell price offset from buy, in slider units.
    /// Mirrors [`ClientSettingsCommand::x_sell`].
    pub x_sell: i32,
    /// Scalp/quick sell offset in slider units.
    /// Mirrors [`ClientSettingsCommand::x_sell_scalp`].
    pub x_sell_scalp: i32,
    /// Order size as a share of the total trade balance, in thousandths:
    /// order = balance * play_with / 1000 (multiplied by leverage on futures).
    /// The main size slider in MoonBot. Ignored when a fixed manual balance is
    /// set.
    pub play_with: i32,
    /// Check orderbook depth before placing a buy order.
    pub check_glass: bool,
    /// Maximum concurrent open buy orders.
    pub max_orders: i32,
    /// Percentage of buy fill that triggers automatic sell (100 = wait for
    /// full fill).
    pub auto_sell_partial: i32,
    /// Acceptable price range for buys (in price steps from ask).
    pub price_range: i32,
    /// Auto-move sell orders to the best orderbook position.
    pub sell_auto_move: bool,
    /// Minimum PumpQ score a market must have for pump-signal autobuy; the
    /// signal is skipped below it. PumpQ is MoonBot's market-quality metric
    /// computed from recent volume/price history.
    pub pump_q_level: i32,
    /// Volume percentile threshold for doubling sell quantity.
    pub sell_x2_level: i32,
    /// Cancel the pending buy when a sell order fills.
    pub cancel_buy_on_sell_fill: bool,
    /// Auto-cancel an unfilled buy order after a timeout. Composite scale:
    /// values below 30 are seconds, values 30 and above mean
    /// `(value - 29)` minutes.
    pub auto_cancel_buy_order: i32,
    /// Volume-drop percentage that triggers panic sell (when enabled).
    /// Mirrors [`ClientSettingsCommand::vol_drop_level`].
    pub vol_drop_level: i32,
    /// Price-drop percentage that triggers panic sell.
    /// Mirrors [`ClientSettingsCommand::price_drop_level`].
    /// (IEEE-754 bits of the `f32` value.)
    pub price_drop_level: u32,
    /// Panic-sell if volume drops below threshold.
    pub panic_if_vol_drop: bool,
    /// Panic-sell if price drops below threshold.
    /// Mirrors [`ClientSettingsCommand::panic_if_price_drop`].
    pub panic_if_price_drop: bool,
    /// Manual mode — all autobuy sources are disabled.
    pub manual_mode: bool,
    /// Draw all pending buy orders on the chart (not only the selected one).
    pub draw_all_buy: bool,
    /// Enable trailing-stop logic globally.
    /// Mirrors [`ClientSettingsCommand::trailing_stop`].
    pub trailing_stop: bool,
    /// Trailing-stop drop threshold (negative = below peak, e.g. -2.0 %).
    /// Mirrors [`ClientSettingsCommand::trailing_drop`].
    /// (IEEE-754 bits of the `f32` value.)
    pub trailing_drop: u32,
    /// Engine double-checks balance before placing a buy.
    pub engine_check_buy: bool,
    /// Use a fixed trade amount instead of a percentage of balance.
    pub use_manual_balance: bool,
    /// Fixed trade amount in quote currency.
    /// (IEEE-754 bits of the `f64` value.)
    pub fixed_trade_balance: u64,
    /// Use the current ask price for buys (vs. last trade price).
    pub use_current_ask: bool,
    /// Global take-profit percentage.
    /// Mirrors [`ClientSettingsCommand::g_take_profit`].
    /// (IEEE-754 bits of the `f64` value.)
    pub g_take_profit: u64,
    /// Enable global take-profit.
    /// Mirrors [`ClientSettingsCommand::use_g_take_profit`].
    pub use_g_take_profit: bool,
    /// Show order comments (strategy name / signal source) on the chart.
    pub show_order_comment: bool,
    /// Clean up stale chart data after this many minutes of inactivity.
    pub chart_clean_up_time: i32,
}

/// Wire size of [`TradingRun2`].
pub const TRADING_RUN2_LEN: usize = 85;

/// Wire bytes of fields `x_ask` to `max_orders` of a [`TradingRun2`].
pub open spec fn trading_run2_part1_bytes(c: TradingRun2) -> Seq<u8> {
    le_u32(c.x_ask as u32)
        + le_u32(c.x_sell as u32)
        + le_u32(c.x_sell_scalp as u32)
        + le_u32(c.play_with as u32)
        + seq![bool_byte(c.check_glass)]
        + le_u32(c.max_orders as u32)
}

/// Whether fields `x_ask` to `max_orders` of `c` are stored at `p`.
pub open spec fn trading_run2_part1_at(d: Seq<u8>, p: int, c: TradingRun2) -> bool {
    &&& c.x_ask == i32_at(d, p)
    &&& c.x_sell == i32_at(d, p + 4)
    &&& c.x_sell_scalp == i32_at(d, p + 8)
    &&& c.play_with == i32_at(d, p + 12)
    &&& c.check_glass == flag_of(d[p + 16])
    &&& c.max_orders == i32_at(d, p + 17)
}

/// Wire bytes of fields `auto_sell_partial` to `cancel_buy_on_sell_fill` of a [`TradingRun2`].
pub open spec fn trading_run2_part2_bytes(c: TradingRun2) -> Seq<u8> {
    le_u32(c.auto_sell_partial as u32)
        + le_u32(c.price_range as u32)
        + seq![bool_byte(c.sell_auto_move)]
        + le_u32(c.pump_q_level as u32)
        + le_u32(c.sell_x2_level as u32)
        + seq![bool_byte(c.cancel_buy_on_sell_fill)]
}

/// Whether fields `auto_sell_partial` to `cancel_buy_on_sell_fill` of `c` are stored at `p`.
pub open spec fn trading_run2_part2_at(d: Seq<u8>, p: int, c: TradingRun2) -> bool {
    &&& c.auto_sell_partial == i32_at(d, p)
    &&& c.price_range == i32_at(d, p + 4)
    &&& c.sell_auto_move == flag_of(d[p + 8])
    &&& c.pump_q_level == i32_at(d, p + 9)
    &&& c.sell_x2_level == i32_at(d, p + 13)
    &&& c.cancel_buy_on_sell_fill == flag_of(d[p + 17])
}

/// Wire bytes of fields `auto_cancel_buy_order` to `manual_mode` of a [`TradingRun2`].
pub open spec fn trading_run2_part3_bytes(c: TradingRun2) -> Seq<u8> {
    le_u32(c.auto_cancel_buy_order as u32)
        + le_u32(c.vol_drop_level as u32)
        + le_u32(c.price_drop_level)
        + seq![bool_byte(c.panic_if_vol_drop)]
        + seq![bool_byte(c.panic_if_price_drop)]
        + seq![bool_byte(c.manual_mode)]
}

/// Whether fields `auto_cancel_buy_order` to `manual_mode` of `c` are stored at `p`.
pub open spec fn trading_run2_part3_at(d: Seq<u8>, p: int, c: TradingRun2) -> bool {
    &&& c.auto_cancel_buy_order == i32_at(d, p)
    &&& c.vol_drop_level == i32_at(d, p + 4)
    &&& c.price_drop_level == u32_at(d, p + 8)
    &&& c.panic_if_vol_drop == flag_of(d[p + 12])
    &&& c.panic_if_price_drop == flag_of(d[p + 13])
    &&& c.manual_mode == flag_of(d[p + 14])
}

/// Wire bytes of fields `draw_all_buy` to `fixed_trade_balance` of a [`TradingRun2`].
pub open spec fn trading_run2_part4_bytes(c: TradingRun2) -> Seq<u8> {
    seq![bool_byte(c.draw_all_buy)]
        + seq![bool_byte(c.trailing_stop)]
        + le_u32(c.trailing_drop)
        + seq![bool_byte(c.engine_check_buy)]
        + seq![bool_byte(c.use_manual_balance)]
        + le_u64(c.fixed_trade_balance)
}

/// Whether fields `draw_all_buy` to `fixed_trade_balance` of `c` are stored at `p`.
pub open spec fn trading_run2_part4_at(d: Seq<u8>, p: int, c: TradingRun2) -> bool {
    &&& c.draw_all_buy == flag_of(d[p])
    &&& c.trailing_stop == flag_of(d[p + 1])
    &&& c.trailing_drop == u32_at(d, p + 2)
    &&& c.engine_check_buy == flag_of(d[p + 6])
    &&& c.use_manual_balance == flag_of(d[p + 7])
    &&& c.fixed_trade_balance == u64_at(d, p + 8)
}

/// Wire bytes of fields `use_current_ask` to `chart_clean_up_time` of a [`TradingRun2`].
pub open spec fn trading_run2_part5_bytes(c: TradingRun2) -> Seq<u8> {
    seq![bool_byte(c.use_current_ask)]
        + le_u64(c.g_take_profit)
        + seq![bool_byte(c.use_g_take_profit)]
        + seq![bool_byte(c.show_order_comment)]
        + le_u32(c.chart_clean_up_time as u32)
}

/// Whether fields `use_current_ask` to `chart_clean_up_time` of `c` are stored at `p`.
pub open spec fn trading_run2_part5_at(d: Seq<u8>, p: int, c: TradingRun2) -> bool {
    &&& c.use_current_ask == flag_of(d[p])
    &&& c.g_take_profit == u64_at(d, p + 1)
    &&& c.use_g_take_profit == flag_of(d[p + 9])
    &&& c.show_order_comment == flag_of(d[p + 10])
    &&& c.chart_clean_up_time == i32_at(d, p + 11)
}

/// Wire bytes of a [`TradingRun2`], field after field.
pub open spec fn trading_run2_bytes(c: TradingRun2) -> Seq<u8> {
    trading_run2_part1_bytes(c)
        + trading_run2_part2_bytes(c)
        + trading_run2_part3_bytes(c)
        + trading_run2_part4_bytes(c)
        + trading_run2_part5_bytes(c)
}

/// Whether `c` is the [`TradingRun2`] stored at `p`.
pub open spec fn trading_run2_at(d: Seq<u8>, p: int, c: TradingRun2) -> bool {
    &&& trading_run2_part1_at(d, p, c)
    &&& trading_run2_part2_at(d, p + 21, c)
    &&& trading_run2_part3_at(d, p + 39, c)
    &&& trading_run2_part4_at(d, p + 54, c)
    &&& trading_run2_part5_at(d, p + 70, c)
}

/// Read a [`TradingRun2`].
pub fn read_trading_run2(r: &mut ConfigReader) -> (res: Result<TradingRun2, SharedConfigError>)
    ensures
        final(r).bytes() == old(r).bytes(),
        old(r).at() + TRADING_RUN2_LEN <= old(r).bytes().len() ==> (res matches Ok(c) && trading_run2_at(
            old(r).bytes(),
            old(r).at(),
            c,
        ) && final(r).at() == old(r).at() + TRADING_RUN2_LEN),
        old(r).at() + TRADING_RUN2_LEN > old(r).bytes().len() ==> (res matches Err(e) && e@ == eof_msg()),
{
    Ok(TradingRun2 {
        x_ask: r.read_i32()?,
        x_sell: r.read_i32()?,
        x_sell_scalp: r.read_i32()?,
        play_with: r.read_i32()?,
        check_glass: r.read_bool()?,
        max_orders: r.read_i32()?,
        auto_sell_partial: r.read_i32()?,
        price_range: r.read_i32()?,
        sell_auto_move: r.read_bool()?,
        pump_q_level: r.read_i32()?,
        sell_x2_level: r.read_i32()?,
        cancel_buy_on_sell_fill: r.read_bool()?,
        auto_cancel_buy_order: r.read_i32()?,
        vol_drop_level: r.read_i32()?,
        price_drop_level: r.read_u32()?,
        panic_if_vol_drop: r.read_bool()?,
        panic_if_price_drop: r.read_bool()?,
        manual_mode: r.read_bool()?,
        draw_all_buy: r.read_bool()?,
        trailing_stop: r.read_bool()?,
        trailing_drop: r.read_u32()?,
        engine_check_buy: r.read_bool()?,
        use_manual_balance: r.read_bool()?,
        fixed_trade_balance: r.read_u64()?,
        use_current_ask: r.read_bool()?,
        g_take_profit: r.read_u64()?,
        use_g_take_profit: r.read_bool()?,
        show_order_comment: r.read_bool()?,
        chart_clean_up_time: r.read_i32()?,
    })
}

/// Write fields `x_ask` to `max_orders` of a [`TradingRun2`].
fn write_trading_run2_part1(w: &mut ConfigWriter, c: &TradingRun2)
    requires
        old(w).wf(),
    ensures
        final(w).wf(),
        final(w).wrote_all(old(w), true, trading_run2_part1_bytes(*c)),
{
    let ghost w0 = *w;
    let ghost wb = *w;
    w.write_i32(c.x_ask);
    proof { lemma_wrote_all_of_wrote(wb, *w, le_u32(c.x_ask as u32)); }
    let ghost wb = *w;
    w.write_i32(c.x_sell);
    proof {
        lemma_wrote_all_of_wrote(wb, *w, le_u32(c.x_sell as u32));
        lemma_wrote_all_then(w0, wb, *w, true, le_u32(c.x_ask as u32), true, le_u32(c.x_sell as u32));
    }
    let ghost wb = *w;
    w.write_i32(c.x_sell_scalp);
    proof {
        lemma_wrote_all_of_wrote(wb, *w, le_u32(c.x_sell_scalp as u32));
        lemma_wrote_all_then(w0, wb, *w, true, le_u32(c.x_ask as u32) + le_u32(c.x_sell as u32), true, le_u32(c.x_sell_scalp as u32));
    }
    let ghost wb = *w;
    w.write_i32(c.play_with);
    proof {
        lemma_wrote_all_of_wrote(wb, *w, le_u32(c.play_with as u32));
        lemma_wrote_all_then(w0, wb, *w, true, le_u32(c.x_ask as u32) + le_u32(c.x_sell as u32) + le_u32(c.x_sell_scalp as u32), true, le_u32(c.play_with as u32));
    }
    let ghost wb = *w;
    w.write_bool(c.check_glass);
    proof {
        lemma_wrote_all_of_wrote(wb, *w, seq![bool_byte(c.check_glass)]);
        lemma_wrote_all_then(w0, wb, *w, true, le_u32(c.x_ask as u32) + le_u32(c.x_sell as u32) + le_u32(c.x_sell_scalp as u32) + le_u32(c.play_with as u32), true, seq![bool_byte(c.check_glass)]);
    }
    let ghost wb = *w;
    w.write_i32(c.max_orders);
    proof {
        lemma_wrote_all_of_wrote(wb, *w, le_u32(c.max_orders as u32));
        lemma_wrote_all_then(w0, wb, *w, true, le_u32(c.x_ask as u32) + le_u32(c.x_sell as u32) + le_u32(c.x_sell_scalp as u32) + le_u32(c.play_with as u32) + seq![bool_byte(c.check_glass)], true, le_u32(c.max_orders as u32));
    }
}

/// Write fields `auto_sell_partial` to `cancel_buy_on_sell_fill` of a [`TradingRun2`].
fn write_trading_run2_part2(w: &mut ConfigWriter, c: &TradingRun2)
    requires
        old(w).wf(),
    ensures
        final(w).wf(),
        final(w).wrote_all(old(w), true, trading_run2_part2_bytes(*c)),
{
    let ghost w0 = *w;
    let ghost wb = *w;
    w.write_i32(c.auto_sell_partial);
    proof { lemma_wrote_all_of_wrote(wb, *w, le_u32(c.auto_sell_partial as u32)); }
    let ghost wb = *w;
    w.write_i32(c.price_range);
    proof {
        lemma_wrote_all_of_wrote(wb, *w, le_u32(c.price_range as u32));
        lemma_wrote_all_then(w0, wb, *w, true, le_u32(c.auto_sell_partial as u32), true, le_u32(c.price_range as u32));
    }
    let ghost wb = *w;
    w.write_bool(c.sell_auto_move);
    proof {
        lemma_wrote_all_of_wrote(wb, *w, seq![bool_byte(c.sell_auto_move)]);
        lemma_wrote_all_then(w0, wb, *w, true, le_u32(c.auto_sell_partial as u32) + le_u32(c.price_range as u32), true, seq![bool_byte(c.sell_auto_move)]);
    }
    let ghost wb = *w;
    w.write_i32(c.pump_q_level);
    proof {
        lemma_wrote_all_of_wrote(wb, *w, le_u32(c.pump_q_level as u32));
        lemma_wrote_all_then(w0, wb, *w, true, le_u32(c.auto_sell_partial as u32) + le_u32(c.price_range as u32) + seq![bool_byte(c.sell_auto_move)], true, le_u32(c.pump_q_level as u32));
    }
    let ghost wb = *w;
    w.write_i32(c.sell_x2_level);
    proof {
        lemma_wrote_all_of_wrote(wb, *w, le_u32(c.sell_x2_level as u32));
        lemma_wrote_all_then(w0, wb, *w, true, le_u32(c.auto_sell_partial as u32) + le_u32(c.price_range as u32) + seq![bool_byte(c.sell_auto_move)] + le_u32(c.pump_q_level as u32), true, le_u32(c.sell_x2_level as u32));
    }
    let ghost wb = *w;
    w.write_bool(c.cancel_buy_on_sell_fill);
    proof {
        lemma_wrote_all_of_wrote(wb, *w, seq![bool_byte(c.cancel_buy_on_sell_fill)]);
        lemma_wrote_all_then(w0, wb, *w, true, le_u32(c.auto_sell_partial as u32) + le_u32(c.price_range as u32) + seq![bool_byte(c.sell_auto_move)] + le_u32(c.pump_q_level as u32) + le_u32(c.sell_x2_level as u32), true, seq![bool_byte(c.cancel_buy_on_sell_fill)]);
    }
}

/// Write fields `auto_cancel_buy_order` to `manual_mode` of a [`TradingRun2`].
fn write_trading_run2_part3(w: &mut ConfigWriter, c: &TradingRun2)
    requires
        old(w).wf(),
    ensures
        final(w).wf(),
        final(w).wrote_all(old(w), true, trading_run2_part3_bytes(*c)),
{
    let ghost w0 = *w;
    let ghost wb = *w;
    w.write_i32(c.auto_cancel_buy_order);
    proof { lemma_wrote_all_of_wrote(wb, *w, le_u32(c.auto_cancel_buy_order as u32)); }
    let ghost wb = *w;
    w.write_i32(c.vol_drop_level);
    proof {
        lemma_wrote_all_of_wrote(wb, *w, le_u32(c.vol_drop_level as u32));
        lemma_wrote_all_then(w0, wb, *w, true, le_u32(c.auto_cancel_buy_order as u32), true, le_u32(c.vol_drop_level as u32));
    }
    let ghost wb = *w;
    w.write_u32(c.price_drop_level);
    proof {
        lemma_wrote_all_of_wrote(wb, *w, le_u32(c.price_drop_level));
        lemma_wrote_all_then(w0, wb, *w, true, le_u32(c.auto_cancel_buy_order as u32) + le_u32(c.vol_drop_level as u32), true, le_u32(c.price_drop_level));
    }
    let ghost wb = *w;
    w.write_bool(c.panic_if_vol_drop);
    proof {
        lemma_wrote_all_of_wrote(wb, *w, seq![bool_byte(c.panic_if_vol_drop)]);
        lemma_wrote_all_then(w0, wb, *w, true, le_u32(c.auto_cancel_buy_order as u32) + le_u32(c.vol_drop_level as u32) + le_u32(c.price_drop_level), true, seq![bool_byte(c.panic_if_vol_drop)]);
    }
    let ghost wb = *w;
    w.write_bool(c.panic_if_price_drop);
    proof {
        lemma_wrote_all_of_wrote(wb, *w, seq![bool_byte(c.panic_if_price_drop)]);
        lemma_wrote_all_then(w0, wb, *w, true, le_u32(c.auto_cancel_buy_order as u32) + le_u32(c.vol_drop_level as u32) + le_u32(c.price_drop_level) + seq![bool_byte(c.panic_if_vol_drop)], true, seq![bool_byte(c.panic_if_price_drop)]);
    }
    let ghost wb = *w;
    w.write_bool(c.manual_mode);
    proof {
        lemma_wrote_all_of_wrote(wb, *w, seq![bool_byte(c.manual_mode)]);
        lemma_wrote_all_then(w0, wb, *w, true, le_u32(c.auto_cancel_buy_order as u32) + le_u32(c.vol_drop_level as u32) + le_u32(c.price_drop_level) + seq![bool_byte(c.panic_if_vol_drop)] + seq![bool_byte(c.panic_if_price_drop)], true, seq![bool_byte(c.manual_mode)]);
    }
}

/// Write fields `draw_all_buy` to `fixed_trade_balance` of a [`TradingRun2`].
fn write_trading_run2_part4(w: &mut ConfigWriter, c: &TradingRun2)
    requires
        old(w).wf(),
    ensures
        final(w).wf(),
        final(w).wrote_all(old(w), true, trading_run2_part4_bytes(*c)),
{
    let ghost w0 = *w;
    let ghost wb = *w;
    w.write_bool(c.draw_all_buy);
    proof { lemma_wrote_all_of_wrote(wb, *w, seq![bool_byte(c.draw_all_buy)]); }
    let ghost wb = *w;
    w.write_bool(c.trailing_stop);
    proof {
        lemma_wrote_all_of_wrote(wb, *w, seq![bool_byte(c.trailing_stop)]);
        lemma_wrote_all_then(w0, wb, *w, true, seq![bool_byte(c.draw_all_buy)], true, seq![bool_byte(c.trailing_stop)]);
    }
    let ghost wb = *w;
    w.write_u32(c.trailing_drop);
    proof {
        lemma_wrote_all_of_wrote(wb, *w, le_u32(c.trailing_drop));
        lemma_wrote_all_then(w0, wb, *w, true, seq![bool_byte(c.draw_all_buy)] + seq![bool_byte(c.trailing_stop)], true, le_u32(c.trailing_drop));
    }
    let ghost wb = *w;
    w.write_bool(c.engine_check_buy);
    proof {
        lemma_wrote_all_of_wrote(wb, *w, seq![bool_byte(c.engine_check_buy)]);
        lemma_wrote_all_then(w0, wb, *w, true, seq![bool_byte(c.draw_all_buy)] + seq![bool_byte(c.trailing_stop)] + le_u32(c.trailing_drop), true, seq![bool_byte(c.engine_check_buy)]);
    }
    let ghost wb = *w;
    w.write_bool(c.use_manual_balance);
    proof {
        lemma_wrote_all_of_wrote(wb, *w, seq![bool_byte(c.use_manual_balance)]);
        lemma_wrote_all_then(w0, wb, *w, true, seq![bool_byte(c.draw_all_buy)] + seq![bool_byte(c.trailing_stop)] + le_u32(c.trailing_drop) + seq![bool_byte(c.engine_check_buy)], true, seq![bool_byte(c.use_manual_balance)]);
    }
    let ghost wb = *w;
    w.write_u64(c.fixed_trade_balance);
    proof {
        lemma_wrote_all_of_wrote(wb, *w, le_u64(c.fixed_trade_balance));
        lemma_wrote_all_then(w0, wb, *w, true, seq![bool_byte(c.draw_all_buy)] + seq![bool_byte(c.trailing_stop)] + le_u32(c.trailing_drop) + seq![bool_byte(c.engine_check_buy)] + seq![bool_byte(c.use_manual_balance)], true, le_u64(c.fixed_trade_balance));
    }
}

/// Write fields `use_current_ask` to `chart_clean_up_time` of a [`TradingRun2`].
fn write_trading_run2_part5(w: &mut ConfigWriter, c: &TradingRun2)
    requires
        old(w).wf(),
    ensures
        final(w).wf(),
        final(w).wrote_all(old(w), true, trading_run2_part5_bytes(*c)),
{
    let ghost w0 = *w;
    let ghost wb = *w;
    w.write_bool(c.use_current_ask);
    proof { lemma_wrote_all_of_wrote(wb, *w, seq![bool_byte(c.use_current_ask)]); }
    let ghost wb = *w;
    w.write_u64(c.g_take_profit);
    proof {
        lemma_wrote_all_of_wrote(wb, *w, le_u64(c.g_take_profit));
        lemma_wrote_all_then(w0, wb, *w, true, seq![bool_byte(c.use_current_ask)], true, le_u64(c.g_take_profit));
    }
    let ghost wb = *w;
    w.write_bool(c.use_g_take_profit);
    proof {
        lemma_wrote_all_of_wrote(wb, *w, seq![bool_byte(c.use_g_take_profit)]);
        lemma_wrote_all_then(w0, wb, *w, true, seq![bool_byte(c.use_current_ask)] + le_u64(c.g_take_profit), true, seq![bool_byte(c.use_g_take_profit)]);
    }
    let ghost wb = *w;
    w.write_bool(c.show_order_comment);
    proof {
        lemma_wrote_all_of_wrote(wb, *w, seq![bool_byte(c.show_order_comment)]);
        lemma_wrote_all_then(w0, wb, *w, true, seq![bool_byte(c.use_current_ask)] + le_u64(c.g_take_profit) + seq![bool_byte(c.use_g_take_profit)], true, seq![bool_byte(c.show_order_comment)]);
    }
    let ghost wb = *w;
    w.write_i32(c.chart_clean_up_time);
    proof {
        lemma_wrote_all_of_wrote(wb, *w, le_u32(c.chart_clean_up_time as u32));
        lemma_wrote_all_then(w0, wb, *w, true, seq![bool_byte(c.use_current_ask)] + le_u64(c.g_take_profit) + seq![bool_byte(c.use_g_take_profit)] + seq![bool_byte(c.show_order_comment)], true, le_u32(c.chart_clean_up_time as u32));
    }
}

/// Write a [`TradingRun2`].
pub fn write_trading_run2(w: &mut ConfigWriter, c: &TradingRun2)
    requires
        old(w).wf(),
    ensures
        final(w).wf(),
        final(w).wrote_all(old(w), true, trading_run2_bytes(*c)),
{
    let ghost w0 = *w;
    let ghost wb = *w;
    write_trading_run2_part1(w, c);
    let ghost wb = *w;
    write_trading_run2_part2(w, c);
    proof { lemma_wrote_all_then(w0, wb, *w, true, trading_run2_part1_bytes(*c), true, trading_run2_part2_bytes(*c)); }
    let ghost wb = *w;
    write_trading_run2_part3(w, c);
    proof { lemma_wrote_all_then(w0, wb, *w, true, trading_run2_part1_bytes(*c) + trading_run2_part2_bytes(*c), true, trading_run2_part3_bytes(*c)); }
    let ghost wb = *w;
    write_trading_run2_part4(w, c);
    proof { lemma_wrote_all_then(w0, wb, *w, true, trading_run2_part1_bytes(*c) + trading_run2_part2_bytes(*c) + trading_run2_part3_bytes(*c), true, trading_run2_part4_bytes(*c)); }
    let ghost wb = *w;
    write_trading_run2_part5(w, c);
    proof { lemma_wrote_all_then(w0, wb, *w, true, trading_run2_part1_bytes(*c) + trading_run2_part2_bytes(*c) + trading_run2_part3_bytes(*c) + trading_run2_part4_bytes(*c), true, trading_run2_part5_bytes(*c)); }
}

/// Fields `x_ask` to `max_orders` read back from their bytes.
pub proof fn lemma_trading_run2_part1_at(c: TradingRun2, d: Seq<u8>, o: int)
    requires
        0 <= o,
        o + 21 <= d.len(),
        d.subrange(o, o + 21) == trading_run2_part1_bytes(c),
    ensures
        trading_run2_part1_bytes(c).len() == 21,
        trading_run2_part1_at(d, o, c),
{
    let b0 = le_u32(c.x_ask as u32);
    let b1 = b0 + le_u32(c.x_sell as u32);
    let b2 = b1 + le_u32(c.x_sell_scalp as u32);
    let b3 = b2 + le_u32(c.play_with as u32);
    let b4 = b3 + seq![bool_byte(c.check_glass)];
    let b5 = b4 + le_u32(c.max_orders as u32);
    let e = d.subrange(o, o + 21);
    assert(e == b5);
    lemma_seq_split(b4, le_u32(c.max_orders as u32));
    lemma_subrange_of_prefix(e, 21, 0, 17);
    lemma_subrange_of_prefix(e, 21, 17, 21);
    lemma_seq_split(b3, seq![bool_byte(c.check_glass)]);
    lemma_subrange_of_prefix(e, 17, 0, 16);
    lemma_subrange_of_prefix(e, 17, 16, 17);
    lemma_seq_split(b2, le_u32(c.play_with as u32));
    lemma_subrange_of_prefix(e, 16, 0, 12);
    lemma_subrange_of_prefix(e, 16, 12, 16);
    lemma_seq_split(b1, le_u32(c.x_sell_scalp as u32));
    lemma_subrange_of_prefix(e, 12, 0, 8);
    lemma_subrange_of_prefix(e, 12, 8, 12);
    lemma_seq_split(b0, le_u32(c.x_sell as u32));
    lemma_subrange_of_prefix(e, 8, 0, 4);
    lemma_subrange_of_prefix(e, 8, 4, 8);
    assert(e.subrange(0, 4) == le_u32(c.x_ask as u32));
    lemma_le_i32_roundtrip(c.x_ask);
    assert(d[o + 0] == e.subrange(0, 4)[0] && d[o + 1] == e.subrange(0, 4)[1] && d[o + 2] == e.subrange(0, 4)[2] && d[o + 3] == e.subrange(0, 4)[3]);
    assert(e.subrange(4, 8) == le_u32(c.x_sell as u32));
    lemma_le_i32_roundtrip(c.x_sell);
    assert(d[o + 4] == e.subrange(4, 8)[0] && d[o + 5] == e.subrange(4, 8)[1] && d[o + 6] == e.subrange(4, 8)[2] && d[o + 7] == e.subrange(4, 8)[3]);
    assert(e.subrange(8, 12) == le_u32(c.x_sell_scalp as u32));
    lemma_le_i32_roundtrip(c.x_sell_scalp);
    assert(d[o + 8] == e.subrange(8, 12)[0] && d[o + 9] == e.subrange(8, 12)[1] && d[o + 10] == e.subrange(8, 12)[2] && d[o + 11] == e.subrange(8, 12)[3]);
    assert(e.subrange(12, 16) == le_u32(c.play_with as u32));
    lemma_le_i32_roundtrip(c.play_with);
    assert(d[o + 12] == e.subrange(12, 16)[0] && d[o + 13] == e.subrange(12, 16)[1] && d[o + 14] == e.subrange(12, 16)[2] && d[o + 15] == e.subrange(12, 16)[3]);
    assert(e.subrange(16, 17) == seq![bool_byte(c.check_glass)]);
    assert(d[o + 16] == e.subrange(16, 17)[0]);
    lemma_bool_byte(c.check_glass);
    assert(e.subrange(17, 21) == le_u32(c.max_orders as u32));
    lemma_le_i32_roundtrip(c.max_orders);
    assert(d[o + 17] == e.subrange(17, 21)[0] && d[o + 18] == e.subrange(17, 21)[1] && d[o + 19] == e.subrange(17, 21)[2] && d[o + 20] == e.subrange(17, 21)[3]);
}

/// Fields `auto_sell_partial` to `cancel_buy_on_sell_fill` read back from their bytes.
pub proof fn lemma_trading_run2_part2_at(c: TradingRun2, d: Seq<u8>, o: int)
    requires
        0 <= o,
        o + 18 <= d.len(),
        d.subrange(o, o + 18) == trading_run2_part2_bytes(c),
    ensures
        trading_run2_part2_bytes(c).len() == 18,
        trading_run2_part2_at(d, o, c),
{
    let b0 = le_u32(c.auto_sell_partial as u32);
    let b1 = b0 + le_u32(c.price_range as u32);
    let b2 = b1 + seq![bool_byte(c.sell_auto_move)];
    let b3 = b2 + le_u32(c.pump_q_level as u32);
    let b4 = b3 + le_u32(c.sell_x2_level as u32);
    let b5 = b4 + seq![bool_byte(c.cancel_buy_on_sell_fill)];
    let e = d.subrange(o, o + 18);
    assert(e == b5);
    lemma_seq_split(b4, seq![bool_byte(c.cancel_buy_on_sell_fill)]);
    lemma_subrange_of_prefix(e, 18, 0, 17);
    lemma_subrange_of_prefix(e, 18, 17, 18);
    lemma_seq_split(b3, le_u32(c.sell_x2_level as u32));
    lemma_subrange_of_prefix(e, 17, 0, 13);
    lemma_subrange_of_prefix(e, 17, 13, 17);
    lemma_seq_split(b2, le_u32(c.pump_q_level as u32));
    lemma_subrange_of_prefix(e, 13, 0, 9);
    lemma_subrange_of_prefix(e, 13, 9, 13);
    lemma_seq_split(b1, seq![bool_byte(c.sell_auto_move)]);
    lemma_subrange_of_prefix(e, 9, 0, 8);
    lemma_subrange_of_prefix(e, 9, 8, 9);
    lemma_seq_split(b0, le_u32(c.price_range as u32));
    lemma_subrange_of_prefix(e, 8, 0, 4);
    lemma_subrange_of_prefix(e, 8, 4, 8);
    assert(e.subrange(0, 4) == le_u32(c.auto_sell_partial as u32));
    lemma_le_i32_roundtrip(c.auto_sell_partial);
    assert(d[o + 0] == e.subrange(0, 4)[0] && d[o + 1] == e.subrange(0, 4)[1] && d[o + 2] == e.subrange(0, 4)[2] && d[o + 3] == e.subrange(0, 4)[3]);
    assert(e.subrange(4, 8) == le_u32(c.price_range as u32));
    lemma_le_i32_roundtrip(c.price_range);
    assert(d[o + 4] == e.subrange(4, 8)[0] && d[o + 5] == e.subrange(4, 8)[1] && d[o + 6] == e.subrange(4, 8)[2] && d[o + 7] == e.subrange(4, 8)[3]);
    assert(e.subrange(8, 9) == seq![bool_byte(c.sell_auto_move)]);
    assert(d[o + 8] == e.subrange(8, 9)[0]);
    lemma_bool_byte(c.sell_auto_move);
    assert(e.subrange(9, 13) == le_u32(c.pump_q_level as u32));
    lemma_le_i32_roundtrip(c.pump_q_level);
    assert(d[o + 9] == e.subrange(9, 13)[0] && d[o + 10] == e.subrange(9, 13)[1] && d[o + 11] == e.subrange(9, 13)[2] && d[o + 12] == e.subrange(9, 13)[3]);
    assert(e.subrange(13, 17) == le_u32(c.sell_x2_level as u32));
    lemma_le_i32_roundtrip(c.sell_x2_level);
    assert(d[o + 13] == e.subrange(13, 17)[0] && d[o + 14] == e.subrange(13, 17)[1] && d[o + 15] == e.subrange(13, 17)[2] && d[o + 16] == e.subrange(13, 17)[3]);
    assert(e.subrange(17, 18) == seq![bool_byte(c.cancel_buy_on_sell_fill)]);
    assert(d[o + 17] == e.subrange(17, 18)[0]);
    lemma_bool_byte(c.cancel_buy_on_sell_fill);
}

/// Fields `auto_cancel_buy_order` to `manual_mode` read back from their bytes.
pub proof fn lemma_trading_run2_part3_at(c: TradingRun2, d: Seq<u8>, o: int)
    requires
        0 <= o,
        o + 15 <= d.len(),
        d.subrange(o, o + 15) == trading_run2_part3_bytes(c),
    ensures
        trading_run2_part3_bytes(c).len() == 15,
        trading_run2_part3_at(d, o, c),
{
    let b0 = le_u32(c.auto_cancel_buy_order as u32);
    let b1 = b0 + le_u32(c.vol_drop_level as u32);
    let b2 = b1 + le_u32(c.price_drop_level);
    let b3 = b2 + seq![bool_byte(c.panic_if_vol_drop)];
    let b4 = b3 + seq![bool_byte(c.panic_if_price_drop)];
    let b5 = b4 + seq![bool_byte(c.manual_mode)];
    let e = d.subrange(o, o + 15);
    assert(e == b5);
    lemma_seq_split(b4, seq![bool_byte(c.manual_mode)]);
    lemma_subrange_of_prefix(e, 15, 0, 14);
    lemma_subrange_of_prefix(e, 15, 14, 15);
    lemma_seq_split(b3, seq![bool_byte(c.panic_if_price_drop)]);
    lemma_subrange_of_prefix(e, 14, 0, 13);
    lemma_subrange_of_prefix(e, 14, 13, 14);
    lemma_seq_split(b2, seq![bool_byte(c.panic_if_vol_drop)]);
    lemma_subrange_of_prefix(e, 13, 0, 12);
    lemma_subrange_of_prefix(e, 13, 12, 13);
    lemma_seq_split(b1, le_u32(c.price_drop_level));
    lemma_subrange_of_prefix(e, 12, 0, 8);
    lemma_subrange_of_prefix(e, 12, 8, 12);
    lemma_seq_split(b0, le_u32(c.vol_drop_level as u32));
    lemma_subrange_of_prefix(e, 8, 0, 4);
    lemma_subrange_of_prefix(e, 8, 4, 8);
    assert(e.subrange(0, 4) == le_u32(c.auto_cancel_buy_order as u32));
    lemma_le_i32_roundtrip(c.auto_cancel_buy_order);
    assert(d[o + 0] == e.subrange(0, 4)[0] && d[o + 1] == e.subrange(0, 4)[1] && d[o + 2] == e.subrange(0, 4)[2] && d[o + 3] == e.subrange(0, 4)[3]);
    assert(e.subrange(4, 8) == le_u32(c.vol_drop_level as u32));
    lemma_le_i32_roundtrip(c.vol_drop_level);
    assert(d[o + 4] == e.subrange(4, 8)[0] && d[o + 5] == e.subrange(4, 8)[1] && d[o + 6] == e.subrange(4, 8)[2] && d[o + 7] == e.subrange(4, 8)[3]);
    assert(e.subrange(8, 12) == le_u32(c.price_drop_level));
    lemma_le_u32_roundtrip(c.price_drop_level);
    assert(d[o + 8] == e.subrange(8, 12)[0] && d[o + 9] == e.subrange(8, 12)[1] && d[o + 10] == e.subrange(8, 12)[2] && d[o + 11] == e.subrange(8, 12)[3]);
    assert(e.subrange(12, 13) == seq![bool_byte(c.panic_if_vol_drop)]);
    assert(d[o + 12] == e.subrange(12, 13)[0]);
    lemma_bool_byte(c.panic_if_vol_drop);
    assert(e.subrange(13, 14) == seq![bool_byte(c.panic_if_price_drop)]);
    assert(d[o + 13] == e.subrange(13, 14)[0]);
    lemma_bool_byte(c.panic_if_price_drop);
    assert(e.subrange(14, 15) == seq![bool_byte(c.manual_mode)]);
    assert(d[o + 14] == e.subrange(14, 15)[0]);
    lemma_bool_byte(c.manual_mode);
}

/// Fields `draw_all_buy` to `fixed_trade_balance` read back from their bytes.
pub proof fn lemma_trading_run2_part4_at(c: TradingRun2, d: Seq<u8>, o: int)
    requires
        0 <= o,
        o + 16 <= d.len(),
        d.subrange(o, o + 16) == trading_run2_part4_bytes(c),
    ensures
        trading_run2_part4_bytes(c).len() == 16,
        trading_run2_part4_at(d, o, c),
{
    let b0 = seq![bool_byte(c.draw_all_buy)];
    let b1 = b0 + seq![bool_byte(c.trailing_stop)];
    let b2 = b1 + le_u32(c.trailing_drop);
    let b3 = b2 + seq![bool_byte(c.engine_check_buy)];
    let b4 = b3 + seq![bool_byte(c.use_manual_balance)];
    let b5 = b4 + le_u64(c.fixed_trade_balance);
    let e = d.subrange(o, o + 16);
    assert(e == b5);
    lemma_seq_split(b4, le_u64(c.fixed_trade_balance));
    lemma_subrange_of_prefix(e, 16, 0, 8);
    lemma_subrange_of_prefix(e, 16, 8, 16);
    lemma_seq_split(b3, seq![bool_byte(c.use_manual_balance)]);
    lemma_subrange_of_prefix(e, 8, 0, 7);
    lemma_subrange_of_prefix(e, 8, 7, 8);
    lemma_seq_split(b2, seq![bool_byte(c.engine_check_buy)]);
    lemma_subrange_of_prefix(e, 7, 0, 6);
    lemma_subrange_of_prefix(e, 7, 6, 7);
    lemma_seq_split(b1, le_u32(c.trailing_drop));
    lemma_subrange_of_prefix(e, 6, 0, 2);
    lemma_subrange_of_prefix(e, 6, 2, 6);
    lemma_seq_split(b0, seq![bool_byte(c.trailing_stop)]);
    lemma_subrange_of_prefix(e, 2, 0, 1);
    lemma_subrange_of_prefix(e, 2, 1, 2);
    assert(e.subrange(0, 1) == seq![bool_byte(c.draw_all_buy)]);
    assert(d[o + 0] == e.subrange(0, 1)[0]);
    lemma_bool_byte(c.draw_all_buy);
    assert(e.subrange(1, 2) == seq![bool_byte(c.trailing_stop)]);
    assert(d[o + 1] == e.subrange(1, 2)[0]);
    lemma_bool_byte(c.trailing_stop);
    assert(e.subrange(2, 6) == le_u32(c.trailing_drop));
    lemma_le_u32_roundtrip(c.trailing_drop);
    assert(d[o + 2] == e.subrange(2, 6)[0] && d[o + 3] == e.subrange(2, 6)[1] && d[o + 4] == e.subrange(2, 6)[2] && d[o + 5] == e.subrange(2, 6)[3]);
    assert(e.subrange(6, 7) == seq![bool_byte(c.engine_check_buy)]);
    assert(d[o + 6] == e.subrange(6, 7)[0]);
    lemma_bool_byte(c.engine_check_buy);
    assert(e.subrange(7, 8) == seq![bool_byte(c.use_manual_balance)]);
    assert(d[o + 7] == e.subrange(7, 8)[0]);
    lemma_bool_byte(c.use_manual_balance);
    assert(e.subrange(8, 16) == le_u64(c.fixed_trade_balance));
    assert(d.subrange(o + 8, o + 16) =~= e.subrange(8, 16));
    lemma_u64_at_le(c.fixed_trade_balance, d, o + 8);
}

/// Fields `use_current_ask` to `chart_clean_up_time` read back from their bytes.
pub proof fn lemma_trading_run2_part5_at(c: TradingRun2, d: Seq<u8>, o: int)
    requires
        0 <= o,
        o + 15 <= d.len(),
        d.subrange(o, o + 15) == trading_run2_part5_bytes(c),
    ensures
        trading_run2_part5_bytes(c).len() == 15,
        trading_run2_part5_at(d, o, c),
{
    let b0 = seq![bool_byte(c.use_current_ask)];
    let b1 = b0 + le_u64(c.g_take_profit);
    let b2 = b1 + seq![bool_byte(c.use_g_take_profit)];
    let b3 = b2 + seq![bool_byte(c.show_order_comment)];
    let b4 = b3 + le_u32(c.chart_clean_up_time as u32);
    let e = d.subrange(o, o + 15);
    assert(e == b4);
    lemma_seq_split(b3, le_u32(c.chart_clean_up_time as u32));
    lemma_subrange_of_prefix(e, 15, 0, 11);
    lemma_subrange_of_prefix(e, 15, 11, 15);
    lemma_seq_split(b2, seq![bool_byte(c.show_order_comment)]);
    lemma_subrange_of_prefix(e, 11, 0, 10);
    lemma_subrange_of_prefix(e, 11, 10, 11);
    lemma_seq_split(b1, seq![bool_byte(c.use_g_take_profit)]);
    lemma_subrange_of_prefix(e, 10, 0, 9);
    lemma_subrange_of_prefix(e, 10, 9, 10);
    lemma_seq_split(b0, le_u64(c.g_take_profit));
    lemma_subrange_of_prefix(e, 9, 0, 1);
    lemma_subrange_of_prefix(e, 9, 1, 9);
    assert(e.subrange(0, 1) == seq![bool_byte(c.use_current_ask)]);
    assert(d[o + 0] == e.subrange(0, 1)[0]);
    lemma_bool_byte(c.use_current_ask);
    assert(e.subrange(1, 9) == le_u64(c.g_take_profit));
    assert(d.subrange(o + 1, o + 9) =~= e.subrange(1, 9));
    lemma_u64_at_le(c.g_take_profit, d, o + 1);
    assert(e.subrange(9, 10) == seq![bool_byte(c.use_g_take_profit)]);
    assert(d[o + 9] == e.subrange(9, 10)[0]);
    lemma_bool_byte(c.use_g_take_profit);
    assert(e.subrange(10, 11) == seq![bool_byte(c.show_order_comment)]);
    assert(d[o + 10] == e.subrange(10, 11)[0]);
    lemma_bool_byte(c.show_order_comment);
    assert(e.subrange(11, 15) == le_u32(c.chart_clean_up_time as u32));
    lemma_le_i32_roundtrip(c.chart_clean_up_time);
    assert(d[o + 11] == e.subrange(11, 15)[0] && d[o + 12] == e.subrange(11, 15)[1] && d[o + 13] == e.subrange(11, 15)[2] && d[o + 14] == e.subrange(11, 15)[3]);
}

/// The fields of a [`TradingRun2`] read back from its bytes.
pub proof fn lemma_trading_run2_at(c: TradingRun2, d: Seq<u8>, o: int)
    requires
        0 <= o,
        o + 85 <= d.len(),
        d.subrange(o, o + 85) == trading_run2_bytes(c),
    ensures
        trading_run2_bytes(c).len() == 85,
        trading_run2_at(d, o, c),
{
    let g0 = trading_run2_part1_bytes(c);
    let g1 = g0 + trading_run2_part2_bytes(c);
    let g2 = g1 + trading_run2_part3_bytes(c);
    let g3 = g2 + trading_run2_part4_bytes(c);
    let g4 = g3 + trading_run2_part5_bytes(c);
    let e = d.subrange(o, o + 85);
    assert(e == g4);
    lemma_seq_split(g3, trading_run2_part5_bytes(c));
    lemma_subrange_of_prefix(e, 85, 0, 70);
    lemma_subrange_of_prefix(e, 85, 70, 85);
    assert(d.subrange(o + 70, o + 85) =~= e.subrange(70, 85));
    lemma_trading_run2_part5_at(c, d, o + 70);
    lemma_seq_split(g2, trading_run2_part4_bytes(c));
    lemma_subrange_of_prefix(e, 70, 0, 54);
    lemma_subrange_of_prefix(e, 70, 54, 70);
    assert(d.subrange(o + 54, o + 70) =~= e.subrange(54, 70));
    lemma_trading_run2_part4_at(c, d, o + 54);
    lemma_seq_split(g1, trading_run2_part3_bytes(c));
    lemma_subrange_of_prefix(e, 54, 0, 39);
    lemma_subrange_of_prefix(e, 54, 39, 54);
    assert(d.subrange(o + 39, o + 54) =~= e.subrange(39, 54));
    lemma_trading_run2_part3_at(c, d, o + 39);
    lemma_seq_split(g0, trading_run2_part2_bytes(c));
    lemma_subrange_of_prefix(e, 39, 0, 21);
    lemma_subrange_of_prefix(e, 39, 21, 39);
    assert(d.subrange(o + 21, o + 39) =~= e.subrange(21, 39));
    lemma_trading_run2_part2_at(c, d, o + 21);
    assert(d.subrange(o + 0, o + 21) =~= e.subrange(0, 21));
    lemma_trading_run2_part1_at(c, d, o + 0);
}

/// Reading back the bytes of a [`TradingRun2`] gives the same record.
pub proof fn lemma_trading_run2_roundtrip(c: TradingRun2, rest: Seq<u8>)
    ensures
        trading_run2_bytes(c).len() == TRADING_RUN2_LEN,
        trading_run2_at(trading_run2_bytes(c) + rest, 0, c),
{
    lemma_seq_split(trading_run2_bytes(c), rest);
    lemma_trading_run2_at(c, trading_run2_bytes(c) + rest, 0);
}

/// The fields of a [`TradingSection`] that a [`TradingRun2`] holds.
pub open spec fn trading_run2_of(s: TradingSection) -> TradingRun2 {
    TradingRun2 { x_ask: s.x_ask, x_sell: s.x_sell, x_sell_scalp: s.x_sell_scalp, play_with: s.play_with, check_glass: s.check_glass, max_orders: s.max_orders, auto_sell_partial: s.auto_sell_partial, price_range: s.price_range, sell_auto_move: s.sell_auto_move, pump_q_level: s.pump_q_level, sell_x2_level: s.sell_x2_level, cancel_buy_on_sell_fill: s.cancel_buy_on_sell_fill, auto_cancel_buy_order: s.auto_cancel_buy_order, vol_drop_level: s.vol_drop_level, price_drop_level: s.price_drop_level, panic_if_vol_drop: s.panic_if_vol_drop, panic_if_price_drop: s.panic_if_price_drop, manual_mode: s.manual_mode, draw_all_buy: s.draw_all_buy, trailing_stop: s.trailing_stop, trailing_drop: s.trailing_drop, engine_check_buy: s.engine_check_buy, use_manual_balance: s.use_manual_balance, fixed_trade_balance: s.fixed_trade_balance, use_current_ask: s.use_current_ask, g_take_profit: s.g_take_profit, use_g_take_profit: s.use_g_take_profit, show_order_comment: s.show_order_comment, chart_clean_up_time: s.chart_clean_up_time }
}

/// Copy the fields of a [`TradingSection`] that a [`TradingRun2`] holds.
fn trading_run2_from(s: &TradingSection) -> (r: TradingRun2)
    ensures
        r == trading_run2_of(*s),
{
    TradingRun2 { x_ask: s.x_ask, x_sell: s.x_sell, x_sell_scalp: s.x_sell_scalp, play_with: s.play_with, check_glass: s.check_glass, max_orders: s.max_orders, auto_sell_partial: s.auto_sell_partial, price_range: s.price_range, sell_auto_move: s.sell_auto_move, pump_q_level: s.pump_q_level, sell_x2_level: s.sell_x2_level, cancel_buy_on_sell_fill: s.cancel_buy_on_sell_fill, auto_cancel_buy_order: s.auto_cancel_buy_order, vol_drop_level: s.vol_drop_level, price_drop_level: s.price_drop_level, panic_if_vol_drop: s.panic_if_vol_drop, panic_if_price_drop: s.panic_if_price_drop, manual_mode: s.manual_mode, draw_all_buy: s.draw_all_buy, trailing_stop: s.trailing_stop, trailing_drop: s.trailing_drop, engine_check_buy: s.engine_check_buy, use_manual_balance: s.use_manual_balance, fixed_trade_balance: s.fixed_trade_balance, use_current_ask: s.use_current_ask, g_take_profit: s.g_take_profit, use_g_take_profit: s.use_g_take_profit, show_order_comment: s.show_order_comment, chart_clean_up_time: s.chart_clean_up_time }
}

/// The fixed-width field `dbl_click_panic_sell` of the trading section.
#[derive(Clone, Copy, Debug)]
pub struct TradingRun3 {
    /// Require double-click on the Panic Sell button to activate.
    pub dbl_click_panic_sell: bool,
}

/// Wire size of [`TradingRun3`].
pub const TRADING_RUN3_LEN: usize = 1;

/// Wire bytes of a [`TradingRun3`], field after field.
pub open spec fn trading_run3_bytes(c: TradingRun3) -> Seq<u8> {
    seq![bool_byte(c.dbl_click_panic_sell)]
}

/// Whether `c` is the [`TradingRun3`] stored at `p`.
pub open spec fn trading_run3_at(d: Seq<u8>, p: int, c: TradingRun3) -> bool {
    &&& c.dbl_click_panic_sell == flag_of(d[p])
}

/// Read a [`TradingRun3`].
pub fn read_trading_run3(r: &mut ConfigReader) -> (res: Result<TradingRun3, SharedConfigError>)
    ensures
        final(r).bytes() == old(r).bytes(),
        old(r).at() + TRADING_RUN3_LEN <= old(r).bytes().len() ==> (res matches Ok(c) && trading_run3_at(
            old(r).bytes(),
            old(r).at(),
            c,
        ) && final(r).at() == old(r).at() + TRADING_RUN3_LEN),
        old(r).at() + TRADING_RUN3_LEN > old(r).bytes().len() ==> (res matches Err(e) && e@ == eof_msg()),
{
    Ok(TradingRun3 {
        dbl_click_panic_sell: r.read_bool()?,
    })
}

/// Write a [`TradingRun3`].
pub fn write_trading_run3(w: &mut ConfigWriter, c: &TradingRun3)
    requires
        old(w).wf(),
    ensures
        final(w).wf(),
        final(w).wrote_all(old(w), true, trading_run3_bytes(*c)),
{
    let ghost w0 = *w;
    let ghost wb = *w;
    w.write_bool(c.dbl_click_panic_sell);
    proof { lemma_wrote_all_of_wrote(wb, *w, seq![bool_byte(c.dbl_click_panic_sell)]); }
}

/// The fields of a [`TradingRun3`] read back from its bytes.
pub proof fn lemma_trading_run3_at(c: TradingRun3, d: Seq<u8>, o: int)
    requires
        0 <= o,
        o + 1 <= d.len(),
        d.subrange(o, o + 1) == trading_run3_bytes(c),
    ensures
        trading_run3_bytes(c).len() == 1,
        trading_run3_at(d, o, c),
{
    let b0 = seq![bool_byte(c.dbl_click_panic_sell)];
    let e = d.subrange(o, o + 1);
    assert(e == b0);
    assert(e.subrange(0, 1) == seq![bool_byte(c.dbl_click_panic_sell)]);
    assert(d[o + 0] == e.subrange(0, 1)[0]);
    lemma_bool_byte(c.dbl_click_panic_sell);
}

/// Reading back the bytes of a [`TradingRun3`] gives the same record.
pub proof fn lemma_trading_run3_roundtrip(c: TradingRun3, rest: Seq<u8>)
    ensures
        trading_run3_bytes(c).len() == TRADING_RUN3_LEN,
        trading_run3_at(trading_run3_bytes(c) + rest, 0, c),
{
    lemma_seq_split(trading_run3_bytes(c), rest);
    lemma_trading_run3_at(c, trading_run3_bytes(c) + rest, 0);
}

/// The fields of a [`TradingSection`] that a [`TradingRun3`] holds.
pub open spec fn trading_run3_of(s: TradingSection) -> TradingRun3 {
    TradingRun3 { dbl_click_panic_sell: s.dbl_click_panic_sell }
}

/// Copy the fields of a [`TradingSection`] that a [`TradingRun3`] holds.
fn trading_run3_from(s: &TradingSection) -> (r: TradingRun3)
    ensures
        r == trading_run3_of(*s),
{
    TradingRun3 { dbl_click_panic_sell: s.dbl_click_panic_sell }
}

/// The fixed-width field `use_coins_black_list` of the trading section.
#[derive(Clone, Copy, Debug)]
pub struct TradingRun4 {
    /// Enable permanent coin blacklist.
    /// Mirrors [`ClientSettingsCommand::use_coins_black_list`].
    pub use_coins_black_list: bool,
}

/// Wire size of [`TradingRun4`].
pub const TRADING_RUN4_LEN: usize = 1;

/// Wire bytes of a [`TradingRun4`], field after field.
pub open spec fn trading_run4_bytes(c: TradingRun4) -> Seq<u8> {
    seq![bool_byte(c.use_coins_black_list)]
}

/// Whether `c` is the [`TradingRun4`] stored at `p`.
pub open spec fn trading_run4_at(d: Seq<u8>, p: int, c: TradingRun4) -> bool {
    &&& c.use_coins_black_list == flag_of(d[p])
}

/// Read a [`TradingRun4`].
pub fn read_trading_run4(r: &mut ConfigReader) -> (res: Result<TradingRun4, SharedConfigError>)
    ensures
        final(r).bytes() == old(r).bytes(),
        old(r).at() + TRADING_RUN4_LEN <= old(r).bytes().len() ==> (res matches Ok(c) && trading_run4_at(
            old(r).bytes(),
            old(r).at(),
            c,
        ) && final(r).at() == old(r).at() + TRADING_RUN4_LEN),
        old(r).at() + TRADING_RUN4_LEN > old(r).bytes().len() ==> (res matches Err(e) && e@ == eof_msg()),
{
    Ok(TradingRun4 {
        use_coins_black_list: r.read_bool()?,
    })
}

/// Write a [`TradingRun4`].
pub fn write_trading_run4(w: &mut ConfigWriter, c: &TradingRun4)
    requires
        old(w).wf(),
    ensures
        final(w).wf(),
        final(w).wrote_all(old(w), true, trading_run4_bytes(*c)),
{
    let ghost w0 = *w;
    let ghost wb = *w;
    w.write_bool(c.use_coins_black_list);
    proof { lemma_wrote_all_of_wrote(wb, *w, seq![bool_byte(c.use_coins_black_list)]); }
}

/// The fields of a [`TradingRun4`] read back from its bytes.
pub proof fn lemma_trading_run4_at(c: TradingRun4, d: Seq<u8>, o: int)
    requires
        0 <= o,
        o + 1 <= d.len(),
        d.subrange(o, o + 1) == trading_run4_bytes(c),
    ensures
        trading_run4_bytes(c).len() == 1,
        trading_run4_at(d, o, c),
{
    let b0 = seq![bool_byte(c.use_coins_black_list)];
    let e = d.subrange(o, o + 1);
    assert(e == b0);
    assert(e.subrange(0, 1) == seq![bool_byte(c.use_coins_black_list)]);
    assert(d[o + 0] == e.subrange(0, 1)[0]);
    lemma_bool_byte(c.use_coins_black_list);
}

/// Reading back the bytes of a [`TradingRun4`] gives the same record.
pub proof fn lemma_trading_run4_roundtrip(c: TradingRun4, rest: Seq<u8>)
    ensures
        trading_run4_bytes(c).len() == TRADING_RUN4_LEN,
        trading_run4_at(trading_run4_bytes(c) + rest, 0, c),
{
    lemma_seq_split(trading_run4_bytes(c), rest);
    lemma_trading_run4_at(c, trading_run4_bytes(c) + rest, 0);
}

/// The fields of a [`TradingSection`] that a [`TradingRun4`] holds.
pub open spec fn trading_run4_of(s: TradingSection) -> TradingRun4 {
    TradingRun4 { use_coins_black_list: s.use_coins_black_list }
}

/// Copy the fields of a [`TradingSection`] that a [`TradingRun4`] holds.
fn trading_run4_from(s: &TradingSection) -> (r: TradingRun4)
    ensures
        r == trading_run4_of(*s),
{
    TradingRun4 { use_coins_black_list: s.use_coins_black_list }
}

/// The fixed-width field `trailing_float` of the trading section.
#[derive(Clone, Copy, Debug)]
pub struct TradingRun5 {
    /// Trailing-stop floating percentage.
    /// (IEEE-754 bits of the `f64` value.)
    pub trailing_float: u64,
}

/// Wire size of [`TradingRun5`].
pub const TRADING_RUN5_LEN: usize = 8;

/// Wire bytes of a [`TradingRun5`], field after field.
pub open spec fn trading_run5_bytes(c: TradingRun5) -> Seq<u8> {
    le_u64(c.trailing_float)
}

/// Whether `c` is the [`TradingRun5`] stored at `p`.
pub open spec fn trading_run5_at(d: Seq<u8>, p: int, c: TradingRun5) -> bool {
    &&& c.trailing_float == u64_at(d, p)
}

/// Read a [`TradingRun5`].
pub fn read_trading_run5(r: &mut ConfigReader) -> (res: Result<TradingRun5, SharedConfigError>)
    ensures
        final(r).bytes() == old(r).bytes(),
        old(r).at() + TRADING_RUN5_LEN <= old(r).bytes().len() ==> (res matches Ok(c) && trading_run5_at(
            old(r).bytes(),
            old(r).at(),
            c,
        ) && final(r).at() == old(r).at() + TRADING_RUN5_LEN),
        old(r).at() + TRADING_RUN5_LEN > old(r).bytes().len() ==> (res matches Err(e) && e@ == eof_msg()),
{
    Ok(TradingRun5 {
        trailing_float: r.read_u64()?,
    })
}

/// Write a [`TradingRun5`].
pub fn write_trading_run5(w: &mut ConfigWriter, c: &TradingRun5)
    requires
        old(w).wf(),
    ensures
        final(w).wf(),
        final(w).wrote_all(old(w), true, trading_run5_bytes(*c)),
{
    let ghost w0 = *w;
    let ghost wb = *w;
    w.write_u64(c.trailing_float);
    proof { lemma_wrote_all_of_wrote(wb, *w, le_u64(c.trailing_float)); }
}

/// The fields of a [`TradingRun5`] read back from its bytes.
pub proof fn lemma_trading_run5_at(c: TradingRun5, d: Seq<u8>, o: int)
    requires
        0 <= o,
        o + 8 <= d.len(),
        d.subrange(o, o + 8) == trading_run5_bytes(c),
    ensures
        trading_run5_bytes(c).len() == 8,
        trading_run5_at(d, o, c),
{
    let b0 = le_u64(c.trailing_float);
    let e = d.subrange(o, o + 8);
    assert(e == b0);
    assert(e.subrange(0, 8) == le_u64(c.trailing_float));
    assert(d.subrange(o + 0, o + 8) =~= e.subrange(0, 8));
    lemma_u64_at_le(c.trailing_float, d, o + 0);
}

/// Reading back the bytes of a [`TradingRun5`] gives the same record.
pub proof fn lemma_trading_run5_roundtrip(c: TradingRun5, rest: Seq<u8>)
    ensures
        trading_run5_bytes(c).len() == TRADING_RUN5_LEN,
        trading_run5_at(trading_run5_bytes(c) + rest, 0, c),
{
    lemma_seq_split(trading_run5_bytes(c), rest);
    lemma_trading_run5_at(c, trading_run5_bytes(c) + rest, 0);
}

/// The fields of a [`TradingSection`] that a [`TradingRun5`] holds.
pub open spec fn trading_run5_of(s: TradingSection) -> TradingRun5 {
    TradingRun5 { trailing_float: s.trailing_float }
}

/// Copy the fields of a [`TradingSection`] that a [`TradingRun5`] holds.
fn trading_run5_from(s: &TradingSection) -> (r: TradingRun5)
    ensures
        r == trading_run5_of(*s),
{
    TradingRun5 { trailing_float: s.trailing_float }
}

/// The fixed-width field `random_price` of the trading section.
#[derive(Clone, Copy, Debug)]
pub struct TradingRun6 {
    /// Add small random noise to order price (avoid detection).
    pub random_price: bool,
}

/// Wire size of [`TradingRun6`].
pub const TRADING_RUN6_LEN: usize = 1;

/// Wire bytes of a [`TradingRun6`], field after field.
pub open spec fn trading_run6_bytes(c: TradingRun6) -> Seq<u8> {
    seq![bool_byte(c.random_price)]
}

/// Whether `c` is the [`TradingRun6`] stored at `p`.
pub open spec fn trading_run6_at(d: Seq<u8>, p: int, c: TradingRun6) -> bool {
    &&& c.random_price == flag_of(d[p])
}

/// Read a [`TradingRun6`].
pub fn read_trading_run6(r: &mut ConfigReader) -> (res: Result<TradingRun6, SharedConfigError>)
    ensures
        final(r).bytes() == old(r).bytes(),
        old(r).at() + TRADING_RUN6_LEN <= old(r).bytes().len() ==> (res matches Ok(c) && trading_run6_at(
            old(r).bytes(),
            old(r).at(),
            c,
        ) && final(r).at() == old(r).at() + TRADING_RUN6_LEN),
        old(r).at() + TRADING_RUN6_LEN > old(r).bytes().len() ==> (res matches Err(e) && e@ == eof_msg()),
{
    Ok(TradingRun6 {
        random_price: r.read_bool()?,
    })
}

/// Write a [`TradingRun6`].
pub fn write_trading_run6(w: &mut ConfigWriter, c: &TradingRun6)
    requires
        old(w).wf(),
    ensures
        final(w).wf(),
        final(w).wrote_all(old(w), true, trading_run6_bytes(*c)),
{
    let ghost w0 = *w;
    let ghost wb = *w;
    w.write_bool(c.random_price);
    proof { lemma_wrote_all_of_wrote(wb, *w, seq![bool_byte(c.random_price)]); }
}

/// The fields of a [`TradingRun6`] read back from its bytes.
pub proof fn lemma_trading_run6_at(c: TradingRun6, d: Seq<u8>, o: int)
    requires
        0 <= o,
        o + 1 <= d.len(),
        d.subrange(o, o + 1) == trading_run6_bytes(c),
    ensures
        trading_run6_bytes(c).len() == 1,
        trading_run6_at(d, o, c),
{
    let b0 = seq![bool_byte(c.random_price)];
    let e = d.subrange(o, o + 1);
    assert(e == b0);
    assert(e.subrange(0, 1) == seq![bool_byte(c.random_price)]);
    assert(d[o + 0] == e.subrange(0, 1)[0]);
    lemma_bool_byte(c.random_price);
}

/// Reading back the bytes of a [`TradingRun6`] gives the same record.
pub proof fn lemma_trading_run6_roundtrip(c: TradingRun6, rest: Seq<u8>)
    ensures
        trading_run6_bytes(c).len() == TRADING_RUN6_LEN,
        trading_run6_at(trading_run6_bytes(c) + rest, 0, c),
{
    lemma_seq_split(trading_run6_bytes(c), rest);
    lemma_trading_run6_at(c, trading_run6_bytes(c) + rest, 0);
}

/// The fields of a [`TradingSection`] that a [`TradingRun6`] holds.
pub open spec fn trading_run6_of(s: TradingSection) -> TradingRun6 {
    TradingRun6 { random_price: s.random_price }
}

/// Copy the fields of a [`TradingSection`] that a [`TradingRun6`] holds.
fn trading_run6_from(s: &TradingSection) -> (r: TradingRun6)
    ensures
        r == trading_run6_of(*s),
{
    TradingRun6 { random_price: s.random_price }
}

/// Fixed-width fields of the trading section from `dont_buy_delisted` to `use_manual_strategy`, in wire order.
#[derive(Clone, Copy, Debug)]
pub struct TradingRun7 {
    /// Skip buying delisted coins.
    pub dont_buy_delisted: bool,
    /// Skip buying coins listed less than N minutes ago.
    pub dont_buy_new_coins: i32,
    /// Auto-cancel a buy order placed below the current price after this many
    /// minutes.
    pub auto_cancel_lower_buy: i32,
    /// Auto-buy by pressing Enter in the token search box.
    pub buy_on_enter: bool,
    /// Auto-purchase BNB when balance is low (for Binance commissions).
    pub auto_buy_bnb: bool,
    /// Minimum BNB balance that triggers auto-buy.
    /// (IEEE-754 bits of the `f64` value.)
    pub auto_buy_bnb_level: u64,
    /// Amount of BNB to purchase when auto-buy triggers.
    /// (IEEE-754 bits of the `f64` value.)
    pub auto_buy_bnb_volume: u64,
    /// Mouse click action that replaces a buy order's price.
    pub order_replace_click_buy: u8,
    /// Skip buying forward contracts / pre-market tokens.
    pub dont_buy_forward: bool,
    /// Show split-zone lines on chart (visual price zones).
    pub chart_split_zones: bool,
    /// Draw stop-loss line on the chart.
    pub draw_stop: bool,
    /// Maximum single order size in quote currency (0 = no limit).
    /// (IEEE-754 bits of the `f64` value.)
    pub max_order: u64,
    /// Remove the max-orders limit entirely.
    pub unlimited_orders: bool,
    /// Use manual strategy for order parameters.
    pub use_manual_strategy: bool,
}

/// Wire size of [`TradingRun7`].
pub const TRADING_RUN7_LEN: usize = 41;

/// Wire bytes of fields `dont_buy_delisted` to `auto_buy_bnb_level` of a [`TradingRun7`].
pub open spec fn trading_run7_part1_bytes(c: TradingRun7) -> Seq<u8> {
    seq![bool_byte(c.dont_buy_delisted)]
        + le_u32(c.dont_buy_new_coins as u32)
        + le_u32(c.auto_cancel_lower_buy as u32)
        + seq![bool_byte(c.buy_on_enter)]
        + seq![bool_byte(c.auto_buy_bnb)]
        + le_u64(c.auto_buy_bnb_level)
}

/// Whether fields `dont_buy_delisted` to `auto_buy_bnb_level` of `c` are stored at `p`.
pub open spec fn trading_run7_part1_at(d: Seq<u8>, p: int, c: TradingRun7) -> bool {
    &&& c.dont_buy_delisted == flag_of(d[p])
    &&& c.dont_buy_new_coins == i32_at(d, p + 1)
    &&& c.auto_cancel_lower_buy == i32_at(d, p + 5)
    &&& c.buy_on_enter == flag_of(d[p + 9])
    &&& c.auto_buy_bnb == flag_of(d[p + 10])
    &&& c.auto_buy_bnb_level == u64_at(d, p + 11)
}

/// Wire bytes of fields `auto_buy_bnb_volume` to `max_order` of a [`TradingRun7`].
pub open spec fn trading_run7_part2_bytes(c: TradingRun7) -> Seq<u8> {
    le_u64(c.auto_buy_bnb_volume)
        + seq![c.order_replace_click_buy]
        + seq![bool_byte(c.dont_buy_forward)]
        + seq![bool_byte(c.chart_split_zones)]
        + seq![bool_byte(c.draw_stop)]
        + le_u64(c.max_order)
}

/// Whether fields `auto_buy_bnb_volume` to `max_order` of `c` are stored at `p`.
pub open spec fn trading_run7_part2_at(d: Seq<u8>, p: int, c: TradingRun7) -> bool {
    &&& c.auto_buy_bnb_volume == u64_at(d, p)
    &&& c.order_replace_click_buy == d[p + 8]
    &&& c.dont_buy_forward == flag_of(d[p + 9])
    &&& c.chart_split_zones == flag_of(d[p + 10])
    &&& c.draw_stop == flag_of(d[p + 11])
    &&& c.max_order == u64_at(d, p + 12)
}

/// Wire bytes of fields `unlimited_orders` to `use_manual_strategy` of a [`TradingRun7`].
pub open spec fn trading_run7_part3_bytes(c: TradingRun7) -> Seq<u8> {
    seq![bool_byte(c.unlimited_orders)]
        + seq![bool_byte(c.use_manual_strategy)]
}

/// Whether fields `unlimited_orders` to `use_manual_strategy` of `c` are stored at `p`.
pub open spec fn trading_run7_part3_at(d: Seq<u8>, p: int, c: TradingRun7) -> bool {
    &&& c.unlimited_orders == flag_of(d[p])
    &&& c.use_manual_strategy == flag_of(d[p + 1])
}

/// Wire bytes of a [`TradingRun7`], field after field.
pub open spec fn trading_run7_bytes(c: TradingRun7) -> Seq<u8> {
    trading_run7_part1_bytes(c)
        + trading_run7_part2_bytes(c)
        + trading_run7_part3_bytes(c)
}

/// Whether `c` is the [`TradingRun7`] stored at `p`.
pub open spec fn trading_run7_at(d: Seq<u8>, p: int, c: TradingRun7) -> bool {
    &&& trading_run7_part1_at(d, p, c)
    &&& trading_run7_part2_at(d, p + 19, c)
    &&& trading_run7_part3_at(d, p + 39, c)
}

/// Read a [`TradingRun7`].
pub fn read_trading_run7(r: &mut ConfigReader) -> (res: Result<TradingRun7, SharedConfigError>)
    ensures
        final(r).bytes() == old(r).bytes(),
        old(r).at() + TRADING_RUN7_LEN <= old(r).bytes().len() ==> (res matches Ok(c) && trading_run7_at(
            old(r).bytes(),
            old(r).at(),
            c,
        ) && final(r).at() == old(r).at() + TRADING_RUN7_LEN),
        old(r).at() + TRADING_RUN7_LEN > old(r).bytes().len() ==> (res matches Err(e) && e@ == eof_msg()),
{
    Ok(TradingRun7 {
        dont_buy_delisted: r.read_bool()?,
        dont_buy_new_coins: r.read_i32()?,
        auto_cancel_lower_buy: r.read_i32()?,
        buy_on_enter: r.read_bool()?,
        auto_buy_bnb: r.read_bool()?,
        auto_buy_bnb_level: r.read_u64()?,
        auto_buy_bnb_volume: r.read_u64()?,
        order_replace_click_buy: r.read_u8()?,
        dont_buy_forward: r.read_bool()?,
        chart_split_zones: r.read_bool()?,
        draw_stop: r.read_bool()?,
        max_order: r.read_u64()?,
        unlimited_orders: r.read_bool()?,
        use_manual_strategy: r.read_bool()?,
    })
}

/// Write fields `dont_buy_delisted` to `auto_buy_bnb_level` of a [`TradingRun7`].
fn write_trading_run7_part1(w: &mut ConfigWriter, c: &TradingRun7)
    requires
        old(w).wf(),
    ensures
        final(w).wf(),
        final(w).wrote_all(old(w), true, trading_run7_part1_bytes(*c)),
{
    let ghost w0 = *w;
    let ghost wb = *w;
    w.write_bool(c.dont_buy_delisted);
    proof { lemma_wrote_all_of_wrote(wb, *w, seq![bool_byte(c.dont_buy_delisted)]); }
    let ghost wb = *w;
    w.write_i32(c.dont_buy_new_coins);
    proof {
        lemma_wrote_all_of_wrote(wb, *w, le_u32(c.dont_buy_new_coins as u32));
        lemma_wrote_all_then(w0, wb, *w, true, seq![bool_byte(c.dont_buy_delisted)], true, le_u32(c.dont_buy_new_coins as u32));
    }
    let ghost wb = *w;
    w.write_i32(c.auto_cancel_lower_buy);
    proof {
        lemma_wrote_all_of_wrote(wb, *w, le_u32(c.auto_cancel_lower_buy as u32));
        lemma_wrote_all_then(w0, wb, *w, true, seq![bool_byte(c.dont_buy_delisted)] + le_u32(c.dont_buy_new_coins as u32), true, le_u32(c.auto_cancel_lower_buy as u32));
    }
    let ghost wb = *w;
    w.write_bool(c.buy_on_enter);
    proof {
        lemma_wrote_all_of_wrote(wb, *w, seq![bool_byte(c.buy_on_enter)]);
        lemma_wrote_all_then(w0, wb, *w, true, seq![bool_byte(c.dont_buy_delisted)] + le_u32(c.dont_buy_new_coins as u32) + le_u32(c.auto_cancel_lower_buy as u32), true, seq![bool_byte(c.buy_on_enter)]);
    }
    let ghost wb = *w;
    w.write_bool(c.auto_buy_bnb);
    proof {
        lemma_wrote_all_of_wrote(wb, *w, seq![bool_byte(c.auto_buy_bnb)]);
        lemma_wrote_all_then(w0, wb, *w, true, seq![bool_byte(c.dont_buy_delisted)] + le_u32(c.dont_buy_new_coins as u32) + le_u32(c.auto_cancel_lower_buy as u32) + seq![bool_byte(c.buy_on_enter)], true, seq![bool_byte(c.auto_buy_bnb)]);
    }
    let ghost wb = *w;
    w.write_u64(c.auto_buy_bnb_level);
    proof {
        lemma_wrote_all_of_wrote(wb, *w, le_u64(c.auto_buy_bnb_level));
        lemma_wrote_all_then(w0, wb, *w, true, seq![bool_byte(c.dont_buy_delisted)] + le_u32(c.dont_buy_new_coins as u32) + le_u32(c.auto_cancel_lower_buy as u32) + seq![bool_byte(c.buy_on_enter)] + seq![bool_byte(c.auto_buy_bnb)], true, le_u64(c.auto_buy_bnb_level));
    }
}

/// Write fields `auto_buy_bnb_volume` to `max_order` of a [`TradingRun7`].
fn write_trading_run7_part2(w: &mut ConfigWriter, c: &TradingRun7)
    requires
        old(w).wf(),
    ensures
        final(w).wf(),
        final(w).wrote_all(old(w), true, trading_run7_part2_bytes(*c)),
{
    let ghost w0 = *w;
    let ghost wb = *w;
    w.write_u64(c.auto_buy_bnb_volume);
    proof { lemma_wrote_all_of_wrote(wb, *w, le_u64(c.auto_buy_bnb_volume)); }
    let ghost wb = *w;
    w.write_u8(c.order_replace_click_buy);
    proof {
        lemma_wrote_all_of_wrote(wb, *w, seq![c.order_replace_click_buy]);
        lemma_wrote_all_then(w0, wb, *w, true, le_u64(c.auto_buy_bnb_volume), true, seq![c.order_replace_click_buy]);
    }
    let ghost wb = *w;
    w.write_bool(c.dont_buy_forward);
    proof {
        lemma_wrote_all_of_wrote(wb, *w, seq![bool_byte(c.dont_buy_forward)]);
        lemma_wrote_all_then(w0, wb, *w, true, le_u64(c.auto_buy_bnb_volume) + seq![c.order_replace_click_buy], true, seq![bool_byte(c.dont_buy_forward)]);
    }
    let ghost wb = *w;
    w.write_bool(c.chart_split_zones);
    proof {
        lemma_wrote_all_of_wrote(wb, *w, seq![bool_byte(c.chart_split_zones)]);
        lemma_wrote_all_then(w0, wb, *w, true, le_u64(c.auto_buy_bnb_volume) + seq![c.order_replace_click_buy] + seq![bool_byte(c.dont_buy_forward)], true, seq![bool_byte(c.chart_split_zones)]);
    }
    let ghost wb = *w;
    w.write_bool(c.draw_stop);
    proof {
        lemma_wrote_all_of_wrote(wb, *w, seq![bool_byte(c.draw_stop)]);
        lemma_wrote_all_then(w0, wb, *w, true, le_u64(c.auto_buy_bnb_volume) + seq![c.order_replace_click_buy] + seq![bool_byte(c.dont_buy_forward)] + seq![bool_byte(c.chart_split_zones)], true, seq![bool_byte(c.draw_stop)]);
    }
    let ghost wb = *w;
    w.write_u64(c.max_order);
    proof {
        lemma_wrote_all_of_wrote(wb, *w, le_u64(c.max_order));
        lemma_wrote_all_then(w0, wb, *w, true, le_u64(c.auto_buy_bnb_volume) + seq![c.order_replace_click_buy] + seq![bool_byte(c.dont_buy_forward)] + seq![bool_byte(c.chart_split_zones)] + seq![bool_byte(c.draw_stop)], true, le_u64(c.max_order));
    }
}

/// Write fields `unlimited_orders` to `use_manual_strategy` of a [`TradingRun7`].
fn write_trading_run7_part3(w: &mut ConfigWriter, c: &TradingRun7)
    requires
        old(w).wf(),
    ensures
        final(w).wf(),
        final(w).wrote_all(old(w), true, trading_run7_part3_bytes(*c)),
{
    let ghost w0 = *w;
    let ghost wb = *w;
    w.write_bool(c.unlimited_orders);
    proof { lemma_wrote_all_of_wrote(wb, *w, seq![bool_byte(c.unlimited_orders)]); }
    let ghost wb = *w;
    w.write_bool(c.use_manual_strategy);
    proof {
        lemma_wrote_all_of_wrote(wb, *w, seq![bool_byte(c.use_manual_strategy)]);
        lemma_wrote_all_then(w0, wb, *w, true, seq![bool_byte(c.unlimited_orders)], true, seq![bool_byte(c.use_manual_strategy)]);
    }
}

/// Write a [`TradingRun7`].
pub fn write_trading_run7(w: &mut ConfigWriter, c: &TradingRun7)
    requires
        old(w).wf(),
    ensures
        final(w).wf(),
        final(w).wrote_all(old(w), true, trading_run7_bytes(*c)),
{
    let ghost w0 = *w;
    let ghost wb = *w;
    write_trading_run7_part1(w, c);
    let ghost wb = *w;
    write_trading_run7_part2(w, c);
    proof { lemma_wrote_all_then(w0, wb, *w, true, trading_run7_part1_bytes(*c), true, trading_run7_part2_bytes(*c)); }
    let ghost wb = *w;
    write_trading_run7_part3(w, c);
    proof { lemma_wrote_all_then(w0, wb, *w, true, trading_run7_part1_bytes(*c) + trading_run7_part2_bytes(*c), true, trading_run7_part3_bytes(*c)); }
}

/// Fields `dont_buy_delisted` to `auto_buy_bnb_level` read back from their bytes.
pub proof fn lemma_trading_run7_part1_at(c: TradingRun7, d: Seq<u8>, o: int)
    requires
        0 <= o,
        o + 19 <= d.len(),
        d.subrange(o, o + 19) == trading_run7_part1_bytes(c),
    ensures
        trading_run7_part1_bytes(c).len() == 19,
        trading_run7_part1_at(d, o, c),
{
    let b0 = seq![bool_byte(c.dont_buy_delisted)];
    let b1 = b0 + le_u32(c.dont_buy_new_coins as u32);
    let b2 = b1 + le_u32(c.auto_cancel_lower_buy as u32);
    let b3 = b2 + seq![bool_byte(c.buy_on_enter)];
    let b4 = b3 + seq![bool_byte(c.auto_buy_bnb)];
    let b5 = b4 + le_u64(c.auto_buy_bnb_level);
    let e = d.subrange(o, o + 19);
    assert(e == b5);
    lemma_seq_split(b4, le_u64(c.auto_buy_bnb_level));
    lemma_subrange_of_prefix(e, 19, 0, 11);
    lemma_subrange_of_prefix(e, 19, 11, 19);
    lemma_seq_split(b3, seq![bool_byte(c.auto_buy_bnb)]);
    lemma_subrange_of_prefix(e, 11, 0, 10);
    lemma_subrange_of_prefix(e, 11, 10, 11);
    lemma_seq_split(b2, seq![bool_byte(c.buy_on_enter)]);
    lemma_subrange_of_prefix(e, 10, 0, 9);
    lemma_subrange_of_prefix(e, 10, 9, 10);
    lemma_seq_split(b1, le_u32(c.auto_cancel_lower_buy as u32));
    lemma_subrange_of_prefix(e, 9, 0, 5);
    lemma_subrange_of_prefix(e, 9, 5, 9);
    lemma_seq_split(b0, le_u32(c.dont_buy_new_coins as u32));
    lemma_subrange_of_prefix(e, 5, 0, 1);
    lemma_subrange_of_prefix(e, 5, 1, 5);
    assert(e.subrange(0, 1) == seq![bool_byte(c.dont_buy_delisted)]);
    assert(d[o + 0] == e.subrange(0, 1)[0]);
    lemma_bool_byte(c.dont_buy_delisted);
    assert(e.subrange(1, 5) == le_u32(c.dont_buy_new_coins as u32));
    lemma_le_i32_roundtrip(c.dont_buy_new_coins);
    assert(d[o + 1] == e.subrange(1, 5)[0] && d[o + 2] == e.subrange(1, 5)[1] && d[o + 3] == e.subrange(1, 5)[2] && d[o + 4] == e.subrange(1, 5)[3]);
    assert(e.subrange(5, 9) == le_u32(c.auto_cancel_lower_buy as u32));
    lemma_le_i32_roundtrip(c.auto_cancel_lower_buy);
    assert(d[o + 5] == e.subrange(5, 9)[0] && d[o + 6] == e.subrange(5, 9)[1] && d[o + 7] == e.subrange(5, 9)[2] && d[o + 8] == e.subrange(5, 9)[3]);
    assert(e.subrange(9, 10) == seq![bool_byte(c.buy_on_enter)]);
    assert(d[o + 9] == e.subrange(9, 10)[0]);
    lemma_bool_byte(c.buy_on_enter);
    assert(e.subrange(10, 11) == seq![bool_byte(c.auto_buy_bnb)]);
    assert(d[o + 10] == e.subrange(10, 11)[0]);
    lemma_bool_byte(c.auto_buy_bnb);
    assert(e.subrange(11, 19) == le_u64(c.auto_buy_bnb_level));
    assert(d.subrange(o + 11, o + 19) =~= e.subrange(11, 19));
    lemma_u64_at_le(c.auto_buy_bnb_level, d, o + 11);
}

/// Fields `auto_buy_bnb_volume` to `max_order` read back from their bytes.
pub proof fn lemma_trading_run7_part2_at(c: TradingRun7, d: Seq<u8>, o: int)
    requires
        0 <= o,
        o + 20 <= d.len(),
        d.subrange(o, o + 20) == trading_run7_part2_bytes(c),
    ensures
        trading_run7_part2_bytes(c).len() == 20,
        trading_run7_part2_at(d, o, c),
{
    let b0 = le_u64(c.auto_buy_bnb_volume);
    let b1 = b0 + seq![c.order_replace_click_buy];
    let b2 = b1 + seq![bool_byte(c.dont_buy_forward)];
    let b3 = b2 + seq![bool_byte(c.chart_split_zones)];
    let b4 = b3 + seq![bool_byte(c.draw_stop)];
    let b5 = b4 + le_u64(c.max_order);
    let e = d.subrange(o, o + 20);
    assert(e == b5);
    lemma_seq_split(b4, le_u64(c.max_order));
    lemma_subrange_of_prefix(e, 20, 0, 12);
    lemma_subrange_of_prefix(e, 20, 12, 20);
    lemma_seq_split(b3, seq![bool_byte(c.draw_stop)]);
    lemma_subrange_of_prefix(e, 12, 0, 11);
    lemma_subrange_of_prefix(e, 12, 11, 12);
    lemma_seq_split(b2, seq![bool_byte(c.chart_split_zones)]);
    lemma_subrange_of_prefix(e, 11, 0, 10);
    lemma_subrange_of_prefix(e, 11, 10, 11);
    lemma_seq_split(b1, seq![bool_byte(c.dont_buy_forward)]);
    lemma_subrange_of_prefix(e, 10, 0, 9);
    lemma_subrange_of_prefix(e, 10, 9, 10);
    lemma_seq_split(b0, seq![c.order_replace_click_buy]);
    lemma_subrange_of_prefix(e, 9, 0, 8);
    lemma_subrange_of_prefix(e, 9, 8, 9);
    assert(e.subrange(0, 8) == le_u64(c.auto_buy_bnb_volume));
    assert(d.subrange(o + 0, o + 8) =~= e.subrange(0, 8));
    lemma_u64_at_le(c.auto_buy_bnb_volume, d, o + 0);
    assert(e.subrange(8, 9) == seq![c.order_replace_click_buy]);
    assert(d[o + 8] == e.subrange(8, 9)[0]);
    assert(e.subrange(9, 10) == seq![bool_byte(c.dont_buy_forward)]);
    assert(d[o + 9] == e.subrange(9, 10)[0]);
    lemma_bool_byte(c.dont_buy_forward);
    assert(e.subrange(10, 11) == seq![bool_byte(c.chart_split_zones)]);
    assert(d[o + 10] == e.subrange(10, 11)[0]);
    lemma_bool_byte(c.chart_split_zones);
    assert(e.subrange(11, 12) == seq![bool_byte(c.draw_stop)]);
    assert(d[o + 11] == e.subrange(11, 12)[0]);
    lemma_bool_byte(c.draw_stop);
    assert(e.subrange(12, 20) == le_u64(c.max_order));
    assert(d.subrange(o + 12, o + 20) =~= e.subrange(12, 20));
    lemma_u64_at_le(c.max_order, d, o + 12);
}

/// Fields `unlimited_orders` to `use_manual_strategy` read back from their bytes.
pub proof fn lemma_trading_run7_part3_at(c: TradingRun7, d: Seq<u8>, o: int)
    requires
        0 <= o,
        o + 2 <= d.len(),
        d.subrange(o, o + 2) == trading_run7_part3_bytes(c),
    ensures
        trading_run7_part3_bytes(c).len() == 2,
        trading_run7_part3_at(d, o, c),
{
    let b0 = seq![bool_byte(c.unlimited_orders)];
    let b1 = b0 + seq![bool_byte(c.use_manual_strategy)];
    let e = d.subrange(o, o + 2);
    assert(e == b1);
    lemma_seq_split(b0, seq![bool_byte(c.use_manual_strategy)]);
    lemma_subrange_of_prefix(e, 2, 0, 1);
    lemma_subrange_of_prefix(e, 2, 1, 2);
    assert(e.subrange(0, 1) == seq![bool_byte(c.unlimited_orders)]);
    assert(d[o + 0] == e.subrange(0, 1)[0]);
    lemma_bool_byte(c.unlimited_orders);
    assert(e.subrange(1, 2) == seq![bool_byte(c.use_manual_strategy)]);
    assert(d[o + 1] == e.subrange(1, 2)[0]);
    lemma_bool_byte(c.use_manual_strategy);
}

/// The fields of a [`TradingRun7`] read back from its bytes.
pub proof fn lemma_trading_run7_at(c: TradingRun7, d: Seq<u8>, o: int)
    requires
        0 <= o,
        o + 41 <= d.len(),
        d.subrange(o, o + 41) == trading_run7_bytes(c),
    ensures
        trading_run7_bytes(c).len() == 41,
        trading_run7_at(d, o, c),
{
    let g0 = trading_run7_part1_bytes(c);
    let g1 = g0 + trading_run7_part2_bytes(c);
    let g2 = g1 + trading_run7_part3_bytes(c);
    let e = d.subrange(o, o + 41);
    assert(e == g2);
    lemma_seq_split(g1, trading_run7_part3_bytes(c));
    lemma_subrange_of_prefix(e, 41, 0, 39);
    lemma_subrange_of_prefix(e, 41, 39, 41);
    assert(d.subrange(o + 39, o + 41) =~= e.subrange(39, 41));
    lemma_trading_run7_part3_at(c, d, o + 39);
    lemma_seq_split(g0, trading_run7_part2_bytes(c));
    lemma_subrange_of_prefix(e, 39, 0, 19);
    lemma_subrange_of_prefix(e, 39, 19, 39);
    assert(d.subrange(o + 19, o + 39) =~= e.subrange(19, 39));
    lemma_trading_run7_part2_at(c, d, o + 19);
    assert(d.subrange(o + 0, o + 19) =~= e.subrange(0, 19));
    lemma_trading_run7_part1_at(c, d, o + 0);
}

/// Reading back the bytes of a [`TradingRun7`] gives the same record.
pub proof fn lemma_trading_run7_roundtrip(c: TradingRun7, rest: Seq<u8>)
    ensures
        trading_run7_bytes(c).len() == TRADING_RUN7_LEN,
        trading_run7_at(trading_run7_bytes(c) + rest, 0, c),
{
    lemma_seq_split(trading_run7_bytes(c), rest);
    lemma_trading_run7_at(c, trading_run7_bytes(c) + rest, 0);
}

/// The fields of a [`TradingSection`] that a [`TradingRun7`] holds.
pub open spec fn trading_run7_of(s: TradingSection) -> TradingRun7 {
    TradingRun7 { dont_buy_delisted: s.dont_buy_delisted, dont_buy_new_coins: s.dont_buy_new_coins, auto_cancel_lower_buy: s.auto_cancel_lower_buy, buy_on_enter: s.buy_on_enter, auto_buy_bnb: s.auto_buy_bnb, auto_buy_bnb_level: s.auto_buy_bnb_level, auto_buy_bnb_volume: s.auto_buy_bnb_volume, order_replace_click_buy: s.order_replace_click_buy, dont_buy_forward: s.dont_buy_forward, chart_split_zones: s.chart_split_zones, draw_stop: s.draw_stop, max_order: s.max_order, unlimited_orders: s.unlimited_orders, use_manual_strategy: s.use_manual_strategy }
}

/// Copy the fields of a [`TradingSection`] that a [`TradingRun7`] holds.
fn trading_run7_from(s: &TradingSection) -> (r: TradingRun7)
    ensures
        r == trading_run7_of(*s),
{
    TradingRun7 { dont_buy_delisted: s.dont_buy_delisted, dont_buy_new_coins: s.dont_buy_new_coins, auto_cancel_lower_buy: s.auto_cancel_lower_buy, buy_on_enter: s.buy_on_enter, auto_buy_bnb: s.auto_buy_bnb, auto_buy_bnb_level: s.auto_buy_bnb_level, auto_buy_bnb_volume: s.auto_buy_bnb_volume, order_replace_click_buy: s.order_replace_click_buy, dont_buy_forward: s.dont_buy_forward, chart_split_zones: s.chart_split_zones, draw_stop: s.draw_stop, max_order: s.max_order, unlimited_orders: s.unlimited_orders, use_manual_strategy: s.use_manual_strategy }
}

/// Fixed-width fields of the trading section from `x9_mode` to `tm_max_order`, in wire order.
#[derive(Clone, Copy, Debug)]
pub struct TradingRun8 {
    /// Use x9 (9-grid) mode for order splitting.
    pub x9_mode: bool,
    /// Shared scale flag — multiply offsets by 10 when true.
    /// Mirrors [`ClientSettingsCommand::x_tmode`].
    pub x_t_mode: bool,
    /// Runtime one-shot flag: the fixed-balance warning dialog has already
    /// been shown. Not a user setting.
    pub fixed_balance_warning: bool,
    /// Minimum gap between trades in milliseconds.
    pub trades_gap_time: i32,
    /// Use iceberg orders for buys.
    /// Mirrors [`ClientSettingsCommand::buy_iceberg`].
    pub buy_iceberg: bool,
    /// Use iceberg orders for sells.
    /// Mirrors [`ClientSettingsCommand::sell_iceberg`].
    pub sell_iceberg: bool,
    /// Iceberg slice size as a fraction of total.
    /// (IEEE-754 bits of the `f64` value.)
    pub iceberg_step: u64,
    /// Mouse click action that places a new buy order at price.
    pub order_set_click: u8,
    /// Mouse click action that places a pending (limit) buy order.
    pub pending_order_set_click: u8,
    /// Spread percentage for pending orders above/below market.
    /// (IEEE-754 bits of the `f64` value.)
    pub pending_orders_spread: u64,
    /// High-delta threshold for pending order spread adjustment.
    /// (IEEE-754 bits of the `f64` value.)
    pub pending_orders_spread_h_delta: u64,
    /// Legacy, no consumers in current MoonBot code (default 1). Kept for wire
    /// compatibility only.
    pub buy_pending_spread: i32,
    /// Legacy, no consumers in current MoonBot code (default 1). Kept for wire
    /// compatibility only.
    pub buy_stop_pending_spread: i32,
    /// On thin-client: panic-sell positions when master closes.
    pub tm_panic_sell_closed: bool,
    /// Thin-client: only forward share commands, not full replays.
    pub tm_send_only_share: bool,
    /// Multi-orders (MoonFriend): when this master bot's sell order completes,
    /// send `cmd_CancelBuy` for the market to the linked user bots.
    pub tm_cancel_closed: bool,
    /// Multi-orders (MoonFriend): when this master bot's buy order fills, send
    /// `cmd_CancelBuy` to the linked user bots 5 seconds later.
    pub tm_cancel_buy_on_fill: bool,
    /// Allow multi-commands (batch order operations from thin-client).
    pub multi_commands: bool,
    /// Runtime counter of iceberg button clicks on the chart. Not a user
    /// setting.
    pub iceberg_click_count: i32,
    /// Multi-orders (MoonFriend): right after the master's buy completes, send
    /// `cmd_Sell` with the master's sell price to the linked bots — otherwise
    /// each linked bot places the sell at its own strategy price.
    pub tm_send_first_sell: bool,
    /// Thin-client: auto-sell if master buy is not filled.
    pub tm_sell_if_master_not_filled: bool,
    /// Thin-client: max order size override (0 = follow master).
    /// (IEEE-754 bits of the `f64` value.)
    pub tm_max_order: u64,
}

/// Wire size of [`TradingRun8`].
pub const TRADING_RUN8_LEN: usize = 62;

/// Wire bytes of fields `x9_mode` to `sell_iceberg` of a [`TradingRun8`].
pub open spec fn trading_run8_part1_bytes(c: TradingRun8) -> Seq<u8> {
    seq![bool_byte(c.x9_mode)]
        + seq![bool_byte(c.x_t_mode)]
        + seq![bool_byte(c.fixed_balance_warning)]
        + le_u32(c.trades_gap_time as u32)
        + seq![bool_byte(c.buy_iceberg)]
        + seq![bool_byte(c.sell_iceberg)]
}

/// Whether fields `x9_mode` to `sell_iceberg` of `c` are stored at `p`.
pub open spec fn trading_run8_part1_at(d: Seq<u8>, p: int, c: TradingRun8) -> bool {
    &&& c.x9_mode == flag_of(d[p])
    &&& c.x_t_mode == flag_of(d[p + 1])
    &&& c.fixed_balance_warning == flag_of(d[p + 2])
    &&& c.trades_gap_time == i32_at(d, p + 3)
    &&& c.buy_iceberg == flag_of(d[p + 7])
    &&& c.sell_iceberg == flag_of(d[p + 8])
}

/// Wire bytes of fields `iceberg_step` to `buy_pending_spread` of a [`TradingRun8`].
pub open spec fn trading_run8_part2_bytes(c: TradingRun8) -> Seq<u8> {
    le_u64(c.iceberg_step)
        + seq![c.order_set_click]
        + seq![c.pending_order_set_click]
        + le_u64(c.pending_orders_spread)
        + le_u64(c.pending_orders_spread_h_delta)
        + le_u32(c.buy_pending_spread as u32)
}

/// Whether fields `iceberg_step` to `buy_pending_spread` of `c` are stored at `p`.
pub open spec fn trading_run8_part2_at(d: Seq<u8>, p: int, c: TradingRun8) -> bool {
    &&& c.iceberg_step == u64_at(d, p)
    &&& c.order_set_click == d[p + 8]
    &&& c.pending_order_set_click == d[p + 9]
    &&& c.pending_orders_spread == u64_at(d, p + 10)
    &&& c.pending_orders_spread_h_delta == u64_at(d, p + 18)
    &&& c.buy_pending_spread == i32_at(d, p + 26)
}

/// Wire bytes of fields `buy_stop_pending_spread` to `multi_commands` of a [`TradingRun8`].
pub open spec fn trading_run8_part3_bytes(c: TradingRun8) -> Seq<u8> {
    le_u32(c.buy_stop_pending_spread as u32)
        + seq![bool_byte(c.tm_panic_sell_closed)]
        + seq![bool_byte(c.tm_send_only_share)]
        + seq![bool_byte(c.tm_cancel_closed)]
        + seq![bool_byte(c.tm_cancel_buy_on_fill)]
        + seq![bool_byte(c.multi_commands)]
}

/// Whether fields `buy_stop_pending_spread` to `multi_commands` of `c` are stored at `p`.
pub open spec fn trading_run8_part3_at(d: Seq<u8>, p: int, c: TradingRun8) -> bool {
    &&& c.buy_stop_pending_spread == i32_at(d, p)
    &&& c.tm_panic_sell_closed == flag_of(d[p + 4])
    &&& c.tm_send_only_share == flag_of(d[p + 5])
    &&& c.tm_cancel_closed == flag_of(d[p + 6])
    &&& c.tm_cancel_buy_on_fill == flag_of(d[p + 7])
    &&& c.multi_commands == flag_of(d[p + 8])
}

/// Wire bytes of fields `iceberg_click_count` to `tm_max_order` of a [`TradingRun8`].
pub open spec fn trading_run8_part4_bytes(c: TradingRun8) -> Seq<u8> {
    le_u32(c.iceberg_click_count as u32)
        + seq![bool_byte(c.tm_send_first_sell)]
        + seq![bool_byte(c.tm_sell_if_master_not_filled)]
        + le_u64(c.tm_max_order)
}

/// Whether fields `iceberg_click_count` to `tm_max_order` of `c` are stored at `p`.
pub open spec fn trading_run8_part4_at(d: Seq<u8>, p: int, c: TradingRun8) -> bool {
    &&& c.iceberg_click_count == i32_at(d, p)
    &&& c.tm_send_first_sell == flag_of(d[p + 4])
    &&& c.tm_sell_if_master_not_filled == flag_of(d[p + 5])
    &&& c.tm_max_order == u64_at(d, p + 6)
}

/// Wire bytes of a [`TradingRun8`], field after field.
pub open spec fn trading_run8_bytes(c: TradingRun8) -> Seq<u8> {
    trading_run8_part1_bytes(c)
        + trading_run8_part2_bytes(c)
        + trading_run8_part3_bytes(c)
        + trading_run8_part4_bytes(c)
}

/// Whether `c` is the [`TradingRun8`] stored at `p`.
pub open spec fn trading_run8_at(d: Seq<u8>, p: int, c: TradingRun8) -> bool {
    &&& trading_run8_part1_at(d, p, c)
    &&& trading_run8_part2_at(d, p + 9, c)
    &&& trading_run8_part3_at(d, p + 39, c)
    &&& trading_run8_part4_at(d, p + 48, c)
}

/// Read a [`TradingRun8`].
pub fn read_trading_run8(r: &mut ConfigReader) -> (res: Result<TradingRun8, SharedConfigError>)
    ensures
        final(r).bytes() == old(r).bytes(),
        old(r).at() + TRADING_RUN8_LEN <= old(r).bytes().len() ==> (res matches Ok(c) && trading_run8_at(
            old(r).bytes(),
            old(r).at(),
            c,
        ) && final(r).at() == old(r).at() + TRADING_RUN8_LEN),
        old(r).at() + TRADING_RUN8_LEN > old(r).bytes().len() ==> (res matches Err(e) && e@ == eof_msg()),
{
    Ok(TradingRun8 {
        x9_mode: r.read_bool()?,
        x_t_mode: r.read_bool()?,
        fixed_balance_warning: r.read_bool()?,
        trades_gap_time: r.read_i32()?,
        buy_iceberg: r.read_bool()?,
        sell_iceberg: r.read_bool()?,
        iceberg_step: r.read_u64()?,
        order_set_click: r.read_u8()?,
        pending_order_set_click: r.read_u8()?,
        pending_orders_spread: r.read_u64()?,
        pending_orders_spread_h_delta: r.read_u64()?,
        buy_pending_spread: r.read_i32()?,
        buy_stop_pending_spread: r.read_i32()?,
        tm_panic_sell_closed: r.read_bool()?,
        tm_send_only_share: r.read_bool()?,
        tm_cancel_closed: r.read_bool()?,
        tm_cancel_buy_on_fill: r.read_bool()?,
        multi_commands: r.read_bool()?,
        iceberg_click_count: r.read_i32()?,
        tm_send_first_sell: r.read_bool()?,
        tm_sell_if_master_not_filled: r.read_bool()?,
        tm_max_order: r.read_u64()?,
    })
}

/// Write fields `x9_mode` to `sell_iceberg` of a [`TradingRun8`].
fn write_trading_run8_part1(w: &mut ConfigWriter, c: &TradingRun8)
    requires
        old(w).wf(),
    ensures
        final(w).wf(),
        final(w).wrote_all(old(w), true, trading_run8_part1_bytes(*c)),
{
    let ghost w0 = *w;
    let ghost wb = *w;
    w.write_bool(c.x9_mode);
    proof { lemma_wrote_all_of_wrote(wb, *w, seq![bool_byte(c.x9_mode)]); }
    let ghost wb = *w;
    w.write_bool(c.x_t_mode);
    proof {
        lemma_wrote_all_of_wrote(wb, *w, seq![bool_byte(c.x_t_mode)]);
        lemma_wrote_all_then(w0, wb, *w, true, seq![bool_byte(c.x9_mode)], true, seq![bool_byte(c.x_t_mode)]);
    }
    let ghost wb = *w;
    w.write_bool(c.fixed_balance_warning);
    proof {
        lemma_wrote_all_of_wrote(wb, *w, seq![bool_byte(c.fixed_balance_warning)]);
        lemma_wrote_all_then(w0, wb, *w, true, seq![bool_byte(c.x9_mode)] + seq![bool_byte(c.x_t_mode)], true, seq![bool_byte(c.fixed_balance_warning)]);
    }
    let ghost wb = *w;
    w.write_i32(c.trades_gap_time);
    proof {
        lemma_wrote_all_of_wrote(wb, *w, le_u32(c.trades_gap_time as u32));
        lemma_wrote_all_then(w0, wb, *w, true, seq![bool_byte(c.x9_mode)] + seq![bool_byte(c.x_t_mode)] + seq![bool_byte(c.fixed_balance_warning)], true, le_u32(c.trades_gap_time as u32));
    }
    let ghost wb = *w;
    w.write_bool(c.buy_iceberg);
    proof {
        lemma_wrote_all_of_wrote(wb, *w, seq![bool_byte(c.buy_iceberg)]);
        lemma_wrote_all_then(w0, wb, *w, true, seq![bool_byte(c.x9_mode)] + seq![bool_byte(c.x_t_mode)] + seq![bool_byte(c.fixed_balance_warning)] + le_u32(c.trades_gap_time as u32), true, seq![bool_byte(c.buy_iceberg)]);
    }
    let ghost wb = *w;
    w.write_bool(c.sell_iceberg);
    proof {
        lemma_wrote_all_of_wrote(wb, *w, seq![bool_byte(c.sell_iceberg)]);
        lemma_wrote_all_then(w0, wb, *w, true, seq![bool_byte(c.x9_mode)] + seq![bool_byte(c.x_t_mode)] + seq![bool_byte(c.fixed_balance_warning)] + le_u32(c.trades_gap_time as u32) + seq![bool_byte(c.buy_iceberg)], true, seq![bool_byte(c.sell_iceberg)]);
    }
}

/// Write fields `iceberg_step` to `buy_pending_spread` of a [`TradingRun8`].
fn write_trading_run8_part2(w: &mut ConfigWriter, c: &TradingRun8)
    requires
        old(w).wf(),
    ensures
        final(w).wf(),
        final(w).wrote_all(old(w), true, trading_run8_part2_bytes(*c)),
{
    let ghost w0 = *w;
    let ghost wb = *w;
    w.write_u64(c.iceberg_step);
    proof { lemma_wrote_all_of_wrote(wb, *w, le_u64(c.iceberg_step)); }
    let ghost wb = *w;
    w.write_u8(c.order_set_click);
    proof {
        lemma_wrote_all_of_wrote(wb, *w, seq![c.order_set_click]);
        lemma_wrote_all_then(w0, wb, *w, true, le_u64(c.iceberg_step), true, seq![c.order_set_click]);
    }
    let ghost wb = *w;
    w.write_u8(c.pending_order_set_click);
    proof {
        lemma_wrote_all_of_wrote(wb, *w, seq![c.pending_order_set_click]);
        lemma_wrote_all_then(w0, wb, *w, true, le_u64(c.iceberg_step) + seq![c.order_set_click], true, seq![c.pending_order_set_click]);
    }
    let ghost wb = *w;
    w.write_u64(c.pending_orders_spread);
    proof {
        lemma_wrote_all_of_wrote(wb, *w, le_u64(c.pending_orders_spread));
        lemma_wrote_all_then(w0, wb, *w, true, le_u64(c.iceberg_step) + seq![c.order_set_click] + seq![c.pending_order_set_click], true, le_u64(c.pending_orders_spread));
    }
    let ghost wb = *w;
    w.write_u64(c.pending_orders_spread_h_delta);
    proof {
        lemma_wrote_all_of_wrote(wb, *w, le_u64(c.pending_orders_spread_h_delta));
        lemma_wrote_all_then(w0, wb, *w, true, le_u64(c.iceberg_step) + seq![c.order_set_click] + seq![c.pending_order_set_click] + le_u64(c.pending_orders_spread), true, le_u64(c.pending_orders_spread_h_delta));
    }
    let ghost wb = *w;
    w.write_i32(c.buy_pending_spread);
    proof {
        lemma_wrote_all_of_wrote(wb, *w, le_u32(c.buy_pending_spread as u32));
        lemma_wrote_all_then(w0, wb, *w, true, le_u64(c.iceberg_step) + seq![c.order_set_click] + seq![c.pending_order_set_click] + le_u64(c.pending_orders_spread) + le_u64(c.pending_orders_spread_h_delta), true, le_u32(c.buy_pending_spread as u32));
    }
}

/// Write fields `buy_stop_pending_spread` to `multi_commands` of a [`TradingRun8`].
fn write_trading_run8_part3(w: &mut ConfigWriter, c: &TradingRun8)
    requires
        old(w).wf(),
    ensures
        final(w).wf(),
        final(w).wrote_all(old(w), true, trading_run8_part3_bytes(*c)),
{
    let ghost w0 = *w;
    let ghost wb = *w;
    w.write_i32(c.buy_stop_pending_spread);
    proof { lemma_wrote_all_of_wrote(wb, *w, le_u32(c.buy_stop_pending_spread as u32)); }
    let ghost wb = *w;
    w.write_bool(c.tm_panic_sell_closed);
    proof {
        lemma_wrote_all_of_wrote(wb, *w, seq![bool_byte(c.tm_panic_sell_closed)]);
        lemma_wrote_all_then(w0, wb, *w, true, le_u32(c.buy_stop_pending_spread as u32), true, seq![bool_byte(c.tm_panic_sell_closed)]);
    }
    let ghost wb = *w;
    w.write_bool(c.tm_send_only_share);
    proof {
        lemma_wrote_all_of_wrote(wb, *w, seq![bool_byte(c.tm_send_only_share)]);
        lemma_wrote_all_then(w0, wb, *w, true, le_u32(c.buy_stop_pending_spread as u32) + seq![bool_byte(c.tm_panic_sell_closed)], true, seq![bool_byte(c.tm_send_only_share)]);
    }
    let ghost wb = *w;
    w.write_bool(c.tm_cancel_closed);
    proof {
        lemma_wrote_all_of_wrote(wb, *w, seq![bool_byte(c.tm_cancel_closed)]);
        lemma_wrote_all_then(w0, wb, *w, true, le_u32(c.buy_stop_pending_spread as u32) + seq![bool_byte(c.tm_panic_sell_closed)] + seq![bool_byte(c.tm_send_only_share)], true, seq![bool_byte(c.tm_cancel_closed)]);
    }
    let ghost wb = *w;
    w.write_bool(c.tm_cancel_buy_on_fill);
    proof {
        lemma_wrote_all_of_wrote(wb, *w, seq![bool_byte(c.tm_cancel_buy_on_fill)]);
        lemma_wrote_all_then(w0, wb, *w, true, le_u32(c.buy_stop_pending_spread as u32) + seq![bool_byte(c.tm_panic_sell_closed)] + seq![bool_byte(c.tm_send_only_share)] + seq![bool_byte(c.tm_cancel_closed)], true, seq![bool_byte(c.tm_cancel_buy_on_fill)]);
    }
    let ghost wb = *w;
    w.write_bool(c.multi_commands);
    proof {
        lemma_wrote_all_of_wrote(wb, *w, seq![bool_byte(c.multi_commands)]);
        lemma_wrote_all_then(w0, wb, *w, true, le_u32(c.buy_stop_pending_spread as u32) + seq![bool_byte(c.tm_panic_sell_closed)] + seq![bool_byte(c.tm_send_only_share)] + seq![bool_byte(c.tm_cancel_closed)] + seq![bool_byte(c.tm_cancel_buy_on_fill)], true, seq![bool_byte(c.multi_commands)]);
    }
}

/// Write fields `iceberg_click_count` to `tm_max_order` of a [`TradingRun8`].
fn write_trading_run8_part4(w: &mut ConfigWriter, c: &TradingRun8)
    requires
        old(w).wf(),
    ensures
        final(w).wf(),
        final(w).wrote_all(old(w), true, trading_run8_part4_bytes(*c)),
{
    let ghost w0 = *w;
    let ghost wb = *w;
    w.write_i32(c.iceberg_click_count);
    proof { lemma_wrote_all_of_wrote(wb, *w, le_u32(c.iceberg_click_count as u32)); }
    let ghost wb = *w;
    w.write_bool(c.tm_send_first_sell);
    proof {
        lemma_wrote_all_of_wrote(wb, *w, seq![bool_byte(c.tm_send_first_sell)]);
        lemma_wrote_all_then(w0, wb, *w, true, le_u32(c.iceberg_click_count as u32), true, seq![bool_byte(c.tm_send_first_sell)]);
    }
    let ghost wb = *w;
    w.write_bool(c.tm_sell_if_master_not_filled);
    proof {
        lemma_wrote_all_of_wrote(wb, *w, seq![bool_byte(c.tm_sell_if_master_not_filled)]);
        lemma_wrote_all_then(w0, wb, *w, true, le_u32(c.iceberg_click_count as u32) + seq![bool_byte(c.tm_send_first_sell)], true, seq![bool_byte(c.tm_sell_if_master_not_filled)]);
    }
    let ghost wb = *w;
    w.write_u64(c.tm_max_order);
    proof {
        lemma_wrote_all_of_wrote(wb, *w, le_u64(c.tm_max_order));
        lemma_wrote_all_then(w0, wb, *w, true, le_u32(c.iceberg_click_count as u32) + seq![bool_byte(c.tm_send_first_sell)] + seq![bool_byte(c.tm_sell_if_master_not_filled)], true, le_u64(c.tm_max_order));
    }
}

/// Write a [`TradingRun8`].
pub fn write_trading_run8(w: &mut ConfigWriter, c: &TradingRun8)
    requires
        old(w).wf(),
    ensures
        final(w).wf(),
        final(w).wrote_all(old(w), true, trading_run8_bytes(*c)),
{
    let ghost w0 = *w;
    let ghost wb = *w;
    write_trading_run8_part1(w, c);
    let ghost wb = *w;
    write_trading_run8_part2(w, c);
    proof { lemma_wrote_all_then(w0, wb, *w, true, trading_run8_part1_bytes(*c), true, trading_run8_part2_bytes(*c)); }
    let ghost wb = *w;
    write_trading_run8_part3(w, c);
    proof { lemma_wrote_all_then(w0, wb, *w, true, trading_run8_part1_bytes(*c) + trading_run8_part2_bytes(*c), true, trading_run8_part3_bytes(*c)); }
    let ghost wb = *w;
    write_trading_run8_part4(w, c);
    proof { lemma_wrote_all_then(w0, wb, *w, true, trading_run8_part1_bytes(*c) + trading_run8_part2_bytes(*c) + trading_run8_part3_bytes(*c), true, trading_run8_part4_bytes(*c)); }
}

/// Fields `x9_mode` to `sell_iceberg` read back from their bytes.
pub proof fn lemma_trading_run8_part1_at(c: TradingRun8, d: Seq<u8>, o: int)
    requires
        0 <= o,
        o + 9 <= d.len(),
        d.subrange(o, o + 9) == trading_run8_part1_bytes(c),
    ensures
        trading_run8_part1_bytes(c).len() == 9,
        trading_run8_part1_at(d, o, c),
{
    let b0 = seq![bool_byte(c.x9_mode)];
    let b1 = b0 + seq![bool_byte(c.x_t_mode)];
    let b2 = b1 + seq![bool_byte(c.fixed_balance_warning)];
    let b3 = b2 + le_u32(c.trades_gap_time as u32);
    let b4 = b3 + seq![bool_byte(c.buy_iceberg)];
    let b5 = b4 + seq![bool_byte(c.sell_iceberg)];
    let e = d.subrange(o, o + 9);
    assert(e == b5);
    lemma_seq_split(b4, seq![bool_byte(c.sell_iceberg)]);
    lemma_subrange_of_prefix(e, 9, 0, 8);
    lemma_subrange_of_prefix(e, 9, 8, 9);
    lemma_seq_split(b3, seq![bool_byte(c.buy_iceberg)]);
    lemma_subrange_of_prefix(e, 8, 0, 7);
    lemma_subrange_of_prefix(e, 8, 7, 8);
    lemma_seq_split(b2, le_u32(c.trades_gap_time as u32));
    lemma_subrange_of_prefix(e, 7, 0, 3);
    lemma_subrange_of_prefix(e, 7, 3, 7);
    lemma_seq_split(b1, seq![bool_byte(c.fixed_balance_warning)]);
    lemma_subrange_of_prefix(e, 3, 0, 2);
    lemma_subrange_of_prefix(e, 3, 2, 3);
    lemma_seq_split(b0, seq![bool_byte(c.x_t_mode)]);
    lemma_subrange_of_prefix(e, 2, 0, 1);
    lemma_subrange_of_prefix(e, 2, 1, 2);
    assert(e.subrange(0, 1) == seq![bool_byte(c.x9_mode)]);
    assert(d[o + 0] == e.subrange(0, 1)[0]);
    lemma_bool_byte(c.x9_mode);
    assert(e.subrange(1, 2) == seq![bool_byte(c.x_t_mode)]);
    assert(d[o + 1] == e.subrange(1, 2)[0]);
    lemma_bool_byte(c.x_t_mode);
    assert(e.subrange(2, 3) == seq![bool_byte(c.fixed_balance_warning)]);
    assert(d[o + 2] == e.subrange(2, 3)[0]);
    lemma_bool_byte(c.fixed_balance_warning);
    assert(e.subrange(3, 7) == le_u32(c.trades_gap_time as u32));
    lemma_le_i32_roundtrip(c.trades_gap_time);
    assert(d[o + 3] == e.subrange(3, 7)[0] && d[o + 4] == e.subrange(3, 7)[1] && d[o + 5] == e.subrange(3, 7)[2] && d[o + 6] == e.subrange(3, 7)[3]);
    assert(e.subrange(7, 8) == seq![bool_byte(c.buy_iceberg)]);
    assert(d[o + 7] == e.subrange(7, 8)[0]);
    lemma_bool_byte(c.buy_iceberg);
    assert(e.subrange(8, 9) == seq![bool_byte(c.sell_iceberg)]);
    assert(d[o + 8] == e.subrange(8, 9)[0]);
    lemma_bool_byte(c.sell_iceberg);
}

/// Fields `iceberg_step` to `buy_pending_spread` read back from their bytes.
pub proof fn lemma_trading_run8_part2_at(c: TradingRun8, d: Seq<u8>, o: int)
    requires
        0 <= o,
        o + 30 <= d.len(),
        d.subrange(o, o + 30) == trading_run8_part2_bytes(c),
    ensures
        trading_run8_part2_bytes(c).len() == 30,
        trading_run8_part2_at(d, o, c),
{
    let b0 = le_u64(c.iceberg_step);
    let b1 = b0 + seq![c.order_set_click];
    let b2 = b1 + seq![c.pending_order_set_click];
    let b3 = b2 + le_u64(c.pending_orders_spread);
    let b4 = b3 + le_u64(c.pending_orders_spread_h_delta);
    let b5 = b4 + le_u32(c.buy_pending_spread as u32);
    let e = d.subrange(o, o + 30);
    assert(e == b5);
    lemma_seq_split(b4, le_u32(c.buy_pending_spread as u32));
    lemma_subrange_of_prefix(e, 30, 0, 26);
    lemma_subrange_of_prefix(e, 30, 26, 30);
    lemma_seq_split(b3, le_u64(c.pending_orders_spread_h_delta));
    lemma_subrange_of_prefix(e, 26, 0, 18);
    lemma_subrange_of_prefix(e, 26, 18, 26);
    lemma_seq_split(b2, le_u64(c.pending_orders_spread));
    lemma_subrange_of_prefix(e, 18, 0, 10);
    lemma_subrange_of_prefix(e, 18, 10, 18);
    lemma_seq_split(b1, seq![c.pending_order_set_click]);
    lemma_subrange_of_prefix(e, 10, 0, 9);
    lemma_subrange_of_prefix(e, 10, 9, 10);
    lemma_seq_split(b0, seq![c.order_set_click]);
    lemma_subrange_of_prefix(e, 9, 0, 8);
    lemma_subrange_of_prefix(e, 9, 8, 9);
    assert(e.subrange(0, 8) == le_u64(c.iceberg_step));
    assert(d.subrange(o + 0, o + 8) =~= e.subrange(0, 8));
    lemma_u64_at_le(c.iceberg_step, d, o + 0);
    assert(e.subrange(8, 9) == seq![c.order_set_click]);
    assert(d[o + 8] == e.subrange(8, 9)[0]);
    assert(e.subrange(9, 10) == seq![c.pending_order_set_click]);
    assert(d[o + 9] == e.subrange(9, 10)[0]);
    assert(e.subrange(10, 18) == le_u64(c.pending_orders_spread));
    assert(d.subrange(o + 10, o + 18) =~= e.subrange(10, 18));
    lemma_u64_at_le(c.pending_orders_spread, d, o + 10);
    assert(e.subrange(18, 26) == le_u64(c.pending_orders_spread_h_delta));
    assert(d.subrange(o + 18, o + 26) =~= e.subrange(18, 26));
    lemma_u64_at_le(c.pending_orders_spread_h_delta, d, o + 18);
    assert(e.subrange(26, 30) == le_u32(c.buy_pending_spread as u32));
    lemma_le_i32_roundtrip(c.buy_pending_spread);
    assert(d[o + 26] == e.subrange(26, 30)[0] && d[o + 27] == e.subrange(26, 30)[1] && d[o + 28] == e.subrange(26, 30)[2] && d[o + 29] == e.subrange(26, 30)[3]);
}

/// Fields `buy_stop_pending_spread` to `multi_commands` read back from their bytes.
pub proof fn lemma_trading_run8_part3_at(c: TradingRun8, d: Seq<u8>, o: int)
    requires
        0 <= o,
        o + 9 <= d.len(),
        d.subrange(o, o + 9) == trading_run8_part3_bytes(c),
    ensures
        trading_run8_part3_bytes(c).len() == 9,
        trading_run8_part3_at(d, o, c),
{
    let b0 = le_u32(c.buy_stop_pending_spread as u32);
    let b1 = b0 + seq![bool_byte(c.tm_panic_sell_closed)];
    let b2 = b1 + seq![bool_byte(c.tm_send_only_share)];
    let b3 = b2 + seq![bool_byte(c.tm_cancel_closed)];
    let b4 = b3 + seq![bool_byte(c.tm_cancel_buy_on_fill)];
    let b5 = b4 + seq![bool_byte(c.multi_commands)];
    let e = d.subrange(o, o + 9);
    assert(e == b5);
    lemma_seq_split(b4, seq![bool_byte(c.multi_commands)]);
    lemma_subrange_of_prefix(e, 9, 0, 8);
    lemma_subrange_of_prefix(e, 9, 8, 9);
    lemma_seq_split(b3, seq![bool_byte(c.tm_cancel_buy_on_fill)]);
    lemma_subrange_of_prefix(e, 8, 0, 7);
    lemma_subrange_of_prefix(e, 8, 7, 8);
    lemma_seq_split(b2, seq![bool_byte(c.tm_cancel_closed)]);
    lemma_subrange_of_prefix(e, 7, 0, 6);
    lemma_subrange_of_prefix(e, 7, 6, 7);
    lemma_seq_split(b1, seq![bool_byte(c.tm_send_only_share)]);
    lemma_subrange_of_prefix(e, 6, 0, 5);
    lemma_subrange_of_prefix(e, 6, 5, 6);
    lemma_seq_split(b0, seq![bool_byte(c.tm_panic_sell_closed)]);
    lemma_subrange_of_prefix(e, 5, 0, 4);
    lemma_subrange_of_prefix(e, 5, 4, 5);
    assert(e.subrange(0, 4) == le_u32(c.buy_stop_pending_spread as u32));
    lemma_le_i32_roundtrip(c.buy_stop_pending_spread);
    assert(d[o + 0] == e.subrange(0, 4)[0] && d[o + 1] == e.subrange(0, 4)[1] && d[o + 2] == e.subrange(0, 4)[2] && d[o + 3] == e.subrange(0, 4)[3]);
    assert(e.subrange(4, 5) == seq![bool_byte(c.tm_panic_sell_closed)]);
    assert(d[o + 4] == e.subrange(4, 5)[0]);
    lemma_bool_byte(c.tm_panic_sell_closed);
    assert(e.subrange(5, 6) == seq![bool_byte(c.tm_send_only_share)]);
    assert(d[o + 5] == e.subrange(5, 6)[0]);
    lemma_bool_byte(c.tm_send_only_share);
    assert(e.subrange(6, 7) == seq![bool_byte(c.tm_cancel_closed)]);
    assert(d[o + 6] == e.subrange(6, 7)[0]);
    lemma_bool_byte(c.tm_cancel_closed);
    assert(e.subrange(7, 8) == seq![bool_byte(c.tm_cancel_buy_on_fill)]);
    assert(d[o + 7] == e.subrange(7, 8)[0]);
    lemma_bool_byte(c.tm_cancel_buy_on_fill);
    assert(e.subrange(8, 9) == seq![bool_byte(c.multi_commands)]);
    assert(d[o + 8] == e.subrange(8, 9)[0]);
    lemma_bool_byte(c.multi_commands);
}

/// Fields `iceberg_click_count` to `tm_max_order` read back from their bytes.
pub proof fn lemma_trading_run8_part4_at(c: TradingRun8, d: Seq<u8>, o: int)
    requires
        0 <= o,
        o + 14 <= d.len(),
        d.subrange(o, o + 14) == trading_run8_part4_bytes(c),
    ensures
        trading_run8_part4_bytes(c).len() == 14,
        trading_run8_part4_at(d, o, c),
{
    let b0 = le_u32(c.iceberg_click_count as u32);
    let b1 = b0 + seq![bool_byte(c.tm_send_first_sell)];
    let b2 = b1 + seq![bool_byte(c.tm_sell_if_master_not_filled)];
    let b3 = b2 + le_u64(c.tm_max_order);
    let e = d.subrange(o, o + 14);
    assert(e == b3);
    lemma_seq_split(b2, le_u64(c.tm_max_order));
    lemma_subrange_of_prefix(e, 14, 0, 6);
    lemma_subrange_of_prefix(e, 14, 6, 14);
    lemma_seq_split(b1, seq![bool_byte(c.tm_sell_if_master_not_filled)]);
    lemma_subrange_of_prefix(e, 6, 0, 5);
    lemma_subrange_of_prefix(e, 6, 5, 6);
    lemma_seq_split(b0, seq![bool_byte(c.tm_send_first_sell)]);
    lemma_subrange_of_prefix(e, 5, 0, 4);
    lemma_subrange_of_prefix(e, 5, 4, 5);
    assert(e.subrange(0, 4) == le_u32(c.iceberg_click_count as u32));
    lemma_le_i32_roundtrip(c.iceberg_click_count);
    assert(d[o + 0] == e.subrange(0, 4)[0] && d[o + 1] == e.subrange(0, 4)[1] && d[o + 2] == e.subrange(0, 4)[2] && d[o + 3] == e.subrange(0, 4)[3]);
    assert(e.subrange(4, 5) == seq![bool_byte(c.tm_send_first_sell)]);
    assert(d[o + 4] == e.subrange(4, 5)[0]);
    lemma_bool_byte(c.tm_send_first_sell);
    assert(e.subrange(5, 6) == seq![bool_byte(c.tm_sell_if_master_not_filled)]);
    assert(d[o + 5] == e.subrange(5, 6)[0]);
    lemma_bool_byte(c.tm_sell_if_master_not_filled);
    assert(e.subrange(6, 14) == le_u64(c.tm_max_order));
    assert(d.subrange(o + 6, o + 14) =~= e.subrange(6, 14));
    lemma_u64_at_le(c.tm_max_order, d, o + 6);
}

/// The fields of a [`TradingRun8`] read back from its bytes.
pub proof fn lemma_trading_run8_at(c: TradingRun8, d: Seq<u8>, o: int)
    requires
        0 <= o,
        o + 62 <= d.len(),
        d.subrange(o, o + 62) == trading_run8_bytes(c),
    ensures
        trading_run8_bytes(c).len() == 62,
        trading_run8_at(d, o, c),
{
    let g0 = trading_run8_part1_bytes(c);
    let g1 = g0 + trading_run8_part2_bytes(c);
    let g2 = g1 + trading_run8_part3_bytes(c);
    let g3 = g2 + trading_run8_part4_bytes(c);
    let e = d.subrange(o, o + 62);
    assert(e == g3);
    lemma_seq_split(g2, trading_run8_part4_bytes(c));
    lemma_subrange_of_prefix(e, 62, 0, 48);
    lemma_subrange_of_prefix(e, 62, 48, 62);
    assert(d.subrange(o + 48, o + 62) =~= e.subrange(48, 62));
    lemma_trading_run8_part4_at(c, d, o + 48);
    lemma_seq_split(g1, trading_run8_part3_bytes(c));
    lemma_subrange_of_prefix(e, 48, 0, 39);
    lemma_subrange_of_prefix(e, 48, 39, 48);
    assert(d.subrange(o + 39, o + 48) =~= e.subrange(39, 48));
    lemma_trading_run8_part3_at(c, d, o + 39);
    lemma_seq_split(g0, trading_run8_part2_bytes(c));
    lemma_subrange_of_prefix(e, 39, 0, 9);
    lemma_subrange_of_prefix(e, 39, 9, 39);
    assert(d.subrange(o + 9, o + 39) =~= e.subrange(9, 39));
    lemma_trading_run8_part2_at(c, d, o + 9);
    assert(d.subrange(o + 0, o + 9) =~= e.subrange(0, 9));
    lemma_trading_run8_part1_at(c, d, o + 0);
}

/// Reading back the bytes of a [`TradingRun8`] gives the same record.
pub proof fn lemma_trading_run8_roundtrip(c: TradingRun8, rest: Seq<u8>)
    ensures
        trading_run8_bytes(c).len() == TRADING_RUN8_LEN,
        trading_run8_at(trading_run8_bytes(c) + rest, 0, c),
{
    lemma_seq_split(trading_run8_bytes(c), rest);
    lemma_trading_run8_at(c, trading_run8_bytes(c) + rest, 0);
}

/// The fields of a [`TradingSection`] that a [`TradingRun8`] holds.
pub open spec fn trading_run8_of(s: TradingSection) -> TradingRun8 {
    TradingRun8 { x9_mode: s.x9_mode, x_t_mode: s.x_t_mode, fixed_balance_warning: s.fixed_balance_warning, trades_gap_time: s.trades_gap_time, buy_iceberg: s.buy_iceberg, sell_iceberg: s.sell_iceberg, iceberg_step: s.iceberg_step, order_set_click: s.order_set_click, pending_order_set_click: s.pending_order_set_click, pending_orders_spread: s.pending_orders_spread, pending_orders_spread_h_delta: s.pending_orders_spread_h_delta, buy_pending_spread: s.buy_pending_spread, buy_stop_pending_spread: s.buy_stop_pending_spread, tm_panic_sell_closed: s.tm_panic_sell_closed, tm_send_only_share: s.tm_send_only_share, tm_cancel_closed: s.tm_cancel_closed, tm_cancel_buy_on_fill: s.tm_cancel_buy_on_fill, multi_commands: s.multi_commands, iceberg_click_count: s.iceberg_click_count, tm_send_first_sell: s.tm_send_first_sell, tm_sell_if_master_not_filled: s.tm_sell_if_master_not_filled, tm_max_order: s.tm_max_order }
}

/// Copy the fields of a [`TradingSection`] that a [`TradingRun8`] holds.
fn trading_run8_from(s: &TradingSection) -> (r: TradingRun8)
    ensures
        r == trading_run8_of(*s),
{
    TradingRun8 { x9_mode: s.x9_mode, x_t_mode: s.x_t_mode, fixed_balance_warning: s.fixed_balance_warning, trades_gap_time: s.trades_gap_time, buy_iceberg: s.buy_iceberg, sell_iceberg: s.sell_iceberg, iceberg_step: s.iceberg_step, order_set_click: s.order_set_click, pending_order_set_click: s.pending_order_set_click, pending_orders_spread: s.pending_orders_spread, pending_orders_spread_h_delta: s.pending_orders_spread_h_delta, buy_pending_spread: s.buy_pending_spread, buy_stop_pending_spread: s.buy_stop_pending_spread, tm_panic_sell_closed: s.tm_panic_sell_closed, tm_send_only_share: s.tm_send_only_share, tm_cancel_closed: s.tm_cancel_closed, tm_cancel_buy_on_fill: s.tm_cancel_buy_on_fill, multi_commands: s.multi_commands, iceberg_click_count: s.iceberg_click_count, tm_send_first_sell: s.tm_send_first_sell, tm_sell_if_master_not_filled: s.tm_sell_if_master_not_filled, tm_max_order: s.tm_max_order }
}

/// The fixed-width field `order_replace_click_sell` of the trading section.
#[derive(Clone, Copy, Debug)]
pub struct TradingRun9 {
    /// Mouse click action that replaces a sell order's price.
    pub order_replace_click_sell: u8,
}

/// Wire size of [`TradingRun9`].
pub const TRADING_RUN9_LEN: usize = 1;

/// Wire bytes of a [`TradingRun9`], field after field.
pub open spec fn trading_run9_bytes(c: TradingRun9) -> Seq<u8> {
    seq![c.order_replace_click_sell]
}

/// Whether `c` is the [`TradingRun9`] stored at `p`.
pub open spec fn trading_run9_at(d: Seq<u8>, p: int, c: TradingRun9) -> bool {
    &&& c.order_replace_click_sell == d[p]
}

/// Read a [`TradingRun9`].
pub fn read_trading_run9(r: &mut ConfigReader) -> (res: Result<TradingRun9, SharedConfigError>)
    ensures
        final(r).bytes() == old(r).bytes(),
        old(r).at() + TRADING_RUN9_LEN <= old(r).bytes().len() ==> (res matches Ok(c) && trading_run9_at(
            old(r).bytes(),
            old(r).at(),
            c,
        ) && final(r).at() == old(r).at() + TRADING_RUN9_LEN),
        old(r).at() + TRADING_RUN9_LEN > old(r).bytes().len() ==> (res matches Err(e) && e@ == eof_msg()),
{
    Ok(TradingRun9 {
        order_replace_click_sell: r.read_u8()?,
    })
}

/// Write a [`TradingRun9`].
pub fn write_trading_run9(w: &mut ConfigWriter, c: &TradingRun9)
    requires
        old(w).wf(),
    ensures
        final(w).wf(),
        final(w).wrote_all(old(w), true, trading_run9_bytes(*c)),
{
    let ghost w0 = *w;
    let ghost wb = *w;
    w.write_u8(c.order_replace_click_sell);
    proof { lemma_wrote_all_of_wrote(wb, *w, seq![c.order_replace_click_sell]); }
}

/// The fields of a [`TradingRun9`] read back from its bytes.
pub proof fn lemma_trading_run9_at(c: TradingRun9, d: Seq<u8>, o: int)
    requires
        0 <= o,
        o + 1 <= d.len(),
        d.subrange(o, o + 1) == trading_run9_bytes(c),
    ensures
        trading_run9_bytes(c).len() == 1,
        trading_run9_at(d, o, c),
{
    let b0 = seq![c.order_replace_click_sell];
    let e = d.subrange(o, o + 1);
    assert(e == b0);
    assert(e.subrange(0, 1) == seq![c.order_replace_click_sell]);
    assert(d[o + 0] == e.subrange(0, 1)[0]);
}

/// Reading back the bytes of a [`TradingRun9`] gives the same record.
pub proof fn lemma_trading_run9_roundtrip(c: TradingRun9, rest: Seq<u8>)
    ensures
        trading_run9_bytes(c).len() == TRADING_RUN9_LEN,
        trading_run9_at(trading_run9_bytes(c) + rest, 0, c),
{
    lemma_seq_split(trading_run9_bytes(c), rest);
    lemma_trading_run9_at(c, trading_run9_bytes(c) + rest, 0);
}

/// The fields of a [`TradingSection`] that a [`TradingRun9`] holds.
pub open spec fn trading_run9_of(s: TradingSection) -> TradingRun9 {
    TradingRun9 { order_replace_click_sell: s.order_replace_click_sell }
}

/// Copy the fields of a [`TradingSection`] that a [`TradingRun9`] holds.
fn trading_run9_from(s: &TradingSection) -> (r: TradingRun9)
    ensures
        r == trading_run9_of(*s),
{
    TradingRun9 { order_replace_click_sell: s.order_replace_click_sell }
}

/// Fixed-width fields of the trading section from `use_moon_bl` to `f_binance_commission`, in wire order.
#[derive(Clone, Copy, Debug)]
pub struct TradingRun10 {
    /// Use the MoonBot-curated coin blacklist from the cloud.
    pub use_moon_bl: bool,
    /// Auto-correct order price to the nearest valid tick.
    pub correct_order_price: bool,
    /// Binance Futures commission rate override.
    /// (IEEE-754 bits of the `f64` value.)
    pub f_binance_commission: u64,
}

/// Wire size of [`TradingRun10`].
pub const TRADING_RUN10_LEN: usize = 10;

/// Wire bytes of a [`TradingRun10`], field after field.
pub open spec fn trading_run10_bytes(c: TradingRun10) -> Seq<u8> {
    seq![bool_byte(c.use_moon_bl)]
        + seq![bool_byte(c.correct_order_price)]
        + le_u64(c.f_binance_commission)
}

/// Whether `c` is the [`TradingRun10`] stored at `p`.
pub open spec fn trading_run10_at(d: Seq<u8>, p: int, c: TradingRun10) -> bool {
    &&& c.use_moon_bl == flag_of(d[p])
    &&& c.correct_order_price == flag_of(d[p + 1])
    &&& c.f_binance_commission == u64_at(d, p + 2)
}

/// Read a [`TradingRun10`].
pub fn read_trading_run10(r: &mut ConfigReader) -> (res: Result<TradingRun10, SharedConfigError>)
    ensures
        final(r).bytes() == old(r).bytes(),
        old(r).at() + TRADING_RUN10_LEN <= old(r).bytes().len() ==> (res matches Ok(c) && trading_run10_at(
            old(r).bytes(),
            old(r).at(),
            c,
        ) && final(r).at() == old(r).at() + TRADING_RUN10_LEN),
        old(r).at() + TRADING_RUN10_LEN > old(r).bytes().len() ==> (res matches Err(e) && e@ == eof_msg()),
{
    Ok(TradingRun10 {
        use_moon_bl: r.read_bool()?,
        correct_order_price: r.read_bool()?,
        f_binance_commission: r.read_u64()?,
    })
}

/// Write a [`TradingRun10`].
pub fn write_trading_run10(w: &mut ConfigWriter, c: &TradingRun10)
    requires
        old(w).wf(),
    ensures
        final(w).wf(),
        final(w).wrote_all(old(w), true, trading_run10_bytes(*c)),
{
    let ghost w0 = *w;
    let ghost wb = *w;
    w.write_bool(c.use_moon_bl);
    proof { lemma_wrote_all_of_wrote(wb, *w, seq![bool_byte(c.use_moon_bl)]); }
    let ghost wb = *w;
    w.write_bool(c.correct_order_price);
    proof {
        lemma_wrote_all_of_wrote(wb, *w, seq![bool_byte(c.correct_order_price)]);
        lemma_wrote_all_then(w0, wb, *w, true, seq![bool_byte(c.use_moon_bl)], true, seq![bool_byte(c.correct_order_price)]);
    }
    let ghost wb = *w;
    w.write_u64(c.f_binance_commission);
    proof {
        lemma_wrote_all_of_wrote(wb, *w, le_u64(c.f_binance_commission));
        lemma_wrote_all_then(w0, wb, *w, true, seq![bool_byte(c.use_moon_bl)] + seq![bool_byte(c.correct_order_price)], true, le_u64(c.f_binance_commission));
    }
}

/// The fields of a [`TradingRun10`] read back from its bytes.
pub proof fn lemma_trading_run10_at(c: TradingRun10, d: Seq<u8>, o: int)
    requires
        0 <= o,
        o + 10 <= d.len(),
        d.subrange(o, o + 10) == trading_run10_bytes(c),
    ensures
        trading_run10_bytes(c).len() == 10,
        trading_run10_at(d, o, c),
{
    let b0 = seq![bool_byte(c.use_moon_bl)];
    let b1 = b0 + seq![bool_byte(c.correct_order_price)];
    let b2 = b1 + le_u64(c.f_binance_commission);
    let e = d.subrange(o, o + 10);
    assert(e == b2);
    lemma_seq_split(b1, le_u64(c.f_binance_commission));
    lemma_subrange_of_prefix(e, 10, 0, 2);
    lemma_subrange_of_prefix(e, 10, 2, 10);
    lemma_seq_split(b0, seq![bool_byte(c.correct_order_price)]);
    lemma_subrange_of_prefix(e, 2, 0, 1);
    lemma_subrange_of_prefix(e, 2, 1, 2);
    assert(e.subrange(0, 1) == seq![bool_byte(c.use_moon_bl)]);
    assert(d[o + 0] == e.subrange(0, 1)[0]);
    lemma_bool_byte(c.use_moon_bl);
    assert(e.subrange(1, 2) == seq![bool_byte(c.correct_order_price)]);
    assert(d[o + 1] == e.subrange(1, 2)[0]);
    lemma_bool_byte(c.correct_order_price);
    assert(e.subrange(2, 10) == le_u64(c.f_binance_commission));
    assert(d.subrange(o + 2, o + 10) =~= e.subrange(2, 10));
    lemma_u64_at_le(c.f_binance_commission, d, o + 2);
}

/// Reading back the bytes of a [`TradingRun10`] gives the same record.
pub proof fn lemma_trading_run10_roundtrip(c: TradingRun10, rest: Seq<u8>)
    ensures
        trading_run10_bytes(c).len() == TRADING_RUN10_LEN,
        trading_run10_at(trading_run10_bytes(c) + rest, 0, c),
{
    lemma_seq_split(trading_run10_bytes(c), rest);
    lemma_trading_run10_at(c, trading_run10_bytes(c) + rest, 0);
}

/// The fields of a [`TradingSection`] that a [`TradingRun10`] holds.
pub open spec fn trading_run10_of(s: TradingSection) -> TradingRun10 {
    TradingRun10 { use_moon_bl: s.use_moon_bl, correct_order_price: s.correct_order_price, f_binance_commission: s.f_binance_commission }
}

/// Copy the fields of a [`TradingSection`] that a [`TradingRun10`] holds.
fn trading_run10_from(s: &TradingSection) -> (r: TradingRun10)
    ensures
        r == trading_run10_of(*s),
{
    TradingRun10 { use_moon_bl: s.use_moon_bl, correct_order_price: s.correct_order_price, f_binance_commission: s.f_binance_commission }
}

/// Fixed-width fields of the trading section from `use_book_ticker` to `free_position_check`, in wire order.
#[derive(Clone, Copy, Debug)]
pub struct TradingRun11 {
    /// Prefer WebSocket best-bid/ask stream over REST polling.
    pub use_book_ticker: bool,
    /// Exclude blacklisted coins from delta calculations.
    pub exclude_black_list_delta: bool,
    /// Check and auto-close orphaned (zero-size) positions.
    /// Mirrors [`ClientSettingsCommand::free_position_check`].
    pub free_position_check: bool,
}

/// Wire size of [`TradingRun11`].
pub const TRADING_RUN11_LEN: usize = 3;

/// Wire bytes of a [`TradingRun11`], field after field.
pub open spec fn trading_run11_bytes(c: TradingRun11) -> Seq<u8> {
    seq![bool_byte(c.use_book_ticker)]
        + seq![bool_byte(c.exclude_black_list_delta)]
        + seq![bool_byte(c.free_position_check)]
}

/// Whether `c` is the [`TradingRun11`] stored at `p`.
pub open spec fn trading_run11_at(d: Seq<u8>, p: int, c: TradingRun11) -> bool {
    &&& c.use_book_ticker == flag_of(d[p])
    &&& c.exclude_black_list_delta == flag_of(d[p + 1])
    &&& c.free_position_check == flag_of(d[p + 2])
}

/// Read a [`TradingRun11`].
pub fn read_trading_run11(r: &mut ConfigReader) -> (res: Result<TradingRun11, SharedConfigError>)
    ensures
        final(r).bytes() == old(r).bytes(),
        old(r).at() + TRADING_RUN11_LEN <= old(r).bytes().len() ==> (res matches Ok(c) && trading_run11_at(
            old(r).bytes(),
            old(r).at(),
            c,
        ) && final(r).at() == old(r).at() + TRADING_RUN11_LEN),
        old(r).at() + TRADING_RUN11_LEN > old(r).bytes().len() ==> (res matches Err(e) && e@ == eof_msg()),
{
    Ok(TradingRun11 {
        use_book_ticker: r.read_bool()?,
        exclude_black_list_delta: r.read_bool()?,
        free_position_check: r.read_bool()?,
    })
}

/// Write a [`TradingRun11`].
pub fn write_trading_run11(w: &mut ConfigWriter, c: &TradingRun11)
    requires
        old(w).wf(),
    ensures
        final(w).wf(),
        final(w).wrote_all(old(w), true, trading_run11_bytes(*c)),
{
    let ghost w0 = *w;
    let ghost wb = *w;
    w.write_bool(c.use_book_ticker);
    proof { lemma_wrote_all_of_wrote(wb, *w, seq![bool_byte(c.use_book_ticker)]); }
    let ghost wb = *w;
    w.write_bool(c.exclude_black_list_delta);
    proof {
        lemma_wrote_all_of_wrote(wb, *w, seq![bool_byte(c.exclude_black_list_delta)]);
        lemma_wrote_all_then(w0, wb, *w, true, seq![bool_byte(c.use_book_ticker)], true, seq![bool_byte(c.exclude_black_list_delta)]);
    }
    let ghost wb = *w;
    w.write_bool(c.free_position_check);
    proof {
        lemma_wrote_all_of_wrote(wb, *w, seq![bool_byte(c.free_position_check)]);
        lemma_wrote_all_then(w0, wb, *w, true, seq![bool_byte(c.use_book_ticker)] + seq![bool_byte(c.exclude_black_list_delta)], true, seq![bool_byte(c.free_position_check)]);
    }
}

/// The fields of a [`TradingRun11`] read back from its bytes.
pub proof fn lemma_trading_run11_at(c: TradingRun11, d: Seq<u8>, o: int)
    requires
        0 <= o,
        o + 3 <= d.len(),
        d.subrange(o, o + 3) == trading_run11_bytes(c),
    ensures
        trading_run11_bytes(c).len() == 3,
        trading_run11_at(d, o, c),
{
    let b0 = seq![bool_byte(c.use_book_ticker)];
    let b1 = b0 + seq![bool_byte(c.exclude_black_list_delta)];
    let b2 = b1 + seq![bool_byte(c.free_position_check)];
    let e = d.subrange(o, o + 3);
    assert(e == b2);
    lemma_seq_split(b1, seq![bool_byte(c.free_position_check)]);
    lemma_subrange_of_prefix(e, 3, 0, 2);
    lemma_subrange_of_prefix(e, 3, 2, 3);
    lemma_seq_split(b0, seq![bool_byte(c.exclude_black_list_delta)]);
    lemma_subrange_of_prefix(e, 2, 0, 1);
    lemma_subrange_of_prefix(e, 2, 1, 2);
    assert(e.subrange(0, 1) == seq![bool_byte(c.use_book_ticker)]);
    assert(d[o + 0] == e.subrange(0, 1)[0]);
    lemma_bool_byte(c.use_book_ticker);
    assert(e.subrange(1, 2) == seq![bool_byte(c.exclude_black_list_delta)]);
    assert(d[o + 1] == e.subrange(1, 2)[0]);
    lemma_bool_byte(c.exclude_black_list_delta);
    assert(e.subrange(2, 3) == seq![bool_byte(c.free_position_check)]);
    assert(d[o + 2] == e.subrange(2, 3)[0]);
    lemma_bool_byte(c.free_position_check);
}

/// Reading back the bytes of a [`TradingRun11`] gives the same record.
pub proof fn lemma_trading_run11_roundtrip(c: TradingRun11, rest: Seq<u8>)
    ensures
        trading_run11_bytes(c).len() == TRADING_RUN11_LEN,
        trading_run11_at(trading_run11_bytes(c) + rest, 0, c),
{
    lemma_seq_split(trading_run11_bytes(c), rest);
    lemma_trading_run11_at(c, trading_run11_bytes(c) + rest, 0);
}

/// The fields of a [`TradingSection`] that a [`TradingRun11`] holds.
pub open spec fn trading_run11_of(s: TradingSection) -> TradingRun11 {
    TradingRun11 { use_book_ticker: s.use_book_ticker, exclude_black_list_delta: s.exclude_black_list_delta, free_position_check: s.free_position_check }
}

/// Copy the fields of a [`TradingSection`] that a [`TradingRun11`] holds.
fn trading_run11_from(s: &TradingSection) -> (r: TradingRun11)
    ensures
        r == trading_run11_of(*s),
{
    TradingRun11 { use_book_ticker: s.use_book_ticker, exclude_black_list_delta: s.exclude_black_list_delta, free_position_check: s.free_position_check }
}

/// Fixed-width fields of the trading section from `m_avg_use_vol_weight` to `futures_rules`, in wire order.
#[derive(Clone, Copy, Debug)]
pub struct TradingRun12 {
    /// Use volume-weighted moving average for market analysis.
    pub m_avg_use_vol_weight: bool,
    /// Use pending-buy price instead of current ask for sell calculations.
    pub pending_buy_price: bool,
    /// Fixed sell mode toggle.
    /// Mirrors [`ClientSettingsCommand::fixed_sell_mode`].
    pub fixed_sell_mode: bool,
    /// Fixed sell price value.
    /// Mirrors [`ClientSettingsCommand::fixed_sell_price`].
    /// (IEEE-754 bits of the `f64` value.)
    pub fixed_sell_price: u64,
    /// Enable futures-specific safety rules (position mode checks etc.).
    pub futures_rules: bool,
}

/// Wire size of [`TradingRun12`].
pub const TRADING_RUN12_LEN: usize = 12;

/// Wire bytes of a [`TradingRun12`], field after field.
pub open spec fn trading_run12_bytes(c: TradingRun12) -> Seq<u8> {
    seq![bool_byte(c.m_avg_use_vol_weight)]
        + seq![bool_byte(c.pending_buy_price)]
        + seq![bool_byte(c.fixed_sell_mode)]
        + le_u64(c.fixed_sell_price)
        + seq![bool_byte(c.futures_rules)]
}

/// Whether `c` is the [`TradingRun12`] stored at `p`.
pub open spec fn trading_run12_at(d: Seq<u8>, p: int, c: TradingRun12) -> bool {
    &&& c.m_avg_use_vol_weight == flag_of(d[p])
    &&& c.pending_buy_price == flag_of(d[p + 1])
    &&& c.fixed_sell_mode == flag_of(d[p + 2])
    &&& c.fixed_sell_price == u64_at(d, p + 3)
    &&& c.futures_rules == flag_of(d[p + 11])
}

/// Read a [`TradingRun12`].
pub fn read_trading_run12(r: &mut ConfigReader) -> (res: Result<TradingRun12, SharedConfigError>)
    ensures
        final(r).bytes() == old(r).bytes(),
        old(r).at() + TRADING_RUN12_LEN <= old(r).bytes().len() ==> (res matches Ok(c) && trading_run12_at(
            old(r).bytes(),
            old(r).at(),
            c,
        ) && final(r).at() == old(r).at() + TRADING_RUN12_LEN),
        old(r).at() + TRADING_RUN12_LEN > old(r).bytes().len() ==> (res matches Err(e) && e@ == eof_msg()),
{
    Ok(TradingRun12 {
        m_avg_use_vol_weight: r.read_bool()?,
        pending_buy_price: r.read_bool()?,
        fixed_sell_mode: r.read_bool()?,
        fixed_sell_price: r.read_u64()?,
        futures_rules: r.read_bool()?,
    })
}

/// Write a [`TradingRun12`].
pub fn write_trading_run12(w: &mut ConfigWriter, c: &TradingRun12)
    requires
        old(w).wf(),
    ensures
        final(w).wf(),
        final(w).wrote_all(old(w), true, trading_run12_bytes(*c)),
{
    let ghost w0 = *w;
    let ghost wb = *w;
    w.write_bool(c.m_avg_use_vol_weight);
    proof { lemma_wrote_all_of_wrote(wb, *w, seq![bool_byte(c.m_avg_use_vol_weight)]); }
    let ghost wb = *w;
    w.write_bool(c.pending_buy_price);
    proof {
        lemma_wrote_all_of_wrote(wb, *w, seq![bool_byte(c.pending_buy_price)]);
        lemma_wrote_all_then(w0, wb, *w, true, seq![bool_byte(c.m_avg_use_vol_weight)], true, seq![bool_byte(c.pending_buy_price)]);
    }
    let ghost wb = *w;
    w.write_bool(c.fixed_sell_mode);
    proof {
        lemma_wrote_all_of_wrote(wb, *w, seq![bool_byte(c.fixed_sell_mode)]);
        lemma_wrote_all_then(w0, wb, *w, true, seq![bool_byte(c.m_avg_use_vol_weight)] + seq![bool_byte(c.pending_buy_price)], true, seq![bool_byte(c.fixed_sell_mode)]);
    }
    let ghost wb = *w;
    w.write_u64(c.fixed_sell_price);
    proof {
        lemma_wrote_all_of_wrote(wb, *w, le_u64(c.fixed_sell_price));
        lemma_wrote_all_then(w0, wb, *w, true, seq![bool_byte(c.m_avg_use_vol_weight)] + seq![bool_byte(c.pending_buy_price)] + seq![bool_byte(c.fixed_sell_mode)], true, le_u64(c.fixed_sell_price));
    }
    let ghost wb = *w;
    w.write_bool(c.futures_rules);
    proof {
        lemma_wrote_all_of_wrote(wb, *w, seq![bool_byte(c.futures_rules)]);
        lemma_wrote_all_then(w0, wb, *w, true, seq![bool_byte(c.m_avg_use_vol_weight)] + seq![bool_byte(c.pending_buy_price)] + seq![bool_byte(c.fixed_sell_mode)] + le_u64(c.fixed_sell_price), true, seq![bool_byte(c.futures_rules)]);
    }
}

/// The fields of a [`TradingRun12`] read back from its bytes.
pub proof fn lemma_trading_run12_at(c: TradingRun12, d: Seq<u8>, o: int)
    requires
        0 <= o,
        o + 12 <= d.len(),
        d.subrange(o, o + 12) == trading_run12_bytes(c),
    ensures
        trading_run12_bytes(c).len() == 12,
        trading_run12_at(d, o, c),
{
    let b0 = seq![bool_byte(c.m_avg_use_vol_weight)];
    let b1 = b0 + seq![bool_byte(c.pending_buy_price)];
    let b2 = b1 + seq![bool_byte(c.fixed_sell_mode)];
    let b3 = b2 + le_u64(c.fixed_sell_price);
    let b4 = b3 + seq![bool_byte(c.futures_rules)];
    let e = d.subrange(o, o + 12);
    assert(e == b4);
    lemma_seq_split(b3, seq![bool_byte(c.futures_rules)]);
    lemma_subrange_of_prefix(e, 12, 0, 11);
    lemma_subrange_of_prefix(e, 12, 11, 12);
    lemma_seq_split(b2, le_u64(c.fixed_sell_price));
    lemma_subrange_of_prefix(e, 11, 0, 3);
    lemma_subrange_of_prefix(e, 11, 3, 11);
    lemma_seq_split(b1, seq![bool_byte(c.fixed_sell_mode)]);
    lemma_subrange_of_prefix(e, 3, 0, 2);
    lemma_subrange_of_prefix(e, 3, 2, 3);
    lemma_seq_split(b0, seq![bool_byte(c.pending_buy_price)]);
    lemma_subrange_of_prefix(e, 2, 0, 1);
    lemma_subrange_of_prefix(e, 2, 1, 2);
    assert(e.subrange(0, 1) == seq![bool_byte(c.m_avg_use_vol_weight)]);
    assert(d[o + 0] == e.subrange(0, 1)[0]);
    lemma_bool_byte(c.m_avg_use_vol_weight);
    assert(e.subrange(1, 2) == seq![bool_byte(c.pending_buy_price)]);
    assert(d[o + 1] == e.subrange(1, 2)[0]);
    lemma_bool_byte(c.pending_buy_price);
    assert(e.subrange(2, 3) == seq![bool_byte(c.fixed_sell_mode)]);
    assert(d[o + 2] == e.subrange(2, 3)[0]);
    lemma_bool_byte(c.fixed_sell_mode);
    assert(e.subrange(3, 11) == le_u64(c.fixed_sell_price));
    assert(d.subrange(o + 3, o + 11) =~= e.subrange(3, 11));
    lemma_u64_at_le(c.fixed_sell_price, d, o + 3);
    assert(e.subrange(11, 12) == seq![bool_byte(c.futures_rules)]);
    assert(d[o + 11] == e.subrange(11, 12)[0]);
    lemma_bool_byte(c.futures_rules);
}

/// Reading back the bytes of a [`TradingRun12`] gives the same record.
pub proof fn lemma_trading_run12_roundtrip(c: TradingRun12, rest: Seq<u8>)
    ensures
        trading_run12_bytes(c).len() == TRADING_RUN12_LEN,
        trading_run12_at(trading_run12_bytes(c) + rest, 0, c),
{
    lemma_seq_split(trading_run12_bytes(c), rest);
    lemma_trading_run12_at(c, trading_run12_bytes(c) + rest, 0);
}

/// The fields of a [`TradingSection`] that a [`TradingRun12`] holds.
pub open spec fn trading_run12_of(s: TradingSection) -> TradingRun12 {
    TradingRun12 { m_avg_use_vol_weight: s.m_avg_use_vol_weight, pending_buy_price: s.pending_buy_price, fixed_sell_mode: s.fixed_sell_mode, fixed_sell_price: s.fixed_sell_price, futures_rules: s.futures_rules }
}

/// Copy the fields of a [`TradingSection`] that a [`TradingRun12`] holds.
fn trading_run12_from(s: &TradingSection) -> (r: TradingRun12)
    ensures
        r == trading_run12_of(*s),
{
    TradingRun12 { m_avg_use_vol_weight: s.m_avg_use_vol_weight, pending_buy_price: s.pending_buy_price, fixed_sell_mode: s.fixed_sell_mode, fixed_sell_price: s.fixed_sell_price, futures_rules: s.futures_rules }
}

/// The fixed-width field `auto_lower_lev` of the trading section.
#[derive(Clone, Copy, Debug)]
pub struct TradingRun13 {
    /// Automatically lower leverage if the exchange rejects the current level.
    pub auto_lower_lev: bool,
}

/// Wire size of [`TradingRun13`].
pub const TRADING_RUN13_LEN: usize = 1;

/// Wire bytes of a [`TradingRun13`], field after field.
pub open spec fn trading_run13_bytes(c: TradingRun13) -> Seq<u8> {
    seq![bool_byte(c.auto_lower_lev)]
}

/// Whether `c` is the [`TradingRun13`] stored at `p`.
pub open spec fn trading_run13_at(d: Seq<u8>, p: int, c: TradingRun13) -> bool {
    &&& c.auto_lower_lev == flag_of(d[p])
}

/// Read a [`TradingRun13`].
pub fn read_trading_run13(r: &mut ConfigReader) -> (res: Result<TradingRun13, SharedConfigError>)
    ensures
        final(r).bytes() == old(r).bytes(),
        old(r).at() + TRADING_RUN13_LEN <= old(r).bytes().len() ==> (res matches Ok(c) && trading_run13_at(
            old(r).bytes(),
            old(r).at(),
            c,
        ) && final(r).at() == old(r).at() + TRADING_RUN13_LEN),
        old(r).at() + TRADING_RUN13_LEN > old(r).bytes().len() ==> (res matches Err(e) && e@ == eof_msg()),
{
    Ok(TradingRun13 {
        auto_lower_lev: r.read_bool()?,
    })
}

/// Write a [`TradingRun13`].
pub fn write_trading_run13(w: &mut ConfigWriter, c: &TradingRun13)
    requires
        old(w).wf(),
    ensures
        final(w).wf(),
        final(w).wrote_all(old(w), true, trading_run13_bytes(*c)),
{
    let ghost w0 = *w;
    let ghost wb = *w;
    w.write_bool(c.auto_lower_lev);
    proof { lemma_wrote_all_of_wrote(wb, *w, seq![bool_byte(c.auto_lower_lev)]); }
}

/// The fields of a [`TradingRun13`] read back from its bytes.
pub proof fn lemma_trading_run13_at(c: TradingRun13, d: Seq<u8>, o: int)
    requires
        0 <= o,
        o + 1 <= d.len(),
        d.subrange(o, o + 1) == trading_run13_bytes(c),
    ensures
        trading_run13_bytes(c).len() == 1,
        trading_run13_at(d, o, c),
{
    let b0 = seq![bool_byte(c.auto_lower_lev)];
    let e = d.subrange(o, o + 1);
    assert(e == b0);
    assert(e.subrange(0, 1) == seq![bool_byte(c.auto_lower_lev)]);
    assert(d[o + 0] == e.subrange(0, 1)[0]);
    lemma_bool_byte(c.auto_lower_lev);
}

/// Reading back the bytes of a [`TradingRun13`] gives the same record.
pub proof fn lemma_trading_run13_roundtrip(c: TradingRun13, rest: Seq<u8>)
    ensures
        trading_run13_bytes(c).len() == TRADING_RUN13_LEN,
        trading_run13_at(trading_run13_bytes(c) + rest, 0, c),
{
    lemma_seq_split(trading_run13_bytes(c), rest);
    lemma_trading_run13_at(c, trading_run13_bytes(c) + rest, 0);
}

/// The fields of a [`TradingSection`] that a [`TradingRun13`] holds.
pub open spec fn trading_run13_of(s: TradingSection) -> TradingRun13 {
    TradingRun13 { auto_lower_lev: s.auto_lower_lev }
}

/// Copy the fields of a [`TradingSection`] that a [`TradingRun13`] holds.
fn trading_run13_from(s: &TradingSection) -> (r: TradingRun13)
    ensures
        r == trading_run13_of(*s),
{
    TradingRun13 { auto_lower_lev: s.auto_lower_lev }
}

/// The fixed-width field `min_balance` of the trading section.
#[derive(Clone, Copy, Debug)]
pub struct TradingRun14 {
    /// Minimum balance to keep in the account (negative = disabled).
    /// (IEEE-754 bits of the `f64` value.)
    pub min_balance: u64,
}

/// Wire size of [`TradingRun14`].
pub const TRADING_RUN14_LEN: usize = 8;

/// Wire bytes of a [`TradingRun14`], field after field.
pub open spec fn trading_run14_bytes(c: TradingRun14) -> Seq<u8> {
    le_u64(c.min_balance)
}

/// Whether `c` is the [`TradingRun14`] stored at `p`.
pub open spec fn trading_run14_at(d: Seq<u8>, p: int, c: TradingRun14) -> bool {
    &&& c.min_balance == u64_at(d, p)
}

/// Read a [`TradingRun14`].
pub fn read_trading_run14(r: &mut ConfigReader) -> (res: Result<TradingRun14, SharedConfigError>)
    ensures
        final(r).bytes() == old(r).bytes(),
        old(r).at() + TRADING_RUN14_LEN <= old(r).bytes().len() ==> (res matches Ok(c) && trading_run14_at(
            old(r).bytes(),
            old(r).at(),
            c,
        ) && final(r).at() == old(r).at() + TRADING_RUN14_LEN),
        old(r).at() + TRADING_RUN14_LEN > old(r).bytes().len() ==> (res matches Err(e) && e@ == eof_msg()),
{
    Ok(TradingRun14 {
        min_balance: r.read_u64()?,
    })
}

/// Write a [`TradingRun14`].
pub fn write_trading_run14(w: &mut ConfigWriter, c: &TradingRun14)
    requires
        old(w).wf(),
    ensures
        final(w).wf(),
        final(w).wrote_all(old(w), true, trading_run14_bytes(*c)),
{
    let ghost w0 = *w;
    let ghost wb = *w;
    w.write_u64(c.min_balance);
    proof { lemma_wrote_all_of_wrote(wb, *w, le_u64(c.min_balance)); }
}

/// The fields of a [`TradingRun14`] read back from its bytes.
pub proof fn lemma_trading_run14_at(c: TradingRun14, d: Seq<u8>, o: int)
    requires
        0 <= o,
        o + 8 <= d.len(),
        d.subrange(o, o + 8) == trading_run14_bytes(c),
    ensures
        trading_run14_bytes(c).len() == 8,
        trading_run14_at(d, o, c),
{
    let b0 = le_u64(c.min_balance);
    let e = d.subrange(o, o + 8);
    assert(e == b0);
    assert(e.subrange(0, 8) == le_u64(c.min_balance));
    assert(d.subrange(o + 0, o + 8) =~= e.subrange(0, 8));
    lemma_u64_at_le(c.min_balance, d, o + 0);
}

/// Reading back the bytes of a [`TradingRun14`] gives the same record.
pub proof fn lemma_trading_run14_roundtrip(c: TradingRun14, rest: Seq<u8>)
    ensures
        trading_run14_bytes(c).len() == TRADING_RUN14_LEN,
        trading_run14_at(trading_run14_bytes(c) + rest, 0, c),
{
    lemma_seq_split(trading_run14_bytes(c), rest);
    lemma_trading_run14_at(c, trading_run14_bytes(c) + rest, 0);
}

/// The fields of a [`TradingSection`] that a [`TradingRun14`] holds.
pub open spec fn trading_run14_of(s: TradingSection) -> TradingRun14 {
    TradingRun14 { min_balance: s.min_balance }
}

/// Copy the fields of a [`TradingSection`] that a [`TradingRun14`] holds.
fn trading_run14_from(s: &TradingSection) -> (r: TradingRun14)
    ensures
        r == trading_run14_of(*s),
{
    TradingRun14 { min_balance: s.min_balance }
}

/// Fixed-width fields of the trading section from `use_stop_market` to `auto_close_zero_pos`, in wire order.
#[derive(Clone, Copy, Debug)]
pub struct TradingRun15 {
    /// Use stop-market orders instead of stop-limit.
    /// Mirrors [`ClientSettingsCommand::use_stop_market`].
    pub use_stop_market: bool,
    /// Auto-close zero-quantity ghost positions.
    pub auto_close_zero_pos: bool,
}

/// Wire size of [`TradingRun15`].
pub const TRADING_RUN15_LEN: usize = 2;

/// Wire bytes of a [`TradingRun15`], field after field.
pub open spec fn trading_run15_bytes(c: TradingRun15) -> Seq<u8> {
    seq![bool_byte(c.use_stop_market)]
        + seq![bool_byte(c.auto_close_zero_pos)]
}

/// Whether `c` is the [`TradingRun15`] stored at `p`.
pub open spec fn trading_run15_at(d: Seq<u8>, p: int, c: TradingRun15) -> bool {
    &&& c.use_stop_market == flag_of(d[p])
    &&& c.auto_close_zero_pos == flag_of(d[p + 1])
}

/// Read a [`TradingRun15`].
pub fn read_trading_run15(r: &mut ConfigReader) -> (res: Result<TradingRun15, SharedConfigError>)
    ensures
        final(r).bytes() == old(r).bytes(),
        old(r).at() + TRADING_RUN15_LEN <= old(r).bytes().len() ==> (res matches Ok(c) && trading_run15_at(
            old(r).bytes(),
            old(r).at(),
            c,
        ) && final(r).at() == old(r).at() + TRADING_RUN15_LEN),
        old(r).at() + TRADING_RUN15_LEN > old(r).bytes().len() ==> (res matches Err(e) && e@ == eof_msg()),
{
    Ok(TradingRun15 {
        use_stop_market: r.read_bool()?,
        auto_close_zero_pos: r.read_bool()?,
    })
}

/// Write a [`TradingRun15`].
pub fn write_trading_run15(w: &mut ConfigWriter, c: &TradingRun15)
    requires
        old(w).wf(),
    ensures
        final(w).wf(),
        final(w).wrote_all(old(w), true, trading_run15_bytes(*c)),
{
    let ghost w0 = *w;
    let ghost wb = *w;
    w.write_bool(c.use_stop_market);
    proof { lemma_wrote_all_of_wrote(wb, *w, seq![bool_byte(c.use_stop_market)]); }
    let ghost wb = *w;
    w.write_bool(c.auto_close_zero_pos);
    proof {
        lemma_wrote_all_of_wrote(wb, *w, seq![bool_byte(c.auto_close_zero_pos)]);
        lemma_wrote_all_then(w0, wb, *w, true, seq![bool_byte(c.use_stop_market)], true, seq![bool_byte(c.auto_close_zero_pos)]);
    }
}

/// The fields of a [`TradingRun15`] read back from its bytes.
pub proof fn lemma_trading_run15_at(c: TradingRun15, d: Seq<u8>, o: int)
    requires
        0 <= o,
        o + 2 <= d.len(),
        d.subrange(o, o + 2) == trading_run15_bytes(c),
    ensures
        trading_run15_bytes(c).len() == 2,
        trading_run15_at(d, o, c),
{
    let b0 = seq![bool_byte(c.use_stop_market)];
    let b1 = b0 + seq![bool_byte(c.auto_close_zero_pos)];
    let e = d.subrange(o, o + 2);
    assert(e == b1);
    lemma_seq_split(b0, seq![bool_byte(c.auto_close_zero_pos)]);
    lemma_subrange_of_prefix(e, 2, 0, 1);
    lemma_subrange_of_prefix(e, 2, 1, 2);
    assert(e.subrange(0, 1) == seq![bool_byte(c.use_stop_market)]);
    assert(d[o + 0] == e.subrange(0, 1)[0]);
    lemma_bool_byte(c.use_stop_market);
    assert(e.subrange(1, 2) == seq![bool_byte(c.auto_close_zero_pos)]);
    assert(d[o + 1] == e.subrange(1, 2)[0]);
    lemma_bool_byte(c.auto_close_zero_pos);
}

/// Reading back the bytes of a [`TradingRun15`] gives the same record.
pub proof fn lemma_trading_run15_roundtrip(c: TradingRun15, rest: Seq<u8>)
    ensures
        trading_run15_bytes(c).len() == TRADING_RUN15_LEN,
        trading_run15_at(trading_run15_bytes(c) + rest, 0, c),
{
    lemma_seq_split(trading_run15_bytes(c), rest);
    lemma_trading_run15_at(c, trading_run15_bytes(c) + rest, 0);
}

/// The fields of a [`TradingSection`] that a [`TradingRun15`] holds.
pub open spec fn trading_run15_of(s: TradingSection) -> TradingRun15 {
    TradingRun15 { use_stop_market: s.use_stop_market, auto_close_zero_pos: s.auto_close_zero_pos }
}

/// Copy the fields of a [`TradingSection`] that a [`TradingRun15`] holds.
fn trading_run15_from(s: &TradingSection) -> (r: TradingRun15)
    ensures
        r == trading_run15_of(*s),
{
    TradingRun15 { use_stop_market: s.use_stop_market, auto_close_zero_pos: s.auto_close_zero_pos }
}

/// Fixed-width fields of the trading section from `use_lev_for_take` to `gate_commission`, in wire order.
#[derive(Clone, Copy, Debug)]
pub struct TradingRun16 {
    /// Include leverage in take-profit calculations.
    pub use_lev_for_take: bool,
    /// ByBit commission rate multiplier (e.g. 1.001 = 0.1% fee).
    /// (IEEE-754 bits of the `f64` value.)
    pub bybit_commission: u64,
    /// Auto-reduce oversized orders to match available balance.
    pub auto_reduce_order: bool,
    /// Gate.io commission rate multiplier.
    /// (IEEE-754 bits of the `f64` value.)
    pub gate_commission: u64,
}

/// Wire size of [`TradingRun16`].
pub const TRADING_RUN16_LEN: usize = 18;

/// Wire bytes of a [`TradingRun16`], field after field.
pub open spec fn trading_run16_bytes(c: TradingRun16) -> Seq<u8> {
    seq![bool_byte(c.use_lev_for_take)]
        + le_u64(c.bybit_commission)
        + seq![bool_byte(c.auto_reduce_order)]
        + le_u64(c.gate_commission)
}

/// Whether `c` is the [`TradingRun16`] stored at `p`.
pub open spec fn trading_run16_at(d: Seq<u8>, p: int, c: TradingRun16) -> bool {
    &&& c.use_lev_for_take == flag_of(d[p])
    &&& c.bybit_commission == u64_at(d, p + 1)
    &&& c.auto_reduce_order == flag_of(d[p + 9])
    &&& c.gate_commission == u64_at(d, p + 10)
}

/// Read a [`TradingRun16`].
pub fn read_trading_run16(r: &mut ConfigReader) -> (res: Result<TradingRun16, SharedConfigError>)
    ensures
        final(r).bytes() == old(r).bytes(),
        old(r).at() + TRADING_RUN16_LEN <= old(r).bytes().len() ==> (res matches Ok(c) && trading_run16_at(
            old(r).bytes(),
            old(r).at(),
            c,
        ) && final(r).at() == old(r).at() + TRADING_RUN16_LEN),
        old(r).at() + TRADING_RUN16_LEN > old(r).bytes().len() ==> (res matches Err(e) && e@ == eof_msg()),
{
    Ok(TradingRun16 {
        use_lev_for_take: r.read_bool()?,
        bybit_commission: r.read_u64()?,
        auto_reduce_order: r.read_bool()?,
        gate_commission: r.read_u64()?,
    })
}

/// Write a [`TradingRun16`].
pub fn write_trading_run16(w: &mut ConfigWriter, c: &TradingRun16)
    requires
        old(w).wf(),
    ensures
        final(w).wf(),
        final(w).wrote_all(old(w), true, trading_run16_bytes(*c)),
{
    let ghost w0 = *w;
    let ghost wb = *w;
    w.write_bool(c.use_lev_for_take);
    proof { lemma_wrote_all_of_wrote(wb, *w, seq![bool_byte(c.use_lev_for_take)]); }
    let ghost wb = *w;
    w.write_u64(c.bybit_commission);
    proof {
        lemma_wrote_all_of_wrote(wb, *w, le_u64(c.bybit_commission));
        lemma_wrote_all_then(w0, wb, *w, true, seq![bool_byte(c.use_lev_for_take)], true, le_u64(c.bybit_commission));
    }
    let ghost wb = *w;
    w.write_bool(c.auto_reduce_order);
    proof {
        lemma_wrote_all_of_wrote(wb, *w, seq![bool_byte(c.auto_reduce_order)]);
        lemma_wrote_all_then(w0, wb, *w, true, seq![bool_byte(c.use_lev_for_take)] + le_u64(c.bybit_commission), true, seq![bool_byte(c.auto_reduce_order)]);
    }
    let ghost wb = *w;
    w.write_u64(c.gate_commission);
    proof {
        lemma_wrote_all_of_wrote(wb, *w, le_u64(c.gate_commission));
        lemma_wrote_all_then(w0, wb, *w, true, seq![bool_byte(c.use_lev_for_take)] + le_u64(c.bybit_commission) + seq![bool_byte(c.auto_reduce_order)], true, le_u64(c.gate_commission));
    }
}

/// The fields of a [`TradingRun16`] read back from its bytes.
pub proof fn lemma_trading_run16_at(c: TradingRun16, d: Seq<u8>, o: int)
    requires
        0 <= o,
        o + 18 <= d.len(),
        d.subrange(o, o + 18) == trading_run16_bytes(c),
    ensures
        trading_run16_bytes(c).len() == 18,
        trading_run16_at(d, o, c),
{
    let b0 = seq![bool_byte(c.use_lev_for_take)];
    let b1 = b0 + le_u64(c.bybit_commission);
    let b2 = b1 + seq![bool_byte(c.auto_reduce_order)];
    let b3 = b2 + le_u64(c.gate_commission);
    let e = d.subrange(o, o + 18);
    assert(e == b3);
    lemma_seq_split(b2, le_u64(c.gate_commission));
    lemma_subrange_of_prefix(e, 18, 0, 10);
    lemma_subrange_of_prefix(e, 18, 10, 18);
    lemma_seq_split(b1, seq![bool_byte(c.auto_reduce_order)]);
    lemma_subrange_of_prefix(e, 10, 0, 9);
    lemma_subrange_of_prefix(e, 10, 9, 10);
    lemma_seq_split(b0, le_u64(c.bybit_commission));
    lemma_subrange_of_prefix(e, 9, 0, 1);
    lemma_subrange_of_prefix(e, 9, 1, 9);
    assert(e.subrange(0, 1) == seq![bool_byte(c.use_lev_for_take)]);
    assert(d[o + 0] == e.subrange(0, 1)[0]);
    lemma_bool_byte(c.use_lev_for_take);
    assert(e.subrange(1, 9) == le_u64(c.bybit_commission));
    assert(d.subrange(o + 1, o + 9) =~= e.subrange(1, 9));
    lemma_u64_at_le(c.bybit_commission, d, o + 1);
    assert(e.subrange(9, 10) == seq![bool_byte(c.auto_reduce_order)]);
    assert(d[o + 9] == e.subrange(9, 10)[0]);
    lemma_bool_byte(c.auto_reduce_order);
    assert(e.subrange(10, 18) == le_u64(c.gate_commission));
    assert(d.subrange(o + 10, o + 18) =~= e.subrange(10, 18));
    lemma_u64_at_le(c.gate_commission, d, o + 10);
}

/// Reading back the bytes of a [`TradingRun16`] gives the same record.
pub proof fn lemma_trading_run16_roundtrip(c: TradingRun16, rest: Seq<u8>)
    ensures
        trading_run16_bytes(c).len() == TRADING_RUN16_LEN,
        trading_run16_at(trading_run16_bytes(c) + rest, 0, c),
{
    lemma_seq_split(trading_run16_bytes(c), rest);
    lemma_trading_run16_at(c, trading_run16_bytes(c) + rest, 0);
}

/// The fields of a [`TradingSection`] that a [`TradingRun16`] holds.
pub open spec fn trading_run16_of(s: TradingSection) -> TradingRun16 {
    TradingRun16 { use_lev_for_take: s.use_lev_for_take, bybit_commission: s.bybit_commission, auto_reduce_order: s.auto_reduce_order, gate_commission: s.gate_commission }
}

/// Copy the fields of a [`TradingSection`] that a [`TradingRun16`] holds.
fn trading_run16_from(s: &TradingSection) -> (r: TradingRun16)
    ensures
        r == trading_run16_of(*s),
{
    TradingRun16 { use_lev_for_take: s.use_lev_for_take, bybit_commission: s.bybit_commission, auto_reduce_order: s.auto_reduce_order, gate_commission: s.gate_commission }
}

/// Fixed-width fields of the trading section from `use_websocket_api` to `order_book_levels_ws`, in wire order.
#[derive(Clone, Copy, Debug)]
pub struct TradingRun17 {
    /// Use WebSocket-based API for order placement (vs REST).
    pub use_websocket_api: bool,
    /// Order book depth levels for WebSocket stream.
    pub order_book_levels_ws: i32,
}

/// Wire size of [`TradingRun17`].
pub const TRADING_RUN17_LEN: usize = 5;

/// Wire bytes of a [`TradingRun17`], field after field.
pub open spec fn trading_run17_bytes(c: TradingRun17) -> Seq<u8> {
    seq![bool_byte(c.use_websocket_api)]
        + le_u32(c.order_book_levels_ws as u32)
}

/// Whether `c` is the [`TradingRun17`] stored at `p`.
pub open spec fn trading_run17_at(d: Seq<u8>, p: int, c: TradingRun17) -> bool {
    &&& c.use_websocket_api == flag_of(d[p])
    &&& c.order_book_levels_ws == i32_at(d, p + 1)
}

/// Read a [`TradingRun17`].
pub fn read_trading_run17(r: &mut ConfigReader) -> (res: Result<TradingRun17, SharedConfigError>)
    ensures
        final(r).bytes() == old(r).bytes(),
        old(r).at() + TRADING_RUN17_LEN <= old(r).bytes().len() ==> (res matches Ok(c) && trading_run17_at(
            old(r).bytes(),
            old(r).at(),
            c,
        ) && final(r).at() == old(r).at() + TRADING_RUN17_LEN),
        old(r).at() + TRADING_RUN17_LEN > old(r).bytes().len() ==> (res matches Err(e) && e@ == eof_msg()),
{
    Ok(TradingRun17 {
        use_websocket_api: r.read_bool()?,
        order_book_levels_ws: r.read_i32()?,
    })
}

/// Write a [`TradingRun17`].
pub fn write_trading_run17(w: &mut ConfigWriter, c: &TradingRun17)
    requires
        old(w).wf(),
    ensures
        final(w).wf(),
        final(w).wrote_all(old(w), true, trading_run17_bytes(*c)),
{
    let ghost w0 = *w;
    let ghost wb = *w;
    w.write_bool(c.use_websocket_api);
    proof { lemma_wrote_all_of_wrote(wb, *w, seq![bool_byte(c.use_websocket_api)]); }
    let ghost wb = *w;
    w.write_i32(c.order_book_levels_ws);
    proof {
        lemma_wrote_all_of_wrote(wb, *w, le_u32(c.order_book_levels_ws as u32));
        lemma_wrote_all_then(w0, wb, *w, true, seq![bool_byte(c.use_websocket_api)], true, le_u32(c.order_book_levels_ws as u32));
    }
}

/// The fields of a [`TradingRun17`] read back from its bytes.
pub proof fn lemma_trading_run17_at(c: TradingRun17, d: Seq<u8>, o: int)
    requires
        0 <= o,
        o + 5 <= d.len(),
        d.subrange(o, o + 5) == trading_run17_bytes(c),
    ensures
        trading_run17_bytes(c).len() == 5,
        trading_run17_at(d, o, c),
{
    let b0 = seq![bool_byte(c.use_websocket_api)];
    let b1 = b0 + le_u32(c.order_book_levels_ws as u32);
    let e = d.subrange(o, o + 5);
    assert(e == b1);
    lemma_seq_split(b0, le_u32(c.order_book_levels_ws as u32));
    lemma_subrange_of_prefix(e, 5, 0, 1);
    lemma_subrange_of_prefix(e, 5, 1, 5);
    assert(e.subrange(0, 1) == seq![bool_byte(c.use_websocket_api)]);
    assert(d[o + 0] == e.subrange(0, 1)[0]);
    lemma_bool_byte(c.use_websocket_api);
    assert(e.subrange(1, 5) == le_u32(c.order_book_levels_ws as u32));
    lemma_le_i32_roundtrip(c.order_book_levels_ws);
    assert(d[o + 1] == e.subrange(1, 5)[0] && d[o + 2] == e.subrange(1, 5)[1] && d[o + 3] == e.subrange(1, 5)[2] && d[o + 4] == e.subrange(1, 5)[3]);
}

/// Reading back the bytes of a [`TradingRun17`] gives the same record.
pub proof fn lemma_trading_run17_roundtrip(c: TradingRun17, rest: Seq<u8>)
    ensures
        trading_run17_bytes(c).len() == TRADING_RUN17_LEN,
        trading_run17_at(trading_run17_bytes(c) + rest, 0, c),
{
    lemma_seq_split(trading_run17_bytes(c), rest);
    lemma_trading_run17_at(c, trading_run17_bytes(c) + rest, 0);
}

/// The fields of a [`TradingSection`] that a [`TradingRun17`] holds.
pub open spec fn trading_run17_of(s: TradingSection) -> TradingRun17 {
    TradingRun17 { use_websocket_api: s.use_websocket_api, order_book_levels_ws: s.order_book_levels_ws }
}

/// Copy the fields of a [`TradingSection`] that a [`TradingRun17`] holds.
fn trading_run17_from(s: &TradingSection) -> (r: TradingRun17)
    ensures
        r == trading_run17_of(*s),
{
    TradingRun17 { use_websocket_api: s.use_websocket_api, order_book_levels_ws: s.order_book_levels_ws }
}

/// Where the fields of a trading block body at `x` start: after the version byte.
pub open spec fn trading_pos0(d: Seq<u8>, x: int, be: int) -> int {
    x + 1
}

/// The position after field group 0 of a trading block body at `x`.
pub open spec fn trading_pos1(d: Seq<u8>, x: int, be: int) -> int {
    let p = trading_pos0(d, x, be);
    p + TRADING_RUN1_LEN
}

/// The position after field group 1 of a trading block body at `x`.
pub open spec fn trading_pos2(d: Seq<u8>, x: int, be: int) -> int {
    let p = trading_pos1(d, x, be);
    p + AUTO_START_CONFIG_LEN
}

/// The position after field group 2 of a trading block body at `x`.
pub open spec fn trading_pos3(d: Seq<u8>, x: int, be: int) -> int {
    let p = trading_pos2(d, x, be);
    p + AUTO_START_CONFIG2_LEN
}

/// The position after field group 3 of a trading block body at `x`.
pub open spec fn trading_pos4(d: Seq<u8>, x: int, be: int) -> int {
    let p = trading_pos3(d, x, be);
    string_end(d, p)
}

/// The position after field group 4 of a trading block body at `x`.
pub open spec fn trading_pos5(d: Seq<u8>, x: int, be: int) -> int {
    let p = trading_pos4(d, x, be);
    p + TRADING_RUN2_LEN
}

/// The position after field group 5 of a trading block body at `x`.
pub open spec fn trading_pos6(d: Seq<u8>, x: int, be: int) -> int {
    let p = trading_pos5(d, x, be);
    p + MOON_BOT_CONFIG_LEN
}

/// The position after field group 6 of a trading block body at `x`.
pub open spec fn trading_pos7(d: Seq<u8>, x: int, be: int) -> int {
    let p = trading_pos6(d, x, be);
    p + TRADING_RUN3_LEN
}

/// The position after field group 7 of a trading block body at `x`.
pub open spec fn trading_pos8(d: Seq<u8>, x: int, be: int) -> int {
    let p = trading_pos7(d, x, be);
    string_end(d, p)
}

/// The position after field group 8 of a trading block body at `x`.
pub open spec fn trading_pos9(d: Seq<u8>, x: int, be: int) -> int {
    let p = trading_pos8(d, x, be);
    p + TRADING_RUN4_LEN
}

/// The position after field group 9 of a trading block body at `x`.
pub open spec fn trading_pos10(d: Seq<u8>, x: int, be: int) -> int {
    let p = trading_pos9(d, x, be);
    string_end(d, p)
}

/// The position after field group 10 of a trading block body at `x`.
pub open spec fn trading_pos11(d: Seq<u8>, x: int, be: int) -> int {
    let p = trading_pos10(d, x, be);
    p + TRADING_RUN5_LEN
}

/// The position after field group 11 of a trading block body at `x`.
pub open spec fn trading_pos12(d: Seq<u8>, x: int, be: int) -> int {
    let p = trading_pos11(d, x, be);
    string_end(d, p)
}

/// The position after field group 12 of a trading block body at `x`.
pub open spec fn trading_pos13(d: Seq<u8>, x: int, be: int) -> int {
    let p = trading_pos12(d, x, be);
    p + TRADING_RUN6_LEN
}

/// The position after field group 13 of a trading block body at `x`.
pub open spec fn trading_pos14(d: Seq<u8>, x: int, be: int) -> int {
    let p = trading_pos13(d, x, be);
    p + REPORT_CONFIG_LEN
}

/// The position after field group 14 of a trading block body at `x`.
pub open spec fn trading_pos15(d: Seq<u8>, x: int, be: int) -> int {
    let p = trading_pos14(d, x, be);
    p + TRADING_RUN7_LEN
}

/// The position after field group 15 of a trading block body at `x`.
pub open spec fn trading_pos16(d: Seq<u8>, x: int, be: int) -> int {
    let p = trading_pos15(d, x, be);
    string_end(d, p)
}

/// The position after field group 16 of a trading block body at `x`.
pub open spec fn trading_pos17(d: Seq<u8>, x: int, be: int) -> int {
    let p = trading_pos16(d, x, be);
    p + TRADING_RUN8_LEN
}

/// The position after field group 17 of a trading block body at `x`.
pub open spec fn trading_pos18(d: Seq<u8>, x: int, be: int) -> int {
    let p = trading_pos17(d, x, be);
    p + MULTI_ORDERS_CONFIG_LEN
}

/// The position after field group 18 of a trading block body at `x`.
pub open spec fn trading_pos19(d: Seq<u8>, x: int, be: int) -> int {
    let p = trading_pos18(d, x, be);
    p + TRADING_RUN9_LEN
}

/// The position after field group 19 of a trading block body at `x`.
pub open spec fn trading_pos20(d: Seq<u8>, x: int, be: int) -> int {
    let p = trading_pos19(d, x, be);
    p + ALERT_CONFIG_LEN
}

/// The position after field group 20 of a trading block body at `x`.
pub open spec fn trading_pos21(d: Seq<u8>, x: int, be: int) -> int {
    let p = trading_pos20(d, x, be);
    p + TRADING_RUN10_LEN
}

/// The position after field group 21 of a trading block body at `x`.
pub open spec fn trading_pos22(d: Seq<u8>, x: int, be: int) -> int {
    let p = trading_pos21(d, x, be);
    p + SPOT_CONFIG_LEN
}

/// The position after field group 22 of a trading block body at `x`.
pub open spec fn trading_pos23(d: Seq<u8>, x: int, be: int) -> int {
    let p = trading_pos22(d, x, be);
    p + TRADING_RUN11_LEN
}

/// The position after field group 23 of a trading block body at `x`.
pub open spec fn trading_pos24(d: Seq<u8>, x: int, be: int) -> int {
    let p = trading_pos23(d, x, be);
    p + ORDERS_CONTROL_LEN
}

/// The position after field group 24 of a trading block body at `x`.
pub open spec fn trading_pos25(d: Seq<u8>, x: int, be: int) -> int {
    let p = trading_pos24(d, x, be);
    p + TRADING_RUN12_LEN
}

/// The position after field group 25 of a trading block body at `x`.
pub open spec fn trading_pos26(d: Seq<u8>, x: int, be: int) -> int {
    let p = trading_pos25(d, x, be);
    p + CASH_BACK_SETTINGS_LEN
}

/// The position after field group 26 of a trading block body at `x`.
pub open spec fn trading_pos27(d: Seq<u8>, x: int, be: int) -> int {
    let p = trading_pos26(d, x, be);
    p + TRADING_RUN13_LEN
}

/// The position after field group 27 of a trading block body at `x`.
pub open spec fn trading_pos28(d: Seq<u8>, x: int, be: int) -> int {
    let p = trading_pos27(d, x, be);
    p + ASSET_TRANSFER_CONFIG_LEN
}

/// The position after field group 28 of a trading block body at `x`.
pub open spec fn trading_pos29(d: Seq<u8>, x: int, be: int) -> int {
    let p = trading_pos28(d, x, be);
    p + TRADING_RUN14_LEN
}

/// The position after field group 29 of a trading block body at `x`.
pub open spec fn trading_pos30(d: Seq<u8>, x: int, be: int) -> int {
    let p = trading_pos29(d, x, be);
    p + AUTO_MANAGE_LEV_CONFIG_LEN
}

/// The position after field group 30 of a trading block body at `x`.
pub open spec fn trading_pos31(d: Seq<u8>, x: int, be: int) -> int {
    let p = trading_pos30(d, x, be);
    string_end(d, p)
}

/// The position after field group 31 of a trading block body at `x`.
pub open spec fn trading_pos32(d: Seq<u8>, x: int, be: int) -> int {
    let p = trading_pos31(d, x, be);
    p + TRADING_RUN15_LEN
}

/// The position after field group 32 of a trading block body at `x`.
pub open spec fn trading_pos33(d: Seq<u8>, x: int, be: int) -> int {
    let p = trading_pos32(d, x, be);
    p + SEND_SHOTS_CONFIG_LEN
}

/// The position after field group 33 of a trading block body at `x`.
pub open spec fn trading_pos34(d: Seq<u8>, x: int, be: int) -> int {
    let p = trading_pos33(d, x, be);
    p + TRADING_RUN16_LEN
}

/// The position after field group 34 of a trading block body at `x`.
pub open spec fn trading_pos35(d: Seq<u8>, x: int, be: int) -> int {
    let p = trading_pos34(d, x, be);
    string_end(d, p)
}

/// The position after field group 35 of a trading block body at `x`.
pub open spec fn trading_pos36(d: Seq<u8>, x: int, be: int) -> int {
    let p = trading_pos35(d, x, be);
    string_end(d, p)
}

/// The position after field group 36 of a trading block body at `x`.
pub open spec fn trading_pos37(d: Seq<u8>, x: int, be: int) -> int {
    let p = trading_pos36(d, x, be);
    string_end(d, p)
}

/// The position after field group 37 of a trading block body at `x`.
pub open spec fn trading_pos38(d: Seq<u8>, x: int, be: int) -> int {
    let p = trading_pos37(d, x, be);
    string_end(d, p)
}

/// The position after field group 38 of a trading block body at `x`.
pub open spec fn trading_pos39(d: Seq<u8>, x: int, be: int) -> int {
    let p = trading_pos38(d, x, be);
    string_end(d, p)
}

/// The position after field group 39 of a trading block body at `x`.
pub open spec fn trading_pos40(d: Seq<u8>, x: int, be: int) -> int {
    let p = trading_pos39(d, x, be);
    string_end(d, p)
}

/// The position after field group 40 of a trading block body at `x`.
pub open spec fn trading_pos41(d: Seq<u8>, x: int, be: int) -> int {
    let p = trading_pos40(d, x, be);
    string_end(d, p)
}

/// The position after field group 41 of a trading block body at `x`.
pub open spec fn trading_pos42(d: Seq<u8>, x: int, be: int) -> int {
    let p = trading_pos41(d, x, be);
    string_end(d, p)
}

/// The position after field group 42 of a trading block body at `x`.
pub open spec fn trading_pos43(d: Seq<u8>, x: int, be: int) -> int {
    let p = trading_pos42(d, x, be);
    string_end(d, p)
}

/// The position after field group 43 of a trading block body at `x`.
pub open spec fn trading_pos44(d: Seq<u8>, x: int, be: int) -> int {
    let p = trading_pos43(d, x, be);
    string_end(d, p)
}

/// The position after field group 44 of a trading block body at `x`.
pub open spec fn trading_pos45(d: Seq<u8>, x: int, be: int) -> int {
    let p = trading_pos44(d, x, be);
    p + MANUAL_STRATS_CONFIG_LEN
}

/// The position after field group 45 of a trading block body at `x`.
pub open spec fn trading_pos46(d: Seq<u8>, x: int, be: int) -> int {
    let p = trading_pos45(d, x, be);
    string_end(d, p)
}

/// The position after field group 46 of a trading block body at `x`.
pub open spec fn trading_pos47(d: Seq<u8>, x: int, be: int) -> int {
    let p = trading_pos46(d, x, be);
    string_end(d, p)
}

/// The position after field group 47 of a trading block body at `x`.
pub open spec fn trading_pos48(d: Seq<u8>, x: int, be: int) -> int {
    let p = trading_pos47(d, x, be);
    p + TRADING_RUN17_LEN
}

/// The position after field group 48 of a trading block body at `x`.
pub open spec fn trading_pos49(d: Seq<u8>, x: int, be: int) -> int {
    let p = trading_pos48(d, x, be);
    p + ARB_VIEW_CONFIG_LEN
}

/// The position after field group 49 of a trading block body at `x`.
pub open spec fn trading_pos50(d: Seq<u8>, x: int, be: int) -> int {
    let p = trading_pos49(d, x, be);
    if p < be { p + 1 } else { p }
}

/// The position after field group 50 of a trading block body at `x`.
pub open spec fn trading_pos51(d: Seq<u8>, x: int, be: int) -> int {
    let p = trading_pos50(d, x, be);
    if p < be { p + 1 } else { p }
}

/// The position after field group 51 of a trading block body at `x`.
pub open spec fn trading_pos52(d: Seq<u8>, x: int, be: int) -> int {
    let p = trading_pos51(d, x, be);
    if p < be { p + 1 } else { p }
}

/// Whether field groups 0 to 5 of a trading block body at `x` can be read.
#[verifier::opaque]
pub open spec fn trading_ok1(d: Seq<u8>, x: int, be: int) -> bool {
    let p0 = trading_pos0(d, x, be);
    let p1 = trading_pos1(d, x, be);
    let p2 = trading_pos2(d, x, be);
    let p3 = trading_pos3(d, x, be);
    let p4 = trading_pos4(d, x, be);
    let p5 = trading_pos5(d, x, be);
    &&& (p0 + TRADING_RUN1_LEN <= d.len())
    &&& (p1 + AUTO_START_CONFIG_LEN <= d.len())
    &&& (p2 + AUTO_START_CONFIG2_LEN <= d.len())
    &&& (string_ok(d, p3))
    &&& (p4 + TRADING_RUN2_LEN <= d.len())
    &&& (p5 + MOON_BOT_CONFIG_LEN <= d.len())
}

/// Whether `s` holds field groups 0 to 5 of the trading block body at `x`.
#[verifier::opaque]
pub open spec fn trading_got1(d: Seq<u8>, x: int, be: int, s: TradingSection) -> bool {
    let p0 = trading_pos0(d, x, be);
    let p1 = trading_pos1(d, x, be);
    let p2 = trading_pos2(d, x, be);
    let p3 = trading_pos3(d, x, be);
    let p4 = trading_pos4(d, x, be);
    let p5 = trading_pos5(d, x, be);
    &&& trading_run1_at(d, p0, trading_run1_of(s))
    &&& auto_start_config_at(d, p1, s.auto_start)
    &&& auto_start_config2_at(d, p2, s.auto_start_2)
    &&& s.fav_markets@ == text_at(d, p3)
    &&& trading_run2_at(d, p4, trading_run2_of(s))
    &&& moon_bot_config_at(d, p5, s.moonbot_config)
}

/// Bytes of field groups 0 to 5 of a trading section.
#[verifier::opaque]
pub open spec fn trading_bytes1(s: TradingSection) -> Seq<u8> {
    trading_run1_bytes(trading_run1_of(s))
        + auto_start_config_bytes(s.auto_start)
        + auto_start_config2_bytes(s.auto_start_2)
        + string_x_bytes(s.fav_markets@)
        + trading_run2_bytes(trading_run2_of(s))
        + moon_bot_config_bytes(s.moonbot_config)
}

/// Whether the strings of field groups 0 to 5 of a trading section fit their limit.
#[verifier::opaque]
pub open spec fn trading_fits1(s: TradingSection) -> bool {
    string_fits(s.fav_markets@)
}

/// Read field groups 0 to 5 of the trading block body at `x`.
fn read_trading_part1(r: &mut ConfigReader, be: usize, Ghost(x): Ghost<int>) -> (res: Result<(TradingRun1, AutoStartConfig, AutoStartConfig2, String, TradingRun2, MoonBotConfig), SharedConfigError>)
    requires
        old(r).at() == trading_pos0(old(r).bytes(), x, be as int),
    ensures
        final(r).bytes() == old(r).bytes(),
        trading_ok1(old(r).bytes(), x, be as int) ==> (res matches Ok(t) && {
            let d = old(r).bytes();
            &&& trading_run1_at(d, trading_pos0(d, x, be as int), t.0)
            &&& auto_start_config_at(d, trading_pos1(d, x, be as int), t.1)
            &&& auto_start_config2_at(d, trading_pos2(d, x, be as int), t.2)
            &&& t.3@ == text_at(d, trading_pos3(d, x, be as int))
            &&& trading_run2_at(d, trading_pos4(d, x, be as int), t.4)
            &&& moon_bot_config_at(d, trading_pos5(d, x, be as int), t.5)
            &&& final(r).at() == trading_pos6(d, x, be as int)
        }),
        !trading_ok1(old(r).bytes(), x, be as int) ==> res is Err,
{
    proof { reveal(trading_ok1); }
    let v0 = read_trading_run1(r)?;
    let v1 = read_auto_start_config(r)?;
    let v2 = read_auto_start_config2(r)?;
    let v3 = read_text(r)?;
    let v4 = read_trading_run2(r)?;
    let v5 = read_moon_bot_config(r)?;
    Ok((v0, v1, v2, v3, v4, v5))
}

/// Write field groups 0 to 5 of a trading section.
fn write_trading_part1(w: &mut ConfigWriter, s: &TradingSection)
    requires
        old(w).wf(),
    ensures
        final(w).wf(),
        final(w).wrote_all(old(w), trading_fits1(*s), trading_bytes1(*s)),
{
    proof { reveal(trading_bytes1); reveal(trading_fits1); }
    let ghost w0 = *w;
    let ghost wb = *w;
    let t0 = trading_run1_from(s);
    write_trading_run1(w, &t0);
    let ghost wb = *w;
    write_auto_start_config(w, &s.auto_start);
    proof {
        lemma_wrote_all_then(w0, wb, *w, true, trading_run1_bytes(trading_run1_of(*s)), true, auto_start_config_bytes((*s).auto_start));
    }
    let ghost wb = *w;
    write_auto_start_config2(w, &s.auto_start_2);
    proof {
        lemma_wrote_all_then(w0, wb, *w, true, trading_run1_bytes(trading_run1_of(*s)) + auto_start_config_bytes((*s).auto_start), true, auto_start_config2_bytes((*s).auto_start_2));
    }
    let ghost wb = *w;
    w.write_string_x(s.fav_markets.as_str());
    proof {
        lemma_wrote_all_then(w0, wb, *w, true, trading_run1_bytes(trading_run1_of(*s)) + auto_start_config_bytes((*s).auto_start) + auto_start_config2_bytes((*s).auto_start_2), string_fits((*s).fav_markets@), string_x_bytes((*s).fav_markets@));
    }
    let ghost wb = *w;
    let t4 = trading_run2_from(s);
    write_trading_run2(w, &t4);
    proof {
        lemma_wrote_all_then(w0, wb, *w, string_fits((*s).fav_markets@), trading_run1_bytes(trading_run1_of(*s)) + auto_start_config_bytes((*s).auto_start) + auto_start_config2_bytes((*s).auto_start_2) + string_x_bytes((*s).fav_markets@), true, trading_run2_bytes(trading_run2_of(*s)));
    }
    let ghost wb = *w;
    write_moon_bot_config(w, &s.moonbot_config);
    proof {
        lemma_wrote_all_then(w0, wb, *w, string_fits((*s).fav_markets@), trading_run1_bytes(trading_run1_of(*s)) + auto_start_config_bytes((*s).auto_start) + auto_start_config2_bytes((*s).auto_start_2) + string_x_bytes((*s).fav_markets@) + trading_run2_bytes(trading_run2_of(*s)), true, moon_bot_config_bytes((*s).moonbot_config));
    }
}

/// Field groups 0 to 5 of a trading section read back from their bytes.
#[verifier::spinoff_prover]
#[verifier::rlimit(50)]
pub proof fn lemma_trading_part1(s: TradingSection, d: Seq<u8>, x: int, be: int)
    requires
        trading_fits1(s),
        0 <= trading_pos0(d, x, be),
        trading_pos0(d, x, be) + trading_bytes1(s).len() <= be <= d.len(),
        d.subrange(trading_pos0(d, x, be), trading_pos0(d, x, be) + trading_bytes1(s).len()) == trading_bytes1(s),
    ensures
        trading_ok1(d, x, be),
        trading_pos6(d, x, be) == trading_pos0(d, x, be) + trading_bytes1(s).len(),
        trading_got1(d, x, be, s),
{
    reveal(trading_ok1);
    reveal(trading_got1);
    reveal(trading_bytes1);
    reveal(trading_fits1);
    let p = trading_pos0(d, x, be);
    let b0 = trading_run1_bytes(trading_run1_of(s));
    let b1 = auto_start_config_bytes(s.auto_start);
    let b2 = auto_start_config2_bytes(s.auto_start_2);
    let b3 = string_x_bytes(s.fav_markets@);
    let b4 = trading_run2_bytes(trading_run2_of(s));
    let b5 = moon_bot_config_bytes(s.moonbot_config);
    lemma_trading_run1_roundtrip(trading_run1_of(s), Seq::<u8>::empty());
    lemma_auto_start_config_roundtrip(s.auto_start, Seq::<u8>::empty());
    lemma_auto_start_config2_roundtrip(s.auto_start_2, Seq::<u8>::empty());
    lemma_trading_run2_roundtrip(trading_run2_of(s), Seq::<u8>::empty());
    lemma_moon_bot_config_roundtrip(s.moonbot_config, Seq::<u8>::empty());
    assert(trading_bytes1(s) == b0 + b1 + b2 + b3 + b4 + b5);
    lemma_parts_at(d, p, b0 + b1 + b2 + b3 + b4, b5);
    lemma_parts_at(d, p, b0 + b1 + b2 + b3, b4);
    lemma_parts_at(d, p, b0 + b1 + b2, b3);
    lemma_parts_at(d, p, b0 + b1, b2);
    lemma_parts_at(d, p, b0, b1);
    let o0 = p;
    assert(trading_pos0(d, x, be) == o0);
    lemma_trading_run1_at(trading_run1_of(s), d, o0);
    let o1 = o0 + b0.len();
    assert(trading_pos1(d, x, be) == o1);
    lemma_auto_start_config_at(s.auto_start, d, o1);
    let o2 = o1 + b1.len();
    assert(trading_pos2(d, x, be) == o2);
    lemma_auto_start_config2_at(s.auto_start_2, d, o2);
    let o3 = o2 + b2.len();
    assert(trading_pos3(d, x, be) == o3);
    lemma_text_at(s.fav_markets@, d, o3);
    let o4 = o3 + b3.len();
    assert(trading_pos4(d, x, be) == o4);
    lemma_trading_run2_at(trading_run2_of(s), d, o4);
    let o5 = o4 + b4.len();
    assert(trading_pos5(d, x, be) == o5);
    lemma_moon_bot_config_at(s.moonbot_config, d, o5);
    assert(trading_pos6(d, x, be) == o5 + b5.len());
}

/// Whether field groups 6 to 11 of a trading block body at `x` can be read.
#[verifier::opaque]
pub open spec fn trading_ok2(d: Seq<u8>, x: int, be: int) -> bool {
    let p6 = trading_pos6(d, x, be);
    let p7 = trading_pos7(d, x, be);
    let p8 = trading_pos8(d, x, be);
    let p9 = trading_pos9(d, x, be);
    let p10 = trading_pos10(d, x, be);
    let p11 = trading_pos11(d, x, be);
    &&& (p6 + TRADING_RUN3_LEN <= d.len())
    &&& (string_ok(d, p7))
    &&& (p8 + TRADING_RUN4_LEN <= d.len())
    &&& (string_ok(d, p9))
    &&& (p10 + TRADING_RUN5_LEN <= d.len())
    &&& (string_ok(d, p11))
}

/// Whether `s` holds field groups 6 to 11 of the trading block body at `x`.
#[verifier::opaque]
pub open spec fn trading_got2(d: Seq<u8>, x: int, be: int, s: TradingSection) -> bool {
    let p6 = trading_pos6(d, x, be);
    let p7 = trading_pos7(d, x, be);
    let p8 = trading_pos8(d, x, be);
    let p9 = trading_pos9(d, x, be);
    let p10 = trading_pos10(d, x, be);
    let p11 = trading_pos11(d, x, be);
    &&& trading_run3_at(d, p6, trading_run3_of(s))
    &&& s.coins_black_list_text@ == text_at(d, p7)
    &&& trading_run4_at(d, p8, trading_run4_of(s))
    &&& s.h_pos_black_list_text@ == text_at(d, p9)
    &&& trading_run5_at(d, p10, trading_run5_of(s))
    &&& s.h_pos_black_list_add@ == text_at(d, p11)
}

/// Bytes of field groups 6 to 11 of a trading section.
#[verifier::opaque]
pub open spec fn trading_bytes2(s: TradingSection) -> Seq<u8> {
    trading_run3_bytes(trading_run3_of(s))
        + string_x_bytes(s.coins_black_list_text@)
        + trading_run4_bytes(trading_run4_of(s))
        + string_x_bytes(s.h_pos_black_list_text@)
        + trading_run5_bytes(trading_run5_of(s))
        + string_x_bytes(s.h_pos_black_list_add@)
}

/// Whether the strings of field groups 6 to 11 of a trading section fit their limit.
#[verifier::opaque]
pub open spec fn trading_fits2(s: TradingSection) -> bool {
    string_fits(s.coins_black_list_text@)
        && string_fits(s.h_pos_black_list_text@)
        && string_fits(s.h_pos_black_list_add@)
}

/// Read field groups 6 to 11 of the trading block body at `x`.
fn read_trading_part2(r: &mut ConfigReader, be: usize, Ghost(x): Ghost<int>) -> (res: Result<(TradingRun3, String, TradingRun4, String, TradingRun5, String), SharedConfigError>)
    requires
        old(r).at() == trading_pos6(old(r).bytes(), x, be as int),
    ensures
        final(r).bytes() == old(r).bytes(),
        trading_ok2(old(r).bytes(), x, be as int) ==> (res matches Ok(t) && {
            let d = old(r).bytes();
            &&& trading_run3_at(d, trading_pos6(d, x, be as int), t.0)
            &&& t.1@ == text_at(d, trading_pos7(d, x, be as int))
            &&& trading_run4_at(d, trading_pos8(d, x, be as int), t.2)
            &&& t.3@ == text_at(d, trading_pos9(d, x, be as int))
            &&& trading_run5_at(d, trading_pos10(d, x, be as int), t.4)
            &&& t.5@ == text_at(d, trading_pos11(d, x, be as int))
            &&& final(r).at() == trading_pos12(d, x, be as int)
        }),
        !trading_ok2(old(r).bytes(), x, be as int) ==> res is Err,
{
    proof { reveal(trading_ok2); }
    let v6 = read_trading_run3(r)?;
    let v7 = read_text(r)?;
    let v8 = read_trading_run4(r)?;
    let v9 = read_text(r)?;
    let v10 = read_trading_run5(r)?;
    let v11 = read_text(r)?;
    Ok((v6, v7, v8, v9, v10, v11))
}

/// Write field groups 6 to 11 of a trading section.
fn write_trading_part2(w: &mut ConfigWriter, s: &TradingSection)
    requires
        old(w).wf(),
    ensures
        final(w).wf(),
        final(w).wrote_all(old(w), trading_fits2(*s), trading_bytes2(*s)),
{
    proof { reveal(trading_bytes2); reveal(trading_fits2); }
    let ghost w0 = *w;
    let ghost wb = *w;
    let t6 = trading_run3_from(s);
    write_trading_run3(w, &t6);
    let ghost wb = *w;
    w.write_string_x(s.coins_black_list_text.as_str());
    proof {
        lemma_wrote_all_then(w0, wb, *w, true, trading_run3_bytes(trading_run3_of(*s)), string_fits((*s).coins_black_list_text@), string_x_bytes((*s).coins_black_list_text@));
    }
    let ghost wb = *w;
    let t8 = trading_run4_from(s);
    write_trading_run4(w, &t8);
    proof {
        lemma_wrote_all_then(w0, wb, *w, string_fits((*s).coins_black_list_text@), trading_run3_bytes(trading_run3_of(*s)) + string_x_bytes((*s).coins_black_list_text@), true, trading_run4_bytes(trading_run4_of(*s)));
    }
    let ghost wb = *w;
    w.write_string_x(s.h_pos_black_list_text.as_str());
    proof {
        lemma_wrote_all_then(w0, wb, *w, string_fits((*s).coins_black_list_text@), trading_run3_bytes(trading_run3_of(*s)) + string_x_bytes((*s).coins_black_list_text@) + trading_run4_bytes(trading_run4_of(*s)), string_fits((*s).h_pos_black_list_text@), string_x_bytes((*s).h_pos_black_list_text@));
    }
    let ghost wb = *w;
    let t10 = trading_run5_from(s);
    write_trading_run5(w, &t10);
    proof {
        lemma_wrote_all_then(w0, wb, *w, string_fits((*s).coins_black_list_text@) && string_fits((*s).h_pos_black_list_text@), trading_run3_bytes(trading_run3_of(*s)) + string_x_bytes((*s).coins_black_list_text@) + trading_run4_bytes(trading_run4_of(*s)) + string_x_bytes((*s).h_pos_black_list_text@), true, trading_run5_bytes(trading_run5_of(*s)));
    }
    let ghost wb = *w;
    w.write_string_x(s.h_pos_black_list_add.as_str());
    proof {
        lemma_wrote_all_then(w0, wb, *w, string_fits((*s).coins_black_list_text@) && string_fits((*s).h_pos_black_list_text@), trading_run3_bytes(trading_run3_of(*s)) + string_x_bytes((*s).coins_black_list_text@) + trading_run4_bytes(trading_run4_of(*s)) + string_x_bytes((*s).h_pos_black_list_text@) + trading_run5_bytes(trading_run5_of(*s)), string_fits((*s).h_pos_black_list_add@), string_x_bytes((*s).h_pos_black_list_add@));
    }
}

/// Field groups 6 to 11 of a trading section read back from their bytes.
#[verifier::spinoff_prover]
#[verifier::rlimit(50)]
pub proof fn lemma_trading_part2(s: TradingSection, d: Seq<u8>, x: int, be: int)
    requires
        trading_fits2(s),
        0 <= trading_pos6(d, x, be),
        trading_pos6(d, x, be) + trading_bytes2(s).len() <= be <= d.len(),
        d.subrange(trading_pos6(d, x, be), trading_pos6(d, x, be) + trading_bytes2(s).len()) == trading_bytes2(s),
    ensures
        trading_ok2(d, x, be),
        trading_pos12(d, x, be) == trading_pos6(d, x, be) + trading_bytes2(s).len(),
        trading_got2(d, x, be, s),
{
    reveal(trading_ok2);
    reveal(trading_got2);
    reveal(trading_bytes2);
    reveal(trading_fits2);
    let p = trading_pos6(d, x, be);
    let b0 = trading_run3_bytes(trading_run3_of(s));
    let b1 = string_x_bytes(s.coins_black_list_text@);
    let b2 = trading_run4_bytes(trading_run4_of(s));
    let b3 = string_x_bytes(s.h_pos_black_list_text@);
    let b4 = trading_run5_bytes(trading_run5_of(s));
    let b5 = string_x_bytes(s.h_pos_black_list_add@);
    lemma_trading_run3_roundtrip(trading_run3_of(s), Seq::<u8>::empty());
    lemma_trading_run4_roundtrip(trading_run4_of(s), Seq::<u8>::empty());
    lemma_trading_run5_roundtrip(trading_run5_of(s), Seq::<u8>::empty());
    assert(trading_bytes2(s) == b0 + b1 + b2 + b3 + b4 + b5);
    lemma_parts_at(d, p, b0 + b1 + b2 + b3 + b4, b5);
    lemma_parts_at(d, p, b0 + b1 + b2 + b3, b4);
    lemma_parts_at(d, p, b0 + b1 + b2, b3);
    lemma_parts_at(d, p, b0 + b1, b2);
    lemma_parts_at(d, p, b0, b1);
    let o0 = p;
    assert(trading_pos6(d, x, be) == o0);
    lemma_trading_run3_at(trading_run3_of(s), d, o0);
    let o1 = o0 + b0.len();
    assert(trading_pos7(d, x, be) == o1);
    lemma_text_at(s.coins_black_list_text@, d, o1);
    let o2 = o1 + b1.len();
    assert(trading_pos8(d, x, be) == o2);
    lemma_trading_run4_at(trading_run4_of(s), d, o2);
    let o3 = o2 + b2.len();
    assert(trading_pos9(d, x, be) == o3);
    lemma_text_at(s.h_pos_black_list_text@, d, o3);
    let o4 = o3 + b3.len();
    assert(trading_pos10(d, x, be) == o4);
    lemma_trading_run5_at(trading_run5_of(s), d, o4);
    let o5 = o4 + b4.len();
    assert(trading_pos11(d, x, be) == o5);
    lemma_text_at(s.h_pos_black_list_add@, d, o5);
    assert(trading_pos12(d, x, be) == o5 + b5.len());
}

/// Whether field groups 12 to 17 of a trading block body at `x` can be read.
#[verifier::opaque]
pub open spec fn trading_ok3(d: Seq<u8>, x: int, be: int) -> bool {
    let p12 = trading_pos12(d, x, be);
    let p13 = trading_pos13(d, x, be);
    let p14 = trading_pos14(d, x, be);
    let p15 = trading_pos15(d, x, be);
    let p16 = trading_pos16(d, x, be);
    let p17 = trading_pos17(d, x, be);
    &&& (p12 + TRADING_RUN6_LEN <= d.len())
    &&& (p13 + REPORT_CONFIG_LEN <= d.len())
    &&& (p14 + TRADING_RUN7_LEN <= d.len())
    &&& (string_ok(d, p15))
    &&& (p16 + TRADING_RUN8_LEN <= d.len())
    &&& (p17 + MULTI_ORDERS_CONFIG_LEN <= d.len())
}

/// Whether `s` holds field groups 12 to 17 of the trading block body at `x`.
#[verifier::opaque]
pub open spec fn trading_got3(d: Seq<u8>, x: int, be: int, s: TradingSection) -> bool {
    let p12 = trading_pos12(d, x, be);
    let p13 = trading_pos13(d, x, be);
    let p14 = trading_pos14(d, x, be);
    let p15 = trading_pos15(d, x, be);
    let p16 = trading_pos16(d, x, be);
    let p17 = trading_pos17(d, x, be);
    &&& trading_run6_at(d, p12, trading_run6_of(s))
    &&& report_config_at(d, p13, s.report_config)
    &&& trading_run7_at(d, p14, trading_run7_of(s))
    &&& s.manual_strategy@ == text_at(d, p15)
    &&& trading_run8_at(d, p16, trading_run8_of(s))
    &&& multi_orders_config_at(d, p17, s.multi_orders)
}

/// Bytes of field groups 12 to 17 of a trading section.
#[verifier::opaque]
pub open spec fn trading_bytes3(s: TradingSection) -> Seq<u8> {
    trading_run6_bytes(trading_run6_of(s))
        + report_config_bytes(s.report_config)
        + trading_run7_bytes(trading_run7_of(s))
        + string_x_bytes(s.manual_strategy@)
        + trading_run8_bytes(trading_run8_of(s))
        + multi_orders_config_bytes(s.multi_orders)
}

/// Whether the strings of field groups 12 to 17 of a trading section fit their limit.
#[verifier::opaque]
pub open spec fn trading_fits3(s: TradingSection) -> bool {
    string_fits(s.manual_strategy@)
}

/// Read field groups 12 to 17 of the trading block body at `x`.
fn read_trading_part3(r: &mut ConfigReader, be: usize, Ghost(x): Ghost<int>) -> (res: Result<(TradingRun6, ReportConfig, TradingRun7, String, TradingRun8, MultiOrdersConfig), SharedConfigError>)
    requires
        old(r).at() == trading_pos12(old(r).bytes(), x, be as int),
    ensures
        final(r).bytes() == old(r).bytes(),
        trading_ok3(old(r).bytes(), x, be as int) ==> (res matches Ok(t) && {
            let d = old(r).bytes();
            &&& trading_run6_at(d, trading_pos12(d, x, be as int), t.0)
            &&& report_config_at(d, trading_pos13(d, x, be as int), t.1)
            &&& trading_run7_at(d, trading_pos14(d, x, be as int), t.2)
            &&& t.3@ == text_at(d, trading_pos15(d, x, be as int))
            &&& trading_run8_at(d, trading_pos16(d, x, be as int), t.4)
            &&& multi_orders_config_at(d, trading_pos17(d, x, be as int), t.5)
            &&& final(r).at() == trading_pos18(d, x, be as int)
        }),
        !trading_ok3(old(r).bytes(), x, be as int) ==> res is Err,
{
    proof { reveal(trading_ok3); }
    let v12 = read_trading_run6(r)?;
    let v13 = read_report_config(r)?;
    let v14 = read_trading_run7(r)?;
    let v15 = read_text(r)?;
    let v16 = read_trading_run8(r)?;
    let v17 = read_multi_orders_config(r)?;
    Ok((v12, v13, v14, v15, v16, v17))
}

/// Write field groups 12 to 17 of a trading section.
fn write_trading_part3(w: &mut ConfigWriter, s: &TradingSection)
    requires
        old(w).wf(),
    ensures
        final(w).wf(),
        final(w).wrote_all(old(w), trading_fits3(*s), trading_bytes3(*s)),
{
    proof { reveal(trading_bytes3); reveal(trading_fits3); }
    let ghost w0 = *w;
    let ghost wb = *w;
    let t12 = trading_run6_from(s);
    write_trading_run6(w, &t12);
    let ghost wb = *w;
    write_report_config(w, &s.report_config);
    proof {
        lemma_wrote_all_then(w0, wb, *w, true, trading_run6_bytes(trading_run6_of(*s)), true, report_config_bytes((*s).report_config));
    }
    let ghost wb = *w;
    let t14 = trading_run7_from(s);
    write_trading_run7(w, &t14);
    proof {
        lemma_wrote_all_then(w0, wb, *w, true, trading_run6_bytes(trading_run6_of(*s)) + report_config_bytes((*s).report_config), true, trading_run7_bytes(trading_run7_of(*s)));
    }
    let ghost wb = *w;
    w.write_string_x(s.manual_strategy.as_str());
    proof {
        lemma_wrote_all_then(w0, wb, *w, true, trading_run6_bytes(trading_run6_of(*s)) + report_config_bytes((*s).report_config) + trading_run7_bytes(trading_run7_of(*s)), string_fits((*s).manual_strategy@), string_x_bytes((*s).manual_strategy@));
    }
    let ghost wb = *w;
    let t16 = trading_run8_from(s);
    write_trading_run8(w, &t16);
    proof {
        lemma_wrote_all_then(w0, wb, *w, string_fits((*s).manual_strategy@), trading_run6_bytes(trading_run6_of(*s)) + report_config_bytes((*s).report_config) + trading_run7_bytes(trading_run7_of(*s)) + string_x_bytes((*s).manual_strategy@), true, trading_run8_bytes(trading_run8_of(*s)));
    }
    let ghost wb = *w;
    write_multi_orders_config(w, &s.multi_orders);
    proof {
        lemma_wrote_all_then(w0, wb, *w, string_fits((*s).manual_strategy@), trading_run6_bytes(trading_run6_of(*s)) + report_config_bytes((*s).report_config) + trading_run7_bytes(trading_run7_of(*s)) + string_x_bytes((*s).manual_strategy@) + trading_run8_bytes(trading_run8_of(*s)), true, multi_orders_config_bytes((*s).multi_orders));
    }
}

/// Field groups 12 to 17 of a trading section read back from their bytes.
#[verifier::spinoff_prover]
#[verifier::rlimit(50)]
pub proof fn lemma_trading_part3(s: TradingSection, d: Seq<u8>, x: int, be: int)
    requires
        trading_fits3(s),
        0 <= trading_pos12(d, x, be),
        trading_pos12(d, x, be) + trading_bytes3(s).len() <= be <= d.len(),
        d.subrange(trading_pos12(d, x, be), trading_pos12(d, x, be) + trading_bytes3(s).len()) == trading_bytes3(s),
    ensures
        trading_ok3(d, x, be),
        trading_pos18(d, x, be) == trading_pos12(d, x, be) + trading_bytes3(s).len(),
        trading_got3(d, x, be, s),
{
    reveal(trading_ok3);
    reveal(trading_got3);
    reveal(trading_bytes3);
    reveal(trading_fits3);
    let p = trading_pos12(d, x, be);
    let b0 = trading_run6_bytes(trading_run6_of(s));
    let b1 = report_config_bytes(s.report_config);
    let b2 = trading_run7_bytes(trading_run7_of(s));
    let b3 = string_x_bytes(s.manual_strategy@);
    let b4 = trading_run8_bytes(trading_run8_of(s));
    let b5 = multi_orders_config_bytes(s.multi_orders);
    lemma_trading_run6_roundtrip(trading_run6_of(s), Seq::<u8>::empty());
    lemma_report_config_roundtrip(s.report_config, Seq::<u8>::empty());
    lemma_trading_run7_roundtrip(trading_run7_of(s), Seq::<u8>::empty());
    lemma_trading_run8_roundtrip(trading_run8_of(s), Seq::<u8>::empty());
    lemma_multi_orders_config_roundtrip(s.multi_orders, Seq::<u8>::empty());
    assert(trading_bytes3(s) == b0 + b1 + b2 + b3 + b4 + b5);
    lemma_parts_at(d, p, b0 + b1 + b2 + b3 + b4, b5);
    lemma_parts_at(d, p, b0 + b1 + b2 + b3, b4);
    lemma_parts_at(d, p, b0 + b1 + b2, b3);
    lemma_parts_at(d, p, b0 + b1, b2);
    lemma_parts_at(d, p, b0, b1);
    let o0 = p;
    assert(trading_pos12(d, x, be) == o0);
    lemma_trading_run6_at(trading_run6_of(s), d, o0);
    let o1 = o0 + b0.len();
    assert(trading_pos13(d, x, be) == o1);
    lemma_report_config_at(s.report_config, d, o1);
    let o2 = o1 + b1.len();
    assert(trading_pos14(d, x, be) == o2);
    lemma_trading_run7_at(trading_run7_of(s), d, o2);
    let o3 = o2 + b2.len();
    assert(trading_pos15(d, x, be) == o3);
    lemma_text_at(s.manual_strategy@, d, o3);
    let o4 = o3 + b3.len();
    assert(trading_pos16(d, x, be) == o4);
    lemma_trading_run8_at(trading_run8_of(s), d, o4);
    let o5 = o4 + b4.len();
    assert(trading_pos17(d, x, be) == o5);
    lemma_multi_orders_config_at(s.multi_orders, d, o5);
    assert(trading_pos18(d, x, be) == o5 + b5.len());
}

/// Whether field groups 18 to 23 of a trading block body at `x` can be read.
#[verifier::opaque]
pub open spec fn trading_ok4(d: Seq<u8>, x: int, be: int) -> bool {
    let p18 = trading_pos18(d, x, be);
    let p19 = trading_pos19(d, x, be);
    let p20 = trading_pos20(d, x, be);
    let p21 = trading_pos21(d, x, be);
    let p22 = trading_pos22(d, x, be);
    let p23 = trading_pos23(d, x, be);
    &&& (p18 + TRADING_RUN9_LEN <= d.len())
    &&& (p19 + ALERT_CONFIG_LEN <= d.len())
    &&& (p20 + TRADING_RUN10_LEN <= d.len())
    &&& (p21 + SPOT_CONFIG_LEN <= d.len())
    &&& (p22 + TRADING_RUN11_LEN <= d.len())
    &&& (p23 + ORDERS_CONTROL_LEN <= d.len())
}

/// Whether `s` holds field groups 18 to 23 of the trading block body at `x`.
#[verifier::opaque]
pub open spec fn trading_got4(d: Seq<u8>, x: int, be: int, s: TradingSection) -> bool {
    let p18 = trading_pos18(d, x, be);
    let p19 = trading_pos19(d, x, be);
    let p20 = trading_pos20(d, x, be);
    let p21 = trading_pos21(d, x, be);
    let p22 = trading_pos22(d, x, be);
    let p23 = trading_pos23(d, x, be);
    &&& trading_run9_at(d, p18, trading_run9_of(s))
    &&& alert_config_at(d, p19, s.alert_config)
    &&& trading_run10_at(d, p20, trading_run10_of(s))
    &&& spot_config_at(d, p21, s.spot_config)
    &&& trading_run11_at(d, p22, trading_run11_of(s))
    &&& orders_control_at(d, p23, s.orders_control)
}

/// Bytes of field groups 18 to 23 of a trading section.
#[verifier::opaque]
pub open spec fn trading_bytes4(s: TradingSection) -> Seq<u8> {
    trading_run9_bytes(trading_run9_of(s))
        + alert_config_bytes(s.alert_config)
        + trading_run10_bytes(trading_run10_of(s))
        + spot_config_bytes(s.spot_config)
        + trading_run11_bytes(trading_run11_of(s))
        + orders_control_bytes(s.orders_control)
}

/// Whether the strings of field groups 18 to 23 of a trading section fit their limit.
#[verifier::opaque]
pub open spec fn trading_fits4(s: TradingSection) -> bool {
    true
}

/// Read field groups 18 to 23 of the trading block body at `x`.
fn read_trading_part4(r: &mut ConfigReader, be: usize, Ghost(x): Ghost<int>) -> (res: Result<(TradingRun9, AlertConfig, TradingRun10, SpotConfig, TradingRun11, OrdersControl), SharedConfigError>)
    requires
        old(r).at() == trading_pos18(old(r).bytes(), x, be as int),
    ensures
        final(r).bytes() == old(r).bytes(),
        trading_ok4(old(r).bytes(), x, be as int) ==> (res matches Ok(t) && {
            let d = old(r).bytes();
            &&& trading_run9_at(d, trading_pos18(d, x, be as int), t.0)
            &&& alert_config_at(d, trading_pos19(d, x, be as int), t.1)
            &&& trading_run10_at(d, trading_pos20(d, x, be as int), t.2)
            &&& spot_config_at(d, trading_pos21(d, x, be as int), t.3)
            &&& trading_run11_at(d, trading_pos22(d, x, be as int), t.4)
            &&& orders_control_at(d, trading_pos23(d, x, be as int), t.5)
            &&& final(r).at() == trading_pos24(d, x, be as int)
        }),
        !trading_ok4(old(r).bytes(), x, be as int) ==> res is Err,
{
    proof { reveal(trading_ok4); }
    let v18 = read_trading_run9(r)?;
    let v19 = read_alert_config(r)?;
    let v20 = read_trading_run10(r)?;
    let v21 = read_spot_config(r)?;
    let v22 = read_trading_run11(r)?;
    let v23 = read_orders_control(r)?;
    Ok((v18, v19, v20, v21, v22, v23))
}

/// Write field groups 18 to 23 of a trading section.
fn write_trading_part4(w: &mut ConfigWriter, s: &TradingSection)
    requires
        old(w).wf(),
    ensures
        final(w).wf(),
        final(w).wrote_all(old(w), trading_fits4(*s), trading_bytes4(*s)),
{
    proof { reveal(trading_bytes4); reveal(trading_fits4); }
    let ghost w0 = *w;
    let ghost wb = *w;
    let t18 = trading_run9_from(s);
    write_trading_run9(w, &t18);
    let ghost wb = *w;
    write_alert_config(w, &s.alert_config);
    proof {
        lemma_wrote_all_then(w0, wb, *w, true, trading_run9_bytes(trading_run9_of(*s)), true, alert_config_bytes((*s).alert_config));
    }
    let ghost wb = *w;
    let t20 = trading_run10_from(s);
    write_trading_run10(w, &t20);
    proof {
        lemma_wrote_all_then(w0, wb, *w, true, trading_run9_bytes(trading_run9_of(*s)) + alert_config_bytes((*s).alert_config), true, trading_run10_bytes(trading_run10_of(*s)));
    }
    let ghost wb = *w;
    write_spot_config(w, &s.spot_config);
    proof {
        lemma_wrote_all_then(w0, wb, *w, true, trading_run9_bytes(trading_run9_of(*s)) + alert_config_bytes((*s).alert_config) + trading_run10_bytes(trading_run10_of(*s)), true, spot_config_bytes((*s).spot_config));
    }
    let ghost wb = *w;
    let t22 = trading_run11_from(s);
    write_trading_run11(w, &t22);
    proof {
        lemma_wrote_all_then(w0, wb, *w, true, trading_run9_bytes(trading_run9_of(*s)) + alert_config_bytes((*s).alert_config) + trading_run10_bytes(trading_run10_of(*s)) + spot_config_bytes((*s).spot_config), true, trading_run11_bytes(trading_run11_of(*s)));
    }
    let ghost wb = *w;
    write_orders_control(w, &s.orders_control);
    proof {
        lemma_wrote_all_then(w0, wb, *w, true, trading_run9_bytes(trading_run9_of(*s)) + alert_config_bytes((*s).alert_config) + trading_run10_bytes(trading_run10_of(*s)) + spot_config_bytes((*s).spot_config) + trading_run11_bytes(trading_run11_of(*s)), true, orders_control_bytes((*s).orders_control));
    }
}

/// Field groups 18 to 23 of a trading section read back from their bytes.
#[verifier::spinoff_prover]
#[verifier::rlimit(50)]
pub proof fn lemma_trading_part4(s: TradingSection, d: Seq<u8>, x: int, be: int)
    requires
        trading_fits4(s),
        0 <= trading_pos18(d, x, be),
        trading_pos18(d, x, be) + trading_bytes4(s).len() <= be <= d.len(),
        d.subrange(trading_pos18(d, x, be), trading_pos18(d, x, be) + trading_bytes4(s).len()) == trading_bytes4(s),
    ensures
        trading_ok4(d, x, be),
        trading_pos24(d, x, be) == trading_pos18(d, x, be) + trading_bytes4(s).len(),
        trading_got4(d, x, be, s),
{
    reveal(trading_ok4);
    reveal(trading_got4);
    reveal(trading_bytes4);
    reveal(trading_fits4);
    let p = trading_pos18(d, x, be);
    let b0 = trading_run9_bytes(trading_run9_of(s));
    let b1 = alert_config_bytes(s.alert_config);
    let b2 = trading_run10_bytes(trading_run10_of(s));
    let b3 = spot_config_bytes(s.spot_config);
    let b4 = trading_run11_bytes(trading_run11_of(s));
    let b5 = orders_control_bytes(s.orders_control);
    lemma_trading_run9_roundtrip(trading_run9_of(s), Seq::<u8>::empty());
    lemma_alert_config_roundtrip(s.alert_config, Seq::<u8>::empty());
    lemma_trading_run10_roundtrip(trading_run10_of(s), Seq::<u8>::empty());
    lemma_spot_config_roundtrip(s.spot_config, Seq::<u8>::empty());
    lemma_trading_run11_roundtrip(trading_run11_of(s), Seq::<u8>::empty());
    lemma_orders_control_roundtrip(s.orders_control, Seq::<u8>::empty());
    assert(trading_bytes4(s) == b0 + b1 + b2 + b3 + b4 + b5);
    lemma_parts_at(d, p, b0 + b1 + b2 + b3 + b4, b5);
    lemma_parts_at(d, p, b0 + b1 + b2 + b3, b4);
    lemma_parts_at(d, p, b0 + b1 + b2, b3);
    lemma_parts_at(d, p, b0 + b1, b2);
    lemma_parts_at(d, p, b0, b1);
    let o0 = p;
    assert(trading_pos18(d, x, be) == o0);
    lemma_trading_run9_at(trading_run9_of(s), d, o0);
    let o1 = o0 + b0.len();
    assert(trading_pos19(d, x, be) == o1);
    lemma_alert_config_at(s.alert_config, d, o1);
    let o2 = o1 + b1.len();
    assert(trading_pos20(d, x, be) == o2);
    lemma_trading_run10_at(trading_run10_of(s), d, o2);
    let o3 = o2 + b2.len();
    assert(trading_pos21(d, x, be) == o3);
    lemma_spot_config_at(s.spot_config, d, o3);
    let o4 = o3 + b3.len();
    assert(trading_pos22(d, x, be) == o4);
    lemma_trading_run11_at(trading_run11_of(s), d, o4);
    let o5 = o4 + b4.len();
    assert(trading_pos23(d, x, be) == o5);
    lemma_orders_control_at(s.orders_control, d, o5);
    assert(trading_pos24(d, x, be) == o5 + b5.len());
}

/// Whether field groups 24 to 29 of a trading block body at `x` can be read.
#[verifier::opaque]
pub open spec fn trading_ok5(d: Seq<u8>, x: int, be: int) -> bool {
    let p24 = trading_pos24(d, x, be);
    let p25 = trading_pos25(d, x, be);
    let p26 = trading_pos26(d, x, be);
    let p27 = trading_pos27(d, x, be);
    let p28 = trading_pos28(d, x, be);
    let p29 = trading_pos29(d, x, be);
    &&& (p24 + TRADING_RUN12_LEN <= d.len())
    &&& (p25 + CASH_BACK_SETTINGS_LEN <= d.len())
    &&& (p26 + TRADING_RUN13_LEN <= d.len())
    &&& (p27 + ASSET_TRANSFER_CONFIG_LEN <= d.len())
    &&& (p28 + TRADING_RUN14_LEN <= d.len())
    &&& (p29 + AUTO_MANAGE_LEV_CONFIG_LEN <= d.len())
}

/// Whether `s` holds field groups 24 to 29 of the trading block body at `x`.
#[verifier::opaque]
pub open spec fn trading_got5(d: Seq<u8>, x: int, be: int, s: TradingSection) -> bool {
    let p24 = trading_pos24(d, x, be);
    let p25 = trading_pos25(d, x, be);
    let p26 = trading_pos26(d, x, be);
    let p27 = trading_pos27(d, x, be);
    let p28 = trading_pos28(d, x, be);
    let p29 = trading_pos29(d, x, be);
    &&& trading_run12_at(d, p24, trading_run12_of(s))
    &&& cash_back_settings_at(d, p25, s.cashback_settings)
    &&& trading_run13_at(d, p26, trading_run13_of(s))
    &&& asset_transfer_config_at(d, p27, s.transfer_config)
    &&& trading_run14_at(d, p28, trading_run14_of(s))
    &&& auto_manage_lev_config_at(d, p29, s.auto_manage_lev)
}

/// Bytes of field groups 24 to 29 of a trading section.
#[verifier::opaque]
pub open spec fn trading_bytes5(s: TradingSection) -> Seq<u8> {
    trading_run12_bytes(trading_run12_of(s))
        + cash_back_settings_bytes(s.cashback_settings)
        + trading_run13_bytes(trading_run13_of(s))
        + asset_transfer_config_bytes(s.transfer_config)
        + trading_run14_bytes(trading_run14_of(s))
        + auto_manage_lev_config_bytes(s.auto_manage_lev)
}

/// Whether the strings of field groups 24 to 29 of a trading section fit their limit.
#[verifier::opaque]
pub open spec fn trading_fits5(s: TradingSection) -> bool {
    true
}

/// Read field groups 24 to 29 of the trading block body at `x`.
fn read_trading_part5(r: &mut ConfigReader, be: usize, Ghost(x): Ghost<int>) -> (res: Result<(TradingRun12, CashBackSettings, TradingRun13, AssetTransferConfig, TradingRun14, AutoManageLevConfig), SharedConfigError>)
    requires
        old(r).at() == trading_pos24(old(r).bytes(), x, be as int),
    ensures
        final(r).bytes() == old(r).bytes(),
        trading_ok5(old(r).bytes(), x, be as int) ==> (res matches Ok(t) && {
            let d = old(r).bytes();
            &&& trading_run12_at(d, trading_pos24(d, x, be as int), t.0)
            &&& cash_back_settings_at(d, trading_pos25(d, x, be as int), t.1)
            &&& trading_run13_at(d, trading_pos26(d, x, be as int), t.2)
            &&& asset_transfer_config_at(d, trading_pos27(d, x, be as int), t.3)
            &&& trading_run14_at(d, trading_pos28(d, x, be as int), t.4)
            &&& auto_manage_lev_config_at(d, trading_pos29(d, x, be as int), t.5)
            &&& final(r).at() == trading_pos30(d, x, be as int)
        }),
        !trading_ok5(old(r).bytes(), x, be as int) ==> res is Err,
{
    proof { reveal(trading_ok5); }
    let v24 = read_trading_run12(r)?;
    let v25 = read_cash_back_settings(r)?;
    let v26 = read_trading_run13(r)?;
    let v27 = read_asset_transfer_config(r)?;
    let v28 = read_trading_run14(r)?;
    let v29 = read_auto_manage_lev_config(r)?;
    Ok((v24, v25, v26, v27, v28, v29))
}

/// Write field groups 24 to 29 of a trading section.
fn write_trading_part5(w: &mut ConfigWriter, s: &TradingSection)
    requires
        old(w).wf(),
    ensures
        final(w).wf(),
        final(w).wrote_all(old(w), trading_fits5(*s), trading_bytes5(*s)),
{
    proof { reveal(trading_bytes5); reveal(trading_fits5); }
    let ghost w0 = *w;
    let ghost wb = *w;
    let t24 = trading_run12_from(s);
    write_trading_run12(w, &t24);
    let ghost wb = *w;
    write_cash_back_settings(w, &s.cashback_settings);
    proof {
        lemma_wrote_all_then(w0, wb, *w, true, trading_run12_bytes(trading_run12_of(*s)), true, cash_back_settings_bytes((*s).cashback_settings));
    }
    let ghost wb = *w;
    let t26 = trading_run13_from(s);
    write_trading_run13(w, &t26);
    proof {
        lemma_wrote_all_then(w0, wb, *w, true, trading_run12_bytes(trading_run12_of(*s)) + cash_back_settings_bytes((*s).cashback_settings), true, trading_run13_bytes(trading_run13_of(*s)));
    }
    let ghost wb = *w;
    write_asset_transfer_config(w, &s.transfer_config);
    proof {
        lemma_wrote_all_then(w0, wb, *w, true, trading_run12_bytes(trading_run12_of(*s)) + cash_back_settings_bytes((*s).cashback_settings) + trading_run13_bytes(trading_run13_of(*s)), true, asset_transfer_config_bytes((*s).transfer_config));
    }
    let ghost wb = *w;
    let t28 = trading_run14_from(s);
    write_trading_run14(w, &t28);
    proof {
        lemma_wrote_all_then(w0, wb, *w, true, trading_run12_bytes(trading_run12_of(*s)) + cash_back_settings_bytes((*s).cashback_settings) + trading_run13_bytes(trading_run13_of(*s)) + asset_transfer_config_bytes((*s).transfer_config), true, trading_run14_bytes(trading_run14_of(*s)));
    }
    let ghost wb = *w;
    write_auto_manage_lev_config(w, &s.auto_manage_lev);
    proof {
        lemma_wrote_all_then(w0, wb, *w, true, trading_run12_bytes(trading_run12_of(*s)) + cash_back_settings_bytes((*s).cashback_settings) + trading_run13_bytes(trading_run13_of(*s)) + asset_transfer_config_bytes((*s).transfer_config) + trading_run14_bytes(trading_run14_of(*s)), true, auto_manage_lev_config_bytes((*s).auto_manage_lev));
    }
}

/// Field groups 24 to 29 of a trading section read back from their bytes.
#[verifier::spinoff_prover]
#[verifier::rlimit(50)]
pub proof fn lemma_trading_part5(s: TradingSection, d: Seq<u8>, x: int, be: int)
    requires
        trading_fits5(s),
        0 <= trading_pos24(d, x, be),
        trading_pos24(d, x, be) + trading_bytes5(s).len() <= be <= d.len(),
        d.subrange(trading_pos24(d, x, be), trading_pos24(d, x, be) + trading_bytes5(s).len()) == trading_bytes5(s),
    ensures
        trading_ok5(d, x, be),
        trading_pos30(d, x, be) == trading_pos24(d, x, be) + trading_bytes5(s).len(),
        trading_got5(d, x, be, s),
{
    reveal(trading_ok5);
    reveal(trading_got5);
    reveal(trading_bytes5);
    reveal(trading_fits5);
    let p = trading_pos24(d, x, be);
    let b0 = trading_run12_bytes(trading_run12_of(s));
    let b1 = cash_back_settings_bytes(s.cashback_settings);
    let b2 = trading_run13_bytes(trading_run13_of(s));
    let b3 = asset_transfer_config_bytes(s.transfer_config);
    let b4 = trading_run14_bytes(trading_run14_of(s));
    let b5 = auto_manage_lev_config_bytes(s.auto_manage_lev);
    lemma_trading_run12_roundtrip(trading_run12_of(s), Seq::<u8>::empty());
    lemma_cash_back_settings_roundtrip(s.cashback_settings, Seq::<u8>::empty());
    lemma_trading_run13_roundtrip(trading_run13_of(s), Seq::<u8>::empty());
    lemma_asset_transfer_config_roundtrip(s.transfer_config, Seq::<u8>::empty());
    lemma_trading_run14_roundtrip(trading_run14_of(s), Seq::<u8>::empty());
    lemma_auto_manage_lev_config_roundtrip(s.auto_manage_lev, Seq::<u8>::empty());
    assert(trading_bytes5(s) == b0 + b1 + b2 + b3 + b4 + b5);
    lemma_parts_at(d, p, b0 + b1 + b2 + b3 + b4, b5);
    lemma_parts_at(d, p, b0 + b1 + b2 + b3, b4);
    lemma_parts_at(d, p, b0 + b1 + b2, b3);
    lemma_parts_at(d, p, b0 + b1, b2);
    lemma_parts_at(d, p, b0, b1);
    let o0 = p;
    assert(trading_pos24(d, x, be) == o0);
    lemma_trading_run12_at(trading_run12_of(s), d, o0);
    let o1 = o0 + b0.len();
    assert(trading_pos25(d, x, be) == o1);
    lemma_cash_back_settings_at(s.cashback_settings, d, o1);
    let o2 = o1 + b1.len();
    assert(trading_pos26(d, x, be) == o2);
    lemma_trading_run13_at(trading_run13_of(s), d, o2);
    let o3 = o2 + b2.len();
    assert(trading_pos27(d, x, be) == o3);
    lemma_asset_transfer_config_at(s.transfer_config, d, o3);
    let o4 = o3 + b3.len();
    assert(trading_pos28(d, x, be) == o4);
    lemma_trading_run14_at(trading_run14_of(s), d, o4);
    let o5 = o4 + b4.len();
    assert(trading_pos29(d, x, be) == o5);
    lemma_auto_manage_lev_config_at(s.auto_manage_lev, d, o5);
    assert(trading_pos30(d, x, be) == o5 + b5.len());
}

/// Whether field groups 30 to 35 of a trading block body at `x` can be read.
#[verifier::opaque]
pub open spec fn trading_ok6(d: Seq<u8>, x: int, be: int) -> bool {
    let p30 = trading_pos30(d, x, be);
    let p31 = trading_pos31(d, x, be);
    let p32 = trading_pos32(d, x, be);
    let p33 = trading_pos33(d, x, be);
    let p34 = trading_pos34(d, x, be);
    let p35 = trading_pos35(d, x, be);
    &&& (string_ok(d, p30))
    &&& (p31 + TRADING_RUN15_LEN <= d.len())
    &&& (p32 + SEND_SHOTS_CONFIG_LEN <= d.len())
    &&& (p33 + TRADING_RUN16_LEN <= d.len())
    &&& (string_ok(d, p34))
    &&& (string_ok(d, p35))
}

/// Whether `s` holds field groups 30 to 35 of the trading block body at `x`.
#[verifier::opaque]
pub open spec fn trading_got6(d: Seq<u8>, x: int, be: int, s: TradingSection) -> bool {
    let p30 = trading_pos30(d, x, be);
    let p31 = trading_pos31(d, x, be);
    let p32 = trading_pos32(d, x, be);
    let p33 = trading_pos33(d, x, be);
    let p34 = trading_pos34(d, x, be);
    let p35 = trading_pos35(d, x, be);
    &&& s.auto_lev_control@ == text_at(d, p30)
    &&& trading_run15_at(d, p31, trading_run15_of(s))
    &&& send_shots_config_at(d, p32, s.send_shots_config)
    &&& trading_run16_at(d, p33, trading_run16_of(s))
    &&& s.manual_strats_names@[0]@ == text_at(d, p34)
    &&& s.manual_strats_names@[1]@ == text_at(d, p35)
}

/// Bytes of field groups 30 to 35 of a trading section.
#[verifier::opaque]
pub open spec fn trading_bytes6(s: TradingSection) -> Seq<u8> {
    string_x_bytes(s.auto_lev_control@)
        + trading_run15_bytes(trading_run15_of(s))
        + send_shots_config_bytes(s.send_shots_config)
        + trading_run16_bytes(trading_run16_of(s))
        + string_x_bytes(s.manual_strats_names@[0]@)
        + string_x_bytes(s.manual_strats_names@[1]@)
}

/// Whether the strings of field groups 30 to 35 of a trading section fit their limit.
#[verifier::opaque]
pub open spec fn trading_fits6(s: TradingSection) -> bool {
    string_fits(s.auto_lev_control@)
        && string_fits(s.manual_strats_names@[0]@)
        && string_fits(s.manual_strats_names@[1]@)
}

/// Read field groups 30 to 35 of the trading block body at `x`.
fn read_trading_part6(r: &mut ConfigReader, be: usize, Ghost(x): Ghost<int>) -> (res: Result<(String, TradingRun15, SendShotsConfig, TradingRun16, String, String), SharedConfigError>)
    requires
        old(r).at() == trading_pos30(old(r).bytes(), x, be as int),
    ensures
        final(r).bytes() == old(r).bytes(),
        trading_ok6(old(r).bytes(), x, be as int) ==> (res matches Ok(t) && {
            let d = old(r).bytes();
            &&& t.0@ == text_at(d, trading_pos30(d, x, be as int))
            &&& trading_run15_at(d, trading_pos31(d, x, be as int), t.1)
            &&& send_shots_config_at(d, trading_pos32(d, x, be as int), t.2)
            &&& trading_run16_at(d, trading_pos33(d, x, be as int), t.3)
            &&& t.4@ == text_at(d, trading_pos34(d, x, be as int))
            &&& t.5@ == text_at(d, trading_pos35(d, x, be as int))
            &&& final(r).at() == trading_pos36(d, x, be as int)
        }),
        !trading_ok6(old(r).bytes(), x, be as int) ==> res is Err,
{
    proof { reveal(trading_ok6); }
    let v30 = read_text(r)?;
    let v31 = read_trading_run15(r)?;
    let v32 = read_send_shots_config(r)?;
    let v33 = read_trading_run16(r)?;
    let v34 = read_text(r)?;
    let v35 = read_text(r)?;
    Ok((v30, v31, v32, v33, v34, v35))
}

/// Write field groups 30 to 35 of a trading section.
fn write_trading_part6(w: &mut ConfigWriter, s: &TradingSection)
    requires
        old(w).wf(),
    ensures
        final(w).wf(),
        final(w).wrote_all(old(w), trading_fits6(*s), trading_bytes6(*s)),
{
    proof { reveal(trading_bytes6); reveal(trading_fits6); }
    let ghost w0 = *w;
    let ghost wb = *w;
    w.write_string_x(s.auto_lev_control.as_str());
    let ghost wb = *w;
    let t31 = trading_run15_from(s);
    write_trading_run15(w, &t31);
    proof {
        lemma_wrote_all_then(w0, wb, *w, string_fits((*s).auto_lev_control@), string_x_bytes((*s).auto_lev_control@), true, trading_run15_bytes(trading_run15_of(*s)));
    }
    let ghost wb = *w;
    write_send_shots_config(w, &s.send_shots_config);
    proof {
        lemma_wrote_all_then(w0, wb, *w, string_fits((*s).auto_lev_control@), string_x_bytes((*s).auto_lev_control@) + trading_run15_bytes(trading_run15_of(*s)), true, send_shots_config_bytes((*s).send_shots_config));
    }
    let ghost wb = *w;
    let t33 = trading_run16_from(s);
    write_trading_run16(w, &t33);
    proof {
        lemma_wrote_all_then(w0, wb, *w, string_fits((*s).auto_lev_control@), string_x_bytes((*s).auto_lev_control@) + trading_run15_bytes(trading_run15_of(*s)) + send_shots_config_bytes((*s).send_shots_config), true, trading_run16_bytes(trading_run16_of(*s)));
    }
    let ghost wb = *w;
    w.write_string_x(s.manual_strats_names[0].as_str());
    proof {
        lemma_wrote_all_then(w0, wb, *w, string_fits((*s).auto_lev_control@), string_x_bytes((*s).auto_lev_control@) + trading_run15_bytes(trading_run15_of(*s)) + send_shots_config_bytes((*s).send_shots_config) + trading_run16_bytes(trading_run16_of(*s)), string_fits((*s).manual_strats_names@[0]@), string_x_bytes((*s).manual_strats_names@[0]@));
    }
    let ghost wb = *w;
    w.write_string_x(s.manual_strats_names[1].as_str());
    proof {
        lemma_wrote_all_then(w0, wb, *w, string_fits((*s).auto_lev_control@) && string_fits((*s).manual_strats_names@[0]@), string_x_bytes((*s).auto_lev_control@) + trading_run15_bytes(trading_run15_of(*s)) + send_shots_config_bytes((*s).send_shots_config) + trading_run16_bytes(trading_run16_of(*s)) + string_x_bytes((*s).manual_strats_names@[0]@), string_fits((*s).manual_strats_names@[1]@), string_x_bytes((*s).manual_strats_names@[1]@));
    }
}

/// Field groups 30 to 35 of a trading section read back from their bytes.
#[verifier::spinoff_prover]
#[verifier::rlimit(50)]
pub proof fn lemma_trading_part6(s: TradingSection, d: Seq<u8>, x: int, be: int)
    requires
        trading_fits6(s),
        0 <= trading_pos30(d, x, be),
        trading_pos30(d, x, be) + trading_bytes6(s).len() <= be <= d.len(),
        d.subrange(trading_pos30(d, x, be), trading_pos30(d, x, be) + trading_bytes6(s).len()) == trading_bytes6(s),
    ensures
        trading_ok6(d, x, be),
        trading_pos36(d, x, be) == trading_pos30(d, x, be) + trading_bytes6(s).len(),
        trading_got6(d, x, be, s),
{
    reveal(trading_ok6);
    reveal(trading_got6);
    reveal(trading_bytes6);
    reveal(trading_fits6);
    let p = trading_pos30(d, x, be);
    let b0 = string_x_bytes(s.auto_lev_control@);
    let b1 = trading_run15_bytes(trading_run15_of(s));
    let b2 = send_shots_config_bytes(s.send_shots_config);
    let b3 = trading_run16_bytes(trading_run16_of(s));
    let b4 = string_x_bytes(s.manual_strats_names@[0]@);
    let b5 = string_x_bytes(s.manual_strats_names@[1]@);
    lemma_trading_run15_roundtrip(trading_run15_of(s), Seq::<u8>::empty());
    lemma_send_shots_config_roundtrip(s.send_shots_config, Seq::<u8>::empty());
    lemma_trading_run16_roundtrip(trading_run16_of(s), Seq::<u8>::empty());
    assert(trading_bytes6(s) == b0 + b1 + b2 + b3 + b4 + b5);
    lemma_parts_at(d, p, b0 + b1 + b2 + b3 + b4, b5);
    lemma_parts_at(d, p, b0 + b1 + b2 + b3, b4);
    lemma_parts_at(d, p, b0 + b1 + b2, b3);
    lemma_parts_at(d, p, b0 + b1, b2);
    lemma_parts_at(d, p, b0, b1);
    let o0 = p;
    assert(trading_pos30(d, x, be) == o0);
    lemma_text_at(s.auto_lev_control@, d, o0);
    let o1 = o0 + b0.len();
    assert(trading_pos31(d, x, be) == o1);
    lemma_trading_run15_at(trading_run15_of(s), d, o1);
    let o2 = o1 + b1.len();
    assert(trading_pos32(d, x, be) == o2);
    lemma_send_shots_config_at(s.send_shots_config, d, o2);
    let o3 = o2 + b2.len();
    assert(trading_pos33(d, x, be) == o3);
    lemma_trading_run16_at(trading_run16_of(s), d, o3);
    let o4 = o3 + b3.len();
    assert(trading_pos34(d, x, be) == o4);
    lemma_text_at(s.manual_strats_names@[0]@, d, o4);
    let o5 = o4 + b4.len();
    assert(trading_pos35(d, x, be) == o5);
    lemma_text_at(s.manual_strats_names@[1]@, d, o5);
    assert(trading_pos36(d, x, be) == o5 + b5.len());
}

/// Whether field groups 36 to 41 of a trading block body at `x` can be read.
#[verifier::opaque]
pub open spec fn trading_ok7(d: Seq<u8>, x: int, be: int) -> bool {
    let p36 = trading_pos36(d, x, be);
    let p37 = trading_pos37(d, x, be);
    let p38 = trading_pos38(d, x, be);
    let p39 = trading_pos39(d, x, be);
    let p40 = trading_pos40(d, x, be);
    let p41 = trading_pos41(d, x, be);
    &&& (string_ok(d, p36))
    &&& (string_ok(d, p37))
    &&& (string_ok(d, p38))
    &&& (string_ok(d, p39))
    &&& (string_ok(d, p40))
    &&& (string_ok(d, p41))
}

/// Whether `s` holds field groups 36 to 41 of the trading block body at `x`.
#[verifier::opaque]
pub open spec fn trading_got7(d: Seq<u8>, x: int, be: int, s: TradingSection) -> bool {
    let p36 = trading_pos36(d, x, be);
    let p37 = trading_pos37(d, x, be);
    let p38 = trading_pos38(d, x, be);
    let p39 = trading_pos39(d, x, be);
    let p40 = trading_pos40(d, x, be);
    let p41 = trading_pos41(d, x, be);
    &&& s.manual_strats_names@[2]@ == text_at(d, p36)
    &&& s.manual_strats_names@[3]@ == text_at(d, p37)
    &&& s.manual_strats_names@[4]@ == text_at(d, p38)
    &&& s.manual_strats_names@[5]@ == text_at(d, p39)
    &&& s.manual_strats_names@[6]@ == text_at(d, p40)
    &&& s.manual_strats_names@[7]@ == text_at(d, p41)
}

/// Bytes of field groups 36 to 41 of a trading section.
#[verifier::opaque]
pub open spec fn trading_bytes7(s: TradingSection) -> Seq<u8> {
    string_x_bytes(s.manual_strats_names@[2]@)
        + string_x_bytes(s.manual_strats_names@[3]@)
        + string_x_bytes(s.manual_strats_names@[4]@)
        + string_x_bytes(s.manual_strats_names@[5]@)
        + string_x_bytes(s.manual_strats_names@[6]@)
        + string_x_bytes(s.manual_strats_names@[7]@)
}

/// Whether the strings of field groups 36 to 41 of a trading section fit their limit.
#[verifier::opaque]
pub open spec fn trading_fits7(s: TradingSection) -> bool {
    string_fits(s.manual_strats_names@[2]@)
        && string_fits(s.manual_strats_names@[3]@)
        && string_fits(s.manual_strats_names@[4]@)
        && string_fits(s.manual_strats_names@[5]@)
        && string_fits(s.manual_strats_names@[6]@)
        && string_fits(s.manual_strats_names@[7]@)
}

/// Read field groups 36 to 41 of the trading block body at `x`.
fn read_trading_part7(r: &mut ConfigReader, be: usize, Ghost(x): Ghost<int>) -> (res: Result<(String, String, String, String, String, String), SharedConfigError>)
    requires
        old(r).at() == trading_pos36(old(r).bytes(), x, be as int),
    ensures
        final(r).bytes() == old(r).bytes(),
        trading_ok7(old(r).bytes(), x, be as int) ==> (res matches Ok(t) && {
            let d = old(r).bytes();
            &&& t.0@ == text_at(d, trading_pos36(d, x, be as int))
            &&& t.1@ == text_at(d, trading_pos37(d, x, be as int))
            &&& t.2@ == text_at(d, trading_pos38(d, x, be as int))
            &&& t.3@ == text_at(d, trading_pos39(d, x, be as int))
            &&& t.4@ == text_at(d, trading_pos40(d, x, be as int))
            &&& t.5@ == text_at(d, trading_pos41(d, x, be as int))
            &&& final(r).at() == trading_pos42(d, x, be as int)
        }),
        !trading_ok7(old(r).bytes(), x, be as int) ==> res is Err,
{
    proof { reveal(trading_ok7); }
    let v36 = read_text(r)?;
    let v37 = read_text(r)?;
    let v38 = read_text(r)?;
    let v39 = read_text(r)?;
    let v40 = read_text(r)?;
    let v41 = read_text(r)?;
    Ok((v36, v37, v38, v39, v40, v41))
}

/// Write field groups 36 to 41 of a trading section.
fn write_trading_part7(w: &mut ConfigWriter, s: &TradingSection)
    requires
        old(w).wf(),
    ensures
        final(w).wf(),
        final(w).wrote_all(old(w), trading_fits7(*s), trading_bytes7(*s)),
{
    proof { reveal(trading_bytes7); reveal(trading_fits7); }
    let ghost w0 = *w;
    let ghost wb = *w;
    w.write_string_x(s.manual_strats_names[2].as_str());
    let ghost wb = *w;
    w.write_string_x(s.manual_strats_names[3].as_str());
    proof {
        lemma_wrote_all_then(w0, wb, *w, string_fits((*s).manual_strats_names@[2]@), string_x_bytes((*s).manual_strats_names@[2]@), string_fits((*s).manual_strats_names@[3]@), string_x_bytes((*s).manual_strats_names@[3]@));
    }
    let ghost wb = *w;
    w.write_string_x(s.manual_strats_names[4].as_str());
    proof {
        lemma_wrote_all_then(w0, wb, *w, string_fits((*s).manual_strats_names@[2]@) && string_fits((*s).manual_strats_names@[3]@), string_x_bytes((*s).manual_strats_names@[2]@) + string_x_bytes((*s).manual_strats_names@[3]@), string_fits((*s).manual_strats_names@[4]@), string_x_bytes((*s).manual_strats_names@[4]@));
    }
    let ghost wb = *w;
    w.write_string_x(s.manual_strats_names[5].as_str());
    proof {
        lemma_wrote_all_then(w0, wb, *w, string_fits((*s).manual_strats_names@[2]@) && string_fits((*s).manual_strats_names@[3]@) && string_fits((*s).manual_strats_names@[4]@), string_x_bytes((*s).manual_strats_names@[2]@) + string_x_bytes((*s).manual_strats_names@[3]@) + string_x_bytes((*s).manual_strats_names@[4]@), string_fits((*s).manual_strats_names@[5]@), string_x_bytes((*s).manual_strats_names@[5]@));
    }
    let ghost wb = *w;
    w.write_string_x(s.manual_strats_names[6].as_str());
    proof {
        lemma_wrote_all_then(w0, wb, *w, string_fits((*s).manual_strats_names@[2]@) && string_fits((*s).manual_strats_names@[3]@) && string_fits((*s).manual_strats_names@[4]@) && string_fits((*s).manual_strats_names@[5]@), string_x_bytes((*s).manual_strats_names@[2]@) + string_x_bytes((*s).manual_strats_names@[3]@) + string_x_bytes((*s).manual_strats_names@[4]@) + string_x_bytes((*s).manual_strats_names@[5]@), string_fits((*s).manual_strats_names@[6]@), string_x_bytes((*s).manual_strats_names@[6]@));
    }
    let ghost wb = *w;
    w.write_string_x(s.manual_strats_names[7].as_str());
    proof {
        lemma_wrote_all_then(w0, wb, *w, string_fits((*s).manual_strats_names@[2]@) && string_fits((*s).manual_strats_names@[3]@) && string_fits((*s).manual_strats_names@[4]@) && string_fits((*s).manual_strats_names@[5]@) && string_fits((*s).manual_strats_names@[6]@), string_x_bytes((*s).manual_strats_names@[2]@) + string_x_bytes((*s).manual_strats_names@[3]@) + string_x_bytes((*s).manual_strats_names@[4]@) + string_x_bytes((*s).manual_strats_names@[5]@) + string_x_bytes((*s).manual_strats_names@[6]@), string_fits((*s).manual_strats_names@[7]@), string_x_bytes((*s).manual_strats_names@[7]@));
    }
}

/// Field groups 36 to 41 of a trading section read back from their bytes.
#[verifier::spinoff_prover]
#[verifier::rlimit(50)]
pub proof fn lemma_trading_part7(s: TradingSection, d: Seq<u8>, x: int, be: int)
    requires
        trading_fits7(s),
        0 <= trading_pos36(d, x, be),
        trading_pos36(d, x, be) + trading_bytes7(s).len() <= be <= d.len(),
        d.subrange(trading_pos36(d, x, be), trading_pos36(d, x, be) + trading_bytes7(s).len()) == trading_bytes7(s),
    ensures
        trading_ok7(d, x, be),
        trading_pos42(d, x, be) == trading_pos36(d, x, be) + trading_bytes7(s).len(),
        trading_got7(d, x, be, s),
{
    reveal(trading_ok7);
    reveal(trading_got7);
    reveal(trading_bytes7);
    reveal(trading_fits7);
    let p = trading_pos36(d, x, be);
    let b0 = string_x_bytes(s.manual_strats_names@[2]@);
    let b1 = string_x_bytes(s.manual_strats_names@[3]@);
    let b2 = string_x_bytes(s.manual_strats_names@[4]@);
    let b3 = string_x_bytes(s.manual_strats_names@[5]@);
    let b4 = string_x_bytes(s.manual_strats_names@[6]@);
    let b5 = string_x_bytes(s.manual_strats_names@[7]@);
    assert(trading_bytes7(s) == b0 + b1 + b2 + b3 + b4 + b5);
    lemma_parts_at(d, p, b0 + b1 + b2 + b3 + b4, b5);
    lemma_parts_at(d, p, b0 + b1 + b2 + b3, b4);
    lemma_parts_at(d, p, b0 + b1 + b2, b3);
    lemma_parts_at(d, p, b0 + b1, b2);
    lemma_parts_at(d, p, b0, b1);
    let o0 = p;
    assert(trading_pos36(d, x, be) == o0);
    lemma_text_at(s.manual_strats_names@[2]@, d, o0);
    let o1 = o0 + b0.len();
    assert(trading_pos37(d, x, be) == o1);
    lemma_text_at(s.manual_strats_names@[3]@, d, o1);
    let o2 = o1 + b1.len();
    assert(trading_pos38(d, x, be) == o2);
    lemma_text_at(s.manual_strats_names@[4]@, d, o2);
    let o3 = o2 + b2.len();
    assert(trading_pos39(d, x, be) == o3);
    lemma_text_at(s.manual_strats_names@[5]@, d, o3);
    let o4 = o3 + b3.len();
    assert(trading_pos40(d, x, be) == o4);
    lemma_text_at(s.manual_strats_names@[6]@, d, o4);
    let o5 = o4 + b4.len();
    assert(trading_pos41(d, x, be) == o5);
    lemma_text_at(s.manual_strats_names@[7]@, d, o5);
    assert(trading_pos42(d, x, be) == o5 + b5.len());
}

/// Whether field groups 42 to 47 of a trading block body at `x` can be read.
#[verifier::opaque]
pub open spec fn trading_ok8(d: Seq<u8>, x: int, be: int) -> bool {
    let p42 = trading_pos42(d, x, be);
    let p43 = trading_pos43(d, x, be);
    let p44 = trading_pos44(d, x, be);
    let p45 = trading_pos45(d, x, be);
    let p46 = trading_pos46(d, x, be);
    let p47 = trading_pos47(d, x, be);
    &&& (string_ok(d, p42))
    &&& (string_ok(d, p43))
    &&& (p44 + MANUAL_STRATS_CONFIG_LEN <= d.len())
    &&& (string_ok(d, p45))
    &&& (string_ok(d, p46))
    &&& (p47 + TRADING_RUN17_LEN <= d.len())
}

/// Whether `s` holds field groups 42 to 47 of the trading block body at `x`.
#[verifier::opaque]
pub open spec fn trading_got8(d: Seq<u8>, x: int, be: int, s: TradingSection) -> bool {
    let p42 = trading_pos42(d, x, be);
    let p43 = trading_pos43(d, x, be);
    let p44 = trading_pos44(d, x, be);
    let p45 = trading_pos45(d, x, be);
    let p46 = trading_pos46(d, x, be);
    let p47 = trading_pos47(d, x, be);
    &&& s.manual_strats_names@[8]@ == text_at(d, p42)
    &&& s.manual_strats_names@[9]@ == text_at(d, p43)
    &&& manual_strats_config_at(d, p44, s.manual_strats_config)
    &&& s.clear_triggers_string@ == text_at(d, p45)
    &&& s.no_trades_markets_text@ == text_at(d, p46)
    &&& trading_run17_at(d, p47, trading_run17_of(s))
}

/// Bytes of field groups 42 to 47 of a trading section.
#[verifier::opaque]
pub open spec fn trading_bytes8(s: TradingSection) -> Seq<u8> {
    string_x_bytes(s.manual_strats_names@[8]@)
        + string_x_bytes(s.manual_strats_names@[9]@)
        + manual_strats_config_bytes(s.manual_strats_config)
        + string_x_bytes(s.clear_triggers_string@)
        + string_x_bytes(s.no_trades_markets_text@)
        + trading_run17_bytes(trading_run17_of(s))
}

/// Whether the strings of field groups 42 to 47 of a trading section fit their limit.
#[verifier::opaque]
pub open spec fn trading_fits8(s: TradingSection) -> bool {
    string_fits(s.manual_strats_names@[8]@)
        && string_fits(s.manual_strats_names@[9]@)
        && string_fits(s.clear_triggers_string@)
        && string_fits(s.no_trades_markets_text@)
}

/// Read field groups 42 to 47 of the trading block body at `x`.
fn read_trading_part8(r: &mut ConfigReader, be: usize, Ghost(x): Ghost<int>) -> (res: Result<(String, String, ManualStratsConfig, String, String, TradingRun17), SharedConfigError>)
    requires
        old(r).at() == trading_pos42(old(r).bytes(), x, be as int),
    ensures
        final(r).bytes() == old(r).bytes(),
        trading_ok8(old(r).bytes(), x, be as int) ==> (res matches Ok(t) && {
            let d = old(r).bytes();
            &&& t.0@ == text_at(d, trading_pos42(d, x, be as int))
            &&& t.1@ == text_at(d, trading_pos43(d, x, be as int))
            &&& manual_strats_config_at(d, trading_pos44(d, x, be as int), t.2)
            &&& t.3@ == text_at(d, trading_pos45(d, x, be as int))
            &&& t.4@ == text_at(d, trading_pos46(d, x, be as int))
            &&& trading_run17_at(d, trading_pos47(d, x, be as int), t.5)
            &&& final(r).at() == trading_pos48(d, x, be as int)
        }),
        !trading_ok8(old(r).bytes(), x, be as int) ==> res is Err,
{
    proof { reveal(trading_ok8); }
    let v42 = read_text(r)?;
    let v43 = read_text(r)?;
    let v44 = read_manual_strats_config(r)?;
    let v45 = read_text(r)?;
    let v46 = read_text(r)?;
    let v47 = read_trading_run17(r)?;
    Ok((v42, v43, v44, v45, v46, v47))
}

/// Write field groups 42 to 47 of a trading section.
fn write_trading_part8(w: &mut ConfigWriter, s: &TradingSection)
    requires
        old(w).wf(),
    ensures
        final(w).wf(),
        final(w).wrote_all(old(w), trading_fits8(*s), trading_bytes8(*s)),
{
    proof { reveal(trading_bytes8); reveal(trading_fits8); }
    let ghost w0 = *w;
    let ghost wb = *w;
    w.write_string_x(s.manual_strats_names[8].as_str());
    let ghost wb = *w;
    w.write_string_x(s.manual_strats_names[9].as_str());
    proof {
        lemma_wrote_all_then(w0, wb, *w, string_fits((*s).manual_strats_names@[8]@), string_x_bytes((*s).manual_strats_names@[8]@), string_fits((*s).manual_strats_names@[9]@), string_x_bytes((*s).manual_strats_names@[9]@));
    }
    let ghost wb = *w;
    write_manual_strats_config(w, &s.manual_strats_config);
    proof {
        lemma_wrote_all_then(w0, wb, *w, string_fits((*s).manual_strats_names@[8]@) && string_fits((*s).manual_strats_names@[9]@), string_x_bytes((*s).manual_strats_names@[8]@) + string_x_bytes((*s).manual_strats_names@[9]@), true, manual_strats_config_bytes((*s).manual_strats_config));
    }
    let ghost wb = *w;
    w.write_string_x(s.clear_triggers_string.as_str());
    proof {
        lemma_wrote_all_then(w0, wb, *w, string_fits((*s).manual_strats_names@[8]@) && string_fits((*s).manual_strats_names@[9]@), string_x_bytes((*s).manual_strats_names@[8]@) + string_x_bytes((*s).manual_strats_names@[9]@) + manual_strats_config_bytes((*s).manual_strats_config), string_fits((*s).clear_triggers_string@), string_x_bytes((*s).clear_triggers_string@));
    }
    let ghost wb = *w;
    w.write_string_x(s.no_trades_markets_text.as_str());
    proof {
        lemma_wrote_all_then(w0, wb, *w, string_fits((*s).manual_strats_names@[8]@) && string_fits((*s).manual_strats_names@[9]@) && string_fits((*s).clear_triggers_string@), string_x_bytes((*s).manual_strats_names@[8]@) + string_x_bytes((*s).manual_strats_names@[9]@) + manual_strats_config_bytes((*s).manual_strats_config) + string_x_bytes((*s).clear_triggers_string@), string_fits((*s).no_trades_markets_text@), string_x_bytes((*s).no_trades_markets_text@));
    }
    let ghost wb = *w;
    let t47 = trading_run17_from(s);
    write_trading_run17(w, &t47);
    proof {
        lemma_wrote_all_then(w0, wb, *w, string_fits((*s).manual_strats_names@[8]@) && string_fits((*s).manual_strats_names@[9]@) && string_fits((*s).clear_triggers_string@) && string_fits((*s).no_trades_markets_text@), string_x_bytes((*s).manual_strats_names@[8]@) + string_x_bytes((*s).manual_strats_names@[9]@) + manual_strats_config_bytes((*s).manual_strats_config) + string_x_bytes((*s).clear_triggers_string@) + string_x_bytes((*s).no_trades_markets_text@), true, trading_run17_bytes(trading_run17_of(*s)));
    }
}

/// Field groups 42 to 47 of a trading section read back from their bytes.
#[verifier::spinoff_prover]
#[verifier::rlimit(50)]
pub proof fn lemma_trading_part8(s: TradingSection, d: Seq<u8>, x: int, be: int)
    requires
        trading_fits8(s),
        0 <= trading_pos42(d, x, be),
        trading_pos42(d, x, be) + trading_bytes8(s).len() <= be <= d.len(),
        d.subrange(trading_pos42(d, x, be), trading_pos42(d, x, be) + trading_bytes8(s).len()) == trading_bytes8(s),
    ensures
        trading_ok8(d, x, be),
        trading_pos48(d, x, be) == trading_pos42(d, x, be) + trading_bytes8(s).len(),
        trading_got8(d, x, be, s),
{
    reveal(trading_ok8);
    reveal(trading_got8);
    reveal(trading_bytes8);
    reveal(trading_fits8);
    let p = trading_pos42(d, x, be);
    let b0 = string_x_bytes(s.manual_strats_names@[8]@);
    let b1 = string_x_bytes(s.manual_strats_names@[9]@);
    let b2 = manual_strats_config_bytes(s.manual_strats_config);
    let b3 = string_x_bytes(s.clear_triggers_string@);
    let b4 = string_x_bytes(s.no_trades_markets_text@);
    let b5 = trading_run17_bytes(trading_run17_of(s));
    lemma_manual_strats_config_roundtrip(s.manual_strats_config, Seq::<u8>::empty());
    lemma_trading_run17_roundtrip(trading_run17_of(s), Seq::<u8>::empty());
    assert(trading_bytes8(s) == b0 + b1 + b2 + b3 + b4 + b5);
    lemma_parts_at(d, p, b0 + b1 + b2 + b3 + b4, b5);
    lemma_parts_at(d, p, b0 + b1 + b2 + b3, b4);
    lemma_parts_at(d, p, b0 + b1 + b2, b3);
    lemma_parts_at(d, p, b0 + b1, b2);
    lemma_parts_at(d, p, b0, b1);
    let o0 = p;
    assert(trading_pos42(d, x, be) == o0);
    lemma_text_at(s.manual_strats_names@[8]@, d, o0);
    let o1 = o0 + b0.len();
    assert(trading_pos43(d, x, be) == o1);
    lemma_text_at(s.manual_strats_names@[9]@, d, o1);
    let o2 = o1 + b1.len();
    assert(trading_pos44(d, x, be) == o2);
    lemma_manual_strats_config_at(s.manual_strats_config, d, o2);
    let o3 = o2 + b2.len();
    assert(trading_pos45(d, x, be) == o3);
    lemma_text_at(s.clear_triggers_string@, d, o3);
    let o4 = o3 + b3.len();
    assert(trading_pos46(d, x, be) == o4);
    lemma_text_at(s.no_trades_markets_text@, d, o4);
    let o5 = o4 + b4.len();
    assert(trading_pos47(d, x, be) == o5);
    lemma_trading_run17_at(trading_run17_of(s), d, o5);
    assert(trading_pos48(d, x, be) == o5 + b5.len());
}

/// Whether field groups 48 to 51 of a trading block body at `x` can be read.
#[verifier::opaque]
pub open spec fn trading_ok9(d: Seq<u8>, x: int, be: int) -> bool {
    let p48 = trading_pos48(d, x, be);
    let p49 = trading_pos49(d, x, be);
    let p50 = trading_pos50(d, x, be);
    let p51 = trading_pos51(d, x, be);
    &&& (p48 + ARB_VIEW_CONFIG_LEN <= d.len() && d[p48] == 1)
    &&& (p49 < be ==> p49 + 1 <= d.len())
    &&& (p50 < be ==> p50 + 1 <= d.len())
    &&& (p51 < be ==> p51 + 1 <= d.len())
}

/// Whether `s` holds field groups 48 to 51 of the trading block body at `x`.
#[verifier::opaque]
pub open spec fn trading_got9(d: Seq<u8>, x: int, be: int, s: TradingSection) -> bool {
    let p48 = trading_pos48(d, x, be);
    let p49 = trading_pos49(d, x, be);
    let p50 = trading_pos50(d, x, be);
    let p51 = trading_pos51(d, x, be);
    &&& arb_view_config_at(d, p48, s.arb_view_config)
    &&& s.deltas_by_trades == (if p49 < be { flag_of(d[p49]) } else { false })
    &&& s.ignore_strat_sell_price == (if p50 < be { flag_of(d[p50]) } else { false })
    &&& s.use_hl_fast_ioc == (if p51 < be { flag_of(d[p51]) } else { false })
}

/// Bytes of field groups 48 to 51 of a trading section.
#[verifier::opaque]
pub open spec fn trading_bytes9(s: TradingSection) -> Seq<u8> {
    arb_view_config_bytes(s.arb_view_config)
        + seq![bool_byte(s.deltas_by_trades)]
        + seq![bool_byte(s.ignore_strat_sell_price)]
        + seq![bool_byte(s.use_hl_fast_ioc)]
}

/// Whether the strings of field groups 48 to 51 of a trading section fit their limit.
#[verifier::opaque]
pub open spec fn trading_fits9(s: TradingSection) -> bool {
    true
}

/// Read field groups 48 to 51 of the trading block body at `x`.
fn read_trading_part9(r: &mut ConfigReader, be: usize, Ghost(x): Ghost<int>) -> (res: Result<(ArbViewConfig, bool, bool, bool), SharedConfigError>)
    requires
        old(r).at() == trading_pos48(old(r).bytes(), x, be as int),
    ensures
        final(r).bytes() == old(r).bytes(),
        trading_ok9(old(r).bytes(), x, be as int) ==> (res matches Ok(t) && {
            let d = old(r).bytes();
            &&& arb_view_config_at(d, trading_pos48(d, x, be as int), t.0)
            &&& t.1 == (if trading_pos49(d, x, be as int) < be { flag_of(d[trading_pos49(d, x, be as int)]) } else { false })
            &&& t.2 == (if trading_pos50(d, x, be as int) < be { flag_of(d[trading_pos50(d, x, be as int)]) } else { false })
            &&& t.3 == (if trading_pos51(d, x, be as int) < be { flag_of(d[trading_pos51(d, x, be as int)]) } else { false })
            &&& final(r).at() == trading_pos52(d, x, be as int)
        }),
        !trading_ok9(old(r).bytes(), x, be as int) ==> res is Err,
{
    proof { reveal(trading_ok9); }
    let v48 = parse_arb_view(r)?;
    let v49 = r.read_bool_or(be, false)?;
    let v50 = r.read_bool_or(be, false)?;
    let v51 = r.read_bool_or(be, false)?;
    Ok((v48, v49, v50, v51))
}

/// Write field groups 48 to 51 of a trading section.
fn write_trading_part9(w: &mut ConfigWriter, s: &TradingSection)
    requires
        old(w).wf(),
    ensures
        final(w).wf(),
        final(w).wrote_all(old(w), trading_fits9(*s), trading_bytes9(*s)),
{
    proof { reveal(trading_bytes9); reveal(trading_fits9); }
    let ghost w0 = *w;
    let ghost wb = *w;
    write_arb_view_config(w, &s.arb_view_config);
    let ghost wb = *w;
    w.write_bool(s.deltas_by_trades);
    proof {
        lemma_wrote_all_of_wrote(wb, *w, seq![bool_byte((*s).deltas_by_trades)]);
        lemma_wrote_all_then(w0, wb, *w, true, arb_view_config_bytes((*s).arb_view_config), true, seq![bool_byte((*s).deltas_by_trades)]);
    }
    let ghost wb = *w;
    w.write_bool(s.ignore_strat_sell_price);
    proof {
        lemma_wrote_all_of_wrote(wb, *w, seq![bool_byte((*s).ignore_strat_sell_price)]);
        lemma_wrote_all_then(w0, wb, *w, true, arb_view_config_bytes((*s).arb_view_config) + seq![bool_byte((*s).deltas_by_trades)], true, seq![bool_byte((*s).ignore_strat_sell_price)]);
    }
    let ghost wb = *w;
    w.write_bool(s.use_hl_fast_ioc);
    proof {
        lemma_wrote_all_of_wrote(wb, *w, seq![bool_byte((*s).use_hl_fast_ioc)]);
        lemma_wrote_all_then(w0, wb, *w, true, arb_view_config_bytes((*s).arb_view_config) + seq![bool_byte((*s).deltas_by_trades)] + seq![bool_byte((*s).ignore_strat_sell_price)], true, seq![bool_byte((*s).use_hl_fast_ioc)]);
    }
}

/// Field groups 48 to 51 of a trading section read back from their bytes.
#[verifier::spinoff_prover]
#[verifier::rlimit(50)]
pub proof fn lemma_trading_part9(s: TradingSection, d: Seq<u8>, x: int, be: int)
    requires
        trading_fits9(s),
        s.arb_view_config.ver == 1,
        0 <= trading_pos48(d, x, be),
        trading_pos48(d, x, be) + trading_bytes9(s).len() <= be <= d.len(),
        d.subrange(trading_pos48(d, x, be), trading_pos48(d, x, be) + trading_bytes9(s).len()) == trading_bytes9(s),
    ensures
        trading_ok9(d, x, be),
        trading_pos52(d, x, be) == trading_pos48(d, x, be) + trading_bytes9(s).len(),
        trading_got9(d, x, be, s),
{
    reveal(trading_ok9);
    reveal(trading_got9);
    reveal(trading_bytes9);
    reveal(trading_fits9);
    let p = trading_pos48(d, x, be);
    let b0 = arb_view_config_bytes(s.arb_view_config);
    let b1 = seq![bool_byte(s.deltas_by_trades)];
    let b2 = seq![bool_byte(s.ignore_strat_sell_price)];
    let b3 = seq![bool_byte(s.use_hl_fast_ioc)];
    lemma_arb_view_config_roundtrip(s.arb_view_config, Seq::<u8>::empty());
    assert(trading_bytes9(s) == b0 + b1 + b2 + b3);
    lemma_parts_at(d, p, b0 + b1 + b2, b3);
    lemma_parts_at(d, p, b0 + b1, b2);
    lemma_parts_at(d, p, b0, b1);
    let o0 = p;
    assert(trading_pos48(d, x, be) == o0);
    lemma_arb_view_config_at(s.arb_view_config, d, o0);
    let o1 = o0 + b0.len();
    assert(trading_pos49(d, x, be) == o1);
    assert(d[o1] == b1[0]);
    lemma_bool_byte(s.deltas_by_trades);
    let o2 = o1 + b1.len();
    assert(trading_pos50(d, x, be) == o2);
    assert(d[o2] == b2[0]);
    lemma_bool_byte(s.ignore_strat_sell_price);
    let o3 = o2 + b2.len();
    assert(trading_pos51(d, x, be) == o3);
    assert(d[o3] == b3[0]);
    lemma_bool_byte(s.use_hl_fast_ioc);
    assert(trading_pos52(d, x, be) == o3 + b3.len());
}

/// Whether a trading block body at `x`, ending at `be`, can be read: version `3`
/// and every field group within the data.
pub open spec fn trading_ok(d: Seq<u8>, x: int, be: int) -> bool {
    &&& x + 1 <= d.len()
    &&& d[x] == 3
    &&& trading_ok1(d, x, be)
    &&& trading_ok2(d, x, be)
    &&& trading_ok3(d, x, be)
    &&& trading_ok4(d, x, be)
    &&& trading_ok5(d, x, be)
    &&& trading_ok6(d, x, be)
    &&& trading_ok7(d, x, be)
    &&& trading_ok8(d, x, be)
    &&& trading_ok9(d, x, be)
}

/// Whether `s` is the trading block body at `x`, with the rest of the block
/// up to `be` kept.
pub open spec fn trading_decoded(d: Seq<u8>, x: int, be: int, s: TradingSection) -> bool {
    &&& trading_got1(d, x, be, s)
    &&& trading_got2(d, x, be, s)
    &&& trading_got3(d, x, be, s)
    &&& trading_got4(d, x, be, s)
    &&& trading_got5(d, x, be, s)
    &&& trading_got6(d, x, be, s)
    &&& trading_got7(d, x, be, s)
    &&& trading_got8(d, x, be, s)
    &&& trading_got9(d, x, be, s)
    &&& s.unknown_tail@ == tail_of(d, trading_pos52(d, x, be), be)
}

/// Read the trading block body that ends at `block_end`.
#[verifier::spinoff_prover]
#[verifier::rlimit(50)]
pub fn parse_trading(r: &mut ConfigReader, block_end: usize) -> (res: Result<TradingSection, SharedConfigError>)
    requires
        block_end <= old(r).bytes().len(),
    ensures
        trading_ok(old(r).bytes(), old(r).at(), block_end as int) ==> (res matches Ok(s) && trading_decoded(
            old(r).bytes(),
            old(r).at(),
            block_end as int,
            s,
        )),
        !trading_ok(old(r).bytes(), old(r).at(), block_end as int) ==> res is Err,
{
    let ghost x: int = r.at();
    let ghost d = r.bytes();
    let be = block_end;
    let ver = r.read_u8()?;
    if ver != 3 {
        return Err(SharedConfigError::new("wrong shared trading version"));
    }
    let (v0, v1, v2, v3, v4, v5) = read_trading_part1(r, be, Ghost(x))?;
    let (v6, v7, v8, v9, v10, v11) = read_trading_part2(r, be, Ghost(x))?;
    let (v12, v13, v14, v15, v16, v17) = read_trading_part3(r, be, Ghost(x))?;
    let (v18, v19, v20, v21, v22, v23) = read_trading_part4(r, be, Ghost(x))?;
    let (v24, v25, v26, v27, v28, v29) = read_trading_part5(r, be, Ghost(x))?;
    let (v30, v31, v32, v33, v34, v35) = read_trading_part6(r, be, Ghost(x))?;
    let (v36, v37, v38, v39, v40, v41) = read_trading_part7(r, be, Ghost(x))?;
    let (v42, v43, v44, v45, v46, v47) = read_trading_part8(r, be, Ghost(x))?;
    let (v48, v49, v50, v51) = read_trading_part9(r, be, Ghost(x))?;
    let unknown_tail = r.read_tail(be);
    let s = TradingSection {
        auto_delete_logs: v0.auto_delete_logs,
        log_level: v0.log_level,
        binance_connection: v0.binance_connection,
        auto_start: v1,
        auto_start_2: v2,
        fav_markets: v3,
        x_ask: v4.x_ask,
        x_sell: v4.x_sell,
        x_sell_scalp: v4.x_sell_scalp,
        play_with: v4.play_with,
        check_glass: v4.check_glass,
        max_orders: v4.max_orders,
        auto_sell_partial: v4.auto_sell_partial,
        price_range: v4.price_range,
        sell_auto_move: v4.sell_auto_move,
        pump_q_level: v4.pump_q_level,
        sell_x2_level: v4.sell_x2_level,
        cancel_buy_on_sell_fill: v4.cancel_buy_on_sell_fill,
        auto_cancel_buy_order: v4.auto_cancel_buy_order,
        vol_drop_level: v4.vol_drop_level,
        price_drop_level: v4.price_drop_level,
        panic_if_vol_drop: v4.panic_if_vol_drop,
        panic_if_price_drop: v4.panic_if_price_drop,
        manual_mode: v4.manual_mode,
        draw_all_buy: v4.draw_all_buy,
        trailing_stop: v4.trailing_stop,
        trailing_drop: v4.trailing_drop,
        engine_check_buy: v4.engine_check_buy,
        use_manual_balance: v4.use_manual_balance,
        fixed_trade_balance: v4.fixed_trade_balance,
        use_current_ask: v4.use_current_ask,
        g_take_profit: v4.g_take_profit,
        use_g_take_profit: v4.use_g_take_profit,
        show_order_comment: v4.show_order_comment,
        chart_clean_up_time: v4.chart_clean_up_time,
        moonbot_config: v5,
        dbl_click_panic_sell: v6.dbl_click_panic_sell,
        coins_black_list_text: v7,
        use_coins_black_list: v8.use_coins_black_list,
        h_pos_black_list_text: v9,
        trailing_float: v10.trailing_float,
        h_pos_black_list_add: v11,
        random_price: v12.random_price,
        report_config: v13,
        dont_buy_delisted: v14.dont_buy_delisted,
        dont_buy_new_coins: v14.dont_buy_new_coins,
        auto_cancel_lower_buy: v14.auto_cancel_lower_buy,
        buy_on_enter: v14.buy_on_enter,
        auto_buy_bnb: v14.auto_buy_bnb,
        auto_buy_bnb_level: v14.auto_buy_bnb_level,
        auto_buy_bnb_volume: v14.auto_buy_bnb_volume,
        order_replace_click_buy: v14.order_replace_click_buy,
        dont_buy_forward: v14.dont_buy_forward,
        chart_split_zones: v14.chart_split_zones,
        draw_stop: v14.draw_stop,
        max_order: v14.max_order,
        unlimited_orders: v14.unlimited_orders,
        use_manual_strategy: v14.use_manual_strategy,
        manual_strategy: v15,
        x9_mode: v16.x9_mode,
        x_t_mode: v16.x_t_mode,
        fixed_balance_warning: v16.fixed_balance_warning,
        trades_gap_time: v16.trades_gap_time,
        buy_iceberg: v16.buy_iceberg,
        sell_iceberg: v16.sell_iceberg,
        iceberg_step: v16.iceberg_step,
        order_set_click: v16.order_set_click,
        pending_order_set_click: v16.pending_order_set_click,
        pending_orders_spread: v16.pending_orders_spread,
        pending_orders_spread_h_delta: v16.pending_orders_spread_h_delta,
        buy_pending_spread: v16.buy_pending_spread,
        buy_stop_pending_spread: v16.buy_stop_pending_spread,
        tm_panic_sell_closed: v16.tm_panic_sell_closed,
        tm_send_only_share: v16.tm_send_only_share,
        tm_cancel_closed: v16.tm_cancel_closed,
        tm_cancel_buy_on_fill: v16.tm_cancel_buy_on_fill,
        multi_commands: v16.multi_commands,
        iceberg_click_count: v16.iceberg_click_count,
        tm_send_first_sell: v16.tm_send_first_sell,
        tm_sell_if_master_not_filled: v16.tm_sell_if_master_not_filled,
        tm_max_order: v16.tm_max_order,
        multi_orders: v17,
        order_replace_click_sell: v18.order_replace_click_sell,
        alert_config: v19,
        use_moon_bl: v20.use_moon_bl,
        correct_order_price: v20.correct_order_price,
        f_binance_commission: v20.f_binance_commission,
        spot_config: v21,
        use_book_ticker: v22.use_book_ticker,
        exclude_black_list_delta: v22.exclude_black_list_delta,
        free_position_check: v22.free_position_check,
        orders_control: v23,
        m_avg_use_vol_weight: v24.m_avg_use_vol_weight,
        pending_buy_price: v24.pending_buy_price,
        fixed_sell_mode: v24.fixed_sell_mode,
        fixed_sell_price: v24.fixed_sell_price,
        futures_rules: v24.futures_rules,
        cashback_settings: v25,
        auto_lower_lev: v26.auto_lower_lev,
        transfer_config: v27,
        min_balance: v28.min_balance,
        auto_manage_lev: v29,
        auto_lev_control: v30,
        use_stop_market: v31.use_stop_market,
        auto_close_zero_pos: v31.auto_close_zero_pos,
        send_shots_config: v32,
        use_lev_for_take: v33.use_lev_for_take,
        bybit_commission: v33.bybit_commission,
        auto_reduce_order: v33.auto_reduce_order,
        gate_commission: v33.gate_commission,
        manual_strats_names: [v34, v35, v36, v37, v38, v39, v40, v41, v42, v43],
        manual_strats_config: v44,
        clear_triggers_string: v45,
        no_trades_markets_text: v46,
        use_websocket_api: v47.use_websocket_api,
        order_book_levels_ws: v47.order_book_levels_ws,
        arb_view_config: v48,
        deltas_by_trades: v49,
        ignore_strat_sell_price: v50,
        use_hl_fast_ioc: v51,
        unknown_tail,
    };
    proof {
        assert(trading_got1(d, x, be as int, s)) by {
            reveal(trading_got1);
        }
        assert(trading_got2(d, x, be as int, s)) by {
            reveal(trading_got2);
        }
        assert(trading_got3(d, x, be as int, s)) by {
            reveal(trading_got3);
        }
        assert(trading_got4(d, x, be as int, s)) by {
            reveal(trading_got4);
        }
        assert(trading_got5(d, x, be as int, s)) by {
            reveal(trading_got5);
        }
        assert(trading_got6(d, x, be as int, s)) by {
            reveal(trading_got6);
        }
        assert(trading_got7(d, x, be as int, s)) by {
            reveal(trading_got7);
        }
        assert(trading_got8(d, x, be as int, s)) by {
            reveal(trading_got8);
        }
        assert(trading_got9(d, x, be as int, s)) by {
            reveal(trading_got9);
        }
    }
    Ok(s)
}

/// Bytes of a trading block body: version `3`, the field groups and the kept tail.
pub open spec fn trading_bytes(s: TradingSection) -> Seq<u8> {
    seq![3u8] + trading_bytes1(s) + trading_bytes2(s) + trading_bytes3(s) + trading_bytes4(s) + trading_bytes5(s) + trading_bytes6(s) + trading_bytes7(s) + trading_bytes8(s) + trading_bytes9(s) + s.unknown_tail@
}

/// Whether a trading section can be written: every string within its limit.
pub open spec fn trading_fits(s: TradingSection) -> bool {
    trading_fits1(s) && trading_fits2(s) && trading_fits3(s) && trading_fits4(s) && trading_fits5(s) && trading_fits6(s) && trading_fits7(s) && trading_fits8(s) && trading_fits9(s)
}

/// Write a trading block body.
pub fn write_trading(w: &mut ConfigWriter, s: &TradingSection)
    requires
        old(w).wf(),
    ensures
        final(w).wf(),
        final(w).wrote_all(old(w), trading_fits(*s), trading_bytes(*s)),
{
    let ghost w0 = *w;
    w.write_u8(3);
    proof { lemma_wrote_all_of_wrote(w0, *w, seq![3u8]); }
    let ghost wb = *w;
    write_trading_part1(w, s);
    proof { lemma_wrote_all_then(w0, wb, *w, true, seq![3u8], trading_fits1(*s), trading_bytes1(*s)); }
    let ghost wb = *w;
    write_trading_part2(w, s);
    proof { lemma_wrote_all_then(w0, wb, *w, trading_fits1(*s), seq![3u8] + trading_bytes1(*s), trading_fits2(*s), trading_bytes2(*s)); }
    let ghost wb = *w;
    write_trading_part3(w, s);
    proof { lemma_wrote_all_then(w0, wb, *w, trading_fits1(*s) && trading_fits2(*s), seq![3u8] + trading_bytes1(*s) + trading_bytes2(*s), trading_fits3(*s), trading_bytes3(*s)); }
    let ghost wb = *w;
    write_trading_part4(w, s);
    proof { lemma_wrote_all_then(w0, wb, *w, trading_fits1(*s) && trading_fits2(*s) && trading_fits3(*s), seq![3u8] + trading_bytes1(*s) + trading_bytes2(*s) + trading_bytes3(*s), trading_fits4(*s), trading_bytes4(*s)); }
    let ghost wb = *w;
    write_trading_part5(w, s);
    proof { lemma_wrote_all_then(w0, wb, *w, trading_fits1(*s) && trading_fits2(*s) && trading_fits3(*s) && trading_fits4(*s), seq![3u8] + trading_bytes1(*s) + trading_bytes2(*s) + trading_bytes3(*s) + trading_bytes4(*s), trading_fits5(*s), trading_bytes5(*s)); }
    let ghost wb = *w;
    write_trading_part6(w, s);
    proof { lemma_wrote_all_then(w0, wb, *w, trading_fits1(*s) && trading_fits2(*s) && trading_fits3(*s) && trading_fits4(*s) && trading_fits5(*s), seq![3u8] + trading_bytes1(*s) + trading_bytes2(*s) + trading_bytes3(*s) + trading_bytes4(*s) + trading_bytes5(*s), trading_fits6(*s), trading_bytes6(*s)); }
    let ghost wb = *w;
    write_trading_part7(w, s);
    proof { lemma_wrote_all_then(w0, wb, *w, trading_fits1(*s) && trading_fits2(*s) && trading_fits3(*s) && trading_fits4(*s) && trading_fits5(*s) && trading_fits6(*s), seq![3u8] + trading_bytes1(*s) + trading_bytes2(*s) + trading_bytes3(*s) + trading_bytes4(*s) + trading_bytes5(*s) + trading_bytes6(*s), trading_fits7(*s), trading_bytes7(*s)); }
    let ghost wb = *w;
    write_trading_part8(w, s);
    proof { lemma_wrote_all_then(w0, wb, *w, trading_fits1(*s) && trading_fits2(*s) && trading_fits3(*s) && trading_fits4(*s) && trading_fits5(*s) && trading_fits6(*s) && trading_fits7(*s), seq![3u8] + trading_bytes1(*s) + trading_bytes2(*s) + trading_bytes3(*s) + trading_bytes4(*s) + trading_bytes5(*s) + trading_bytes6(*s) + trading_bytes7(*s), trading_fits8(*s), trading_bytes8(*s)); }
    let ghost wb = *w;
    write_trading_part9(w, s);
    proof { lemma_wrote_all_then(w0, wb, *w, trading_fits1(*s) && trading_fits2(*s) && trading_fits3(*s) && trading_fits4(*s) && trading_fits5(*s) && trading_fits6(*s) && trading_fits7(*s) && trading_fits8(*s), seq![3u8] + trading_bytes1(*s) + trading_bytes2(*s) + trading_bytes3(*s) + trading_bytes4(*s) + trading_bytes5(*s) + trading_bytes6(*s) + trading_bytes7(*s) + trading_bytes8(*s), trading_fits9(*s), trading_bytes9(*s)); }
    let ghost wb = *w;
    w.write_bytes(s.unknown_tail.as_slice());
    proof {
        lemma_wrote_all_of_wrote(wb, *w, s.unknown_tail@);
        lemma_wrote_all_then(w0, wb, *w, trading_fits1(*s) && trading_fits2(*s) && trading_fits3(*s) && trading_fits4(*s) && trading_fits5(*s) && trading_fits6(*s) && trading_fits7(*s) && trading_fits8(*s) && trading_fits9(*s), seq![3u8] + trading_bytes1(*s) + trading_bytes2(*s) + trading_bytes3(*s) + trading_bytes4(*s) + trading_bytes5(*s) + trading_bytes6(*s) + trading_bytes7(*s) + trading_bytes8(*s) + trading_bytes9(*s), true, s.unknown_tail@);
    }
}

/// Reading back a written trading block gives the same section, when every
/// string fits its limit and the arbitrage record carries version `1`.
#[verifier::spinoff_prover]
#[verifier::rlimit(50)]
pub proof fn lemma_trading_roundtrip(s: TradingSection)
    requires
        trading_fits(s),
        s.arb_view_config.ver == 1,
    ensures
        trading_ok(trading_bytes(s), 0, trading_bytes(s).len() as int),
        trading_decoded(trading_bytes(s), 0, trading_bytes(s).len() as int, s),
{
    let d = trading_bytes(s);
    let be = d.len() as int;
    let q0 = seq![3u8];
    let q1 = q0 + trading_bytes1(s);
    let q2 = q1 + trading_bytes2(s);
    let q3 = q2 + trading_bytes3(s);
    let q4 = q3 + trading_bytes4(s);
    let q5 = q4 + trading_bytes5(s);
    let q6 = q5 + trading_bytes6(s);
    let q7 = q6 + trading_bytes7(s);
    let q8 = q7 + trading_bytes8(s);
    let q9 = q8 + trading_bytes9(s);
    assert(d == q9 + s.unknown_tail@);
    assert(d.subrange(0, d.len() as int) =~= d);
    lemma_parts_at(d, 0, q9, s.unknown_tail@);
    lemma_parts_at(d, 0, q8, trading_bytes9(s));
    lemma_parts_at(d, 0, q7, trading_bytes8(s));
    lemma_parts_at(d, 0, q6, trading_bytes7(s));
    lemma_parts_at(d, 0, q5, trading_bytes6(s));
    lemma_parts_at(d, 0, q4, trading_bytes5(s));
    lemma_parts_at(d, 0, q3, trading_bytes4(s));
    lemma_parts_at(d, 0, q2, trading_bytes3(s));
    lemma_parts_at(d, 0, q1, trading_bytes2(s));
    lemma_parts_at(d, 0, q0, trading_bytes1(s));
    assert(d[0] == q0[0]);
    lemma_trading_part1(s, d, 0, be);
    lemma_trading_part2(s, d, 0, be);
    lemma_trading_part3(s, d, 0, be);
    lemma_trading_part4(s, d, 0, be);
    lemma_trading_part5(s, d, 0, be);
    lemma_trading_part6(s, d, 0, be);
    lemma_trading_part7(s, d, 0, be);
    lemma_trading_part8(s, d, 0, be);
    lemma_trading_part9(s, d, 0, be);
    let q = q9.len() as int;
    if q >= d.len() {
        assert(s.unknown_tail@ =~= Seq::<u8>::empty());
    } else {
        assert(d.subrange(q, d.len() as int) == s.unknown_tail@);
    }
}

/// Where the `dbl_click_panic_sell` byte sits in a trading block body: after
/// the version byte, the first field group, both auto-start records, the
/// `fav_markets` string (a four-byte count and two bytes per UTF-16 unit),
/// the second field group and the MoonBot record.
pub open spec fn dbl_click_panic_sell_offset(s: TradingSection) -> int {
    1 + TRADING_RUN1_LEN + AUTO_START_CONFIG_LEN + AUTO_START_CONFIG2_LEN + 4 + 2 * utf16_encode(s.fav_markets@).len()
        + TRADING_RUN2_LEN + MOON_BOT_CONFIG_LEN
}

/// The first six field groups of a trading block body end where the
/// `dbl_click_panic_sell` byte begins.
proof fn lemma_trading_bytes1_len(s: TradingSection)
    ensures
        trading_bytes1(s).len() == dbl_click_panic_sell_offset(s) - 1,
{
    reveal(trading_bytes1);
    assert(trading_run1_bytes(trading_run1_of(s)).len() == TRADING_RUN1_LEN) by {
        lemma_trading_run1_roundtrip(trading_run1_of(s), Seq::<u8>::empty());
    }
    assert(auto_start_config_bytes(s.auto_start).len() == AUTO_START_CONFIG_LEN) by {
        lemma_auto_start_config_roundtrip(s.auto_start, Seq::<u8>::empty());
    }
    assert(auto_start_config2_bytes(s.auto_start_2).len() == AUTO_START_CONFIG2_LEN) by {
        lemma_auto_start_config2_roundtrip(s.auto_start_2, Seq::<u8>::empty());
    }
    assert(trading_run2_bytes(trading_run2_of(s)).len() == TRADING_RUN2_LEN) by {
        lemma_trading_run2_roundtrip(trading_run2_of(s), Seq::<u8>::empty());
    }
    assert(moon_bot_config_bytes(s.moonbot_config).len() == MOON_BOT_CONFIG_LEN) by {
        lemma_moon_bot_config_roundtrip(s.moonbot_config, Seq::<u8>::empty());
    }
    assert(string_x_bytes(s.fav_markets@).len() == 4 + 2 * utf16_encode(s.fav_markets@).len()) by {
        lemma_units_bytes_len(utf16_encode(s.fav_markets@));
    }
}

/// The written trading block body holds byte 1 for an enabled
/// `dbl_click_panic_sell` and byte 0 for a disabled one, at its place in the layout.
pub proof fn law_trading_writes_dbl_click_panic_sell(s: TradingSection)
    ensures
        dbl_click_panic_sell_offset(s) < trading_bytes(s).len(),
        trading_bytes(s)[dbl_click_panic_sell_offset(s)] == (if s.dbl_click_panic_sell { 1u8 } else { 0u8 }),
{
    lemma_trading_bytes1_len(s);
    let b1 = trading_bytes1(s);
    let b2 = trading_bytes2(s);
    assert(b2.len() > 0 && b2[0] == bool_byte(s.dbl_click_panic_sell)) by {
        reveal(trading_bytes2);
    }
    let i = dbl_click_panic_sell_offset(s);
    let p = seq![3u8] + b1 + b2;
    assert(p[i] == b2[0]);
    let d = trading_bytes(s);
    let rest = trading_bytes3(s) + trading_bytes4(s) + trading_bytes5(s) + trading_bytes6(s) + trading_bytes7(s)
        + trading_bytes8(s) + trading_bytes9(s) + s.unknown_tail@;
    assert(d.subrange(0, p.len() as int) =~= p);
    assert(d[i] == d.subrange(0, p.len() as int)[i]);
    reveal(bool_byte);
}

/// A read trading block body holds `dbl_click_panic_sell` exactly when the
/// byte at its place in the layout is nonzero.
pub proof fn law_trading_reads_dbl_click_panic_sell(d: Seq<u8>, be: int, s: TradingSection)
    requires
        trading_decoded(d, 0, be, s),
    ensures
        s.dbl_click_panic_sell == (d[trading_pos6(d, 0, be)] != 0),
{
    reveal(trading_got2);
    reveal(flag_of);
}

} // verus!
