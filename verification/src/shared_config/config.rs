//! The whole shared configuration: the six sections, the payload that carries
//! them, and the two text forms of that payload.

use crate::le::le_u32;
use crate::shared_config::clipboard::{
    base64_of, gzip_compress_spec, mbsc_frame_spec, mbsc_payload_spec, MAX_CLIPBOARD_TEXT_SIZE, mbshare_payload_spec, mbsc_from_payload, mbshare_from_payload,
    payload_from_mbsc, payload_from_mbshare,
};
use crate::shared_config::error::SharedConfigError;
use crate::shared_config::ini::{
    ini_at, ini_bytes, ini_names, ini_sections_fit, lemma_ini_roundtrip, lemma_theme_roundtrip, name_allowed,
    parse_ini, parse_theme, sections_view, theme_at, theme_bytes, theme_names, write_ini, write_theme, IniSection,
    ThemeSection,
};
use crate::shared_config::payload::{
    block_body, block_header_at, BlockInfo, header_bytes, parse_payload_header, payload_header, read_block_header,
    write_payload_header, HEADER_SIZE, KIND_INI, KIND_SIGNALS, KIND_THEME, KIND_TRADING, KIND_UI, KIND_VISUAL,
};
use crate::shared_config::reader::ConfigReader;
use crate::shared_config::signals::{
    lemma_parts_at, lemma_signals_roundtrip, parse_signals, signals_bytes, signals_decoded, signals_fit,
    signals_ok, write_signals, SignalsSection,
};
use crate::shared_config::trading::{
    lemma_trading_roundtrip, parse_trading, trading_bytes, trading_decoded, trading_fits, trading_ok,
    write_trading, TradingSection,
};
use crate::shared_config::float_records::{HotkeysConfig, MultiOrdersConfig, OrdersControl};
use crate::shared_config::records::AutoManageLevConfig;
use crate::shared_config::ui::{
    lemma_ui_roundtrip, parse_ui, ui_bytes, ui_decoded, ui_fits, ui_ok, write_ui, UiSection,
};
use crate::shared_config::visual::{
    lemma_visual_roundtrip, parse_visual, visual_bytes, visual_decoded, visual_fits, visual_ok, write_visual,
    VisualSection,
};
use crate::shared_config::writer::{
    begin_block, block_too_large_msg, end_block, lemma_block_written, lemma_wrote_all_meaning, lemma_wrote_all_then,
    ConfigWriter,
    MAX_BLOCK_SIZE, MAX_PAYLOAD_SIZE,
};
use vstd::prelude::*;
use vstd::string::StringSliceAdditionalSpecFns;

verus! {

broadcast use crate::le::group_le_len;

/// Full shared-config payload.  Six mandatory sections plus the catalog
/// version that was written into the wire header.
#[derive(Clone, Debug)]
pub struct SharedConfig {
    /// Core configuration catalog version carried by the source snapshot.
    ///
    /// This is not the safe-share format version. It is retained for exact
    /// roundtrips; application code reads it through
    /// [`SharedConfig::core_config_version`].
    pub config_version: u16,
    /// Signal sources, telegram parsing, detection autobuy, alert sounds.
    pub signals: SignalsSection,
    /// Order execution, risk management, auto-start, manual strategies,
    /// multi-orders, position control, commissions, leverage management.
    pub trading: TradingSection,
    /// Chart appearance, draw tools, orderbook display, candle style,
    /// volume indicators, heatmap, blink alerts, news form, font sizes.
    pub visual: VisualSection,
    /// Active color theme (light/dark) and per-theme INI color overrides.
    pub theme: ThemeSection,
    /// Chart indicator and arb-color INI key/value pairs.
    pub ini: IniSection,
    /// Hotkeys, markets table layout, main toolbar, strat editor state.
    pub ui: UiSection,
}

impl SharedConfig {
    /// Configuration catalog version reported by the core that produced this
    /// snapshot. The safe-share payload format is versioned separately.
    pub fn core_config_version(&self) -> (r: u16)
        ensures
            r == self.config_version,
    {
        self.config_version
    }
}

impl SharedConfig {
    /// Whether every field holds the value that [`SharedConfig::default`] gives.
    pub open spec fn is_default(&self) -> bool {
        &&& self.config_version == 164
        &&& self.signals.is_default()
        &&& self.trading.is_default()
        &&& self.visual.is_default()
        &&& self.theme.is_default()
        &&& self.ini.is_default()
        &&& self.ui.is_default()
    }
}

impl Default for SharedConfig {
    fn default() -> (r: Self)
        ensures
            r.is_default(),
    {
        SharedConfig {
            config_version: 164,
            signals: SignalsSection::default(),
            trading: TradingSection::default(),
            visual: VisualSection::default(),
            theme: ThemeSection::default(),
            ini: IniSection::default(),
            ui: UiSection::default(),
        }
    }
}

impl SharedConfig {
    /// Overlay fields from a compact client-settings snapshot onto this
    /// config.  Only the intersection is touched; fields that have no
    /// counterpart in the snapshot are left as-is.
    ///
    /// | Snapshot field | SharedConfig path |
    /// |---|---|
    /// | `x_sell` | `trading.x_sell` |
    /// | `x_sell_scalp` | `trading.x_sell_scalp` |
    /// | `x_tmode` | `trading.x_t_mode` |
    /// | `fixed_sell_mode` | `trading.fixed_sell_mode` |
    /// | `fixed_sell_price` | `trading.fixed_sell_price` |
    /// | `price_drop_level` | `trading.price_drop_level` |
    /// | `trailing_drop` | `trading.trailing_drop` |
    /// | `trailing_stop` | `trading.trailing_stop` |
    /// | `g_take_profit` | `trading.g_take_profit` |
    /// | `use_g_take_profit` | `trading.use_g_take_profit` |
    /// | `panic_if_price_drop` | `trading.panic_if_price_drop` |
    /// | `buy_iceberg` | `trading.buy_iceberg` |
    /// | `sell_iceberg` | `trading.sell_iceberg` |
    /// | `sign_orders` | `trading.orders_control.sign_orders` |
    /// | `coins_black_list_text` | `trading.coins_black_list_text` |
    /// | `use_coins_black_list` | `trading.use_coins_black_list` |
    /// | `use_manual_strategy` | `trading.use_manual_strategy` |
    /// | `free_position_check` | `trading.free_position_check` |
    /// | `vol_drop_level` | `trading.vol_drop_level` |
    /// | `use_stop_market` | `trading.use_stop_market` |
    /// | `s_price` | `ui.hotkeys_config.s_price` |
    /// | `sb_num` | `ui.hotkeys_config.sb_num` |
    /// | `join_sell_kind` | `trading.multi_orders.join_sell_kind` |
    ///
    /// Decimal values are passed as their IEEE-754 bits, as the sections hold
    /// them. Not absorbed: `emu_mode`, `temp_bl_symbols`, `temp_bl_times`,
    /// `manual_strategy_id` (it needs the strategy's name).
    #[verifier::spinoff_prover]
    #[verifier::rlimit(100)]
    pub fn absorb_client_settings_raw(
        &mut self,
        x_sell: i32,
        x_sell_scalp: i32,
        x_tmode: bool,
        fixed_sell_mode: bool,
        fixed_sell_price: u64,
        price_drop_level: u32,
        trailing_drop: u32,
        trailing_stop: bool,
        g_take_profit: u64,
        use_g_take_profit: bool,
        panic_if_price_drop: bool,
        buy_iceberg: bool,
        sell_iceberg: bool,
        sign_orders: bool,
        coins_black_list_text: &str,
        use_coins_black_list: bool,
        use_manual_strategy: bool,
        free_position_check: bool,
        vol_drop_level: i32,
        use_stop_market: bool,
        s_price: &[u32; 6],
        sb_num: u8,
        join_sell_kind: u8,
    )
        ensures
            final(self).config_version == old(self).config_version,
            final(self).signals == old(self).signals,
            final(self).visual == old(self).visual,
            final(self).theme == old(self).theme,
            final(self).ini == old(self).ini,
            final(self).trading.coins_black_list_text@ == coins_black_list_text@,
            final(self).trading == (TradingSection {
                x_sell,
                x_sell_scalp,
                x_t_mode: x_tmode,
                fixed_sell_mode,
                fixed_sell_price,
                price_drop_level,
                trailing_drop,
                trailing_stop,
                g_take_profit,
                use_g_take_profit,
                panic_if_price_drop,
                buy_iceberg,
                sell_iceberg,
                orders_control: OrdersControl { sign_orders, ..old(self).trading.orders_control },
                coins_black_list_text: final(self).trading.coins_black_list_text,
                use_coins_black_list,
                use_manual_strategy,
                free_position_check,
                vol_drop_level,
                use_stop_market,
                multi_orders: MultiOrdersConfig { join_sell_kind, ..old(self).trading.multi_orders },
                ..old(self).trading
            }),
            final(self).ui == (UiSection {
                hotkeys_config: HotkeysConfig { s_price: *s_price, sb_num, ..old(self).ui.hotkeys_config },
                ..old(self).ui
            }),
    {
        self.trading.x_sell = x_sell;
        self.trading.x_sell_scalp = x_sell_scalp;
        self.trading.x_t_mode = x_tmode;
        self.trading.fixed_sell_mode = fixed_sell_mode;
        self.trading.fixed_sell_price = fixed_sell_price;
        self.trading.price_drop_level = price_drop_level;
        self.trading.trailing_drop = trailing_drop;
        self.trading.trailing_stop = trailing_stop;
        self.trading.g_take_profit = g_take_profit;
        self.trading.use_g_take_profit = use_g_take_profit;
        self.trading.panic_if_price_drop = panic_if_price_drop;
        self.trading.buy_iceberg = buy_iceberg;
        self.trading.sell_iceberg = sell_iceberg;
        self.trading.orders_control.sign_orders = sign_orders;
        self.trading.coins_black_list_text = coins_black_list_text.to_owned();
        self.trading.use_coins_black_list = use_coins_black_list;
        self.trading.use_manual_strategy = use_manual_strategy;
        self.trading.free_position_check = free_position_check;
        self.trading.vol_drop_level = vol_drop_level;
        self.trading.use_stop_market = use_stop_market;
        self.ui.hotkeys_config.s_price = *s_price;
        self.ui.hotkeys_config.sb_num = sb_num;
        self.trading.multi_orders.join_sell_kind = join_sell_kind;
    }

    /// Overlay leverage-management fields from a leverage-management snapshot.
    ///
    /// | Snapshot field | SharedConfig path |
    /// |---|---|
    /// | `auto_max_order` | `trading.auto_manage_lev.auto_max_order` |
    /// | `auto_lev_up` | `trading.auto_manage_lev.auto_lev_up` |
    /// | `auto_isolated` | `trading.auto_manage_lev.auto_isolated` |
    /// | `auto_cross` | `trading.auto_manage_lev.auto_cross` |
    /// | `auto_fix_lev` | `trading.auto_manage_lev.auto_fix_lev` |
    /// | `fix_lev` | `trading.auto_manage_lev.fix_lev` |
    /// | `tlg_report` | `trading.auto_manage_lev.tlg_report` |
    /// | `lev_control` | `trading.auto_lev_control` |
    #[verifier::spinoff_prover]
    #[verifier::rlimit(100)]
    pub fn absorb_lev_manage_raw(
        &mut self,
        auto_max_order: bool,
        auto_lev_up: bool,
        auto_isolated: bool,
        auto_cross: bool,
        auto_fix_lev: bool,
        fix_lev: i32,
        tlg_report: bool,
        lev_control: &str,
    )
        ensures
            final(self).config_version == old(self).config_version,
            final(self).signals == old(self).signals,
            final(self).visual == old(self).visual,
            final(self).theme == old(self).theme,
            final(self).ini == old(self).ini,
            final(self).ui == old(self).ui,
            final(self).trading.auto_lev_control@ == lev_control@,
            final(self).trading == (TradingSection {
                auto_manage_lev: AutoManageLevConfig {
                    auto_max_order,
                    auto_lev_up,
                    auto_isolated,
                    auto_cross,
                    auto_fix_lev,
                    fix_lev,
                    tlg_report,
                    ..old(self).trading.auto_manage_lev
                },
                auto_lev_control: final(self).trading.auto_lev_control,
                ..old(self).trading
            }),
    {
        self.trading.auto_manage_lev.auto_max_order = auto_max_order;
        self.trading.auto_manage_lev.auto_lev_up = auto_lev_up;
        self.trading.auto_manage_lev.auto_isolated = auto_isolated;
        self.trading.auto_manage_lev.auto_cross = auto_cross;
        self.trading.auto_manage_lev.auto_fix_lev = auto_fix_lev;
        self.trading.auto_manage_lev.fix_lev = fix_lev;
        self.trading.auto_manage_lev.tlg_report = tlg_report;
        self.trading.auto_lev_control = lev_control.to_owned();
    }
}

// ---------------------------------------------------------------------------
// Writing
// ---------------------------------------------------------------------------

/// Bytes of a block of `kind` with body `body`: the kind, the body size, the body.
pub open spec fn block_bytes(kind: u8, body: Seq<u8>) -> Seq<u8> {
    seq![kind] + le_u32(body.len() as u32) + body
}

/// Bytes of the payload of `c`: the header, then the six sections in kind order.
pub open spec fn payload_bytes(c: SharedConfig) -> Seq<u8> {
    header_bytes(c.config_version) + block_bytes(KIND_SIGNALS, signals_bytes(c.signals)) + block_bytes(
        KIND_TRADING,
        trading_bytes(c.trading),
    ) + block_bytes(KIND_VISUAL, visual_bytes(c.visual)) + block_bytes(KIND_THEME, theme_bytes(c.theme))
        + block_bytes(KIND_INI, ini_bytes(c.ini)) + block_bytes(KIND_UI, ui_bytes(c.ui))
}

/// Whether every string, list and ini section of `c` fits its limit.
pub open spec fn sections_fit(c: SharedConfig) -> bool {
    &&& signals_fit(c.signals)
    &&& trading_fits(c.trading)
    &&& visual_fits(c.visual)
    &&& ini_sections_fit(sections_view(c.theme.ini_sections@))
    &&& ini_sections_fit(sections_view(c.ini.ini_sections@))
    &&& ui_fits(c.ui)
}

/// Whether every section body of `c` fits the block limit.
pub open spec fn bodies_fit(c: SharedConfig) -> bool {
    &&& signals_bytes(c.signals).len() <= MAX_BLOCK_SIZE
    &&& trading_bytes(c.trading).len() <= MAX_BLOCK_SIZE
    &&& visual_bytes(c.visual).len() <= MAX_BLOCK_SIZE
    &&& theme_bytes(c.theme).len() <= MAX_BLOCK_SIZE
    &&& ini_bytes(c.ini).len() <= MAX_BLOCK_SIZE
    &&& ui_bytes(c.ui).len() <= MAX_BLOCK_SIZE
}

/// Whether `c` can be serialized: its parts fit their limits, each section
/// fits a block and the whole payload fits the payload limit.
pub open spec fn payload_writable(c: SharedConfig) -> bool {
    &&& sections_fit(c)
    &&& bodies_fit(c)
    &&& payload_bytes(c).len() <= MAX_PAYLOAD_SIZE
}

/// Write the signals section as a block: its kind, its body size, its body.
fn write_signals_block(w: &mut ConfigWriter, s: &SignalsSection)
    requires
        old(w).wf(),
        old(w).open_block() is None,
    ensures
        final(w).wrote_all(old(w), signals_fit(*s) && signals_bytes(*s).len() <= MAX_BLOCK_SIZE, block_bytes(KIND_SIGNALS, signals_bytes(*s))),
        !old(w).failed() && signals_fit(*s) && signals_bytes(*s).len() > MAX_BLOCK_SIZE && old(w).written().len() + 5 + signals_bytes(*s).len()
            <= MAX_PAYLOAD_SIZE ==> final(w).failed() && final(w).fault() == block_too_large_msg(),
{
    let ghost w0 = *w;
    let sp = begin_block(w, KIND_SIGNALS);
    let ghost w1 = *w;
    write_signals(w, s);
    let ghost w2 = *w;
    proof {
        lemma_wrote_all_meaning(w1, w2, signals_fit(*s), signals_bytes(*s));
    }
    end_block(w, sp);
    proof {
        lemma_block_written(w0, w1, w2, *w, KIND_SIGNALS, sp, signals_fit(*s), signals_bytes(*s));
    }
}

/// Write the trading section as a block: its kind, its body size, its body.
fn write_trading_block(w: &mut ConfigWriter, s: &TradingSection)
    requires
        old(w).wf(),
        old(w).open_block() is None,
    ensures
        final(w).wrote_all(old(w), trading_fits(*s) && trading_bytes(*s).len() <= MAX_BLOCK_SIZE, block_bytes(KIND_TRADING, trading_bytes(*s))),
        !old(w).failed() && trading_fits(*s) && trading_bytes(*s).len() > MAX_BLOCK_SIZE && old(w).written().len() + 5 + trading_bytes(*s).len()
            <= MAX_PAYLOAD_SIZE ==> final(w).failed() && final(w).fault() == block_too_large_msg(),
{
    let ghost w0 = *w;
    let sp = begin_block(w, KIND_TRADING);
    let ghost w1 = *w;
    write_trading(w, s);
    let ghost w2 = *w;
    proof {
        lemma_wrote_all_meaning(w1, w2, trading_fits(*s), trading_bytes(*s));
    }
    end_block(w, sp);
    proof {
        lemma_block_written(w0, w1, w2, *w, KIND_TRADING, sp, trading_fits(*s), trading_bytes(*s));
    }
}

/// Write the visual section as a block: its kind, its body size, its body.
fn write_visual_block(w: &mut ConfigWriter, s: &VisualSection)
    requires
        old(w).wf(),
        old(w).open_block() is None,
    ensures
        final(w).wrote_all(old(w), visual_fits(*s) && visual_bytes(*s).len() <= MAX_BLOCK_SIZE, block_bytes(KIND_VISUAL, visual_bytes(*s))),
        !old(w).failed() && visual_fits(*s) && visual_bytes(*s).len() > MAX_BLOCK_SIZE && old(w).written().len() + 5 + visual_bytes(*s).len()
            <= MAX_PAYLOAD_SIZE ==> final(w).failed() && final(w).fault() == block_too_large_msg(),
{
    let ghost w0 = *w;
    let sp = begin_block(w, KIND_VISUAL);
    let ghost w1 = *w;
    write_visual(w, s);
    let ghost w2 = *w;
    proof {
        lemma_wrote_all_meaning(w1, w2, visual_fits(*s), visual_bytes(*s));
    }
    end_block(w, sp);
    proof {
        lemma_block_written(w0, w1, w2, *w, KIND_VISUAL, sp, visual_fits(*s), visual_bytes(*s));
    }
}

/// Write the theme section as a block: its kind, its body size, its body.
fn write_theme_block(w: &mut ConfigWriter, s: &ThemeSection)
    requires
        old(w).wf(),
        old(w).open_block() is None,
    ensures
        final(w).wrote_all(old(w), ini_sections_fit(sections_view(s.ini_sections@)) && theme_bytes(*s).len() <= MAX_BLOCK_SIZE, block_bytes(KIND_THEME, theme_bytes(*s))),
        !old(w).failed() && ini_sections_fit(sections_view(s.ini_sections@)) && theme_bytes(*s).len() > MAX_BLOCK_SIZE && old(w).written().len() + 5 + theme_bytes(*s).len()
            <= MAX_PAYLOAD_SIZE ==> final(w).failed() && final(w).fault() == block_too_large_msg(),
{
    let ghost w0 = *w;
    let sp = begin_block(w, KIND_THEME);
    let ghost w1 = *w;
    write_theme(w, s);
    let ghost w2 = *w;
    proof {
        lemma_wrote_all_meaning(w1, w2, ini_sections_fit(sections_view(s.ini_sections@)), theme_bytes(*s));
    }
    end_block(w, sp);
    proof {
        lemma_block_written(w0, w1, w2, *w, KIND_THEME, sp, ini_sections_fit(sections_view(s.ini_sections@)), theme_bytes(*s));
    }
}

/// Write the ini section as a block: its kind, its body size, its body.
fn write_ini_block(w: &mut ConfigWriter, s: &IniSection)
    requires
        old(w).wf(),
        old(w).open_block() is None,
    ensures
        final(w).wrote_all(old(w), ini_sections_fit(sections_view(s.ini_sections@)) && ini_bytes(*s).len() <= MAX_BLOCK_SIZE, block_bytes(KIND_INI, ini_bytes(*s))),
        !old(w).failed() && ini_sections_fit(sections_view(s.ini_sections@)) && ini_bytes(*s).len() > MAX_BLOCK_SIZE && old(w).written().len() + 5 + ini_bytes(*s).len()
            <= MAX_PAYLOAD_SIZE ==> final(w).failed() && final(w).fault() == block_too_large_msg(),
{
    let ghost w0 = *w;
    let sp = begin_block(w, KIND_INI);
    let ghost w1 = *w;
    write_ini(w, s);
    let ghost w2 = *w;
    proof {
        lemma_wrote_all_meaning(w1, w2, ini_sections_fit(sections_view(s.ini_sections@)), ini_bytes(*s));
    }
    end_block(w, sp);
    proof {
        lemma_block_written(w0, w1, w2, *w, KIND_INI, sp, ini_sections_fit(sections_view(s.ini_sections@)), ini_bytes(*s));
    }
}

/// Write the ui section as a block: its kind, its body size, its body.
fn write_ui_block(w: &mut ConfigWriter, s: &UiSection)
    requires
        old(w).wf(),
        old(w).open_block() is None,
    ensures
        final(w).wrote_all(old(w), ui_fits(*s) && ui_bytes(*s).len() <= MAX_BLOCK_SIZE, block_bytes(KIND_UI, ui_bytes(*s))),
        !old(w).failed() && ui_fits(*s) && ui_bytes(*s).len() > MAX_BLOCK_SIZE && old(w).written().len() + 5 + ui_bytes(*s).len()
            <= MAX_PAYLOAD_SIZE ==> final(w).failed() && final(w).fault() == block_too_large_msg(),
{
    let ghost w0 = *w;
    let sp = begin_block(w, KIND_UI);
    let ghost w1 = *w;
    write_ui(w, s);
    let ghost w2 = *w;
    proof {
        lemma_wrote_all_meaning(w1, w2, ui_fits(*s), ui_bytes(*s));
    }
    end_block(w, sp);
    proof {
        lemma_block_written(w0, w1, w2, *w, KIND_UI, sp, ui_fits(*s), ui_bytes(*s));
    }
}

/// One block written on the way to a payload with an oversized block: a
/// writer that failed keeps the block-size message, and one that did not
/// still has room for the rest and an oversized block ahead.
proof fn lemma_oversized_block_step(
    prev: ConfigWriter,
    next: ConfigWriter,
    fits: bool,
    b: Seq<u8>,
    body_len: nat,
    rest: nat,
    big_later: bool,
)
    requires
        prev.open_block() is None,
        next.wrote_all(&prev, fits && body_len <= MAX_BLOCK_SIZE, b),
        b.len() == 5 + body_len,
        fits,
        !prev.failed() && fits && body_len > MAX_BLOCK_SIZE && prev.written().len() + 5 + body_len <= MAX_PAYLOAD_SIZE
            ==> next.failed() && next.fault() == block_too_large_msg(),
        prev.failed() ==> prev.fault() == block_too_large_msg(),
        !prev.failed() ==> prev.written().len() + b.len() + rest <= MAX_PAYLOAD_SIZE && (body_len > MAX_BLOCK_SIZE || big_later),
    ensures
        next.open_block() is None,
        next.failed() ==> next.fault() == block_too_large_msg(),
        !next.failed() ==> next.written().len() + rest <= MAX_PAYLOAD_SIZE && big_later,
{
    lemma_wrote_all_meaning(prev, next, fits && body_len <= MAX_BLOCK_SIZE, b);
}

/// Serialize a [`SharedConfig`] into a raw (uncompressed) payload.
///
/// Length limits are checked while writing, before a section can grow beyond
/// the bounds accepted by the core reader.
#[verifier::spinoff_prover]
#[verifier::rlimit(40)]
pub fn serialize_payload(cfg: &SharedConfig) -> (res: Result<Vec<u8>, SharedConfigError>)
    ensures
        res is Ok <==> payload_writable(*cfg),
        res matches Ok(v) ==> v@ == payload_bytes(*cfg),
        sections_fit(*cfg) && !bodies_fit(*cfg) && payload_bytes(*cfg).len() <= MAX_PAYLOAD_SIZE ==> (res matches Err(e)
            && e@ == block_too_large_msg()),
{
    let mut w = ConfigWriter::new();
    let ghost w0 = w;
    write_payload_header(&mut w, cfg.config_version);
    let ghost h = header_bytes(cfg.config_version);
    let ghost b1 = block_bytes(KIND_SIGNALS, signals_bytes(cfg.signals));
    let ghost b2 = block_bytes(KIND_TRADING, trading_bytes(cfg.trading));
    let ghost b3 = block_bytes(KIND_VISUAL, visual_bytes(cfg.visual));
    let ghost b4 = block_bytes(KIND_THEME, theme_bytes(cfg.theme));
    let ghost b5 = block_bytes(KIND_INI, ini_bytes(cfg.ini));
    let ghost b6 = block_bytes(KIND_UI, ui_bytes(cfg.ui));
    let ghost f1 = signals_fit(cfg.signals) && signals_bytes(cfg.signals).len() <= MAX_BLOCK_SIZE;
    let ghost f2 = trading_fits(cfg.trading) && trading_bytes(cfg.trading).len() <= MAX_BLOCK_SIZE;
    let ghost f3 = visual_fits(cfg.visual) && visual_bytes(cfg.visual).len() <= MAX_BLOCK_SIZE;
    let ghost f4 = ini_sections_fit(sections_view(cfg.theme.ini_sections@)) && theme_bytes(cfg.theme).len() <= MAX_BLOCK_SIZE;
    let ghost f5 = ini_sections_fit(sections_view(cfg.ini.ini_sections@)) && ini_bytes(cfg.ini).len() <= MAX_BLOCK_SIZE;
    let ghost f6 = ui_fits(cfg.ui) && ui_bytes(cfg.ui).len() <= MAX_BLOCK_SIZE;
    let ghost wa = w;
    proof { lemma_wrote_all_meaning(w0, wa, true, h); }
    let ghost v0 = w;
    write_signals_block(&mut w, &cfg.signals);
    let ghost u1 = w;
    proof { lemma_wrote_all_then(w0, wa, w, true, h, f1, b1); }
    let ghost wa = w;
    proof { lemma_wrote_all_meaning(w0, wa, f1, h + b1); }
    let ghost v1 = w;
    write_trading_block(&mut w, &cfg.trading);
    let ghost u2 = w;
    proof { lemma_wrote_all_then(w0, wa, w, f1, h + b1, f2, b2); }
    let ghost wa = w;
    proof { lemma_wrote_all_meaning(w0, wa, f1 && f2, h + b1 + b2); }
    let ghost v2 = w;
    write_visual_block(&mut w, &cfg.visual);
    let ghost u3 = w;
    proof { lemma_wrote_all_then(w0, wa, w, f1 && f2, h + b1 + b2, f3, b3); }
    let ghost wa = w;
    proof { lemma_wrote_all_meaning(w0, wa, f1 && f2 && f3, h + b1 + b2 + b3); }
    let ghost v3 = w;
    write_theme_block(&mut w, &cfg.theme);
    let ghost u4 = w;
    proof { lemma_wrote_all_then(w0, wa, w, f1 && f2 && f3, h + b1 + b2 + b3, f4, b4); }
    let ghost wa = w;
    proof { lemma_wrote_all_meaning(w0, wa, f1 && f2 && f3 && f4, h + b1 + b2 + b3 + b4); }
    let ghost v4 = w;
    write_ini_block(&mut w, &cfg.ini);
    let ghost u5 = w;
    proof { lemma_wrote_all_then(w0, wa, w, f1 && f2 && f3 && f4, h + b1 + b2 + b3 + b4, f5, b5); }
    let ghost wa = w;
    proof { lemma_wrote_all_meaning(w0, wa, f1 && f2 && f3 && f4 && f5, h + b1 + b2 + b3 + b4 + b5); }
    let ghost v5 = w;
    write_ui_block(&mut w, &cfg.ui);
    let ghost u6 = w;
    proof {
        lemma_wrote_all_then(w0, wa, w, f1 && f2 && f3 && f4 && f5, h + b1 + b2 + b3 + b4 + b5, f6, b6);
        lemma_wrote_all_meaning(w0, w, f1 && f2 && f3 && f4 && f5 && f6, h + b1 + b2 + b3 + b4 + b5 + b6);
        assert(payload_bytes(*cfg) == h + b1 + b2 + b3 + b4 + b5 + b6);
        assert(sections_fit(*cfg) && !bodies_fit(*cfg) && payload_bytes(*cfg).len() <= MAX_PAYLOAD_SIZE ==> w.failed()
            && w.fault() == block_too_large_msg()) by {
            if sections_fit(*cfg) && !bodies_fit(*cfg) && payload_bytes(*cfg).len() <= MAX_PAYLOAD_SIZE {
                let (s1, s2, s3) = (signals_bytes(cfg.signals), trading_bytes(cfg.trading), visual_bytes(cfg.visual));
                let (s4, s5, s6) = (theme_bytes(cfg.theme), ini_bytes(cfg.ini), ui_bytes(cfg.ui));
                let (g2, g3) = (s2.len() > MAX_BLOCK_SIZE, s3.len() > MAX_BLOCK_SIZE);
                let (g4, g5, g6) = (s4.len() > MAX_BLOCK_SIZE, s5.len() > MAX_BLOCK_SIZE, s6.len() > MAX_BLOCK_SIZE);
                lemma_wrote_all_meaning(w0, v0, true, h);
                lemma_oversized_block_step(v0, u1, signals_fit(cfg.signals), b1, s1.len(), b2.len() + b3.len() + b4.len() + b5.len() + b6.len(), g2 || g3 || g4 || g5 || g6);
                lemma_oversized_block_step(u1, u2, trading_fits(cfg.trading), b2, s2.len(), b3.len() + b4.len() + b5.len() + b6.len(), g3 || g4 || g5 || g6);
                lemma_oversized_block_step(u2, u3, visual_fits(cfg.visual), b3, s3.len(), b4.len() + b5.len() + b6.len(), g4 || g5 || g6);
                lemma_oversized_block_step(u3, u4, ini_sections_fit(sections_view(cfg.theme.ini_sections@)), b4, s4.len(), b5.len() + b6.len(), g5 || g6);
                lemma_oversized_block_step(u4, u5, ini_sections_fit(sections_view(cfg.ini.ini_sections@)), b5, s5.len(), b6.len(), g6);
                lemma_oversized_block_step(u5, u6, ui_fits(cfg.ui), b6, s6.len(), 0, false);
            }
        }
    }
    w.finish()
}

// ---------------------------------------------------------------------------
// Reading
// ---------------------------------------------------------------------------

/// The blocks from `p` on, as kind, body start and block end, up to the end
/// of the data or up to a block header that is refused, with its reason.
pub open spec fn blocks_from(d: Seq<u8>, p: int) -> (Seq<(u8, int, int)>, Option<Seq<char>>)
    decreases d.len() - p,
{
    match block_header_at(d, p) {
        Err(m) => (Seq::empty(), Some(m)),
        Ok(None) => (Seq::empty(), None),
        Ok(Some((k, s, e))) => if p < e <= d.len() {
            let rest = blocks_from(d, e);
            (seq![(k, s, e)] + rest.0, rest.1)
        } else {
            (Seq::empty(), None)
        },
    }
}

/// The blocks of a payload.
pub open spec fn payload_blocks(d: Seq<u8>) -> Seq<(u8, int, int)> {
    blocks_from(d, HEADER_SIZE as int).0
}

/// Whether the body of block `b` is a well-formed section of its kind;
/// a block of another kind is skipped.
#[verifier::opaque]
pub open spec fn block_ok(d: Seq<u8>, b: (u8, int, int)) -> bool {
    let body = d.subrange(b.1, b.2);
    let n = body.len() as int;
    if b.0 == KIND_SIGNALS {
        signals_ok(body, 0)
    } else if b.0 == KIND_TRADING {
        trading_ok(body, 0, n)
    } else if b.0 == KIND_VISUAL {
        visual_ok(body, 0, n)
    } else if b.0 == KIND_THEME {
        theme_at(body, 0, n) is Ok
    } else if b.0 == KIND_INI {
        ini_at(body, 0, n) is Ok
    } else if b.0 == KIND_UI {
        ui_ok(body, 0, n)
    } else {
        true
    }
}

/// Body start and block end of the last block of `kind`.
pub open spec fn last_block(bs: Seq<(u8, int, int)>, kind: u8) -> Option<(int, int)>
    decreases bs.len(),
{
    if bs.len() == 0 {
        None
    } else if bs.last().0 == kind {
        Some((bs.last().1, bs.last().2))
    } else {
        last_block(bs.drop_last(), kind)
    }
}

/// Whether every block of a payload holds a well-formed section of its kind.
pub open spec fn blocks_all_ok(d: Seq<u8>) -> bool {
    forall|i: int| 0 <= i < payload_blocks(d).len() ==> block_ok(d, #[trigger] payload_blocks(d)[i])
}

/// Whether a payload can be read: its header is accepted, every block header
/// is accepted, every block of a known kind holds a well-formed section and
/// each of the six kinds occurs.
pub open spec fn payload_ok(d: Seq<u8>) -> bool {
    let bs = payload_blocks(d);
    &&& payload_header(d) is Ok
    &&& blocks_from(d, HEADER_SIZE as int).1 is None
    &&& forall|i: int| 0 <= i < bs.len() ==> block_ok(d, #[trigger] bs[i])
    &&& last_block(bs, KIND_SIGNALS) is Some
    &&& last_block(bs, KIND_TRADING) is Some
    &&& last_block(bs, KIND_VISUAL) is Some
    &&& last_block(bs, KIND_THEME) is Some
    &&& last_block(bs, KIND_INI) is Some
    &&& last_block(bs, KIND_UI) is Some
}

/// Whether `s` is the signals section in `body`.
pub open spec fn signals_holds(body: Seq<u8>, s: SignalsSection) -> bool {
    signals_decoded(body, 0, body.len() as int, s)
}

/// Whether `t` is the trading section in `body`.
pub open spec fn trading_holds(body: Seq<u8>, t: TradingSection) -> bool {
    trading_decoded(body, 0, body.len() as int, t)
}

/// Whether `v` is the visual section in `body`.
pub open spec fn visual_holds(body: Seq<u8>, v: VisualSection) -> bool {
    visual_decoded(body, 0, body.len() as int, v)
}

/// Whether `t` is the theme section in `body`.
pub open spec fn theme_holds(body: Seq<u8>, t: ThemeSection) -> bool {
    theme_at(body, 0, body.len() as int) == Ok::<
        (i32, Seq<(Seq<char>, Seq<(Seq<char>, Seq<char>)>)>, Seq<u8>),
        Seq<char>,
    >((t.current_style, sections_view(t.ini_sections@), t.unknown_tail@))
}

/// Whether `i` is the ini section in `body`.
pub open spec fn ini_holds(body: Seq<u8>, i: IniSection) -> bool {
    ini_at(body, 0, body.len() as int) == Ok::<
        (Seq<(Seq<char>, Seq<(Seq<char>, Seq<char>)>)>, Seq<u8>),
        Seq<char>,
    >((sections_view(i.ini_sections@), i.unknown_tail@))
}

/// Whether `u` is the ui section in `body`.
pub open spec fn ui_holds(body: Seq<u8>, u: UiSection) -> bool {
    ui_decoded(body, 0, body.len() as int, u)
}

/// Whether `c` is what payload `d` holds: the catalog version of its header,
/// and for each kind the section in the last block of that kind.
pub open spec fn payload_holds(d: Seq<u8>, c: SharedConfig) -> bool {
    let bs = payload_blocks(d);
    &&& payload_header(d) == Ok::<u16, Seq<char>>(c.config_version)
    &&& last_block(bs, KIND_SIGNALS) matches Some((a, b)) && signals_holds(d.subrange(a, b), c.signals)
    &&& last_block(bs, KIND_TRADING) matches Some((a, b)) && trading_holds(d.subrange(a, b), c.trading)
    &&& last_block(bs, KIND_VISUAL) matches Some((a, b)) && visual_holds(d.subrange(a, b), c.visual)
    &&& last_block(bs, KIND_THEME) matches Some((a, b)) && theme_holds(d.subrange(a, b), c.theme)
    &&& last_block(bs, KIND_INI) matches Some((a, b)) && ini_holds(d.subrange(a, b), c.ini)
    &&& last_block(bs, KIND_UI) matches Some((a, b)) && ui_holds(d.subrange(a, b), c.ui)
}

/// The last block of a kind after one more block.
proof fn lemma_last_block_push(bs: Seq<(u8, int, int)>, x: (u8, int, int), kind: u8)
    ensures
        last_block(bs.push(x), kind) == (if x.0 == kind {
            Some((x.1, x.2))
        } else {
            last_block(bs, kind)
        }),
{
    assert(bs.push(x).drop_last() =~= bs);
}

/// The sections found so far while reading a payload.
struct Found {
    signals: Option<SignalsSection>,
    trading: Option<TradingSection>,
    visual: Option<VisualSection>,
    theme: Option<ThemeSection>,
    ini: Option<IniSection>,
    ui: Option<UiSection>,
}

/// Whether `f` holds, for each kind, the section of the last block of that
/// kind among `seen`, and nothing for a kind that has no block there.
#[verifier::opaque]
spec fn found_matches(d: Seq<u8>, seen: Seq<(u8, int, int)>, f: Found) -> bool {
    &&& f.signals is Some <==> last_block(seen, KIND_SIGNALS) is Some
    &&& last_block(seen, KIND_SIGNALS) matches Some((a, b)) ==> (f.signals matches Some(s) && signals_holds(d.subrange(a, b), s))
    &&& f.trading is Some <==> last_block(seen, KIND_TRADING) is Some
    &&& last_block(seen, KIND_TRADING) matches Some((a, b)) ==> (f.trading matches Some(s) && trading_holds(d.subrange(a, b), s))
    &&& f.visual is Some <==> last_block(seen, KIND_VISUAL) is Some
    &&& last_block(seen, KIND_VISUAL) matches Some((a, b)) ==> (f.visual matches Some(s) && visual_holds(d.subrange(a, b), s))
    &&& f.theme is Some <==> last_block(seen, KIND_THEME) is Some
    &&& last_block(seen, KIND_THEME) matches Some((a, b)) ==> (f.theme matches Some(s) && theme_holds(d.subrange(a, b), s))
    &&& f.ini is Some <==> last_block(seen, KIND_INI) is Some
    &&& last_block(seen, KIND_INI) matches Some((a, b)) ==> (f.ini matches Some(s) && ini_holds(d.subrange(a, b), s))
    &&& f.ui is Some <==> last_block(seen, KIND_UI) is Some
    &&& last_block(seen, KIND_UI) matches Some((a, b)) ==> (f.ui matches Some(s) && ui_holds(d.subrange(a, b), s))
}

/// Read the section in the block of `kind` whose body `info` delimits, when
/// the kind is known, keeping it as the latest of its kind; a block of
/// another kind is skipped.
#[verifier::spinoff_prover]
#[verifier::rlimit(60)]
fn take_block(data: &[u8], kind: u8, info: BlockInfo, f: &mut Found, Ghost(seen): Ghost<Seq<(u8, int, int)>>) -> (res: Result<(), SharedConfigError>)
    requires
        info.body_start <= info.block_end <= data@.len(),
        found_matches(data@, seen, *old(f)),
    ensures
        res is Ok <==> block_ok(data@, (kind, info.body_start as int, info.block_end as int)),
        res is Ok ==> found_matches(data@, seen.push((kind, info.body_start as int, info.block_end as int)), *final(f)),
{
    let ghost x = (kind, info.body_start as int, info.block_end as int);
    proof {
        reveal(found_matches);
        reveal(block_ok);
        lemma_last_block_push(seen, x, KIND_SIGNALS);
        lemma_last_block_push(seen, x, KIND_TRADING);
        lemma_last_block_push(seen, x, KIND_VISUAL);
        lemma_last_block_push(seen, x, KIND_THEME);
        lemma_last_block_push(seen, x, KIND_INI);
        lemma_last_block_push(seen, x, KIND_UI);
    }
    let body = block_body(data, info);
    let n = body.len();
    let mut br = ConfigReader::new(body);
    if kind == KIND_SIGNALS {
        let s = parse_signals(&mut br, n)?;
        f.signals = Some(s);
    } else if kind == KIND_TRADING {
        let s = parse_trading(&mut br, n)?;
        f.trading = Some(s);
    } else if kind == KIND_VISUAL {
        let s = parse_visual(&mut br, n)?;
        f.visual = Some(s);
    } else if kind == KIND_THEME {
        let s = parse_theme(&mut br, n)?;
        f.theme = Some(s);
    } else if kind == KIND_INI {
        let s = parse_ini(&mut br, n)?;
        f.ini = Some(s);
    } else if kind == KIND_UI {
        let s = parse_ui(&mut br, n)?;
        f.ui = Some(s);
    }
    Ok(())
}

/// Parse a raw (uncompressed) shared-config payload into [`SharedConfig`].
#[verifier::spinoff_prover]
#[verifier::rlimit(60)]
pub fn parse_payload(data: &[u8]) -> (res: Result<SharedConfig, SharedConfigError>)
    ensures
        payload_ok(data@) ==> (res matches Ok(c) && payload_holds(data@, c)),
        !payload_ok(data@) ==> res is Err,
        payload_header(data@) matches Err(m) ==> (res matches Err(e) && e@ == m),
        payload_header(data@) is Ok && blocks_all_ok(data@) ==> match blocks_from(data@, HEADER_SIZE as int).1 {
            Some(m) => res matches Err(e) && e@ == m,
            None => !payload_ok(data@) ==> (res matches Err(e) && e@ == "incomplete shared config"@),
        },
{
    let ghost d = data@;
    let config_version = parse_payload_header(data)?;
    let mut r = ConfigReader::new(data);
    r.set_position(HEADER_SIZE);
    let ghost h = HEADER_SIZE as int;
    let ghost mut seen: Seq<(u8, int, int)> = Seq::empty();
    let mut f = Found { signals: None, trading: None, visual: None, theme: None, ini: None, ui: None };
    proof {
        reveal(found_matches);
        assert(seen + blocks_from(d, h).0 =~= blocks_from(d, h).0);
    }
    loop
        invariant_except_break
            h <= r.at(),
            blocks_from(d, h).0 == seen + blocks_from(d, r.at()).0,
            blocks_from(d, h).1 == blocks_from(d, r.at()).1,
        invariant
            r.bytes() == d,
            d == data@,
            h == HEADER_SIZE as int,
            payload_header(d) == Ok::<u16, Seq<char>>(config_version),
            forall|i: int| 0 <= i < seen.len() ==> block_ok(d, #[trigger] seen[i]),
            found_matches(d, seen, f),
        ensures
            blocks_from(d, h).0 == seen,
            blocks_from(d, h).1 is None,
        decreases d.len() - r.at(),
    {
        let ghost p = r.at();
        let next = read_block_header(&mut r);
        match next {
            Err(e) => {
                proof {
                    assert(blocks_from(d, p).1 is Some);
                    assert(blocks_from(d, h).1 is Some);
                    assert(!payload_ok(d));
                    assert(blocks_from(d, p).0 =~= Seq::<(u8, int, int)>::empty());
                    assert(seen + blocks_from(d, p).0 =~= seen);
                }
                return Err(e);
            },
            Ok(None) => {
                proof {
                    assert(seen + blocks_from(d, p).0 =~= seen);
                }
                break;
            },
            Ok(Some((kind, info))) => {
                let ghost x = (kind, info.body_start as int, info.block_end as int);
                let ghost rest = blocks_from(d, info.block_end as int);
                proof {
                    assert(blocks_from(d, p) == (seq![x] + rest.0, rest.1));
                    assert(blocks_from(d, h).0[seen.len() as int] == x);
                }
                take_block(data, kind, info, &mut f, Ghost(seen))?;
                r.set_position(info.block_end);
                proof {
                    let old_seen = seen;
                    seen = seen.push(x);
                    assert(seen + rest.0 =~= old_seen + (seq![x] + rest.0));
                }
            },
        }
    }
    proof {
        reveal(found_matches);
    }
    match f {
        Found {
            signals: Some(signals),
            trading: Some(trading),
            visual: Some(visual),
            theme: Some(theme),
            ini: Some(ini),
            ui: Some(ui),
        } => Ok(SharedConfig { config_version, signals, trading, visual, theme, ini, ui }),
        _ => Err(SharedConfigError::new("incomplete shared config")),
    }
}

/// A block read back from its bytes at `p`.
proof fn lemma_block_at(d: Seq<u8>, p: int, kind: u8, body: Seq<u8>)
    requires
        0 <= p,
        body.len() <= MAX_BLOCK_SIZE,
        p + 5 + body.len() <= d.len() <= MAX_PAYLOAD_SIZE,
        d.subrange(p, p + 5 + body.len()) == block_bytes(kind, body),
    ensures
        block_header_at(d, p) == Ok::<Option<(u8, int, int)>, Seq<char>>(
            Some((kind, p + 5, p + 5 + body.len())),
        ),
        d.subrange(p + 5, p + 5 + body.len()) == body,
{
    let a = seq![kind] + le_u32(body.len() as u32);
    lemma_parts_at(d, p, a, body);
    lemma_parts_at(d, p, seq![kind], le_u32(body.len() as u32));
    assert(d[p] == d.subrange(p, p + 1)[0]);
    crate::shared_config::codec_lemmas::lemma_u32_at_le(body.len() as u32, d, p + 1);
}

/// The header of a payload read back from its bytes.
proof fn lemma_header_at(d: Seq<u8>, v: u16)
    requires
        7 <= d.len() <= MAX_PAYLOAD_SIZE,
        d.subrange(0, 7) == header_bytes(v),
    ensures
        payload_header(d) == Ok::<u16, Seq<char>>(v),
{
    let h = header_bytes(v);
    assert(d.subrange(0, 4) =~= h.subrange(0, 4));
    assert(h.subrange(0, 4) =~= crate::shared_config::payload::magic());
    assert(d[4] == h[4]);
    assert(d[5] == h[5] && d[6] == h[6]);
    crate::le::lemma_le_u16_roundtrip(v);
}

/// The blocks that serializing `c` writes: kind, body start and block end.
pub open spec fn written_blocks(c: SharedConfig) -> Seq<(u8, int, int)> {
    let p0 = HEADER_SIZE as int;
    let p1 = p0 + 5 + signals_bytes(c.signals).len();
    let p2 = p1 + 5 + trading_bytes(c.trading).len();
    let p3 = p2 + 5 + visual_bytes(c.visual).len();
    let p4 = p3 + 5 + theme_bytes(c.theme).len();
    let p5 = p4 + 5 + ini_bytes(c.ini).len();
    let p6 = p5 + 5 + ui_bytes(c.ui).len();
    seq![
        (KIND_SIGNALS, p0 + 5, p1),
        (KIND_TRADING, p1 + 5, p2),
        (KIND_VISUAL, p2 + 5, p3),
        (KIND_THEME, p3 + 5, p4),
        (KIND_INI, p4 + 5, p5),
        (KIND_UI, p5 + 5, p6),
    ]
}

/// The layout of a serialized payload: its header, its six blocks and their bodies.
#[verifier::spinoff_prover]
#[verifier::rlimit(100)]
proof fn lemma_payload_layout(cfg: SharedConfig)
    requires
        payload_writable(cfg),
    ensures
        payload_header(payload_bytes(cfg)) == Ok::<u16, Seq<char>>(cfg.config_version),
        blocks_from(payload_bytes(cfg), HEADER_SIZE as int) == (written_blocks(cfg), None::<Seq<char>>),
        ({
            let d = payload_bytes(cfg);
            let w = written_blocks(cfg);
            &&& d.subrange(w[0].1, w[0].2) == signals_bytes(cfg.signals)
            &&& d.subrange(w[1].1, w[1].2) == trading_bytes(cfg.trading)
            &&& d.subrange(w[2].1, w[2].2) == visual_bytes(cfg.visual)
            &&& d.subrange(w[3].1, w[3].2) == theme_bytes(cfg.theme)
            &&& d.subrange(w[4].1, w[4].2) == ini_bytes(cfg.ini)
            &&& d.subrange(w[5].1, w[5].2) == ui_bytes(cfg.ui)
        }),
{
    let d = payload_bytes(cfg);
    let h = header_bytes(cfg.config_version);
    let s1 = signals_bytes(cfg.signals);
    let s2 = trading_bytes(cfg.trading);
    let s3 = visual_bytes(cfg.visual);
    let s4 = theme_bytes(cfg.theme);
    let s5 = ini_bytes(cfg.ini);
    let s6 = ui_bytes(cfg.ui);
    let b1 = block_bytes(KIND_SIGNALS, s1);
    let b2 = block_bytes(KIND_TRADING, s2);
    let b3 = block_bytes(KIND_VISUAL, s3);
    let b4 = block_bytes(KIND_THEME, s4);
    let b5 = block_bytes(KIND_INI, s5);
    let b6 = block_bytes(KIND_UI, s6);
    assert(d == h + b1 + b2 + b3 + b4 + b5 + b6);
    assert(d.subrange(0, d.len() as int) =~= d);
    lemma_parts_at(d, 0, h + b1 + b2 + b3 + b4 + b5, b6);
    lemma_parts_at(d, 0, h + b1 + b2 + b3 + b4, b5);
    lemma_parts_at(d, 0, h + b1 + b2 + b3, b4);
    lemma_parts_at(d, 0, h + b1 + b2, b3);
    lemma_parts_at(d, 0, h + b1, b2);
    lemma_parts_at(d, 0, h, b1);
    lemma_header_at(d, cfg.config_version);
    let w = written_blocks(cfg);
    let p0 = 7int;
    let p1 = w[0].2;
    let p2 = w[1].2;
    let p3 = w[2].2;
    let p4 = w[3].2;
    let p5 = w[4].2;
    let p6 = w[5].2;
    assert(p6 == d.len());
    lemma_block_at(d, p0, KIND_SIGNALS, s1);
    lemma_block_at(d, p1, KIND_TRADING, s2);
    lemma_block_at(d, p2, KIND_VISUAL, s3);
    lemma_block_at(d, p3, KIND_THEME, s4);
    lemma_block_at(d, p4, KIND_INI, s5);
    lemma_block_at(d, p5, KIND_UI, s6);
    assert(blocks_from(d, p6) == (Seq::<(u8, int, int)>::empty(), None::<Seq<char>>));
    assert(blocks_from(d, p5) == (w.subrange(5, 6), None::<Seq<char>>)) by {
        assert(seq![w[5]] + Seq::<(u8, int, int)>::empty() =~= w.subrange(5, 6));
    }
    assert(blocks_from(d, p4) == (w.subrange(4, 6), None::<Seq<char>>)) by {
        assert(seq![w[4]] + w.subrange(5, 6) =~= w.subrange(4, 6));
    }
    assert(blocks_from(d, p3) == (w.subrange(3, 6), None::<Seq<char>>)) by {
        assert(seq![w[3]] + w.subrange(4, 6) =~= w.subrange(3, 6));
    }
    assert(blocks_from(d, p2) == (w.subrange(2, 6), None::<Seq<char>>)) by {
        assert(seq![w[2]] + w.subrange(3, 6) =~= w.subrange(2, 6));
    }
    assert(blocks_from(d, p1) == (w.subrange(1, 6), None::<Seq<char>>)) by {
        assert(seq![w[1]] + w.subrange(2, 6) =~= w.subrange(1, 6));
    }
    assert(blocks_from(d, p0) == (w, None::<Seq<char>>)) by {
        assert(seq![w[0]] + w.subrange(1, 6) =~= w);
    }
}

/// Serializing a configuration and parsing the payload gives it back: the
/// written payload is accepted, and what it holds is the configuration, when
/// it can be serialized, its arbitrage record carries version `1` and its
/// theme and ini sections are named as those blocks allow.
#[verifier::spinoff_prover]
#[verifier::rlimit(100)]
pub proof fn law_payload_roundtrip(cfg: SharedConfig)
    requires
        payload_writable(cfg),
        cfg.trading.arb_view_config.ver == 1,
        forall|k: int| 0 <= k < cfg.theme.ini_sections@.len() ==> name_allowed(#[trigger] cfg.theme.ini_sections@[k].name@, theme_names()),
        forall|k: int| 0 <= k < cfg.ini.ini_sections@.len() ==> name_allowed(#[trigger] cfg.ini.ini_sections@[k].name@, ini_names()),
    ensures
        payload_ok(payload_bytes(cfg)),
        payload_holds(payload_bytes(cfg), cfg),
{
    let d = payload_bytes(cfg);
    let w = written_blocks(cfg);
    lemma_payload_layout(cfg);
    assert(payload_blocks(d) == w);
    reveal_with_fuel(last_block, 7);
    assert(w.drop_last() =~= w.subrange(0, 5));
    assert(w.subrange(0, 5).drop_last() =~= w.subrange(0, 4));
    assert(w.subrange(0, 4).drop_last() =~= w.subrange(0, 3));
    assert(w.subrange(0, 3).drop_last() =~= w.subrange(0, 2));
    assert(w.subrange(0, 2).drop_last() =~= w.subrange(0, 1));
    lemma_signals_roundtrip(cfg.signals);
    lemma_trading_roundtrip(cfg.trading);
    lemma_visual_roundtrip(cfg.visual);
    lemma_theme_roundtrip(cfg.theme);
    lemma_ini_roundtrip(cfg.ini);
    lemma_ui_roundtrip(cfg.ui);
    assert forall|i: int| 0 <= i < w.len() implies block_ok(d, #[trigger] w[i]) by {
        reveal(block_ok);
    }
}

// ---------------------------------------------------------------------------
// Text forms
// ---------------------------------------------------------------------------

/// The message with which a payload is refused, where it is fixed: a header
/// error, a refused block header, or a missing section.
pub open spec fn payload_error(p: Seq<u8>) -> Option<Seq<char>> {
    match payload_header(p) {
        Err(m) => Some(m),
        Ok(_) => if blocks_all_ok(p) {
            match blocks_from(p, HEADER_SIZE as int).1 {
                Some(m) => Some(m),
                None => if payload_ok(p) {
                    None
                } else {
                    Some("incomplete shared config"@)
                },
            }
        } else {
            None
        },
    }
}

/// Serialize a [`SharedConfig`] into `.mbshare` file bytes (base64-encoded
/// gzip of the binary payload).
pub fn to_mbshare_bytes(cfg: &SharedConfig) -> (res: Result<Vec<u8>, SharedConfigError>)
    ensures
        !payload_writable(*cfg) ==> res is Err,
        res matches Ok(b) ==> payload_writable(*cfg) && mbshare_payload_spec(b@) == Ok::<Seq<u8>, Seq<char>>(
            payload_bytes(*cfg),
        ) && b@ == base64_of(gzip_compress_spec(payload_bytes(*cfg))->Ok_0),
        payload_writable(*cfg) && gzip_compress_spec(payload_bytes(*cfg)) is Ok ==> res is Ok,
        gzip_compress_spec(payload_bytes(*cfg)) is Err ==> res is Err,
        payload_writable(*cfg) ==> (gzip_compress_spec(payload_bytes(*cfg)) matches Err(m) ==> (res matches Err(e)
            && e@ == m)),
        sections_fit(*cfg) && !bodies_fit(*cfg) && payload_bytes(*cfg).len() <= MAX_PAYLOAD_SIZE ==> (res matches Err(e)
            && e@ == block_too_large_msg()),
{
    let payload = serialize_payload(cfg)?;
    mbshare_from_payload(payload.as_slice())
}

/// Parse `.mbshare` file bytes into a [`SharedConfig`].
pub fn from_mbshare_bytes(data: &[u8]) -> (res: Result<SharedConfig, SharedConfigError>)
    ensures
        match mbshare_payload_spec(data@) {
            Ok(p) => (payload_ok(p) ==> (res matches Ok(c) && payload_holds(p, c))) && (!payload_ok(p)
                ==> res is Err) && (payload_error(p) matches Some(m) ==> (res matches Err(e) && e@ == m)),
            Err(m) => res matches Err(e) && e@ == m,
        },
{
    let payload = payload_from_mbshare(data)?;
    parse_payload(payload.as_slice())
}

/// Serialize a [`SharedConfig`] into the clipboard string format:
/// ` ```mbcfg\nMBSC7:...\n``` `.
pub fn to_mbsc_string(cfg: &SharedConfig) -> (res: Result<String, SharedConfigError>)
    ensures
        !payload_writable(*cfg) ==> res is Err,
        res matches Ok(t) ==> payload_writable(*cfg) && mbsc_payload_spec(t@) == Ok::<Seq<u8>, Seq<char>>(
            payload_bytes(*cfg),
        ) && t@ == mbsc_frame_spec(gzip_compress_spec(payload_bytes(*cfg))->Ok_0),
        payload_writable(*cfg) && gzip_compress_spec(payload_bytes(*cfg)) is Ok ==> res is Ok,
        gzip_compress_spec(payload_bytes(*cfg)) is Err ==> res is Err,
        payload_writable(*cfg) ==> (gzip_compress_spec(payload_bytes(*cfg)) matches Err(m) ==> (res matches Err(e)
            && e@ == m)),
        sections_fit(*cfg) && !bodies_fit(*cfg) && payload_bytes(*cfg).len() <= MAX_PAYLOAD_SIZE ==> (res matches Err(e)
            && e@ == block_too_large_msg()),
{
    let payload = serialize_payload(cfg)?;
    mbsc_from_payload(payload.as_slice())
}

/// Parse a clipboard string (possibly with surrounding text/fences) into a
/// [`SharedConfig`]. Whitespace and surrounding text/fences are accepted.
pub fn from_mbsc_string(s: &str) -> (res: Result<SharedConfig, SharedConfigError>)
    ensures
        s.spec_bytes().len() as usize > MAX_CLIPBOARD_TEXT_SIZE ==> (res matches Err(e) && e@
            == "shared config text too large"@),
        s.spec_bytes().len() as usize <= MAX_CLIPBOARD_TEXT_SIZE ==> match mbsc_payload_spec(s@) {
            Ok(p) => (payload_ok(p) ==> (res matches Ok(c) && payload_holds(p, c))) && (!payload_ok(p)
                ==> res is Err) && (payload_error(p) matches Some(m) ==> (res matches Err(e) && e@ == m)),
            Err(m) => res matches Err(e) && e@ == m,
        },
{
    let payload = payload_from_mbsc(s)?;
    parse_payload(payload.as_slice())
}

} // verus!
