//! The visual section: chart appearance, draw tools, visual indicators and candle style.

use crate::le::{le_u32, le_u64, lemma_le_u32_roundtrip};
use crate::shared_config::error::{SharedConfigError};
use crate::shared_config::reader::{ConfigReader, eof_msg, i32_at, u32_at, u64_at};
use crate::shared_config::writer::{ConfigWriter, bool_byte, flag_of, lemma_bool_byte, lemma_wrote_all_of_wrote, lemma_wrote_all_then, string_fits, string_x_bytes};
use crate::shared_config::codec_lemmas::{lemma_le_i32_roundtrip, lemma_seq_split, lemma_subrange_of_prefix, lemma_u32_at_le, lemma_u64_at_le};
use crate::shared_config::ini::{tail_of};
use crate::shared_config::signals::{lemma_parts_at, lemma_text_at, read_text_or_empty, string_end, string_ok, text_at};
use crate::shared_config::arb_view::{CandleColorSet};
use crate::shared_config::float_records::{BLINK_CONFIG_LEN, BlinkConfig, CUSTOM_DRAW_TOOL_LEN, CustomDrawTool, HEAT_MAP_CONFIG_LEN, HeatMapConfig, blink_config_at, blink_config_bytes, custom_draw_tool_at, custom_draw_tool_bytes, heat_map_config_at, heat_map_config_bytes, lemma_blink_config_at, lemma_blink_config_roundtrip, lemma_custom_draw_tool_at, lemma_custom_draw_tool_roundtrip, lemma_heat_map_config_at, lemma_heat_map_config_roundtrip, read_blink_config, read_custom_draw_tool, read_heat_map_config, write_blink_config, write_custom_draw_tool, write_heat_map_config};
use crate::shared_config::records::{INT_COLORS_LEN, IntColors, NEWS_FORM_CONFIG_LEN, NewsFormConfig, SHOW_FILTERS_LEN, ShowFilters, int_colors_at, int_colors_bytes, lemma_int_colors_at, lemma_int_colors_roundtrip, lemma_news_form_config_at, lemma_news_form_config_roundtrip, lemma_show_filters_at, lemma_show_filters_roundtrip, news_form_config_at, news_form_config_bytes, read_int_colors, read_news_form_config, read_show_filters, show_filters_at, show_filters_bytes, write_int_colors, write_news_form_config, write_show_filters};
use vstd::prelude::*;

verus! {

broadcast use crate::le::group_le_len;
/// Chart draw tool configuration (colors, stroke, alerts) per object kind.
#[derive(Clone, Copy, Debug)]
pub struct CustomDrawConfig {
    /// Internal version.
    pub ver: i32,
    /// Global figure opacity (0.0..1.0).
    /// (IEEE-754 bits of the `f32` value.)
    pub f_opacity: u32,
    /// Show chart drawing tools.
    pub f_show: bool,
    /// Per-tool settings, indexed by `TChartObjectKind` (16 entries).
    pub tools: [CustomDrawTool; 16],
}

impl CustomDrawConfig {
    /// Whether every field holds the value that [`CustomDrawConfig::default`] gives.
    pub open spec fn is_default(&self) -> bool {
        &&& self.ver == 2
        &&& self.f_opacity == 0x3f800000
        &&& !self.f_show
        &&& forall|i: int| 0 <= i < 16 ==> (#[trigger] self.tools@[i]).is_default()
    }
}

impl Default for CustomDrawConfig {
    fn default() -> (r: Self)
        ensures
            r.is_default(),
    {
        CustomDrawConfig {
            ver: 2,
            f_opacity: 0x3f800000,
            f_show: false,
            tools: [CustomDrawTool::default(), CustomDrawTool::default(), CustomDrawTool::default(), CustomDrawTool::default(), CustomDrawTool::default(), CustomDrawTool::default(), CustomDrawTool::default(), CustomDrawTool::default(), CustomDrawTool::default(), CustomDrawTool::default(), CustomDrawTool::default(), CustomDrawTool::default(), CustomDrawTool::default(), CustomDrawTool::default(), CustomDrawTool::default(), CustomDrawTool::default()],
        }
    }
}

/// Chart windows manager settings.
#[derive(Clone, Copy, Debug)]
pub struct ChartsSettings {
    /// Auto-arrange chart windows on screen.
    pub auto_arrange: bool,
    /// Chart windows visible by default.
    pub visible: bool,
    /// Use wide (landscape) chart layout.
    pub wide: bool,
    /// Keep chart windows on top.
    pub stay_on_top: bool,
    /// Maximum number of simultaneous chart windows.
    pub max_charts: i32,
    /// Chart refresh interval (seconds).
    pub refresh: i32,
    /// Reserved slot, unused by current MoonBot code. Kept for wire
    /// compatibility.
    /// (IEEE-754 bits of the `f64` value.)
    pub x1: u64,
    /// Reserved slot, unused by current MoonBot code. Kept for wire
    /// compatibility.
    /// (IEEE-754 bits of the `f64` value.)
    pub x2: u64,
}

/// Wire size of [`ChartsSettings`].
pub const CHARTS_SETTINGS_LEN: usize = 28;

/// Wire bytes of fields `auto_arrange` to `refresh` of a [`ChartsSettings`].
pub open spec fn charts_settings_part1_bytes(c: ChartsSettings) -> Seq<u8> {
    seq![bool_byte(c.auto_arrange)]
        + seq![bool_byte(c.visible)]
        + seq![bool_byte(c.wide)]
        + seq![bool_byte(c.stay_on_top)]
        + le_u32(c.max_charts as u32)
        + le_u32(c.refresh as u32)
}

/// Whether fields `auto_arrange` to `refresh` of `c` are stored at `p`.
pub open spec fn charts_settings_part1_at(d: Seq<u8>, p: int, c: ChartsSettings) -> bool {
    &&& c.auto_arrange == flag_of(d[p])
    &&& c.visible == flag_of(d[p + 1])
    &&& c.wide == flag_of(d[p + 2])
    &&& c.stay_on_top == flag_of(d[p + 3])
    &&& c.max_charts == i32_at(d, p + 4)
    &&& c.refresh == i32_at(d, p + 8)
}

/// Wire bytes of fields `x1` to `x2` of a [`ChartsSettings`].
pub open spec fn charts_settings_part2_bytes(c: ChartsSettings) -> Seq<u8> {
    le_u64(c.x1)
        + le_u64(c.x2)
}

/// Whether fields `x1` to `x2` of `c` are stored at `p`.
pub open spec fn charts_settings_part2_at(d: Seq<u8>, p: int, c: ChartsSettings) -> bool {
    &&& c.x1 == u64_at(d, p)
    &&& c.x2 == u64_at(d, p + 8)
}

/// Wire bytes of a [`ChartsSettings`], field after field.
pub open spec fn charts_settings_bytes(c: ChartsSettings) -> Seq<u8> {
    charts_settings_part1_bytes(c)
        + charts_settings_part2_bytes(c)
}

/// Whether `c` is the [`ChartsSettings`] stored at `p`.
pub open spec fn charts_settings_at(d: Seq<u8>, p: int, c: ChartsSettings) -> bool {
    &&& charts_settings_part1_at(d, p, c)
    &&& charts_settings_part2_at(d, p + 12, c)
}

/// Read a [`ChartsSettings`].
pub fn read_charts_settings(r: &mut ConfigReader) -> (res: Result<ChartsSettings, SharedConfigError>)
    ensures
        final(r).bytes() == old(r).bytes(),
        old(r).at() + CHARTS_SETTINGS_LEN <= old(r).bytes().len() ==> (res matches Ok(c) && charts_settings_at(
            old(r).bytes(),
            old(r).at(),
            c,
        ) && final(r).at() == old(r).at() + CHARTS_SETTINGS_LEN),
        old(r).at() + CHARTS_SETTINGS_LEN > old(r).bytes().len() ==> (res matches Err(e) && e@ == eof_msg()),
{
    Ok(ChartsSettings {
        auto_arrange: r.read_bool()?,
        visible: r.read_bool()?,
        wide: r.read_bool()?,
        stay_on_top: r.read_bool()?,
        max_charts: r.read_i32()?,
        refresh: r.read_i32()?,
        x1: r.read_u64()?,
        x2: r.read_u64()?,
    })
}

/// Write fields `auto_arrange` to `refresh` of a [`ChartsSettings`].
fn write_charts_settings_part1(w: &mut ConfigWriter, c: &ChartsSettings)
    requires
        old(w).wf(),
    ensures
        final(w).wf(),
        final(w).wrote_all(old(w), true, charts_settings_part1_bytes(*c)),
{
    let ghost w0 = *w;
    let ghost wb = *w;
    w.write_bool(c.auto_arrange);
    proof { lemma_wrote_all_of_wrote(wb, *w, seq![bool_byte(c.auto_arrange)]); }
    let ghost wb = *w;
    w.write_bool(c.visible);
    proof {
        lemma_wrote_all_of_wrote(wb, *w, seq![bool_byte(c.visible)]);
        lemma_wrote_all_then(w0, wb, *w, true, seq![bool_byte(c.auto_arrange)], true, seq![bool_byte(c.visible)]);
    }
    let ghost wb = *w;
    w.write_bool(c.wide);
    proof {
        lemma_wrote_all_of_wrote(wb, *w, seq![bool_byte(c.wide)]);
        lemma_wrote_all_then(w0, wb, *w, true, seq![bool_byte(c.auto_arrange)] + seq![bool_byte(c.visible)], true, seq![bool_byte(c.wide)]);
    }
    let ghost wb = *w;
    w.write_bool(c.stay_on_top);
    proof {
        lemma_wrote_all_of_wrote(wb, *w, seq![bool_byte(c.stay_on_top)]);
        lemma_wrote_all_then(w0, wb, *w, true, seq![bool_byte(c.auto_arrange)] + seq![bool_byte(c.visible)] + seq![bool_byte(c.wide)], true, seq![bool_byte(c.stay_on_top)]);
    }
    let ghost wb = *w;
    w.write_i32(c.max_charts);
    proof {
        lemma_wrote_all_of_wrote(wb, *w, le_u32(c.max_charts as u32));
        lemma_wrote_all_then(w0, wb, *w, true, seq![bool_byte(c.auto_arrange)] + seq![bool_byte(c.visible)] + seq![bool_byte(c.wide)] + seq![bool_byte(c.stay_on_top)], true, le_u32(c.max_charts as u32));
    }
    let ghost wb = *w;
    w.write_i32(c.refresh);
    proof {
        lemma_wrote_all_of_wrote(wb, *w, le_u32(c.refresh as u32));
        lemma_wrote_all_then(w0, wb, *w, true, seq![bool_byte(c.auto_arrange)] + seq![bool_byte(c.visible)] + seq![bool_byte(c.wide)] + seq![bool_byte(c.stay_on_top)] + le_u32(c.max_charts as u32), true, le_u32(c.refresh as u32));
    }
}

/// Write fields `x1` to `x2` of a [`ChartsSettings`].
fn write_charts_settings_part2(w: &mut ConfigWriter, c: &ChartsSettings)
    requires
        old(w).wf(),
    ensures
        final(w).wf(),
        final(w).wrote_all(old(w), true, charts_settings_part2_bytes(*c)),
{
    let ghost w0 = *w;
    let ghost wb = *w;
    w.write_u64(c.x1);
    proof { lemma_wrote_all_of_wrote(wb, *w, le_u64(c.x1)); }
    let ghost wb = *w;
    w.write_u64(c.x2);
    proof {
        lemma_wrote_all_of_wrote(wb, *w, le_u64(c.x2));
        lemma_wrote_all_then(w0, wb, *w, true, le_u64(c.x1), true, le_u64(c.x2));
    }
}

/// Write a [`ChartsSettings`].
pub fn write_charts_settings(w: &mut ConfigWriter, c: &ChartsSettings)
    requires
        old(w).wf(),
    ensures
        final(w).wf(),
        final(w).wrote_all(old(w), true, charts_settings_bytes(*c)),
{
    let ghost w0 = *w;
    let ghost wb = *w;
    write_charts_settings_part1(w, c);
    let ghost wb = *w;
    write_charts_settings_part2(w, c);
    proof { lemma_wrote_all_then(w0, wb, *w, true, charts_settings_part1_bytes(*c), true, charts_settings_part2_bytes(*c)); }
}

/// Fields `auto_arrange` to `refresh` read back from their bytes.
pub proof fn lemma_charts_settings_part1_at(c: ChartsSettings, d: Seq<u8>, o: int)
    requires
        0 <= o,
        o + 12 <= d.len(),
        d.subrange(o, o + 12) == charts_settings_part1_bytes(c),
    ensures
        charts_settings_part1_bytes(c).len() == 12,
        charts_settings_part1_at(d, o, c),
{
    let b0 = seq![bool_byte(c.auto_arrange)];
    let b1 = b0 + seq![bool_byte(c.visible)];
    let b2 = b1 + seq![bool_byte(c.wide)];
    let b3 = b2 + seq![bool_byte(c.stay_on_top)];
    let b4 = b3 + le_u32(c.max_charts as u32);
    let b5 = b4 + le_u32(c.refresh as u32);
    let e = d.subrange(o, o + 12);
    assert(e == b5);
    lemma_seq_split(b4, le_u32(c.refresh as u32));
    lemma_subrange_of_prefix(e, 12, 0, 8);
    lemma_subrange_of_prefix(e, 12, 8, 12);
    lemma_seq_split(b3, le_u32(c.max_charts as u32));
    lemma_subrange_of_prefix(e, 8, 0, 4);
    lemma_subrange_of_prefix(e, 8, 4, 8);
    lemma_seq_split(b2, seq![bool_byte(c.stay_on_top)]);
    lemma_subrange_of_prefix(e, 4, 0, 3);
    lemma_subrange_of_prefix(e, 4, 3, 4);
    lemma_seq_split(b1, seq![bool_byte(c.wide)]);
    lemma_subrange_of_prefix(e, 3, 0, 2);
    lemma_subrange_of_prefix(e, 3, 2, 3);
    lemma_seq_split(b0, seq![bool_byte(c.visible)]);
    lemma_subrange_of_prefix(e, 2, 0, 1);
    lemma_subrange_of_prefix(e, 2, 1, 2);
    assert(e.subrange(0, 1) == seq![bool_byte(c.auto_arrange)]);
    assert(d[o + 0] == e.subrange(0, 1)[0]);
    lemma_bool_byte(c.auto_arrange);
    assert(e.subrange(1, 2) == seq![bool_byte(c.visible)]);
    assert(d[o + 1] == e.subrange(1, 2)[0]);
    lemma_bool_byte(c.visible);
    assert(e.subrange(2, 3) == seq![bool_byte(c.wide)]);
    assert(d[o + 2] == e.subrange(2, 3)[0]);
    lemma_bool_byte(c.wide);
    assert(e.subrange(3, 4) == seq![bool_byte(c.stay_on_top)]);
    assert(d[o + 3] == e.subrange(3, 4)[0]);
    lemma_bool_byte(c.stay_on_top);
    assert(e.subrange(4, 8) == le_u32(c.max_charts as u32));
    lemma_le_i32_roundtrip(c.max_charts);
    assert(d[o + 4] == e.subrange(4, 8)[0] && d[o + 5] == e.subrange(4, 8)[1] && d[o + 6] == e.subrange(4, 8)[2] && d[o + 7] == e.subrange(4, 8)[3]);
    assert(e.subrange(8, 12) == le_u32(c.refresh as u32));
    lemma_le_i32_roundtrip(c.refresh);
    assert(d[o + 8] == e.subrange(8, 12)[0] && d[o + 9] == e.subrange(8, 12)[1] && d[o + 10] == e.subrange(8, 12)[2] && d[o + 11] == e.subrange(8, 12)[3]);
}

/// Fields `x1` to `x2` read back from their bytes.
pub proof fn lemma_charts_settings_part2_at(c: ChartsSettings, d: Seq<u8>, o: int)
    requires
        0 <= o,
        o + 16 <= d.len(),
        d.subrange(o, o + 16) == charts_settings_part2_bytes(c),
    ensures
        charts_settings_part2_bytes(c).len() == 16,
        charts_settings_part2_at(d, o, c),
{
    let b0 = le_u64(c.x1);
    let b1 = b0 + le_u64(c.x2);
    let e = d.subrange(o, o + 16);
    assert(e == b1);
    lemma_seq_split(b0, le_u64(c.x2));
    lemma_subrange_of_prefix(e, 16, 0, 8);
    lemma_subrange_of_prefix(e, 16, 8, 16);
    assert(e.subrange(0, 8) == le_u64(c.x1));
    assert(d.subrange(o + 0, o + 8) =~= e.subrange(0, 8));
    lemma_u64_at_le(c.x1, d, o + 0);
    assert(e.subrange(8, 16) == le_u64(c.x2));
    assert(d.subrange(o + 8, o + 16) =~= e.subrange(8, 16));
    lemma_u64_at_le(c.x2, d, o + 8);
}

/// The fields of a [`ChartsSettings`] read back from its bytes.
pub proof fn lemma_charts_settings_at(c: ChartsSettings, d: Seq<u8>, o: int)
    requires
        0 <= o,
        o + 28 <= d.len(),
        d.subrange(o, o + 28) == charts_settings_bytes(c),
    ensures
        charts_settings_bytes(c).len() == 28,
        charts_settings_at(d, o, c),
{
    let g0 = charts_settings_part1_bytes(c);
    let g1 = g0 + charts_settings_part2_bytes(c);
    let e = d.subrange(o, o + 28);
    assert(e == g1);
    lemma_seq_split(g0, charts_settings_part2_bytes(c));
    lemma_subrange_of_prefix(e, 28, 0, 12);
    lemma_subrange_of_prefix(e, 28, 12, 28);
    assert(d.subrange(o + 12, o + 28) =~= e.subrange(12, 28));
    lemma_charts_settings_part2_at(c, d, o + 12);
    assert(d.subrange(o + 0, o + 12) =~= e.subrange(0, 12));
    lemma_charts_settings_part1_at(c, d, o + 0);
}

/// Reading back the bytes of a [`ChartsSettings`] gives the same record.
pub proof fn lemma_charts_settings_roundtrip(c: ChartsSettings, rest: Seq<u8>)
    ensures
        charts_settings_bytes(c).len() == CHARTS_SETTINGS_LEN,
        charts_settings_at(charts_settings_bytes(c) + rest, 0, c),
{
    lemma_seq_split(charts_settings_bytes(c), rest);
    lemma_charts_settings_at(c, charts_settings_bytes(c) + rest, 0);
}

impl ChartsSettings {
    /// Whether every field holds the value that [`ChartsSettings::default`] gives.
    pub open spec fn is_default(&self) -> bool {
        &&& self.auto_arrange == true
        &&& self.visible == true
        &&& self.wide == true
        &&& self.stay_on_top == true
        &&& self.max_charts == 0
        &&& self.refresh == 3
        &&& self.x1 == 0x0000000000000000
        &&& self.x2 == 0x0000000000000000
    }
}

impl Default for ChartsSettings {
    fn default() -> (r: Self)
        ensures
            r.is_default(),
    {
        ChartsSettings {
            auto_arrange: true,
            visible: true,
            wide: true,
            stay_on_top: true,
            max_charts: 0,
            refresh: 3,
            x1: 0x0000000000000000,
            x2: 0x0000000000000000,
        }
    }
}

/// Chart appearance, draw tools, visual indicators, candle style.
#[derive(Clone, Debug)]
pub struct VisualSection {
    /// Order color scheme (7 colors + price line width).
    pub colors: IntColors,
    /// Opacity of the panic-sell overlay (0..100).
    pub panic_sell_opacity: i32,
    /// Hide the forum/community label shown on the main form (Properties
    /// checkbox).
    pub hide_forum_label: bool,
    /// Show colored (red/green) price movement lines on chart.
    pub show_red_green_lines: bool,
    /// Enable chart auto-scrolling to follow the latest candle.
    pub scrolling_charts: bool,
    /// Load saved charts on application startup.
    pub startup_load_charts: bool,
    /// Auto-close chart windows when the coin is deselected.
    pub auto_close_charts: bool,
    /// Show chart info panel on the left side (vs. right).
    pub left_chart_info: bool,
    /// Show colored dots at trade execution points.
    pub show_red_green_dots: bool,
    /// Orderbook panel opacity (0..100).
    pub glass_opacity: i32,
    /// Default chart time scale in minutes.
    pub chart_time_scale: i32,
    /// Enable multi-timeframe chart watch windows.
    pub chart_watch_multi_frames: bool,
    /// Number of historical candles to load (0 = default).
    pub chart_history_len: i32,
    /// Hide the right info panel on chart windows.
    pub hide_right_chart_panel: bool,
    /// Show vertical volume indicator.
    pub show_vert_volume: bool,
    /// Vertical volume timeframe index.
    pub vert_vol_time_frame: i32,
    /// Vertical volume indicator opacity (0.0..1.0).
    /// (IEEE-754 bits of the `f32` value.)
    pub vert_vol_opacity: u32,
    /// Vertical volume indicator height (fraction of chart, 0.0..1.0).
    /// (IEEE-754 bits of the `f32` value.)
    pub vert_vol_height: u32,
    /// Vertical volume visualization mode (0=bars, 1=area, ...).
    pub vert_vol_kind: i32,
    /// Show Volume Tool indicator.
    pub v_tool_show: bool,
    /// Volume Tool time parameter.
    /// (IEEE-754 bits of the `f64` value.)
    pub v_tool_time: u64,
    /// Volume Tool opacity (0.0..1.0).
    /// (IEEE-754 bits of the `f32` value.)
    pub v_tool_opacity: u32,
    /// Volume Tool: show buyer-initiated volume.
    pub v_tool_show_buyers: bool,
    /// Volume Tool timeframe index.
    pub v_tool_time_index: i32,
    /// Show HeatVolume indicator.
    pub hv_show: bool,
    /// HeatVolume indicator width (fraction of chart).
    /// (IEEE-754 bits of the `f32` value.)
    pub hv_width: u32,
    /// HeatVolume timeframe index.
    pub hv_time_frame_ind: i32,
    /// HeatVolume timeframe raw value (minutes).
    pub hv_time_frame: i32,
    /// HeatVolume price frame (fraction of price range).
    /// (IEEE-754 bits of the `f32` value.)
    pub hv_price_frame: u32,
    /// HeatVolume opacity (0.0..1.0).
    /// (IEEE-754 bits of the `f32` value.)
    pub hv_opacity: u32,
    /// Chart draw tools configuration (per-tool colors, stroke, alerts).
    pub custom_draw_config: CustomDrawConfig,
    /// Currently selected draw tool kind (TChartObjectKind ordinal).
    pub global_current_draw_kind: u8,
    /// Placement of horizontal-volume labels on the chart: 0 = right with a
    /// cleared background, 1 = left with a guide line to the bar, 2 = right
    /// drawn over the chart, 3 = left over the chart with a guide line.
    pub hv_disp_vol: i32,
    /// HeatVolume chart kind.
    pub hv_kind: i32,
    /// Show market name captions on chart.
    pub show_market_captions: bool,
    /// Show order price captions on chart.
    pub show_orders_captions: bool,
    /// Place order captions below the line (vs. above).
    pub orders_captions_lower: bool,
    /// Show USD-converted prices on charts (for non-USDT pairs).
    pub show_usd_on_charts: bool,
    /// Auto-zoom new market charts to maximum scale.
    pub new_markets_max_scale: bool,
    /// Vertical volume indicator panel position index.
    pub vert_vol_ind_pos: i32,
    /// Cumulative orderbook visualization opacity (0..100).
    pub book_cumulative_opacity: i32,
    /// Individual order level opacity (0..100).
    pub book_orders_opacity: i32,
    /// Orderbook level bar width in pixels.
    pub book_orders_width: i32,
    /// BTC price blink-alert settings.
    pub blink_config: BlinkConfig,
    /// Auto-shift chart to keep the latest candle visible.
    pub charts_auto_shift: bool,
    /// Show iceberg order visualization on chart.
    pub show_iceberg: bool,
    /// Hide the PnL (profit and loss) display.
    pub hide_pnl: bool,
    /// Draw the current price horizontal line (0=off, 1=line, 2=dashed).
    pub draw_cur_price: i32,
    /// Auto-request chart data when opening a market.
    pub auto_request_charts: bool,
    /// Visual orders panel sort mode (0=buy first, 1=sell first, 2=creation).
    pub vo_sort_kind: u8,
    /// Visual orders: show older orders first.
    pub vo_older_first: bool,
    /// Visual orders: group by market.
    pub vo_sort_by_market: bool,
    /// Hide the main Buy button on the toolbar.
    pub hide_buy_button: bool,
    /// Show strategy index numbers on the chart.
    pub show_strat_numbers: bool,
    /// Chart filter-bar visibility settings.
    pub show_filters: ShowFilters,
    /// Hide the cashback button on the main form.
    pub hide_cashback_button: bool,
    /// Hide the seasonal New Year decoration and greetings (shown late
    /// December through early January).
    pub hide_ny_elka: bool,
    /// Chart window manager settings.
    pub charts_settings: ChartsSettings,
    /// Spy/stealth mode: hide sensitive info.
    pub spy_hide_mode: bool,
    /// Performance heatmap display settings.
    pub heatmap_config: HeatMapConfig,
    /// Application tray icon variant index.
    pub icon_selection: i32,
    /// Remember chart toolbar button states across sessions.
    pub remember_chart_buttons: bool,
    /// Show the detection-tool button on the chart toolbar.
    pub show_detects_tool: bool,
    /// Scale-plus default zoom step index.
    pub scale_plus_index: i32,
    /// Scale-minus default zoom step index.
    pub scale_minus_index: i32,
    /// News feed form display settings.
    pub news_form_config: NewsFormConfig,
    /// Font size overrides for 20 UI areas.
    pub font_sizes: [u8; 20],
    /// Candle rendering style (0=filled, 1=contours, 2=contours+ticks).
    pub chart_candles_style: u8,
    /// Tick-candle opacity (0..100, default 25).
    pub chart_candles_tick_opacity: u8,
    /// Use neutral (grey) color for doji/neutral candles.
    pub chart_candles_neutral_ticks: bool,
    /// Candle outline stroke width (1..3).
    pub chart_candles_outline_width: u8,
    /// Draw tick-style wicks on candles.
    pub chart_candles_tick_wicks: bool,
    /// Per-theme candle colors: `[light, dark]` each has green/red/neutral.
    pub candle_colors: [CandleColorSet; 2],
    /// Enable AI coin-card feature.
    pub use_ai_coin_card: bool,
    /// AI card provider index (0 = default/none).
    pub ai_card_provider: u8,
    /// AI card model name.
    pub ai_card_model: String,
    /// AI card custom prompt.
    pub ai_card_prompt: String,
    /// Open chart windows in full-screen for manual trading mode.
    pub manual_charts_full_screen: bool,
    /// Opaque bytes from a newer MoonBot version (preserved for roundtrip).
    pub unknown_tail: Vec<u8>,
}

impl VisualSection {
    /// Whether every field holds the value that [`VisualSection::default`] gives.
    pub open spec fn is_default(&self) -> bool {
        &&& self.panic_sell_opacity == 25
        &&& self.hide_forum_label == false
        &&& self.show_red_green_lines == true
        &&& self.scrolling_charts == false
        &&& self.startup_load_charts == false
        &&& self.auto_close_charts == true
        &&& self.left_chart_info == false
        &&& self.show_red_green_dots == true
        &&& self.glass_opacity == 5
        &&& self.chart_time_scale == 60
        &&& self.chart_watch_multi_frames == true
        &&& self.chart_history_len == 0
        &&& self.hide_right_chart_panel == false
        &&& self.show_vert_volume == false
        &&& self.vert_vol_time_frame == 0
        &&& self.vert_vol_opacity == 0x3e99999a
        &&& self.vert_vol_height == 0x3e99999a
        &&& self.vert_vol_kind == 0
        &&& self.v_tool_show == false
        &&& self.v_tool_time == 0x0000000000000000
        &&& self.v_tool_opacity == 0x3e4ccccd
        &&& self.v_tool_show_buyers == true
        &&& self.v_tool_time_index == 0
        &&& self.hv_show == false
        &&& self.hv_width == 0x3e4ccccd
        &&& self.hv_time_frame_ind == 0
        &&& self.hv_time_frame == 0
        &&& self.hv_price_frame == 0x3dcccccd
        &&& self.hv_opacity == 0x3e99999a
        &&& self.global_current_draw_kind == 6
        &&& self.hv_disp_vol == 0
        &&& self.hv_kind == 0
        &&& self.show_market_captions == false
        &&& self.show_orders_captions == true
        &&& self.orders_captions_lower == false
        &&& self.show_usd_on_charts == true
        &&& self.new_markets_max_scale == false
        &&& self.vert_vol_ind_pos == 0
        &&& self.book_cumulative_opacity == 100
        &&& self.book_orders_opacity == 0
        &&& self.book_orders_width == 3
        &&& self.charts_auto_shift == true
        &&& self.show_iceberg == true
        &&& self.hide_pnl == false
        &&& self.draw_cur_price == 0
        &&& self.auto_request_charts == true
        &&& self.vo_sort_kind == 2
        &&& self.vo_older_first == true
        &&& self.vo_sort_by_market == false
        &&& self.hide_buy_button == false
        &&& self.show_strat_numbers == true
        &&& self.hide_cashback_button == false
        &&& self.hide_ny_elka == false
        &&& self.spy_hide_mode == false
        &&& self.icon_selection == 1
        &&& self.remember_chart_buttons == false
        &&& self.show_detects_tool == false
        &&& self.scale_plus_index == 0
        &&& self.scale_minus_index == 0
        &&& forall|i: int| 0 <= i < 20 ==> self.font_sizes@[i] == 0
        &&& self.chart_candles_style == 2
        &&& self.chart_candles_tick_opacity == 25
        &&& self.chart_candles_neutral_ticks == false
        &&& self.chart_candles_outline_width == 2
        &&& self.chart_candles_tick_wicks == false
        &&& forall|i: int| 0 <= i < 2 ==> self.candle_colors@[i].green == 0 && self.candle_colors@[i].red == 0 && self.candle_colors@[i].neutral == 0
        &&& self.use_ai_coin_card == false
        &&& self.ai_card_provider == 0
        &&& self.ai_card_model@ == Seq::<char>::empty()
        &&& self.ai_card_prompt@ == Seq::<char>::empty()
        &&& self.manual_charts_full_screen == false
        &&& self.unknown_tail@.len() == 0
        &&& self.colors.is_default()
        &&& self.custom_draw_config.is_default()
        &&& self.blink_config.is_default()
        &&& self.show_filters.is_default()
        &&& self.charts_settings.is_default()
        &&& self.heatmap_config.is_default()
        &&& self.news_form_config.is_default()
    }
}

impl Default for VisualSection {
    fn default() -> (r: Self)
        ensures
            r.is_default(),
    {
        VisualSection {
            colors: IntColors::default(),
            panic_sell_opacity: 25,
            hide_forum_label: false,
            show_red_green_lines: true,
            scrolling_charts: false,
            startup_load_charts: false,
            auto_close_charts: true,
            left_chart_info: false,
            show_red_green_dots: true,
            glass_opacity: 5,
            chart_time_scale: 60,
            chart_watch_multi_frames: true,
            chart_history_len: 0,
            hide_right_chart_panel: false,
            show_vert_volume: false,
            vert_vol_time_frame: 0,
            vert_vol_opacity: 0x3e99999a,
            vert_vol_height: 0x3e99999a,
            vert_vol_kind: 0,
            v_tool_show: false,
            v_tool_time: 0x0000000000000000,
            v_tool_opacity: 0x3e4ccccd,
            v_tool_show_buyers: true,
            v_tool_time_index: 0,
            hv_show: false,
            hv_width: 0x3e4ccccd,
            hv_time_frame_ind: 0,
            hv_time_frame: 0,
            hv_price_frame: 0x3dcccccd,
            hv_opacity: 0x3e99999a,
            custom_draw_config: CustomDrawConfig::default(),
            global_current_draw_kind: 6,
            hv_disp_vol: 0,
            hv_kind: 0,
            show_market_captions: false,
            show_orders_captions: true,
            orders_captions_lower: false,
            show_usd_on_charts: true,
            new_markets_max_scale: false,
            vert_vol_ind_pos: 0,
            book_cumulative_opacity: 100,
            book_orders_opacity: 0,
            book_orders_width: 3,
            blink_config: BlinkConfig::default(),
            charts_auto_shift: true,
            show_iceberg: true,
            hide_pnl: false,
            draw_cur_price: 0,
            auto_request_charts: true,
            vo_sort_kind: 2,
            vo_older_first: true,
            vo_sort_by_market: false,
            hide_buy_button: false,
            show_strat_numbers: true,
            show_filters: ShowFilters::default(),
            hide_cashback_button: false,
            hide_ny_elka: false,
            charts_settings: ChartsSettings::default(),
            spy_hide_mode: false,
            heatmap_config: HeatMapConfig::default(),
            icon_selection: 1,
            remember_chart_buttons: false,
            show_detects_tool: false,
            scale_plus_index: 0,
            scale_minus_index: 0,
            news_form_config: NewsFormConfig::default(),
            font_sizes: [0u8; 20],
            chart_candles_style: 2,
            chart_candles_tick_opacity: 25,
            chart_candles_neutral_ticks: false,
            chart_candles_outline_width: 2,
            chart_candles_tick_wicks: false,
            candle_colors: [CandleColorSet { green: 0, red: 0, neutral: 0 }, CandleColorSet { green: 0, red: 0, neutral: 0 }],
            use_ai_coin_card: false,
            ai_card_provider: 0,
            ai_card_model: String::new(),
            ai_card_prompt: String::new(),
            manual_charts_full_screen: false,
            unknown_tail: Vec::new(),
        }
    }
}

/// Fixed-width fields of the visual section from `panic_sell_opacity` to `cdc_show`, in wire order.
#[derive(Clone, Copy, Debug)]
pub struct VisualRun1 {
    /// Opacity of the panic-sell overlay (0..100).
    pub panic_sell_opacity: i32,
    /// Hide the forum/community label shown on the main form (Properties
    /// checkbox).
    pub hide_forum_label: bool,
    /// Show colored (red/green) price movement lines on chart.
    pub show_red_green_lines: bool,
    /// Enable chart auto-scrolling to follow the latest candle.
    pub scrolling_charts: bool,
    /// Load saved charts on application startup.
    pub startup_load_charts: bool,
    /// Auto-close chart windows when the coin is deselected.
    pub auto_close_charts: bool,
    /// Show chart info panel on the left side (vs. right).
    pub left_chart_info: bool,
    /// Show colored dots at trade execution points.
    pub show_red_green_dots: bool,
    /// Orderbook panel opacity (0..100).
    pub glass_opacity: i32,
    /// Default chart time scale in minutes.
    pub chart_time_scale: i32,
    /// Enable multi-timeframe chart watch windows.
    pub chart_watch_multi_frames: bool,
    /// Number of historical candles to load (0 = default).
    pub chart_history_len: i32,
    /// Hide the right info panel on chart windows.
    pub hide_right_chart_panel: bool,
    /// Show vertical volume indicator.
    pub show_vert_volume: bool,
    /// Vertical volume timeframe index.
    pub vert_vol_time_frame: i32,
    /// Vertical volume indicator opacity (0.0..1.0).
    /// (IEEE-754 bits of the `f32` value.)
    pub vert_vol_opacity: u32,
    /// Vertical volume indicator height (fraction of chart, 0.0..1.0).
    /// (IEEE-754 bits of the `f32` value.)
    pub vert_vol_height: u32,
    /// Vertical volume visualization mode (0=bars, 1=area, ...).
    pub vert_vol_kind: i32,
    /// Show Volume Tool indicator.
    pub v_tool_show: bool,
    /// Volume Tool time parameter.
    /// (IEEE-754 bits of the `f64` value.)
    pub v_tool_time: u64,
    /// Volume Tool opacity (0.0..1.0).
    /// (IEEE-754 bits of the `f32` value.)
    pub v_tool_opacity: u32,
    /// Volume Tool: show buyer-initiated volume.
    pub v_tool_show_buyers: bool,
    /// Volume Tool timeframe index.
    pub v_tool_time_index: i32,
    /// Show HeatVolume indicator.
    pub hv_show: bool,
    /// HeatVolume indicator width (fraction of chart).
    /// (IEEE-754 bits of the `f32` value.)
    pub hv_width: u32,
    /// HeatVolume timeframe index.
    pub hv_time_frame_ind: i32,
    /// HeatVolume timeframe raw value (minutes).
    pub hv_time_frame: i32,
    /// HeatVolume price frame (fraction of price range).
    /// (IEEE-754 bits of the `f32` value.)
    pub hv_price_frame: u32,
    /// HeatVolume opacity (0.0..1.0).
    /// (IEEE-754 bits of the `f32` value.)
    pub hv_opacity: u32,
    /// Internal version.
    pub cdc_ver: i32,
    /// Global figure opacity (0.0..1.0).
    /// (IEEE-754 bits of the `f32` value.)
    pub cdc_opacity: u32,
    /// Show chart drawing tools.
    pub cdc_show: bool,
}

/// Wire size of [`VisualRun1`].
pub const VISUAL_RUN1_LEN: usize = 90;

/// Wire bytes of fields `panic_sell_opacity` to `auto_close_charts` of a [`VisualRun1`].
pub open spec fn visual_run1_part1_bytes(c: VisualRun1) -> Seq<u8> {
    le_u32(c.panic_sell_opacity as u32)
        + seq![bool_byte(c.hide_forum_label)]
        + seq![bool_byte(c.show_red_green_lines)]
        + seq![bool_byte(c.scrolling_charts)]
        + seq![bool_byte(c.startup_load_charts)]
        + seq![bool_byte(c.auto_close_charts)]
}

/// Whether fields `panic_sell_opacity` to `auto_close_charts` of `c` are stored at `p`.
pub open spec fn visual_run1_part1_at(d: Seq<u8>, p: int, c: VisualRun1) -> bool {
    &&& c.panic_sell_opacity == i32_at(d, p)
    &&& c.hide_forum_label == flag_of(d[p + 4])
    &&& c.show_red_green_lines == flag_of(d[p + 5])
    &&& c.scrolling_charts == flag_of(d[p + 6])
    &&& c.startup_load_charts == flag_of(d[p + 7])
    &&& c.auto_close_charts == flag_of(d[p + 8])
}

/// Wire bytes of fields `left_chart_info` to `chart_history_len` of a [`VisualRun1`].
pub open spec fn visual_run1_part2_bytes(c: VisualRun1) -> Seq<u8> {
    seq![bool_byte(c.left_chart_info)]
        + seq![bool_byte(c.show_red_green_dots)]
        + le_u32(c.glass_opacity as u32)
        + le_u32(c.chart_time_scale as u32)
        + seq![bool_byte(c.chart_watch_multi_frames)]
        + le_u32(c.chart_history_len as u32)
}

/// Whether fields `left_chart_info` to `chart_history_len` of `c` are stored at `p`.
pub open spec fn visual_run1_part2_at(d: Seq<u8>, p: int, c: VisualRun1) -> bool {
    &&& c.left_chart_info == flag_of(d[p])
    &&& c.show_red_green_dots == flag_of(d[p + 1])
    &&& c.glass_opacity == i32_at(d, p + 2)
    &&& c.chart_time_scale == i32_at(d, p + 6)
    &&& c.chart_watch_multi_frames == flag_of(d[p + 10])
    &&& c.chart_history_len == i32_at(d, p + 11)
}

/// Wire bytes of fields `hide_right_chart_panel` to `vert_vol_kind` of a [`VisualRun1`].
pub open spec fn visual_run1_part3_bytes(c: VisualRun1) -> Seq<u8> {
    seq![bool_byte(c.hide_right_chart_panel)]
        + seq![bool_byte(c.show_vert_volume)]
        + le_u32(c.vert_vol_time_frame as u32)
        + le_u32(c.vert_vol_opacity)
        + le_u32(c.vert_vol_height)
        + le_u32(c.vert_vol_kind as u32)
}

/// Whether fields `hide_right_chart_panel` to `vert_vol_kind` of `c` are stored at `p`.
pub open spec fn visual_run1_part3_at(d: Seq<u8>, p: int, c: VisualRun1) -> bool {
    &&& c.hide_right_chart_panel == flag_of(d[p])
    &&& c.show_vert_volume == flag_of(d[p + 1])
    &&& c.vert_vol_time_frame == i32_at(d, p + 2)
    &&& c.vert_vol_opacity == u32_at(d, p + 6)
    &&& c.vert_vol_height == u32_at(d, p + 10)
    &&& c.vert_vol_kind == i32_at(d, p + 14)
}

/// Wire bytes of fields `v_tool_show` to `hv_show` of a [`VisualRun1`].
pub open spec fn visual_run1_part4_bytes(c: VisualRun1) -> Seq<u8> {
    seq![bool_byte(c.v_tool_show)]
        + le_u64(c.v_tool_time)
        + le_u32(c.v_tool_opacity)
        + seq![bool_byte(c.v_tool_show_buyers)]
        + le_u32(c.v_tool_time_index as u32)
        + seq![bool_byte(c.hv_show)]
}

/// Whether fields `v_tool_show` to `hv_show` of `c` are stored at `p`.
pub open spec fn visual_run1_part4_at(d: Seq<u8>, p: int, c: VisualRun1) -> bool {
    &&& c.v_tool_show == flag_of(d[p])
    &&& c.v_tool_time == u64_at(d, p + 1)
    &&& c.v_tool_opacity == u32_at(d, p + 9)
    &&& c.v_tool_show_buyers == flag_of(d[p + 13])
    &&& c.v_tool_time_index == i32_at(d, p + 14)
    &&& c.hv_show == flag_of(d[p + 18])
}

/// Wire bytes of fields `hv_width` to `cdc_ver` of a [`VisualRun1`].
pub open spec fn visual_run1_part5_bytes(c: VisualRun1) -> Seq<u8> {
    le_u32(c.hv_width)
        + le_u32(c.hv_time_frame_ind as u32)
        + le_u32(c.hv_time_frame as u32)
        + le_u32(c.hv_price_frame)
        + le_u32(c.hv_opacity)
        + le_u32(c.cdc_ver as u32)
}

/// Whether fields `hv_width` to `cdc_ver` of `c` are stored at `p`.
pub open spec fn visual_run1_part5_at(d: Seq<u8>, p: int, c: VisualRun1) -> bool {
    &&& c.hv_width == u32_at(d, p)
    &&& c.hv_time_frame_ind == i32_at(d, p + 4)
    &&& c.hv_time_frame == i32_at(d, p + 8)
    &&& c.hv_price_frame == u32_at(d, p + 12)
    &&& c.hv_opacity == u32_at(d, p + 16)
    &&& c.cdc_ver == i32_at(d, p + 20)
}

/// Wire bytes of fields `cdc_opacity` to `cdc_show` of a [`VisualRun1`].
pub open spec fn visual_run1_part6_bytes(c: VisualRun1) -> Seq<u8> {
    le_u32(c.cdc_opacity)
        + seq![bool_byte(c.cdc_show)]
}

/// Whether fields `cdc_opacity` to `cdc_show` of `c` are stored at `p`.
pub open spec fn visual_run1_part6_at(d: Seq<u8>, p: int, c: VisualRun1) -> bool {
    &&& c.cdc_opacity == u32_at(d, p)
    &&& c.cdc_show == flag_of(d[p + 4])
}

/// Wire bytes of a [`VisualRun1`], field after field.
pub open spec fn visual_run1_bytes(c: VisualRun1) -> Seq<u8> {
    visual_run1_part1_bytes(c)
        + visual_run1_part2_bytes(c)
        + visual_run1_part3_bytes(c)
        + visual_run1_part4_bytes(c)
        + visual_run1_part5_bytes(c)
        + visual_run1_part6_bytes(c)
}

/// Whether `c` is the [`VisualRun1`] stored at `p`.
pub open spec fn visual_run1_at(d: Seq<u8>, p: int, c: VisualRun1) -> bool {
    &&& visual_run1_part1_at(d, p, c)
    &&& visual_run1_part2_at(d, p + 9, c)
    &&& visual_run1_part3_at(d, p + 24, c)
    &&& visual_run1_part4_at(d, p + 42, c)
    &&& visual_run1_part5_at(d, p + 61, c)
    &&& visual_run1_part6_at(d, p + 85, c)
}

/// Read a [`VisualRun1`].
pub fn read_visual_run1(r: &mut ConfigReader) -> (res: Result<VisualRun1, SharedConfigError>)
    ensures
        final(r).bytes() == old(r).bytes(),
        old(r).at() + VISUAL_RUN1_LEN <= old(r).bytes().len() ==> (res matches Ok(c) && visual_run1_at(
            old(r).bytes(),
            old(r).at(),
            c,
        ) && final(r).at() == old(r).at() + VISUAL_RUN1_LEN),
        old(r).at() + VISUAL_RUN1_LEN > old(r).bytes().len() ==> (res matches Err(e) && e@ == eof_msg()),
{
    Ok(VisualRun1 {
        panic_sell_opacity: r.read_i32()?,
        hide_forum_label: r.read_bool()?,
        show_red_green_lines: r.read_bool()?,
        scrolling_charts: r.read_bool()?,
        startup_load_charts: r.read_bool()?,
        auto_close_charts: r.read_bool()?,
        left_chart_info: r.read_bool()?,
        show_red_green_dots: r.read_bool()?,
        glass_opacity: r.read_i32()?,
        chart_time_scale: r.read_i32()?,
        chart_watch_multi_frames: r.read_bool()?,
        chart_history_len: r.read_i32()?,
        hide_right_chart_panel: r.read_bool()?,
        show_vert_volume: r.read_bool()?,
        vert_vol_time_frame: r.read_i32()?,
        vert_vol_opacity: r.read_u32()?,
        vert_vol_height: r.read_u32()?,
        vert_vol_kind: r.read_i32()?,
        v_tool_show: r.read_bool()?,
        v_tool_time: r.read_u64()?,
        v_tool_opacity: r.read_u32()?,
        v_tool_show_buyers: r.read_bool()?,
        v_tool_time_index: r.read_i32()?,
        hv_show: r.read_bool()?,
        hv_width: r.read_u32()?,
        hv_time_frame_ind: r.read_i32()?,
        hv_time_frame: r.read_i32()?,
        hv_price_frame: r.read_u32()?,
        hv_opacity: r.read_u32()?,
        cdc_ver: r.read_i32()?,
        cdc_opacity: r.read_u32()?,
        cdc_show: r.read_bool()?,
    })
}

/// Write fields `panic_sell_opacity` to `auto_close_charts` of a [`VisualRun1`].
fn write_visual_run1_part1(w: &mut ConfigWriter, c: &VisualRun1)
    requires
        old(w).wf(),
    ensures
        final(w).wf(),
        final(w).wrote_all(old(w), true, visual_run1_part1_bytes(*c)),
{
    let ghost w0 = *w;
    let ghost wb = *w;
    w.write_i32(c.panic_sell_opacity);
    proof { lemma_wrote_all_of_wrote(wb, *w, le_u32(c.panic_sell_opacity as u32)); }
    let ghost wb = *w;
    w.write_bool(c.hide_forum_label);
    proof {
        lemma_wrote_all_of_wrote(wb, *w, seq![bool_byte(c.hide_forum_label)]);
        lemma_wrote_all_then(w0, wb, *w, true, le_u32(c.panic_sell_opacity as u32), true, seq![bool_byte(c.hide_forum_label)]);
    }
    let ghost wb = *w;
    w.write_bool(c.show_red_green_lines);
    proof {
        lemma_wrote_all_of_wrote(wb, *w, seq![bool_byte(c.show_red_green_lines)]);
        lemma_wrote_all_then(w0, wb, *w, true, le_u32(c.panic_sell_opacity as u32) + seq![bool_byte(c.hide_forum_label)], true, seq![bool_byte(c.show_red_green_lines)]);
    }
    let ghost wb = *w;
    w.write_bool(c.scrolling_charts);
    proof {
        lemma_wrote_all_of_wrote(wb, *w, seq![bool_byte(c.scrolling_charts)]);
        lemma_wrote_all_then(w0, wb, *w, true, le_u32(c.panic_sell_opacity as u32) + seq![bool_byte(c.hide_forum_label)] + seq![bool_byte(c.show_red_green_lines)], true, seq![bool_byte(c.scrolling_charts)]);
    }
    let ghost wb = *w;
    w.write_bool(c.startup_load_charts);
    proof {
        lemma_wrote_all_of_wrote(wb, *w, seq![bool_byte(c.startup_load_charts)]);
        lemma_wrote_all_then(w0, wb, *w, true, le_u32(c.panic_sell_opacity as u32) + seq![bool_byte(c.hide_forum_label)] + seq![bool_byte(c.show_red_green_lines)] + seq![bool_byte(c.scrolling_charts)], true, seq![bool_byte(c.startup_load_charts)]);
    }
    let ghost wb = *w;
    w.write_bool(c.auto_close_charts);
    proof {
        lemma_wrote_all_of_wrote(wb, *w, seq![bool_byte(c.auto_close_charts)]);
        lemma_wrote_all_then(w0, wb, *w, true, le_u32(c.panic_sell_opacity as u32) + seq![bool_byte(c.hide_forum_label)] + seq![bool_byte(c.show_red_green_lines)] + seq![bool_byte(c.scrolling_charts)] + seq![bool_byte(c.startup_load_charts)], true, seq![bool_byte(c.auto_close_charts)]);
    }
}

/// Write fields `left_chart_info` to `chart_history_len` of a [`VisualRun1`].
fn write_visual_run1_part2(w: &mut ConfigWriter, c: &VisualRun1)
    requires
        old(w).wf(),
    ensures
        final(w).wf(),
        final(w).wrote_all(old(w), true, visual_run1_part2_bytes(*c)),
{
    let ghost w0 = *w;
    let ghost wb = *w;
    w.write_bool(c.left_chart_info);
    proof { lemma_wrote_all_of_wrote(wb, *w, seq![bool_byte(c.left_chart_info)]); }
    let ghost wb = *w;
    w.write_bool(c.show_red_green_dots);
    proof {
        lemma_wrote_all_of_wrote(wb, *w, seq![bool_byte(c.show_red_green_dots)]);
        lemma_wrote_all_then(w0, wb, *w, true, seq![bool_byte(c.left_chart_info)], true, seq![bool_byte(c.show_red_green_dots)]);
    }
    let ghost wb = *w;
    w.write_i32(c.glass_opacity);
    proof {
        lemma_wrote_all_of_wrote(wb, *w, le_u32(c.glass_opacity as u32));
        lemma_wrote_all_then(w0, wb, *w, true, seq![bool_byte(c.left_chart_info)] + seq![bool_byte(c.show_red_green_dots)], true, le_u32(c.glass_opacity as u32));
    }
    let ghost wb = *w;
    w.write_i32(c.chart_time_scale);
    proof {
        lemma_wrote_all_of_wrote(wb, *w, le_u32(c.chart_time_scale as u32));
        lemma_wrote_all_then(w0, wb, *w, true, seq![bool_byte(c.left_chart_info)] + seq![bool_byte(c.show_red_green_dots)] + le_u32(c.glass_opacity as u32), true, le_u32(c.chart_time_scale as u32));
    }
    let ghost wb = *w;
    w.write_bool(c.chart_watch_multi_frames);
    proof {
        lemma_wrote_all_of_wrote(wb, *w, seq![bool_byte(c.chart_watch_multi_frames)]);
        lemma_wrote_all_then(w0, wb, *w, true, seq![bool_byte(c.left_chart_info)] + seq![bool_byte(c.show_red_green_dots)] + le_u32(c.glass_opacity as u32) + le_u32(c.chart_time_scale as u32), true, seq![bool_byte(c.chart_watch_multi_frames)]);
    }
    let ghost wb = *w;
    w.write_i32(c.chart_history_len);
    proof {
        lemma_wrote_all_of_wrote(wb, *w, le_u32(c.chart_history_len as u32));
        lemma_wrote_all_then(w0, wb, *w, true, seq![bool_byte(c.left_chart_info)] + seq![bool_byte(c.show_red_green_dots)] + le_u32(c.glass_opacity as u32) + le_u32(c.chart_time_scale as u32) + seq![bool_byte(c.chart_watch_multi_frames)], true, le_u32(c.chart_history_len as u32));
    }
}

/// Write fields `hide_right_chart_panel` to `vert_vol_kind` of a [`VisualRun1`].
fn write_visual_run1_part3(w: &mut ConfigWriter, c: &VisualRun1)
    requires
        old(w).wf(),
    ensures
        final(w).wf(),
        final(w).wrote_all(old(w), true, visual_run1_part3_bytes(*c)),
{
    let ghost w0 = *w;
    let ghost wb = *w;
    w.write_bool(c.hide_right_chart_panel);
    proof { lemma_wrote_all_of_wrote(wb, *w, seq![bool_byte(c.hide_right_chart_panel)]); }
    let ghost wb = *w;
    w.write_bool(c.show_vert_volume);
    proof {
        lemma_wrote_all_of_wrote(wb, *w, seq![bool_byte(c.show_vert_volume)]);
        lemma_wrote_all_then(w0, wb, *w, true, seq![bool_byte(c.hide_right_chart_panel)], true, seq![bool_byte(c.show_vert_volume)]);
    }
    let ghost wb = *w;
    w.write_i32(c.vert_vol_time_frame);
    proof {
        lemma_wrote_all_of_wrote(wb, *w, le_u32(c.vert_vol_time_frame as u32));
        lemma_wrote_all_then(w0, wb, *w, true, seq![bool_byte(c.hide_right_chart_panel)] + seq![bool_byte(c.show_vert_volume)], true, le_u32(c.vert_vol_time_frame as u32));
    }
    let ghost wb = *w;
    w.write_u32(c.vert_vol_opacity);
    proof {
        lemma_wrote_all_of_wrote(wb, *w, le_u32(c.vert_vol_opacity));
        lemma_wrote_all_then(w0, wb, *w, true, seq![bool_byte(c.hide_right_chart_panel)] + seq![bool_byte(c.show_vert_volume)] + le_u32(c.vert_vol_time_frame as u32), true, le_u32(c.vert_vol_opacity));
    }
    let ghost wb = *w;
    w.write_u32(c.vert_vol_height);
    proof {
        lemma_wrote_all_of_wrote(wb, *w, le_u32(c.vert_vol_height));
        lemma_wrote_all_then(w0, wb, *w, true, seq![bool_byte(c.hide_right_chart_panel)] + seq![bool_byte(c.show_vert_volume)] + le_u32(c.vert_vol_time_frame as u32) + le_u32(c.vert_vol_opacity), true, le_u32(c.vert_vol_height));
    }
    let ghost wb = *w;
    w.write_i32(c.vert_vol_kind);
    proof {
        lemma_wrote_all_of_wrote(wb, *w, le_u32(c.vert_vol_kind as u32));
        lemma_wrote_all_then(w0, wb, *w, true, seq![bool_byte(c.hide_right_chart_panel)] + seq![bool_byte(c.show_vert_volume)] + le_u32(c.vert_vol_time_frame as u32) + le_u32(c.vert_vol_opacity) + le_u32(c.vert_vol_height), true, le_u32(c.vert_vol_kind as u32));
    }
}

/// Write fields `v_tool_show` to `hv_show` of a [`VisualRun1`].
fn write_visual_run1_part4(w: &mut ConfigWriter, c: &VisualRun1)
    requires
        old(w).wf(),
    ensures
        final(w).wf(),
        final(w).wrote_all(old(w), true, visual_run1_part4_bytes(*c)),
{
    let ghost w0 = *w;
    let ghost wb = *w;
    w.write_bool(c.v_tool_show);
    proof { lemma_wrote_all_of_wrote(wb, *w, seq![bool_byte(c.v_tool_show)]); }
    let ghost wb = *w;
    w.write_u64(c.v_tool_time);
    proof {
        lemma_wrote_all_of_wrote(wb, *w, le_u64(c.v_tool_time));
        lemma_wrote_all_then(w0, wb, *w, true, seq![bool_byte(c.v_tool_show)], true, le_u64(c.v_tool_time));
    }
    let ghost wb = *w;
    w.write_u32(c.v_tool_opacity);
    proof {
        lemma_wrote_all_of_wrote(wb, *w, le_u32(c.v_tool_opacity));
        lemma_wrote_all_then(w0, wb, *w, true, seq![bool_byte(c.v_tool_show)] + le_u64(c.v_tool_time), true, le_u32(c.v_tool_opacity));
    }
    let ghost wb = *w;
    w.write_bool(c.v_tool_show_buyers);
    proof {
        lemma_wrote_all_of_wrote(wb, *w, seq![bool_byte(c.v_tool_show_buyers)]);
        lemma_wrote_all_then(w0, wb, *w, true, seq![bool_byte(c.v_tool_show)] + le_u64(c.v_tool_time) + le_u32(c.v_tool_opacity), true, seq![bool_byte(c.v_tool_show_buyers)]);
    }
    let ghost wb = *w;
    w.write_i32(c.v_tool_time_index);
    proof {
        lemma_wrote_all_of_wrote(wb, *w, le_u32(c.v_tool_time_index as u32));
        lemma_wrote_all_then(w0, wb, *w, true, seq![bool_byte(c.v_tool_show)] + le_u64(c.v_tool_time) + le_u32(c.v_tool_opacity) + seq![bool_byte(c.v_tool_show_buyers)], true, le_u32(c.v_tool_time_index as u32));
    }
    let ghost wb = *w;
    w.write_bool(c.hv_show);
    proof {
        lemma_wrote_all_of_wrote(wb, *w, seq![bool_byte(c.hv_show)]);
        lemma_wrote_all_then(w0, wb, *w, true, seq![bool_byte(c.v_tool_show)] + le_u64(c.v_tool_time) + le_u32(c.v_tool_opacity) + seq![bool_byte(c.v_tool_show_buyers)] + le_u32(c.v_tool_time_index as u32), true, seq![bool_byte(c.hv_show)]);
    }
}

/// Write fields `hv_width` to `cdc_ver` of a [`VisualRun1`].
fn write_visual_run1_part5(w: &mut ConfigWriter, c: &VisualRun1)
    requires
        old(w).wf(),
    ensures
        final(w).wf(),
        final(w).wrote_all(old(w), true, visual_run1_part5_bytes(*c)),
{
    let ghost w0 = *w;
    let ghost wb = *w;
    w.write_u32(c.hv_width);
    proof { lemma_wrote_all_of_wrote(wb, *w, le_u32(c.hv_width)); }
    let ghost wb = *w;
    w.write_i32(c.hv_time_frame_ind);
    proof {
        lemma_wrote_all_of_wrote(wb, *w, le_u32(c.hv_time_frame_ind as u32));
        lemma_wrote_all_then(w0, wb, *w, true, le_u32(c.hv_width), true, le_u32(c.hv_time_frame_ind as u32));
    }
    let ghost wb = *w;
    w.write_i32(c.hv_time_frame);
    proof {
        lemma_wrote_all_of_wrote(wb, *w, le_u32(c.hv_time_frame as u32));
        lemma_wrote_all_then(w0, wb, *w, true, le_u32(c.hv_width) + le_u32(c.hv_time_frame_ind as u32), true, le_u32(c.hv_time_frame as u32));
    }
    let ghost wb = *w;
    w.write_u32(c.hv_price_frame);
    proof {
        lemma_wrote_all_of_wrote(wb, *w, le_u32(c.hv_price_frame));
        lemma_wrote_all_then(w0, wb, *w, true, le_u32(c.hv_width) + le_u32(c.hv_time_frame_ind as u32) + le_u32(c.hv_time_frame as u32), true, le_u32(c.hv_price_frame));
    }
    let ghost wb = *w;
    w.write_u32(c.hv_opacity);
    proof {
        lemma_wrote_all_of_wrote(wb, *w, le_u32(c.hv_opacity));
        lemma_wrote_all_then(w0, wb, *w, true, le_u32(c.hv_width) + le_u32(c.hv_time_frame_ind as u32) + le_u32(c.hv_time_frame as u32) + le_u32(c.hv_price_frame), true, le_u32(c.hv_opacity));
    }
    let ghost wb = *w;
    w.write_i32(c.cdc_ver);
    proof {
        lemma_wrote_all_of_wrote(wb, *w, le_u32(c.cdc_ver as u32));
        lemma_wrote_all_then(w0, wb, *w, true, le_u32(c.hv_width) + le_u32(c.hv_time_frame_ind as u32) + le_u32(c.hv_time_frame as u32) + le_u32(c.hv_price_frame) + le_u32(c.hv_opacity), true, le_u32(c.cdc_ver as u32));
    }
}

/// Write fields `cdc_opacity` to `cdc_show` of a [`VisualRun1`].
fn write_visual_run1_part6(w: &mut ConfigWriter, c: &VisualRun1)
    requires
        old(w).wf(),
    ensures
        final(w).wf(),
        final(w).wrote_all(old(w), true, visual_run1_part6_bytes(*c)),
{
    let ghost w0 = *w;
    let ghost wb = *w;
    w.write_u32(c.cdc_opacity);
    proof { lemma_wrote_all_of_wrote(wb, *w, le_u32(c.cdc_opacity)); }
    let ghost wb = *w;
    w.write_bool(c.cdc_show);
    proof {
        lemma_wrote_all_of_wrote(wb, *w, seq![bool_byte(c.cdc_show)]);
        lemma_wrote_all_then(w0, wb, *w, true, le_u32(c.cdc_opacity), true, seq![bool_byte(c.cdc_show)]);
    }
}

/// Write a [`VisualRun1`].
pub fn write_visual_run1(w: &mut ConfigWriter, c: &VisualRun1)
    requires
        old(w).wf(),
    ensures
        final(w).wf(),
        final(w).wrote_all(old(w), true, visual_run1_bytes(*c)),
{
    let ghost w0 = *w;
    let ghost wb = *w;
    write_visual_run1_part1(w, c);
    let ghost wb = *w;
    write_visual_run1_part2(w, c);
    proof { lemma_wrote_all_then(w0, wb, *w, true, visual_run1_part1_bytes(*c), true, visual_run1_part2_bytes(*c)); }
    let ghost wb = *w;
    write_visual_run1_part3(w, c);
    proof { lemma_wrote_all_then(w0, wb, *w, true, visual_run1_part1_bytes(*c) + visual_run1_part2_bytes(*c), true, visual_run1_part3_bytes(*c)); }
    let ghost wb = *w;
    write_visual_run1_part4(w, c);
    proof { lemma_wrote_all_then(w0, wb, *w, true, visual_run1_part1_bytes(*c) + visual_run1_part2_bytes(*c) + visual_run1_part3_bytes(*c), true, visual_run1_part4_bytes(*c)); }
    let ghost wb = *w;
    write_visual_run1_part5(w, c);
    proof { lemma_wrote_all_then(w0, wb, *w, true, visual_run1_part1_bytes(*c) + visual_run1_part2_bytes(*c) + visual_run1_part3_bytes(*c) + visual_run1_part4_bytes(*c), true, visual_run1_part5_bytes(*c)); }
    let ghost wb = *w;
    write_visual_run1_part6(w, c);
    proof { lemma_wrote_all_then(w0, wb, *w, true, visual_run1_part1_bytes(*c) + visual_run1_part2_bytes(*c) + visual_run1_part3_bytes(*c) + visual_run1_part4_bytes(*c) + visual_run1_part5_bytes(*c), true, visual_run1_part6_bytes(*c)); }
}

/// Fields `panic_sell_opacity` to `auto_close_charts` read back from their bytes.
pub proof fn lemma_visual_run1_part1_at(c: VisualRun1, d: Seq<u8>, o: int)
    requires
        0 <= o,
        o + 9 <= d.len(),
        d.subrange(o, o + 9) == visual_run1_part1_bytes(c),
    ensures
        visual_run1_part1_bytes(c).len() == 9,
        visual_run1_part1_at(d, o, c),
{
    let b0 = le_u32(c.panic_sell_opacity as u32);
    let b1 = b0 + seq![bool_byte(c.hide_forum_label)];
    let b2 = b1 + seq![bool_byte(c.show_red_green_lines)];
    let b3 = b2 + seq![bool_byte(c.scrolling_charts)];
    let b4 = b3 + seq![bool_byte(c.startup_load_charts)];
    let b5 = b4 + seq![bool_byte(c.auto_close_charts)];
    let e = d.subrange(o, o + 9);
    assert(e == b5);
    lemma_seq_split(b4, seq![bool_byte(c.auto_close_charts)]);
    lemma_subrange_of_prefix(e, 9, 0, 8);
    lemma_subrange_of_prefix(e, 9, 8, 9);
    lemma_seq_split(b3, seq![bool_byte(c.startup_load_charts)]);
    lemma_subrange_of_prefix(e, 8, 0, 7);
    lemma_subrange_of_prefix(e, 8, 7, 8);
    lemma_seq_split(b2, seq![bool_byte(c.scrolling_charts)]);
    lemma_subrange_of_prefix(e, 7, 0, 6);
    lemma_subrange_of_prefix(e, 7, 6, 7);
    lemma_seq_split(b1, seq![bool_byte(c.show_red_green_lines)]);
    lemma_subrange_of_prefix(e, 6, 0, 5);
    lemma_subrange_of_prefix(e, 6, 5, 6);
    lemma_seq_split(b0, seq![bool_byte(c.hide_forum_label)]);
    lemma_subrange_of_prefix(e, 5, 0, 4);
    lemma_subrange_of_prefix(e, 5, 4, 5);
    assert(e.subrange(0, 4) == le_u32(c.panic_sell_opacity as u32));
    lemma_le_i32_roundtrip(c.panic_sell_opacity);
    assert(d[o + 0] == e.subrange(0, 4)[0] && d[o + 1] == e.subrange(0, 4)[1] && d[o + 2] == e.subrange(0, 4)[2] && d[o + 3] == e.subrange(0, 4)[3]);
    assert(e.subrange(4, 5) == seq![bool_byte(c.hide_forum_label)]);
    assert(d[o + 4] == e.subrange(4, 5)[0]);
    lemma_bool_byte(c.hide_forum_label);
    assert(e.subrange(5, 6) == seq![bool_byte(c.show_red_green_lines)]);
    assert(d[o + 5] == e.subrange(5, 6)[0]);
    lemma_bool_byte(c.show_red_green_lines);
    assert(e.subrange(6, 7) == seq![bool_byte(c.scrolling_charts)]);
    assert(d[o + 6] == e.subrange(6, 7)[0]);
    lemma_bool_byte(c.scrolling_charts);
    assert(e.subrange(7, 8) == seq![bool_byte(c.startup_load_charts)]);
    assert(d[o + 7] == e.subrange(7, 8)[0]);
    lemma_bool_byte(c.startup_load_charts);
    assert(e.subrange(8, 9) == seq![bool_byte(c.auto_close_charts)]);
    assert(d[o + 8] == e.subrange(8, 9)[0]);
    lemma_bool_byte(c.auto_close_charts);
}

/// Fields `left_chart_info` to `chart_history_len` read back from their bytes.
pub proof fn lemma_visual_run1_part2_at(c: VisualRun1, d: Seq<u8>, o: int)
    requires
        0 <= o,
        o + 15 <= d.len(),
        d.subrange(o, o + 15) == visual_run1_part2_bytes(c),
    ensures
        visual_run1_part2_bytes(c).len() == 15,
        visual_run1_part2_at(d, o, c),
{
    let b0 = seq![bool_byte(c.left_chart_info)];
    let b1 = b0 + seq![bool_byte(c.show_red_green_dots)];
    let b2 = b1 + le_u32(c.glass_opacity as u32);
    let b3 = b2 + le_u32(c.chart_time_scale as u32);
    let b4 = b3 + seq![bool_byte(c.chart_watch_multi_frames)];
    let b5 = b4 + le_u32(c.chart_history_len as u32);
    let e = d.subrange(o, o + 15);
    assert(e == b5);
    lemma_seq_split(b4, le_u32(c.chart_history_len as u32));
    lemma_subrange_of_prefix(e, 15, 0, 11);
    lemma_subrange_of_prefix(e, 15, 11, 15);
    lemma_seq_split(b3, seq![bool_byte(c.chart_watch_multi_frames)]);
    lemma_subrange_of_prefix(e, 11, 0, 10);
    lemma_subrange_of_prefix(e, 11, 10, 11);
    lemma_seq_split(b2, le_u32(c.chart_time_scale as u32));
    lemma_subrange_of_prefix(e, 10, 0, 6);
    lemma_subrange_of_prefix(e, 10, 6, 10);
    lemma_seq_split(b1, le_u32(c.glass_opacity as u32));
    lemma_subrange_of_prefix(e, 6, 0, 2);
    lemma_subrange_of_prefix(e, 6, 2, 6);
    lemma_seq_split(b0, seq![bool_byte(c.show_red_green_dots)]);
    lemma_subrange_of_prefix(e, 2, 0, 1);
    lemma_subrange_of_prefix(e, 2, 1, 2);
    assert(e.subrange(0, 1) == seq![bool_byte(c.left_chart_info)]);
    assert(d[o + 0] == e.subrange(0, 1)[0]);
    lemma_bool_byte(c.left_chart_info);
    assert(e.subrange(1, 2) == seq![bool_byte(c.show_red_green_dots)]);
    assert(d[o + 1] == e.subrange(1, 2)[0]);
    lemma_bool_byte(c.show_red_green_dots);
    assert(e.subrange(2, 6) == le_u32(c.glass_opacity as u32));
    lemma_le_i32_roundtrip(c.glass_opacity);
    assert(d[o + 2] == e.subrange(2, 6)[0] && d[o + 3] == e.subrange(2, 6)[1] && d[o + 4] == e.subrange(2, 6)[2] && d[o + 5] == e.subrange(2, 6)[3]);
    assert(e.subrange(6, 10) == le_u32(c.chart_time_scale as u32));
    lemma_le_i32_roundtrip(c.chart_time_scale);
    assert(d[o + 6] == e.subrange(6, 10)[0] && d[o + 7] == e.subrange(6, 10)[1] && d[o + 8] == e.subrange(6, 10)[2] && d[o + 9] == e.subrange(6, 10)[3]);
    assert(e.subrange(10, 11) == seq![bool_byte(c.chart_watch_multi_frames)]);
    assert(d[o + 10] == e.subrange(10, 11)[0]);
    lemma_bool_byte(c.chart_watch_multi_frames);
    assert(e.subrange(11, 15) == le_u32(c.chart_history_len as u32));
    lemma_le_i32_roundtrip(c.chart_history_len);
    assert(d[o + 11] == e.subrange(11, 15)[0] && d[o + 12] == e.subrange(11, 15)[1] && d[o + 13] == e.subrange(11, 15)[2] && d[o + 14] == e.subrange(11, 15)[3]);
}

/// Fields `hide_right_chart_panel` to `vert_vol_kind` read back from their bytes.
pub proof fn lemma_visual_run1_part3_at(c: VisualRun1, d: Seq<u8>, o: int)
    requires
        0 <= o,
        o + 18 <= d.len(),
        d.subrange(o, o + 18) == visual_run1_part3_bytes(c),
    ensures
        visual_run1_part3_bytes(c).len() == 18,
        visual_run1_part3_at(d, o, c),
{
    let b0 = seq![bool_byte(c.hide_right_chart_panel)];
    let b1 = b0 + seq![bool_byte(c.show_vert_volume)];
    let b2 = b1 + le_u32(c.vert_vol_time_frame as u32);
    let b3 = b2 + le_u32(c.vert_vol_opacity);
    let b4 = b3 + le_u32(c.vert_vol_height);
    let b5 = b4 + le_u32(c.vert_vol_kind as u32);
    let e = d.subrange(o, o + 18);
    assert(e == b5);
    lemma_seq_split(b4, le_u32(c.vert_vol_kind as u32));
    lemma_subrange_of_prefix(e, 18, 0, 14);
    lemma_subrange_of_prefix(e, 18, 14, 18);
    lemma_seq_split(b3, le_u32(c.vert_vol_height));
    lemma_subrange_of_prefix(e, 14, 0, 10);
    lemma_subrange_of_prefix(e, 14, 10, 14);
    lemma_seq_split(b2, le_u32(c.vert_vol_opacity));
    lemma_subrange_of_prefix(e, 10, 0, 6);
    lemma_subrange_of_prefix(e, 10, 6, 10);
    lemma_seq_split(b1, le_u32(c.vert_vol_time_frame as u32));
    lemma_subrange_of_prefix(e, 6, 0, 2);
    lemma_subrange_of_prefix(e, 6, 2, 6);
    lemma_seq_split(b0, seq![bool_byte(c.show_vert_volume)]);
    lemma_subrange_of_prefix(e, 2, 0, 1);
    lemma_subrange_of_prefix(e, 2, 1, 2);
    assert(e.subrange(0, 1) == seq![bool_byte(c.hide_right_chart_panel)]);
    assert(d[o + 0] == e.subrange(0, 1)[0]);
    lemma_bool_byte(c.hide_right_chart_panel);
    assert(e.subrange(1, 2) == seq![bool_byte(c.show_vert_volume)]);
    assert(d[o + 1] == e.subrange(1, 2)[0]);
    lemma_bool_byte(c.show_vert_volume);
    assert(e.subrange(2, 6) == le_u32(c.vert_vol_time_frame as u32));
    lemma_le_i32_roundtrip(c.vert_vol_time_frame);
    assert(d[o + 2] == e.subrange(2, 6)[0] && d[o + 3] == e.subrange(2, 6)[1] && d[o + 4] == e.subrange(2, 6)[2] && d[o + 5] == e.subrange(2, 6)[3]);
    assert(e.subrange(6, 10) == le_u32(c.vert_vol_opacity));
    lemma_le_u32_roundtrip(c.vert_vol_opacity);
    assert(d[o + 6] == e.subrange(6, 10)[0] && d[o + 7] == e.subrange(6, 10)[1] && d[o + 8] == e.subrange(6, 10)[2] && d[o + 9] == e.subrange(6, 10)[3]);
    assert(e.subrange(10, 14) == le_u32(c.vert_vol_height));
    lemma_le_u32_roundtrip(c.vert_vol_height);
    assert(d[o + 10] == e.subrange(10, 14)[0] && d[o + 11] == e.subrange(10, 14)[1] && d[o + 12] == e.subrange(10, 14)[2] && d[o + 13] == e.subrange(10, 14)[3]);
    assert(e.subrange(14, 18) == le_u32(c.vert_vol_kind as u32));
    lemma_le_i32_roundtrip(c.vert_vol_kind);
    assert(d[o + 14] == e.subrange(14, 18)[0] && d[o + 15] == e.subrange(14, 18)[1] && d[o + 16] == e.subrange(14, 18)[2] && d[o + 17] == e.subrange(14, 18)[3]);
}

/// Fields `v_tool_show` to `hv_show` read back from their bytes.
pub proof fn lemma_visual_run1_part4_at(c: VisualRun1, d: Seq<u8>, o: int)
    requires
        0 <= o,
        o + 19 <= d.len(),
        d.subrange(o, o + 19) == visual_run1_part4_bytes(c),
    ensures
        visual_run1_part4_bytes(c).len() == 19,
        visual_run1_part4_at(d, o, c),
{
    let b0 = seq![bool_byte(c.v_tool_show)];
    let b1 = b0 + le_u64(c.v_tool_time);
    let b2 = b1 + le_u32(c.v_tool_opacity);
    let b3 = b2 + seq![bool_byte(c.v_tool_show_buyers)];
    let b4 = b3 + le_u32(c.v_tool_time_index as u32);
    let b5 = b4 + seq![bool_byte(c.hv_show)];
    let e = d.subrange(o, o + 19);
    assert(e == b5);
    lemma_seq_split(b4, seq![bool_byte(c.hv_show)]);
    lemma_subrange_of_prefix(e, 19, 0, 18);
    lemma_subrange_of_prefix(e, 19, 18, 19);
    lemma_seq_split(b3, le_u32(c.v_tool_time_index as u32));
    lemma_subrange_of_prefix(e, 18, 0, 14);
    lemma_subrange_of_prefix(e, 18, 14, 18);
    lemma_seq_split(b2, seq![bool_byte(c.v_tool_show_buyers)]);
    lemma_subrange_of_prefix(e, 14, 0, 13);
    lemma_subrange_of_prefix(e, 14, 13, 14);
    lemma_seq_split(b1, le_u32(c.v_tool_opacity));
    lemma_subrange_of_prefix(e, 13, 0, 9);
    lemma_subrange_of_prefix(e, 13, 9, 13);
    lemma_seq_split(b0, le_u64(c.v_tool_time));
    lemma_subrange_of_prefix(e, 9, 0, 1);
    lemma_subrange_of_prefix(e, 9, 1, 9);
    assert(e.subrange(0, 1) == seq![bool_byte(c.v_tool_show)]);
    assert(d[o + 0] == e.subrange(0, 1)[0]);
    lemma_bool_byte(c.v_tool_show);
    assert(e.subrange(1, 9) == le_u64(c.v_tool_time));
    assert(d.subrange(o + 1, o + 9) =~= e.subrange(1, 9));
    lemma_u64_at_le(c.v_tool_time, d, o + 1);
    assert(e.subrange(9, 13) == le_u32(c.v_tool_opacity));
    lemma_le_u32_roundtrip(c.v_tool_opacity);
    assert(d[o + 9] == e.subrange(9, 13)[0] && d[o + 10] == e.subrange(9, 13)[1] && d[o + 11] == e.subrange(9, 13)[2] && d[o + 12] == e.subrange(9, 13)[3]);
    assert(e.subrange(13, 14) == seq![bool_byte(c.v_tool_show_buyers)]);
    assert(d[o + 13] == e.subrange(13, 14)[0]);
    lemma_bool_byte(c.v_tool_show_buyers);
    assert(e.subrange(14, 18) == le_u32(c.v_tool_time_index as u32));
    lemma_le_i32_roundtrip(c.v_tool_time_index);
    assert(d[o + 14] == e.subrange(14, 18)[0] && d[o + 15] == e.subrange(14, 18)[1] && d[o + 16] == e.subrange(14, 18)[2] && d[o + 17] == e.subrange(14, 18)[3]);
    assert(e.subrange(18, 19) == seq![bool_byte(c.hv_show)]);
    assert(d[o + 18] == e.subrange(18, 19)[0]);
    lemma_bool_byte(c.hv_show);
}

/// Fields `hv_width` to `cdc_ver` read back from their bytes.
pub proof fn lemma_visual_run1_part5_at(c: VisualRun1, d: Seq<u8>, o: int)
    requires
        0 <= o,
        o + 24 <= d.len(),
        d.subrange(o, o + 24) == visual_run1_part5_bytes(c),
    ensures
        visual_run1_part5_bytes(c).len() == 24,
        visual_run1_part5_at(d, o, c),
{
    let b0 = le_u32(c.hv_width);
    let b1 = b0 + le_u32(c.hv_time_frame_ind as u32);
    let b2 = b1 + le_u32(c.hv_time_frame as u32);
    let b3 = b2 + le_u32(c.hv_price_frame);
    let b4 = b3 + le_u32(c.hv_opacity);
    let b5 = b4 + le_u32(c.cdc_ver as u32);
    let e = d.subrange(o, o + 24);
    assert(e == b5);
    lemma_seq_split(b4, le_u32(c.cdc_ver as u32));
    lemma_subrange_of_prefix(e, 24, 0, 20);
    lemma_subrange_of_prefix(e, 24, 20, 24);
    lemma_seq_split(b3, le_u32(c.hv_opacity));
    lemma_subrange_of_prefix(e, 20, 0, 16);
    lemma_subrange_of_prefix(e, 20, 16, 20);
    lemma_seq_split(b2, le_u32(c.hv_price_frame));
    lemma_subrange_of_prefix(e, 16, 0, 12);
    lemma_subrange_of_prefix(e, 16, 12, 16);
    lemma_seq_split(b1, le_u32(c.hv_time_frame as u32));
    lemma_subrange_of_prefix(e, 12, 0, 8);
    lemma_subrange_of_prefix(e, 12, 8, 12);
    lemma_seq_split(b0, le_u32(c.hv_time_frame_ind as u32));
    lemma_subrange_of_prefix(e, 8, 0, 4);
    lemma_subrange_of_prefix(e, 8, 4, 8);
    assert(e.subrange(0, 4) == le_u32(c.hv_width));
    lemma_le_u32_roundtrip(c.hv_width);
    assert(d[o + 0] == e.subrange(0, 4)[0] && d[o + 1] == e.subrange(0, 4)[1] && d[o + 2] == e.subrange(0, 4)[2] && d[o + 3] == e.subrange(0, 4)[3]);
    assert(e.subrange(4, 8) == le_u32(c.hv_time_frame_ind as u32));
    lemma_le_i32_roundtrip(c.hv_time_frame_ind);
    assert(d[o + 4] == e.subrange(4, 8)[0] && d[o + 5] == e.subrange(4, 8)[1] && d[o + 6] == e.subrange(4, 8)[2] && d[o + 7] == e.subrange(4, 8)[3]);
    assert(e.subrange(8, 12) == le_u32(c.hv_time_frame as u32));
    lemma_le_i32_roundtrip(c.hv_time_frame);
    assert(d[o + 8] == e.subrange(8, 12)[0] && d[o + 9] == e.subrange(8, 12)[1] && d[o + 10] == e.subrange(8, 12)[2] && d[o + 11] == e.subrange(8, 12)[3]);
    assert(e.subrange(12, 16) == le_u32(c.hv_price_frame));
    lemma_le_u32_roundtrip(c.hv_price_frame);
    assert(d[o + 12] == e.subrange(12, 16)[0] && d[o + 13] == e.subrange(12, 16)[1] && d[o + 14] == e.subrange(12, 16)[2] && d[o + 15] == e.subrange(12, 16)[3]);
    assert(e.subrange(16, 20) == le_u32(c.hv_opacity));
    lemma_le_u32_roundtrip(c.hv_opacity);
    assert(d[o + 16] == e.subrange(16, 20)[0] && d[o + 17] == e.subrange(16, 20)[1] && d[o + 18] == e.subrange(16, 20)[2] && d[o + 19] == e.subrange(16, 20)[3]);
    assert(e.subrange(20, 24) == le_u32(c.cdc_ver as u32));
    lemma_le_i32_roundtrip(c.cdc_ver);
    assert(d[o + 20] == e.subrange(20, 24)[0] && d[o + 21] == e.subrange(20, 24)[1] && d[o + 22] == e.subrange(20, 24)[2] && d[o + 23] == e.subrange(20, 24)[3]);
}

/// Fields `cdc_opacity` to `cdc_show` read back from their bytes.
pub proof fn lemma_visual_run1_part6_at(c: VisualRun1, d: Seq<u8>, o: int)
    requires
        0 <= o,
        o + 5 <= d.len(),
        d.subrange(o, o + 5) == visual_run1_part6_bytes(c),
    ensures
        visual_run1_part6_bytes(c).len() == 5,
        visual_run1_part6_at(d, o, c),
{
    let b0 = le_u32(c.cdc_opacity);
    let b1 = b0 + seq![bool_byte(c.cdc_show)];
    let e = d.subrange(o, o + 5);
    assert(e == b1);
    lemma_seq_split(b0, seq![bool_byte(c.cdc_show)]);
    lemma_subrange_of_prefix(e, 5, 0, 4);
    lemma_subrange_of_prefix(e, 5, 4, 5);
    assert(e.subrange(0, 4) == le_u32(c.cdc_opacity));
    lemma_le_u32_roundtrip(c.cdc_opacity);
    assert(d[o + 0] == e.subrange(0, 4)[0] && d[o + 1] == e.subrange(0, 4)[1] && d[o + 2] == e.subrange(0, 4)[2] && d[o + 3] == e.subrange(0, 4)[3]);
    assert(e.subrange(4, 5) == seq![bool_byte(c.cdc_show)]);
    assert(d[o + 4] == e.subrange(4, 5)[0]);
    lemma_bool_byte(c.cdc_show);
}

/// The fields of a [`VisualRun1`] read back from its bytes.
pub proof fn lemma_visual_run1_at(c: VisualRun1, d: Seq<u8>, o: int)
    requires
        0 <= o,
        o + 90 <= d.len(),
        d.subrange(o, o + 90) == visual_run1_bytes(c),
    ensures
        visual_run1_bytes(c).len() == 90,
        visual_run1_at(d, o, c),
{
    let g0 = visual_run1_part1_bytes(c);
    let g1 = g0 + visual_run1_part2_bytes(c);
    let g2 = g1 + visual_run1_part3_bytes(c);
    let g3 = g2 + visual_run1_part4_bytes(c);
    let g4 = g3 + visual_run1_part5_bytes(c);
    let g5 = g4 + visual_run1_part6_bytes(c);
    let e = d.subrange(o, o + 90);
    assert(e == g5);
    lemma_seq_split(g4, visual_run1_part6_bytes(c));
    lemma_subrange_of_prefix(e, 90, 0, 85);
    lemma_subrange_of_prefix(e, 90, 85, 90);
    assert(d.subrange(o + 85, o + 90) =~= e.subrange(85, 90));
    lemma_visual_run1_part6_at(c, d, o + 85);
    lemma_seq_split(g3, visual_run1_part5_bytes(c));
    lemma_subrange_of_prefix(e, 85, 0, 61);
    lemma_subrange_of_prefix(e, 85, 61, 85);
    assert(d.subrange(o + 61, o + 85) =~= e.subrange(61, 85));
    lemma_visual_run1_part5_at(c, d, o + 61);
    lemma_seq_split(g2, visual_run1_part4_bytes(c));
    lemma_subrange_of_prefix(e, 61, 0, 42);
    lemma_subrange_of_prefix(e, 61, 42, 61);
    assert(d.subrange(o + 42, o + 61) =~= e.subrange(42, 61));
    lemma_visual_run1_part4_at(c, d, o + 42);
    lemma_seq_split(g1, visual_run1_part3_bytes(c));
    lemma_subrange_of_prefix(e, 42, 0, 24);
    lemma_subrange_of_prefix(e, 42, 24, 42);
    assert(d.subrange(o + 24, o + 42) =~= e.subrange(24, 42));
    lemma_visual_run1_part3_at(c, d, o + 24);
    lemma_seq_split(g0, visual_run1_part2_bytes(c));
    lemma_subrange_of_prefix(e, 24, 0, 9);
    lemma_subrange_of_prefix(e, 24, 9, 24);
    assert(d.subrange(o + 9, o + 24) =~= e.subrange(9, 24));
    lemma_visual_run1_part2_at(c, d, o + 9);
    assert(d.subrange(o + 0, o + 9) =~= e.subrange(0, 9));
    lemma_visual_run1_part1_at(c, d, o + 0);
}

/// Reading back the bytes of a [`VisualRun1`] gives the same record.
pub proof fn lemma_visual_run1_roundtrip(c: VisualRun1, rest: Seq<u8>)
    ensures
        visual_run1_bytes(c).len() == VISUAL_RUN1_LEN,
        visual_run1_at(visual_run1_bytes(c) + rest, 0, c),
{
    lemma_seq_split(visual_run1_bytes(c), rest);
    lemma_visual_run1_at(c, visual_run1_bytes(c) + rest, 0);
}

/// The fields of a [`VisualSection`] that a [`VisualRun1`] holds.
pub open spec fn visual_run1_of(s: VisualSection) -> VisualRun1 {
    VisualRun1 { panic_sell_opacity: s.panic_sell_opacity, hide_forum_label: s.hide_forum_label, show_red_green_lines: s.show_red_green_lines, scrolling_charts: s.scrolling_charts, startup_load_charts: s.startup_load_charts, auto_close_charts: s.auto_close_charts, left_chart_info: s.left_chart_info, show_red_green_dots: s.show_red_green_dots, glass_opacity: s.glass_opacity, chart_time_scale: s.chart_time_scale, chart_watch_multi_frames: s.chart_watch_multi_frames, chart_history_len: s.chart_history_len, hide_right_chart_panel: s.hide_right_chart_panel, show_vert_volume: s.show_vert_volume, vert_vol_time_frame: s.vert_vol_time_frame, vert_vol_opacity: s.vert_vol_opacity, vert_vol_height: s.vert_vol_height, vert_vol_kind: s.vert_vol_kind, v_tool_show: s.v_tool_show, v_tool_time: s.v_tool_time, v_tool_opacity: s.v_tool_opacity, v_tool_show_buyers: s.v_tool_show_buyers, v_tool_time_index: s.v_tool_time_index, hv_show: s.hv_show, hv_width: s.hv_width, hv_time_frame_ind: s.hv_time_frame_ind, hv_time_frame: s.hv_time_frame, hv_price_frame: s.hv_price_frame, hv_opacity: s.hv_opacity, cdc_ver: s.custom_draw_config.ver, cdc_opacity: s.custom_draw_config.f_opacity, cdc_show: s.custom_draw_config.f_show }
}

/// Copy the fields of a [`VisualSection`] that a [`VisualRun1`] holds.
fn visual_run1_from(s: &VisualSection) -> (r: VisualRun1)
    ensures
        r == visual_run1_of(*s),
{
    VisualRun1 { panic_sell_opacity: s.panic_sell_opacity, hide_forum_label: s.hide_forum_label, show_red_green_lines: s.show_red_green_lines, scrolling_charts: s.scrolling_charts, startup_load_charts: s.startup_load_charts, auto_close_charts: s.auto_close_charts, left_chart_info: s.left_chart_info, show_red_green_dots: s.show_red_green_dots, glass_opacity: s.glass_opacity, chart_time_scale: s.chart_time_scale, chart_watch_multi_frames: s.chart_watch_multi_frames, chart_history_len: s.chart_history_len, hide_right_chart_panel: s.hide_right_chart_panel, show_vert_volume: s.show_vert_volume, vert_vol_time_frame: s.vert_vol_time_frame, vert_vol_opacity: s.vert_vol_opacity, vert_vol_height: s.vert_vol_height, vert_vol_kind: s.vert_vol_kind, v_tool_show: s.v_tool_show, v_tool_time: s.v_tool_time, v_tool_opacity: s.v_tool_opacity, v_tool_show_buyers: s.v_tool_show_buyers, v_tool_time_index: s.v_tool_time_index, hv_show: s.hv_show, hv_width: s.hv_width, hv_time_frame_ind: s.hv_time_frame_ind, hv_time_frame: s.hv_time_frame, hv_price_frame: s.hv_price_frame, hv_opacity: s.hv_opacity, cdc_ver: s.custom_draw_config.ver, cdc_opacity: s.custom_draw_config.f_opacity, cdc_show: s.custom_draw_config.f_show }
}

/// Fixed-width fields of the visual section from `global_current_draw_kind` to `book_orders_width`, in wire order.
#[derive(Clone, Copy, Debug)]
pub struct VisualRun2 {
    /// Currently selected draw tool kind (TChartObjectKind ordinal).
    pub global_current_draw_kind: u8,
    /// Placement of horizontal-volume labels on the chart: 0 = right with a
    /// cleared background, 1 = left with a guide line to the bar, 2 = right
    /// drawn over the chart, 3 = left over the chart with a guide line.
    pub hv_disp_vol: i32,
    /// HeatVolume chart kind.
    pub hv_kind: i32,
    /// Show market name captions on chart.
    pub show_market_captions: bool,
    /// Show order price captions on chart.
    pub show_orders_captions: bool,
    /// Place order captions below the line (vs. above).
    pub orders_captions_lower: bool,
    /// Show USD-converted prices on charts (for non-USDT pairs).
    pub show_usd_on_charts: bool,
    /// Auto-zoom new market charts to maximum scale.
    pub new_markets_max_scale: bool,
    /// Vertical volume indicator panel position index.
    pub vert_vol_ind_pos: i32,
    /// Cumulative orderbook visualization opacity (0..100).
    pub book_cumulative_opacity: i32,
    /// Individual order level opacity (0..100).
    pub book_orders_opacity: i32,
    /// Orderbook level bar width in pixels.
    pub book_orders_width: i32,
}

/// Wire size of [`VisualRun2`].
pub const VISUAL_RUN2_LEN: usize = 30;

/// Wire bytes of fields `global_current_draw_kind` to `orders_captions_lower` of a [`VisualRun2`].
pub open spec fn visual_run2_part1_bytes(c: VisualRun2) -> Seq<u8> {
    seq![c.global_current_draw_kind]
        + le_u32(c.hv_disp_vol as u32)
        + le_u32(c.hv_kind as u32)
        + seq![bool_byte(c.show_market_captions)]
        + seq![bool_byte(c.show_orders_captions)]
        + seq![bool_byte(c.orders_captions_lower)]
}

/// Whether fields `global_current_draw_kind` to `orders_captions_lower` of `c` are stored at `p`.
pub open spec fn visual_run2_part1_at(d: Seq<u8>, p: int, c: VisualRun2) -> bool {
    &&& c.global_current_draw_kind == d[p]
    &&& c.hv_disp_vol == i32_at(d, p + 1)
    &&& c.hv_kind == i32_at(d, p + 5)
    &&& c.show_market_captions == flag_of(d[p + 9])
    &&& c.show_orders_captions == flag_of(d[p + 10])
    &&& c.orders_captions_lower == flag_of(d[p + 11])
}

/// Wire bytes of fields `show_usd_on_charts` to `book_orders_width` of a [`VisualRun2`].
pub open spec fn visual_run2_part2_bytes(c: VisualRun2) -> Seq<u8> {
    seq![bool_byte(c.show_usd_on_charts)]
        + seq![bool_byte(c.new_markets_max_scale)]
        + le_u32(c.vert_vol_ind_pos as u32)
        + le_u32(c.book_cumulative_opacity as u32)
        + le_u32(c.book_orders_opacity as u32)
        + le_u32(c.book_orders_width as u32)
}

/// Whether fields `show_usd_on_charts` to `book_orders_width` of `c` are stored at `p`.
pub open spec fn visual_run2_part2_at(d: Seq<u8>, p: int, c: VisualRun2) -> bool {
    &&& c.show_usd_on_charts == flag_of(d[p])
    &&& c.new_markets_max_scale == flag_of(d[p + 1])
    &&& c.vert_vol_ind_pos == i32_at(d, p + 2)
    &&& c.book_cumulative_opacity == i32_at(d, p + 6)
    &&& c.book_orders_opacity == i32_at(d, p + 10)
    &&& c.book_orders_width == i32_at(d, p + 14)
}

/// Wire bytes of a [`VisualRun2`], field after field.
pub open spec fn visual_run2_bytes(c: VisualRun2) -> Seq<u8> {
    visual_run2_part1_bytes(c)
        + visual_run2_part2_bytes(c)
}

/// Whether `c` is the [`VisualRun2`] stored at `p`.
pub open spec fn visual_run2_at(d: Seq<u8>, p: int, c: VisualRun2) -> bool {
    &&& visual_run2_part1_at(d, p, c)
    &&& visual_run2_part2_at(d, p + 12, c)
}

/// Read a [`VisualRun2`].
pub fn read_visual_run2(r: &mut ConfigReader) -> (res: Result<VisualRun2, SharedConfigError>)
    ensures
        final(r).bytes() == old(r).bytes(),
        old(r).at() + VISUAL_RUN2_LEN <= old(r).bytes().len() ==> (res matches Ok(c) && visual_run2_at(
            old(r).bytes(),
            old(r).at(),
            c,
        ) && final(r).at() == old(r).at() + VISUAL_RUN2_LEN),
        old(r).at() + VISUAL_RUN2_LEN > old(r).bytes().len() ==> (res matches Err(e) && e@ == eof_msg()),
{
    Ok(VisualRun2 {
        global_current_draw_kind: r.read_u8()?,
        hv_disp_vol: r.read_i32()?,
        hv_kind: r.read_i32()?,
        show_market_captions: r.read_bool()?,
        show_orders_captions: r.read_bool()?,
        orders_captions_lower: r.read_bool()?,
        show_usd_on_charts: r.read_bool()?,
        new_markets_max_scale: r.read_bool()?,
        vert_vol_ind_pos: r.read_i32()?,
        book_cumulative_opacity: r.read_i32()?,
        book_orders_opacity: r.read_i32()?,
        book_orders_width: r.read_i32()?,
    })
}

/// Write fields `global_current_draw_kind` to `orders_captions_lower` of a [`VisualRun2`].
fn write_visual_run2_part1(w: &mut ConfigWriter, c: &VisualRun2)
    requires
        old(w).wf(),
    ensures
        final(w).wf(),
        final(w).wrote_all(old(w), true, visual_run2_part1_bytes(*c)),
{
    let ghost w0 = *w;
    let ghost wb = *w;
    w.write_u8(c.global_current_draw_kind);
    proof { lemma_wrote_all_of_wrote(wb, *w, seq![c.global_current_draw_kind]); }
    let ghost wb = *w;
    w.write_i32(c.hv_disp_vol);
    proof {
        lemma_wrote_all_of_wrote(wb, *w, le_u32(c.hv_disp_vol as u32));
        lemma_wrote_all_then(w0, wb, *w, true, seq![c.global_current_draw_kind], true, le_u32(c.hv_disp_vol as u32));
    }
    let ghost wb = *w;
    w.write_i32(c.hv_kind);
    proof {
        lemma_wrote_all_of_wrote(wb, *w, le_u32(c.hv_kind as u32));
        lemma_wrote_all_then(w0, wb, *w, true, seq![c.global_current_draw_kind] + le_u32(c.hv_disp_vol as u32), true, le_u32(c.hv_kind as u32));
    }
    let ghost wb = *w;
    w.write_bool(c.show_market_captions);
    proof {
        lemma_wrote_all_of_wrote(wb, *w, seq![bool_byte(c.show_market_captions)]);
        lemma_wrote_all_then(w0, wb, *w, true, seq![c.global_current_draw_kind] + le_u32(c.hv_disp_vol as u32) + le_u32(c.hv_kind as u32), true, seq![bool_byte(c.show_market_captions)]);
    }
    let ghost wb = *w;
    w.write_bool(c.show_orders_captions);
    proof {
        lemma_wrote_all_of_wrote(wb, *w, seq![bool_byte(c.show_orders_captions)]);
        lemma_wrote_all_then(w0, wb, *w, true, seq![c.global_current_draw_kind] + le_u32(c.hv_disp_vol as u32) + le_u32(c.hv_kind as u32) + seq![bool_byte(c.show_market_captions)], true, seq![bool_byte(c.show_orders_captions)]);
    }
    let ghost wb = *w;
    w.write_bool(c.orders_captions_lower);
    proof {
        lemma_wrote_all_of_wrote(wb, *w, seq![bool_byte(c.orders_captions_lower)]);
        lemma_wrote_all_then(w0, wb, *w, true, seq![c.global_current_draw_kind] + le_u32(c.hv_disp_vol as u32) + le_u32(c.hv_kind as u32) + seq![bool_byte(c.show_market_captions)] + seq![bool_byte(c.show_orders_captions)], true, seq![bool_byte(c.orders_captions_lower)]);
    }
}

/// Write fields `show_usd_on_charts` to `book_orders_width` of a [`VisualRun2`].
fn write_visual_run2_part2(w: &mut ConfigWriter, c: &VisualRun2)
    requires
        old(w).wf(),
    ensures
        final(w).wf(),
        final(w).wrote_all(old(w), true, visual_run2_part2_bytes(*c)),
{
    let ghost w0 = *w;
    let ghost wb = *w;
    w.write_bool(c.show_usd_on_charts);
    proof { lemma_wrote_all_of_wrote(wb, *w, seq![bool_byte(c.show_usd_on_charts)]); }
    let ghost wb = *w;
    w.write_bool(c.new_markets_max_scale);
    proof {
        lemma_wrote_all_of_wrote(wb, *w, seq![bool_byte(c.new_markets_max_scale)]);
        lemma_wrote_all_then(w0, wb, *w, true, seq![bool_byte(c.show_usd_on_charts)], true, seq![bool_byte(c.new_markets_max_scale)]);
    }
    let ghost wb = *w;
    w.write_i32(c.vert_vol_ind_pos);
    proof {
        lemma_wrote_all_of_wrote(wb, *w, le_u32(c.vert_vol_ind_pos as u32));
        lemma_wrote_all_then(w0, wb, *w, true, seq![bool_byte(c.show_usd_on_charts)] + seq![bool_byte(c.new_markets_max_scale)], true, le_u32(c.vert_vol_ind_pos as u32));
    }
    let ghost wb = *w;
    w.write_i32(c.book_cumulative_opacity);
    proof {
        lemma_wrote_all_of_wrote(wb, *w, le_u32(c.book_cumulative_opacity as u32));
        lemma_wrote_all_then(w0, wb, *w, true, seq![bool_byte(c.show_usd_on_charts)] + seq![bool_byte(c.new_markets_max_scale)] + le_u32(c.vert_vol_ind_pos as u32), true, le_u32(c.book_cumulative_opacity as u32));
    }
    let ghost wb = *w;
    w.write_i32(c.book_orders_opacity);
    proof {
        lemma_wrote_all_of_wrote(wb, *w, le_u32(c.book_orders_opacity as u32));
        lemma_wrote_all_then(w0, wb, *w, true, seq![bool_byte(c.show_usd_on_charts)] + seq![bool_byte(c.new_markets_max_scale)] + le_u32(c.vert_vol_ind_pos as u32) + le_u32(c.book_cumulative_opacity as u32), true, le_u32(c.book_orders_opacity as u32));
    }
    let ghost wb = *w;
    w.write_i32(c.book_orders_width);
    proof {
        lemma_wrote_all_of_wrote(wb, *w, le_u32(c.book_orders_width as u32));
        lemma_wrote_all_then(w0, wb, *w, true, seq![bool_byte(c.show_usd_on_charts)] + seq![bool_byte(c.new_markets_max_scale)] + le_u32(c.vert_vol_ind_pos as u32) + le_u32(c.book_cumulative_opacity as u32) + le_u32(c.book_orders_opacity as u32), true, le_u32(c.book_orders_width as u32));
    }
}

/// Write a [`VisualRun2`].
pub fn write_visual_run2(w: &mut ConfigWriter, c: &VisualRun2)
    requires
        old(w).wf(),
    ensures
        final(w).wf(),
        final(w).wrote_all(old(w), true, visual_run2_bytes(*c)),
{
    let ghost w0 = *w;
    let ghost wb = *w;
    write_visual_run2_part1(w, c);
    let ghost wb = *w;
    write_visual_run2_part2(w, c);
    proof { lemma_wrote_all_then(w0, wb, *w, true, visual_run2_part1_bytes(*c), true, visual_run2_part2_bytes(*c)); }
}

/// Fields `global_current_draw_kind` to `orders_captions_lower` read back from their bytes.
pub proof fn lemma_visual_run2_part1_at(c: VisualRun2, d: Seq<u8>, o: int)
    requires
        0 <= o,
        o + 12 <= d.len(),
        d.subrange(o, o + 12) == visual_run2_part1_bytes(c),
    ensures
        visual_run2_part1_bytes(c).len() == 12,
        visual_run2_part1_at(d, o, c),
{
    let b0 = seq![c.global_current_draw_kind];
    let b1 = b0 + le_u32(c.hv_disp_vol as u32);
    let b2 = b1 + le_u32(c.hv_kind as u32);
    let b3 = b2 + seq![bool_byte(c.show_market_captions)];
    let b4 = b3 + seq![bool_byte(c.show_orders_captions)];
    let b5 = b4 + seq![bool_byte(c.orders_captions_lower)];
    let e = d.subrange(o, o + 12);
    assert(e == b5);
    lemma_seq_split(b4, seq![bool_byte(c.orders_captions_lower)]);
    lemma_subrange_of_prefix(e, 12, 0, 11);
    lemma_subrange_of_prefix(e, 12, 11, 12);
    lemma_seq_split(b3, seq![bool_byte(c.show_orders_captions)]);
    lemma_subrange_of_prefix(e, 11, 0, 10);
    lemma_subrange_of_prefix(e, 11, 10, 11);
    lemma_seq_split(b2, seq![bool_byte(c.show_market_captions)]);
    lemma_subrange_of_prefix(e, 10, 0, 9);
    lemma_subrange_of_prefix(e, 10, 9, 10);
    lemma_seq_split(b1, le_u32(c.hv_kind as u32));
    lemma_subrange_of_prefix(e, 9, 0, 5);
    lemma_subrange_of_prefix(e, 9, 5, 9);
    lemma_seq_split(b0, le_u32(c.hv_disp_vol as u32));
    lemma_subrange_of_prefix(e, 5, 0, 1);
    lemma_subrange_of_prefix(e, 5, 1, 5);
    assert(e.subrange(0, 1) == seq![c.global_current_draw_kind]);
    assert(d[o + 0] == e.subrange(0, 1)[0]);
    assert(e.subrange(1, 5) == le_u32(c.hv_disp_vol as u32));
    lemma_le_i32_roundtrip(c.hv_disp_vol);
    assert(d[o + 1] == e.subrange(1, 5)[0] && d[o + 2] == e.subrange(1, 5)[1] && d[o + 3] == e.subrange(1, 5)[2] && d[o + 4] == e.subrange(1, 5)[3]);
    assert(e.subrange(5, 9) == le_u32(c.hv_kind as u32));
    lemma_le_i32_roundtrip(c.hv_kind);
    assert(d[o + 5] == e.subrange(5, 9)[0] && d[o + 6] == e.subrange(5, 9)[1] && d[o + 7] == e.subrange(5, 9)[2] && d[o + 8] == e.subrange(5, 9)[3]);
    assert(e.subrange(9, 10) == seq![bool_byte(c.show_market_captions)]);
    assert(d[o + 9] == e.subrange(9, 10)[0]);
    lemma_bool_byte(c.show_market_captions);
    assert(e.subrange(10, 11) == seq![bool_byte(c.show_orders_captions)]);
    assert(d[o + 10] == e.subrange(10, 11)[0]);
    lemma_bool_byte(c.show_orders_captions);
    assert(e.subrange(11, 12) == seq![bool_byte(c.orders_captions_lower)]);
    assert(d[o + 11] == e.subrange(11, 12)[0]);
    lemma_bool_byte(c.orders_captions_lower);
}

/// Fields `show_usd_on_charts` to `book_orders_width` read back from their bytes.
pub proof fn lemma_visual_run2_part2_at(c: VisualRun2, d: Seq<u8>, o: int)
    requires
        0 <= o,
        o + 18 <= d.len(),
        d.subrange(o, o + 18) == visual_run2_part2_bytes(c),
    ensures
        visual_run2_part2_bytes(c).len() == 18,
        visual_run2_part2_at(d, o, c),
{
    let b0 = seq![bool_byte(c.show_usd_on_charts)];
    let b1 = b0 + seq![bool_byte(c.new_markets_max_scale)];
    let b2 = b1 + le_u32(c.vert_vol_ind_pos as u32);
    let b3 = b2 + le_u32(c.book_cumulative_opacity as u32);
    let b4 = b3 + le_u32(c.book_orders_opacity as u32);
    let b5 = b4 + le_u32(c.book_orders_width as u32);
    let e = d.subrange(o, o + 18);
    assert(e == b5);
    lemma_seq_split(b4, le_u32(c.book_orders_width as u32));
    lemma_subrange_of_prefix(e, 18, 0, 14);
    lemma_subrange_of_prefix(e, 18, 14, 18);
    lemma_seq_split(b3, le_u32(c.book_orders_opacity as u32));
    lemma_subrange_of_prefix(e, 14, 0, 10);
    lemma_subrange_of_prefix(e, 14, 10, 14);
    lemma_seq_split(b2, le_u32(c.book_cumulative_opacity as u32));
    lemma_subrange_of_prefix(e, 10, 0, 6);
    lemma_subrange_of_prefix(e, 10, 6, 10);
    lemma_seq_split(b1, le_u32(c.vert_vol_ind_pos as u32));
    lemma_subrange_of_prefix(e, 6, 0, 2);
    lemma_subrange_of_prefix(e, 6, 2, 6);
    lemma_seq_split(b0, seq![bool_byte(c.new_markets_max_scale)]);
    lemma_subrange_of_prefix(e, 2, 0, 1);
    lemma_subrange_of_prefix(e, 2, 1, 2);
    assert(e.subrange(0, 1) == seq![bool_byte(c.show_usd_on_charts)]);
    assert(d[o + 0] == e.subrange(0, 1)[0]);
    lemma_bool_byte(c.show_usd_on_charts);
    assert(e.subrange(1, 2) == seq![bool_byte(c.new_markets_max_scale)]);
    assert(d[o + 1] == e.subrange(1, 2)[0]);
    lemma_bool_byte(c.new_markets_max_scale);
    assert(e.subrange(2, 6) == le_u32(c.vert_vol_ind_pos as u32));
    lemma_le_i32_roundtrip(c.vert_vol_ind_pos);
    assert(d[o + 2] == e.subrange(2, 6)[0] && d[o + 3] == e.subrange(2, 6)[1] && d[o + 4] == e.subrange(2, 6)[2] && d[o + 5] == e.subrange(2, 6)[3]);
    assert(e.subrange(6, 10) == le_u32(c.book_cumulative_opacity as u32));
    lemma_le_i32_roundtrip(c.book_cumulative_opacity);
    assert(d[o + 6] == e.subrange(6, 10)[0] && d[o + 7] == e.subrange(6, 10)[1] && d[o + 8] == e.subrange(6, 10)[2] && d[o + 9] == e.subrange(6, 10)[3]);
    assert(e.subrange(10, 14) == le_u32(c.book_orders_opacity as u32));
    lemma_le_i32_roundtrip(c.book_orders_opacity);
    assert(d[o + 10] == e.subrange(10, 14)[0] && d[o + 11] == e.subrange(10, 14)[1] && d[o + 12] == e.subrange(10, 14)[2] && d[o + 13] == e.subrange(10, 14)[3]);
    assert(e.subrange(14, 18) == le_u32(c.book_orders_width as u32));
    lemma_le_i32_roundtrip(c.book_orders_width);
    assert(d[o + 14] == e.subrange(14, 18)[0] && d[o + 15] == e.subrange(14, 18)[1] && d[o + 16] == e.subrange(14, 18)[2] && d[o + 17] == e.subrange(14, 18)[3]);
}

/// The fields of a [`VisualRun2`] read back from its bytes.
pub proof fn lemma_visual_run2_at(c: VisualRun2, d: Seq<u8>, o: int)
    requires
        0 <= o,
        o + 30 <= d.len(),
        d.subrange(o, o + 30) == visual_run2_bytes(c),
    ensures
        visual_run2_bytes(c).len() == 30,
        visual_run2_at(d, o, c),
{
    let g0 = visual_run2_part1_bytes(c);
    let g1 = g0 + visual_run2_part2_bytes(c);
    let e = d.subrange(o, o + 30);
    assert(e == g1);
    lemma_seq_split(g0, visual_run2_part2_bytes(c));
    lemma_subrange_of_prefix(e, 30, 0, 12);
    lemma_subrange_of_prefix(e, 30, 12, 30);
    assert(d.subrange(o + 12, o + 30) =~= e.subrange(12, 30));
    lemma_visual_run2_part2_at(c, d, o + 12);
    assert(d.subrange(o + 0, o + 12) =~= e.subrange(0, 12));
    lemma_visual_run2_part1_at(c, d, o + 0);
}

/// Reading back the bytes of a [`VisualRun2`] gives the same record.
pub proof fn lemma_visual_run2_roundtrip(c: VisualRun2, rest: Seq<u8>)
    ensures
        visual_run2_bytes(c).len() == VISUAL_RUN2_LEN,
        visual_run2_at(visual_run2_bytes(c) + rest, 0, c),
{
    lemma_seq_split(visual_run2_bytes(c), rest);
    lemma_visual_run2_at(c, visual_run2_bytes(c) + rest, 0);
}

/// The fields of a [`VisualSection`] that a [`VisualRun2`] holds.
pub open spec fn visual_run2_of(s: VisualSection) -> VisualRun2 {
    VisualRun2 { global_current_draw_kind: s.global_current_draw_kind, hv_disp_vol: s.hv_disp_vol, hv_kind: s.hv_kind, show_market_captions: s.show_market_captions, show_orders_captions: s.show_orders_captions, orders_captions_lower: s.orders_captions_lower, show_usd_on_charts: s.show_usd_on_charts, new_markets_max_scale: s.new_markets_max_scale, vert_vol_ind_pos: s.vert_vol_ind_pos, book_cumulative_opacity: s.book_cumulative_opacity, book_orders_opacity: s.book_orders_opacity, book_orders_width: s.book_orders_width }
}

/// Copy the fields of a [`VisualSection`] that a [`VisualRun2`] holds.
fn visual_run2_from(s: &VisualSection) -> (r: VisualRun2)
    ensures
        r == visual_run2_of(*s),
{
    VisualRun2 { global_current_draw_kind: s.global_current_draw_kind, hv_disp_vol: s.hv_disp_vol, hv_kind: s.hv_kind, show_market_captions: s.show_market_captions, show_orders_captions: s.show_orders_captions, orders_captions_lower: s.orders_captions_lower, show_usd_on_charts: s.show_usd_on_charts, new_markets_max_scale: s.new_markets_max_scale, vert_vol_ind_pos: s.vert_vol_ind_pos, book_cumulative_opacity: s.book_cumulative_opacity, book_orders_opacity: s.book_orders_opacity, book_orders_width: s.book_orders_width }
}

/// Fixed-width fields of the visual section from `charts_auto_shift` to `show_strat_numbers`, in wire order.
#[derive(Clone, Copy, Debug)]
pub struct VisualRun3 {
    /// Auto-shift chart to keep the latest candle visible.
    pub charts_auto_shift: bool,
    /// Show iceberg order visualization on chart.
    pub show_iceberg: bool,
    /// Hide the PnL (profit and loss) display.
    pub hide_pnl: bool,
    /// Draw the current price horizontal line (0=off, 1=line, 2=dashed).
    pub draw_cur_price: i32,
    /// Auto-request chart data when opening a market.
    pub auto_request_charts: bool,
    /// Visual orders panel sort mode (0=buy first, 1=sell first, 2=creation).
    pub vo_sort_kind: u8,
    /// Visual orders: show older orders first.
    pub vo_older_first: bool,
    /// Visual orders: group by market.
    pub vo_sort_by_market: bool,
    /// Hide the main Buy button on the toolbar.
    pub hide_buy_button: bool,
    /// Show strategy index numbers on the chart.
    pub show_strat_numbers: bool,
}

/// Wire size of [`VisualRun3`].
pub const VISUAL_RUN3_LEN: usize = 13;

/// Wire bytes of fields `charts_auto_shift` to `vo_sort_kind` of a [`VisualRun3`].
pub open spec fn visual_run3_part1_bytes(c: VisualRun3) -> Seq<u8> {
    seq![bool_byte(c.charts_auto_shift)]
        + seq![bool_byte(c.show_iceberg)]
        + seq![bool_byte(c.hide_pnl)]
        + le_u32(c.draw_cur_price as u32)
        + seq![bool_byte(c.auto_request_charts)]
        + seq![c.vo_sort_kind]
}

/// Whether fields `charts_auto_shift` to `vo_sort_kind` of `c` are stored at `p`.
pub open spec fn visual_run3_part1_at(d: Seq<u8>, p: int, c: VisualRun3) -> bool {
    &&& c.charts_auto_shift == flag_of(d[p])
    &&& c.show_iceberg == flag_of(d[p + 1])
    &&& c.hide_pnl == flag_of(d[p + 2])
    &&& c.draw_cur_price == i32_at(d, p + 3)
    &&& c.auto_request_charts == flag_of(d[p + 7])
    &&& c.vo_sort_kind == d[p + 8]
}

/// Wire bytes of fields `vo_older_first` to `show_strat_numbers` of a [`VisualRun3`].
pub open spec fn visual_run3_part2_bytes(c: VisualRun3) -> Seq<u8> {
    seq![bool_byte(c.vo_older_first)]
        + seq![bool_byte(c.vo_sort_by_market)]
        + seq![bool_byte(c.hide_buy_button)]
        + seq![bool_byte(c.show_strat_numbers)]
}

/// Whether fields `vo_older_first` to `show_strat_numbers` of `c` are stored at `p`.
pub open spec fn visual_run3_part2_at(d: Seq<u8>, p: int, c: VisualRun3) -> bool {
    &&& c.vo_older_first == flag_of(d[p])
    &&& c.vo_sort_by_market == flag_of(d[p + 1])
    &&& c.hide_buy_button == flag_of(d[p + 2])
    &&& c.show_strat_numbers == flag_of(d[p + 3])
}

/// Wire bytes of a [`VisualRun3`], field after field.
pub open spec fn visual_run3_bytes(c: VisualRun3) -> Seq<u8> {
    visual_run3_part1_bytes(c)
        + visual_run3_part2_bytes(c)
}

/// Whether `c` is the [`VisualRun3`] stored at `p`.
pub open spec fn visual_run3_at(d: Seq<u8>, p: int, c: VisualRun3) -> bool {
    &&& visual_run3_part1_at(d, p, c)
    &&& visual_run3_part2_at(d, p + 9, c)
}

/// Read a [`VisualRun3`].
pub fn read_visual_run3(r: &mut ConfigReader) -> (res: Result<VisualRun3, SharedConfigError>)
    ensures
        final(r).bytes() == old(r).bytes(),
        old(r).at() + VISUAL_RUN3_LEN <= old(r).bytes().len() ==> (res matches Ok(c) && visual_run3_at(
            old(r).bytes(),
            old(r).at(),
            c,
        ) && final(r).at() == old(r).at() + VISUAL_RUN3_LEN),
        old(r).at() + VISUAL_RUN3_LEN > old(r).bytes().len() ==> (res matches Err(e) && e@ == eof_msg()),
{
    Ok(VisualRun3 {
        charts_auto_shift: r.read_bool()?,
        show_iceberg: r.read_bool()?,
        hide_pnl: r.read_bool()?,
        draw_cur_price: r.read_i32()?,
        auto_request_charts: r.read_bool()?,
        vo_sort_kind: r.read_u8()?,
        vo_older_first: r.read_bool()?,
        vo_sort_by_market: r.read_bool()?,
        hide_buy_button: r.read_bool()?,
        show_strat_numbers: r.read_bool()?,
    })
}

/// Write fields `charts_auto_shift` to `vo_sort_kind` of a [`VisualRun3`].
fn write_visual_run3_part1(w: &mut ConfigWriter, c: &VisualRun3)
    requires
        old(w).wf(),
    ensures
        final(w).wf(),
        final(w).wrote_all(old(w), true, visual_run3_part1_bytes(*c)),
{
    let ghost w0 = *w;
    let ghost wb = *w;
    w.write_bool(c.charts_auto_shift);
    proof { lemma_wrote_all_of_wrote(wb, *w, seq![bool_byte(c.charts_auto_shift)]); }
    let ghost wb = *w;
    w.write_bool(c.show_iceberg);
    proof {
        lemma_wrote_all_of_wrote(wb, *w, seq![bool_byte(c.show_iceberg)]);
        lemma_wrote_all_then(w0, wb, *w, true, seq![bool_byte(c.charts_auto_shift)], true, seq![bool_byte(c.show_iceberg)]);
    }
    let ghost wb = *w;
    w.write_bool(c.hide_pnl);
    proof {
        lemma_wrote_all_of_wrote(wb, *w, seq![bool_byte(c.hide_pnl)]);
        lemma_wrote_all_then(w0, wb, *w, true, seq![bool_byte(c.charts_auto_shift)] + seq![bool_byte(c.show_iceberg)], true, seq![bool_byte(c.hide_pnl)]);
    }
    let ghost wb = *w;
    w.write_i32(c.draw_cur_price);
    proof {
        lemma_wrote_all_of_wrote(wb, *w, le_u32(c.draw_cur_price as u32));
        lemma_wrote_all_then(w0, wb, *w, true, seq![bool_byte(c.charts_auto_shift)] + seq![bool_byte(c.show_iceberg)] + seq![bool_byte(c.hide_pnl)], true, le_u32(c.draw_cur_price as u32));
    }
    let ghost wb = *w;
    w.write_bool(c.auto_request_charts);
    proof {
        lemma_wrote_all_of_wrote(wb, *w, seq![bool_byte(c.auto_request_charts)]);
        lemma_wrote_all_then(w0, wb, *w, true, seq![bool_byte(c.charts_auto_shift)] + seq![bool_byte(c.show_iceberg)] + seq![bool_byte(c.hide_pnl)] + le_u32(c.draw_cur_price as u32), true, seq![bool_byte(c.auto_request_charts)]);
    }
    let ghost wb = *w;
    w.write_u8(c.vo_sort_kind);
    proof {
        lemma_wrote_all_of_wrote(wb, *w, seq![c.vo_sort_kind]);
        lemma_wrote_all_then(w0, wb, *w, true, seq![bool_byte(c.charts_auto_shift)] + seq![bool_byte(c.show_iceberg)] + seq![bool_byte(c.hide_pnl)] + le_u32(c.draw_cur_price as u32) + seq![bool_byte(c.auto_request_charts)], true, seq![c.vo_sort_kind]);
    }
}

/// Write fields `vo_older_first` to `show_strat_numbers` of a [`VisualRun3`].
fn write_visual_run3_part2(w: &mut ConfigWriter, c: &VisualRun3)
    requires
        old(w).wf(),
    ensures
        final(w).wf(),
        final(w).wrote_all(old(w), true, visual_run3_part2_bytes(*c)),
{
    let ghost w0 = *w;
    let ghost wb = *w;
    w.write_bool(c.vo_older_first);
    proof { lemma_wrote_all_of_wrote(wb, *w, seq![bool_byte(c.vo_older_first)]); }
    let ghost wb = *w;
    w.write_bool(c.vo_sort_by_market);
    proof {
        lemma_wrote_all_of_wrote(wb, *w, seq![bool_byte(c.vo_sort_by_market)]);
        lemma_wrote_all_then(w0, wb, *w, true, seq![bool_byte(c.vo_older_first)], true, seq![bool_byte(c.vo_sort_by_market)]);
    }
    let ghost wb = *w;
    w.write_bool(c.hide_buy_button);
    proof {
        lemma_wrote_all_of_wrote(wb, *w, seq![bool_byte(c.hide_buy_button)]);
        lemma_wrote_all_then(w0, wb, *w, true, seq![bool_byte(c.vo_older_first)] + seq![bool_byte(c.vo_sort_by_market)], true, seq![bool_byte(c.hide_buy_button)]);
    }
    let ghost wb = *w;
    w.write_bool(c.show_strat_numbers);
    proof {
        lemma_wrote_all_of_wrote(wb, *w, seq![bool_byte(c.show_strat_numbers)]);
        lemma_wrote_all_then(w0, wb, *w, true, seq![bool_byte(c.vo_older_first)] + seq![bool_byte(c.vo_sort_by_market)] + seq![bool_byte(c.hide_buy_button)], true, seq![bool_byte(c.show_strat_numbers)]);
    }
}

/// Write a [`VisualRun3`].
pub fn write_visual_run3(w: &mut ConfigWriter, c: &VisualRun3)
    requires
        old(w).wf(),
    ensures
        final(w).wf(),
        final(w).wrote_all(old(w), true, visual_run3_bytes(*c)),
{
    let ghost w0 = *w;
    let ghost wb = *w;
    write_visual_run3_part1(w, c);
    let ghost wb = *w;
    write_visual_run3_part2(w, c);
    proof { lemma_wrote_all_then(w0, wb, *w, true, visual_run3_part1_bytes(*c), true, visual_run3_part2_bytes(*c)); }
}

/// Fields `charts_auto_shift` to `vo_sort_kind` read back from their bytes.
pub proof fn lemma_visual_run3_part1_at(c: VisualRun3, d: Seq<u8>, o: int)
    requires
        0 <= o,
        o + 9 <= d.len(),
        d.subrange(o, o + 9) == visual_run3_part1_bytes(c),
    ensures
        visual_run3_part1_bytes(c).len() == 9,
        visual_run3_part1_at(d, o, c),
{
    let b0 = seq![bool_byte(c.charts_auto_shift)];
    let b1 = b0 + seq![bool_byte(c.show_iceberg)];
    let b2 = b1 + seq![bool_byte(c.hide_pnl)];
    let b3 = b2 + le_u32(c.draw_cur_price as u32);
    let b4 = b3 + seq![bool_byte(c.auto_request_charts)];
    let b5 = b4 + seq![c.vo_sort_kind];
    let e = d.subrange(o, o + 9);
    assert(e == b5);
    lemma_seq_split(b4, seq![c.vo_sort_kind]);
    lemma_subrange_of_prefix(e, 9, 0, 8);
    lemma_subrange_of_prefix(e, 9, 8, 9);
    lemma_seq_split(b3, seq![bool_byte(c.auto_request_charts)]);
    lemma_subrange_of_prefix(e, 8, 0, 7);
    lemma_subrange_of_prefix(e, 8, 7, 8);
    lemma_seq_split(b2, le_u32(c.draw_cur_price as u32));
    lemma_subrange_of_prefix(e, 7, 0, 3);
    lemma_subrange_of_prefix(e, 7, 3, 7);
    lemma_seq_split(b1, seq![bool_byte(c.hide_pnl)]);
    lemma_subrange_of_prefix(e, 3, 0, 2);
    lemma_subrange_of_prefix(e, 3, 2, 3);
    lemma_seq_split(b0, seq![bool_byte(c.show_iceberg)]);
    lemma_subrange_of_prefix(e, 2, 0, 1);
    lemma_subrange_of_prefix(e, 2, 1, 2);
    assert(e.subrange(0, 1) == seq![bool_byte(c.charts_auto_shift)]);
    assert(d[o + 0] == e.subrange(0, 1)[0]);
    lemma_bool_byte(c.charts_auto_shift);
    assert(e.subrange(1, 2) == seq![bool_byte(c.show_iceberg)]);
    assert(d[o + 1] == e.subrange(1, 2)[0]);
    lemma_bool_byte(c.show_iceberg);
    assert(e.subrange(2, 3) == seq![bool_byte(c.hide_pnl)]);
    assert(d[o + 2] == e.subrange(2, 3)[0]);
    lemma_bool_byte(c.hide_pnl);
    assert(e.subrange(3, 7) == le_u32(c.draw_cur_price as u32));
    lemma_le_i32_roundtrip(c.draw_cur_price);
    assert(d[o + 3] == e.subrange(3, 7)[0] && d[o + 4] == e.subrange(3, 7)[1] && d[o + 5] == e.subrange(3, 7)[2] && d[o + 6] == e.subrange(3, 7)[3]);
    assert(e.subrange(7, 8) == seq![bool_byte(c.auto_request_charts)]);
    assert(d[o + 7] == e.subrange(7, 8)[0]);
    lemma_bool_byte(c.auto_request_charts);
    assert(e.subrange(8, 9) == seq![c.vo_sort_kind]);
    assert(d[o + 8] == e.subrange(8, 9)[0]);
}

/// Fields `vo_older_first` to `show_strat_numbers` read back from their bytes.
pub proof fn lemma_visual_run3_part2_at(c: VisualRun3, d: Seq<u8>, o: int)
    requires
        0 <= o,
        o + 4 <= d.len(),
        d.subrange(o, o + 4) == visual_run3_part2_bytes(c),
    ensures
        visual_run3_part2_bytes(c).len() == 4,
        visual_run3_part2_at(d, o, c),
{
    let b0 = seq![bool_byte(c.vo_older_first)];
    let b1 = b0 + seq![bool_byte(c.vo_sort_by_market)];
    let b2 = b1 + seq![bool_byte(c.hide_buy_button)];
    let b3 = b2 + seq![bool_byte(c.show_strat_numbers)];
    let e = d.subrange(o, o + 4);
    assert(e == b3);
    lemma_seq_split(b2, seq![bool_byte(c.show_strat_numbers)]);
    lemma_subrange_of_prefix(e, 4, 0, 3);
    lemma_subrange_of_prefix(e, 4, 3, 4);
    lemma_seq_split(b1, seq![bool_byte(c.hide_buy_button)]);
    lemma_subrange_of_prefix(e, 3, 0, 2);
    lemma_subrange_of_prefix(e, 3, 2, 3);
    lemma_seq_split(b0, seq![bool_byte(c.vo_sort_by_market)]);
    lemma_subrange_of_prefix(e, 2, 0, 1);
    lemma_subrange_of_prefix(e, 2, 1, 2);
    assert(e.subrange(0, 1) == seq![bool_byte(c.vo_older_first)]);
    assert(d[o + 0] == e.subrange(0, 1)[0]);
    lemma_bool_byte(c.vo_older_first);
    assert(e.subrange(1, 2) == seq![bool_byte(c.vo_sort_by_market)]);
    assert(d[o + 1] == e.subrange(1, 2)[0]);
    lemma_bool_byte(c.vo_sort_by_market);
    assert(e.subrange(2, 3) == seq![bool_byte(c.hide_buy_button)]);
    assert(d[o + 2] == e.subrange(2, 3)[0]);
    lemma_bool_byte(c.hide_buy_button);
    assert(e.subrange(3, 4) == seq![bool_byte(c.show_strat_numbers)]);
    assert(d[o + 3] == e.subrange(3, 4)[0]);
    lemma_bool_byte(c.show_strat_numbers);
}

/// The fields of a [`VisualRun3`] read back from its bytes.
pub proof fn lemma_visual_run3_at(c: VisualRun3, d: Seq<u8>, o: int)
    requires
        0 <= o,
        o + 13 <= d.len(),
        d.subrange(o, o + 13) == visual_run3_bytes(c),
    ensures
        visual_run3_bytes(c).len() == 13,
        visual_run3_at(d, o, c),
{
    let g0 = visual_run3_part1_bytes(c);
    let g1 = g0 + visual_run3_part2_bytes(c);
    let e = d.subrange(o, o + 13);
    assert(e == g1);
    lemma_seq_split(g0, visual_run3_part2_bytes(c));
    lemma_subrange_of_prefix(e, 13, 0, 9);
    lemma_subrange_of_prefix(e, 13, 9, 13);
    assert(d.subrange(o + 9, o + 13) =~= e.subrange(9, 13));
    lemma_visual_run3_part2_at(c, d, o + 9);
    assert(d.subrange(o + 0, o + 9) =~= e.subrange(0, 9));
    lemma_visual_run3_part1_at(c, d, o + 0);
}

/// Reading back the bytes of a [`VisualRun3`] gives the same record.
pub proof fn lemma_visual_run3_roundtrip(c: VisualRun3, rest: Seq<u8>)
    ensures
        visual_run3_bytes(c).len() == VISUAL_RUN3_LEN,
        visual_run3_at(visual_run3_bytes(c) + rest, 0, c),
{
    lemma_seq_split(visual_run3_bytes(c), rest);
    lemma_visual_run3_at(c, visual_run3_bytes(c) + rest, 0);
}

/// The fields of a [`VisualSection`] that a [`VisualRun3`] holds.
pub open spec fn visual_run3_of(s: VisualSection) -> VisualRun3 {
    VisualRun3 { charts_auto_shift: s.charts_auto_shift, show_iceberg: s.show_iceberg, hide_pnl: s.hide_pnl, draw_cur_price: s.draw_cur_price, auto_request_charts: s.auto_request_charts, vo_sort_kind: s.vo_sort_kind, vo_older_first: s.vo_older_first, vo_sort_by_market: s.vo_sort_by_market, hide_buy_button: s.hide_buy_button, show_strat_numbers: s.show_strat_numbers }
}

/// Copy the fields of a [`VisualSection`] that a [`VisualRun3`] holds.
fn visual_run3_from(s: &VisualSection) -> (r: VisualRun3)
    ensures
        r == visual_run3_of(*s),
{
    VisualRun3 { charts_auto_shift: s.charts_auto_shift, show_iceberg: s.show_iceberg, hide_pnl: s.hide_pnl, draw_cur_price: s.draw_cur_price, auto_request_charts: s.auto_request_charts, vo_sort_kind: s.vo_sort_kind, vo_older_first: s.vo_older_first, vo_sort_by_market: s.vo_sort_by_market, hide_buy_button: s.hide_buy_button, show_strat_numbers: s.show_strat_numbers }
}

/// Fixed-width fields of the visual section from `hide_cashback_button` to `hide_ny_elka`, in wire order.
#[derive(Clone, Copy, Debug)]
pub struct VisualRun4 {
    /// Hide the cashback button on the main form.
    pub hide_cashback_button: bool,
    /// Hide the seasonal New Year decoration and greetings (shown late
    /// December through early January).
    pub hide_ny_elka: bool,
}

/// Wire size of [`VisualRun4`].
pub const VISUAL_RUN4_LEN: usize = 2;

/// Wire bytes of a [`VisualRun4`], field after field.
pub open spec fn visual_run4_bytes(c: VisualRun4) -> Seq<u8> {
    seq![bool_byte(c.hide_cashback_button)]
        + seq![bool_byte(c.hide_ny_elka)]
}

/// Whether `c` is the [`VisualRun4`] stored at `p`.
pub open spec fn visual_run4_at(d: Seq<u8>, p: int, c: VisualRun4) -> bool {
    &&& c.hide_cashback_button == flag_of(d[p])
    &&& c.hide_ny_elka == flag_of(d[p + 1])
}

/// Read a [`VisualRun4`].
pub fn read_visual_run4(r: &mut ConfigReader) -> (res: Result<VisualRun4, SharedConfigError>)
    ensures
        final(r).bytes() == old(r).bytes(),
        old(r).at() + VISUAL_RUN4_LEN <= old(r).bytes().len() ==> (res matches Ok(c) && visual_run4_at(
            old(r).bytes(),
            old(r).at(),
            c,
        ) && final(r).at() == old(r).at() + VISUAL_RUN4_LEN),
        old(r).at() + VISUAL_RUN4_LEN > old(r).bytes().len() ==> (res matches Err(e) && e@ == eof_msg()),
{
    Ok(VisualRun4 {
        hide_cashback_button: r.read_bool()?,
        hide_ny_elka: r.read_bool()?,
    })
}

/// Write a [`VisualRun4`].
pub fn write_visual_run4(w: &mut ConfigWriter, c: &VisualRun4)
    requires
        old(w).wf(),
    ensures
        final(w).wf(),
        final(w).wrote_all(old(w), true, visual_run4_bytes(*c)),
{
    let ghost w0 = *w;
    let ghost wb = *w;
    w.write_bool(c.hide_cashback_button);
    proof { lemma_wrote_all_of_wrote(wb, *w, seq![bool_byte(c.hide_cashback_button)]); }
    let ghost wb = *w;
    w.write_bool(c.hide_ny_elka);
    proof {
        lemma_wrote_all_of_wrote(wb, *w, seq![bool_byte(c.hide_ny_elka)]);
        lemma_wrote_all_then(w0, wb, *w, true, seq![bool_byte(c.hide_cashback_button)], true, seq![bool_byte(c.hide_ny_elka)]);
    }
}

/// The fields of a [`VisualRun4`] read back from its bytes.
pub proof fn lemma_visual_run4_at(c: VisualRun4, d: Seq<u8>, o: int)
    requires
        0 <= o,
        o + 2 <= d.len(),
        d.subrange(o, o + 2) == visual_run4_bytes(c),
    ensures
        visual_run4_bytes(c).len() == 2,
        visual_run4_at(d, o, c),
{
    let b0 = seq![bool_byte(c.hide_cashback_button)];
    let b1 = b0 + seq![bool_byte(c.hide_ny_elka)];
    let e = d.subrange(o, o + 2);
    assert(e == b1);
    lemma_seq_split(b0, seq![bool_byte(c.hide_ny_elka)]);
    lemma_subrange_of_prefix(e, 2, 0, 1);
    lemma_subrange_of_prefix(e, 2, 1, 2);
    assert(e.subrange(0, 1) == seq![bool_byte(c.hide_cashback_button)]);
    assert(d[o + 0] == e.subrange(0, 1)[0]);
    lemma_bool_byte(c.hide_cashback_button);
    assert(e.subrange(1, 2) == seq![bool_byte(c.hide_ny_elka)]);
    assert(d[o + 1] == e.subrange(1, 2)[0]);
    lemma_bool_byte(c.hide_ny_elka);
}

/// Reading back the bytes of a [`VisualRun4`] gives the same record.
pub proof fn lemma_visual_run4_roundtrip(c: VisualRun4, rest: Seq<u8>)
    ensures
        visual_run4_bytes(c).len() == VISUAL_RUN4_LEN,
        visual_run4_at(visual_run4_bytes(c) + rest, 0, c),
{
    lemma_seq_split(visual_run4_bytes(c), rest);
    lemma_visual_run4_at(c, visual_run4_bytes(c) + rest, 0);
}

/// The fields of a [`VisualSection`] that a [`VisualRun4`] holds.
pub open spec fn visual_run4_of(s: VisualSection) -> VisualRun4 {
    VisualRun4 { hide_cashback_button: s.hide_cashback_button, hide_ny_elka: s.hide_ny_elka }
}

/// Copy the fields of a [`VisualSection`] that a [`VisualRun4`] holds.
fn visual_run4_from(s: &VisualSection) -> (r: VisualRun4)
    ensures
        r == visual_run4_of(*s),
{
    VisualRun4 { hide_cashback_button: s.hide_cashback_button, hide_ny_elka: s.hide_ny_elka }
}

/// The fixed-width field `spy_hide_mode` of the visual section.
#[derive(Clone, Copy, Debug)]
pub struct VisualRun5 {
    /// Spy/stealth mode: hide sensitive info.
    pub spy_hide_mode: bool,
}

/// Wire size of [`VisualRun5`].
pub const VISUAL_RUN5_LEN: usize = 1;

/// Wire bytes of a [`VisualRun5`], field after field.
pub open spec fn visual_run5_bytes(c: VisualRun5) -> Seq<u8> {
    seq![bool_byte(c.spy_hide_mode)]
}

/// Whether `c` is the [`VisualRun5`] stored at `p`.
pub open spec fn visual_run5_at(d: Seq<u8>, p: int, c: VisualRun5) -> bool {
    &&& c.spy_hide_mode == flag_of(d[p])
}

/// Read a [`VisualRun5`].
pub fn read_visual_run5(r: &mut ConfigReader) -> (res: Result<VisualRun5, SharedConfigError>)
    ensures
        final(r).bytes() == old(r).bytes(),
        old(r).at() + VISUAL_RUN5_LEN <= old(r).bytes().len() ==> (res matches Ok(c) && visual_run5_at(
            old(r).bytes(),
            old(r).at(),
            c,
        ) && final(r).at() == old(r).at() + VISUAL_RUN5_LEN),
        old(r).at() + VISUAL_RUN5_LEN > old(r).bytes().len() ==> (res matches Err(e) && e@ == eof_msg()),
{
    Ok(VisualRun5 {
        spy_hide_mode: r.read_bool()?,
    })
}

/// Write a [`VisualRun5`].
pub fn write_visual_run5(w: &mut ConfigWriter, c: &VisualRun5)
    requires
        old(w).wf(),
    ensures
        final(w).wf(),
        final(w).wrote_all(old(w), true, visual_run5_bytes(*c)),
{
    let ghost w0 = *w;
    let ghost wb = *w;
    w.write_bool(c.spy_hide_mode);
    proof { lemma_wrote_all_of_wrote(wb, *w, seq![bool_byte(c.spy_hide_mode)]); }
}

/// The fields of a [`VisualRun5`] read back from its bytes.
pub proof fn lemma_visual_run5_at(c: VisualRun5, d: Seq<u8>, o: int)
    requires
        0 <= o,
        o + 1 <= d.len(),
        d.subrange(o, o + 1) == visual_run5_bytes(c),
    ensures
        visual_run5_bytes(c).len() == 1,
        visual_run5_at(d, o, c),
{
    let b0 = seq![bool_byte(c.spy_hide_mode)];
    let e = d.subrange(o, o + 1);
    assert(e == b0);
    assert(e.subrange(0, 1) == seq![bool_byte(c.spy_hide_mode)]);
    assert(d[o + 0] == e.subrange(0, 1)[0]);
    lemma_bool_byte(c.spy_hide_mode);
}

/// Reading back the bytes of a [`VisualRun5`] gives the same record.
pub proof fn lemma_visual_run5_roundtrip(c: VisualRun5, rest: Seq<u8>)
    ensures
        visual_run5_bytes(c).len() == VISUAL_RUN5_LEN,
        visual_run5_at(visual_run5_bytes(c) + rest, 0, c),
{
    lemma_seq_split(visual_run5_bytes(c), rest);
    lemma_visual_run5_at(c, visual_run5_bytes(c) + rest, 0);
}

/// The fields of a [`VisualSection`] that a [`VisualRun5`] holds.
pub open spec fn visual_run5_of(s: VisualSection) -> VisualRun5 {
    VisualRun5 { spy_hide_mode: s.spy_hide_mode }
}

/// Copy the fields of a [`VisualSection`] that a [`VisualRun5`] holds.
fn visual_run5_from(s: &VisualSection) -> (r: VisualRun5)
    ensures
        r == visual_run5_of(*s),
{
    VisualRun5 { spy_hide_mode: s.spy_hide_mode }
}

/// Fixed-width fields of the visual section from `icon_selection` to `scale_minus_index`, in wire order.
#[derive(Clone, Copy, Debug)]
pub struct VisualRun6 {
    /// Application tray icon variant index.
    pub icon_selection: i32,
    /// Remember chart toolbar button states across sessions.
    pub remember_chart_buttons: bool,
    /// Show the detection-tool button on the chart toolbar.
    pub show_detects_tool: bool,
    /// Scale-plus default zoom step index.
    pub scale_plus_index: i32,
    /// Scale-minus default zoom step index.
    pub scale_minus_index: i32,
}

/// Wire size of [`VisualRun6`].
pub const VISUAL_RUN6_LEN: usize = 14;

/// Wire bytes of a [`VisualRun6`], field after field.
pub open spec fn visual_run6_bytes(c: VisualRun6) -> Seq<u8> {
    le_u32(c.icon_selection as u32)
        + seq![bool_byte(c.remember_chart_buttons)]
        + seq![bool_byte(c.show_detects_tool)]
        + le_u32(c.scale_plus_index as u32)
        + le_u32(c.scale_minus_index as u32)
}

/// Whether `c` is the [`VisualRun6`] stored at `p`.
pub open spec fn visual_run6_at(d: Seq<u8>, p: int, c: VisualRun6) -> bool {
    &&& c.icon_selection == i32_at(d, p)
    &&& c.remember_chart_buttons == flag_of(d[p + 4])
    &&& c.show_detects_tool == flag_of(d[p + 5])
    &&& c.scale_plus_index == i32_at(d, p + 6)
    &&& c.scale_minus_index == i32_at(d, p + 10)
}

/// Read a [`VisualRun6`].
pub fn read_visual_run6(r: &mut ConfigReader) -> (res: Result<VisualRun6, SharedConfigError>)
    ensures
        final(r).bytes() == old(r).bytes(),
        old(r).at() + VISUAL_RUN6_LEN <= old(r).bytes().len() ==> (res matches Ok(c) && visual_run6_at(
            old(r).bytes(),
            old(r).at(),
            c,
        ) && final(r).at() == old(r).at() + VISUAL_RUN6_LEN),
        old(r).at() + VISUAL_RUN6_LEN > old(r).bytes().len() ==> (res matches Err(e) && e@ == eof_msg()),
{
    Ok(VisualRun6 {
        icon_selection: r.read_i32()?,
        remember_chart_buttons: r.read_bool()?,
        show_detects_tool: r.read_bool()?,
        scale_plus_index: r.read_i32()?,
        scale_minus_index: r.read_i32()?,
    })
}

/// Write a [`VisualRun6`].
pub fn write_visual_run6(w: &mut ConfigWriter, c: &VisualRun6)
    requires
        old(w).wf(),
    ensures
        final(w).wf(),
        final(w).wrote_all(old(w), true, visual_run6_bytes(*c)),
{
    let ghost w0 = *w;
    let ghost wb = *w;
    w.write_i32(c.icon_selection);
    proof { lemma_wrote_all_of_wrote(wb, *w, le_u32(c.icon_selection as u32)); }
    let ghost wb = *w;
    w.write_bool(c.remember_chart_buttons);
    proof {
        lemma_wrote_all_of_wrote(wb, *w, seq![bool_byte(c.remember_chart_buttons)]);
        lemma_wrote_all_then(w0, wb, *w, true, le_u32(c.icon_selection as u32), true, seq![bool_byte(c.remember_chart_buttons)]);
    }
    let ghost wb = *w;
    w.write_bool(c.show_detects_tool);
    proof {
        lemma_wrote_all_of_wrote(wb, *w, seq![bool_byte(c.show_detects_tool)]);
        lemma_wrote_all_then(w0, wb, *w, true, le_u32(c.icon_selection as u32) + seq![bool_byte(c.remember_chart_buttons)], true, seq![bool_byte(c.show_detects_tool)]);
    }
    let ghost wb = *w;
    w.write_i32(c.scale_plus_index);
    proof {
        lemma_wrote_all_of_wrote(wb, *w, le_u32(c.scale_plus_index as u32));
        lemma_wrote_all_then(w0, wb, *w, true, le_u32(c.icon_selection as u32) + seq![bool_byte(c.remember_chart_buttons)] + seq![bool_byte(c.show_detects_tool)], true, le_u32(c.scale_plus_index as u32));
    }
    let ghost wb = *w;
    w.write_i32(c.scale_minus_index);
    proof {
        lemma_wrote_all_of_wrote(wb, *w, le_u32(c.scale_minus_index as u32));
        lemma_wrote_all_then(w0, wb, *w, true, le_u32(c.icon_selection as u32) + seq![bool_byte(c.remember_chart_buttons)] + seq![bool_byte(c.show_detects_tool)] + le_u32(c.scale_plus_index as u32), true, le_u32(c.scale_minus_index as u32));
    }
}

/// The fields of a [`VisualRun6`] read back from its bytes.
pub proof fn lemma_visual_run6_at(c: VisualRun6, d: Seq<u8>, o: int)
    requires
        0 <= o,
        o + 14 <= d.len(),
        d.subrange(o, o + 14) == visual_run6_bytes(c),
    ensures
        visual_run6_bytes(c).len() == 14,
        visual_run6_at(d, o, c),
{
    let b0 = le_u32(c.icon_selection as u32);
    let b1 = b0 + seq![bool_byte(c.remember_chart_buttons)];
    let b2 = b1 + seq![bool_byte(c.show_detects_tool)];
    let b3 = b2 + le_u32(c.scale_plus_index as u32);
    let b4 = b3 + le_u32(c.scale_minus_index as u32);
    let e = d.subrange(o, o + 14);
    assert(e == b4);
    lemma_seq_split(b3, le_u32(c.scale_minus_index as u32));
    lemma_subrange_of_prefix(e, 14, 0, 10);
    lemma_subrange_of_prefix(e, 14, 10, 14);
    lemma_seq_split(b2, le_u32(c.scale_plus_index as u32));
    lemma_subrange_of_prefix(e, 10, 0, 6);
    lemma_subrange_of_prefix(e, 10, 6, 10);
    lemma_seq_split(b1, seq![bool_byte(c.show_detects_tool)]);
    lemma_subrange_of_prefix(e, 6, 0, 5);
    lemma_subrange_of_prefix(e, 6, 5, 6);
    lemma_seq_split(b0, seq![bool_byte(c.remember_chart_buttons)]);
    lemma_subrange_of_prefix(e, 5, 0, 4);
    lemma_subrange_of_prefix(e, 5, 4, 5);
    assert(e.subrange(0, 4) == le_u32(c.icon_selection as u32));
    lemma_le_i32_roundtrip(c.icon_selection);
    assert(d[o + 0] == e.subrange(0, 4)[0] && d[o + 1] == e.subrange(0, 4)[1] && d[o + 2] == e.subrange(0, 4)[2] && d[o + 3] == e.subrange(0, 4)[3]);
    assert(e.subrange(4, 5) == seq![bool_byte(c.remember_chart_buttons)]);
    assert(d[o + 4] == e.subrange(4, 5)[0]);
    lemma_bool_byte(c.remember_chart_buttons);
    assert(e.subrange(5, 6) == seq![bool_byte(c.show_detects_tool)]);
    assert(d[o + 5] == e.subrange(5, 6)[0]);
    lemma_bool_byte(c.show_detects_tool);
    assert(e.subrange(6, 10) == le_u32(c.scale_plus_index as u32));
    lemma_le_i32_roundtrip(c.scale_plus_index);
    assert(d[o + 6] == e.subrange(6, 10)[0] && d[o + 7] == e.subrange(6, 10)[1] && d[o + 8] == e.subrange(6, 10)[2] && d[o + 9] == e.subrange(6, 10)[3]);
    assert(e.subrange(10, 14) == le_u32(c.scale_minus_index as u32));
    lemma_le_i32_roundtrip(c.scale_minus_index);
    assert(d[o + 10] == e.subrange(10, 14)[0] && d[o + 11] == e.subrange(10, 14)[1] && d[o + 12] == e.subrange(10, 14)[2] && d[o + 13] == e.subrange(10, 14)[3]);
}

/// Reading back the bytes of a [`VisualRun6`] gives the same record.
pub proof fn lemma_visual_run6_roundtrip(c: VisualRun6, rest: Seq<u8>)
    ensures
        visual_run6_bytes(c).len() == VISUAL_RUN6_LEN,
        visual_run6_at(visual_run6_bytes(c) + rest, 0, c),
{
    lemma_seq_split(visual_run6_bytes(c), rest);
    lemma_visual_run6_at(c, visual_run6_bytes(c) + rest, 0);
}

/// The fields of a [`VisualSection`] that a [`VisualRun6`] holds.
pub open spec fn visual_run6_of(s: VisualSection) -> VisualRun6 {
    VisualRun6 { icon_selection: s.icon_selection, remember_chart_buttons: s.remember_chart_buttons, show_detects_tool: s.show_detects_tool, scale_plus_index: s.scale_plus_index, scale_minus_index: s.scale_minus_index }
}

/// Copy the fields of a [`VisualSection`] that a [`VisualRun6`] holds.
fn visual_run6_from(s: &VisualSection) -> (r: VisualRun6)
    ensures
        r == visual_run6_of(*s),
{
    VisualRun6 { icon_selection: s.icon_selection, remember_chart_buttons: s.remember_chart_buttons, show_detects_tool: s.show_detects_tool, scale_plus_index: s.scale_plus_index, scale_minus_index: s.scale_minus_index }
}

/// The fixed-width field `font_sizes` of the visual section.
#[derive(Clone, Copy, Debug)]
pub struct VisualRun7 {
    /// Font size overrides for 20 UI areas.
    pub font_sizes: [u8; 20],
}

/// Wire size of [`VisualRun7`].
pub const VISUAL_RUN7_LEN: usize = 20;

/// Wire bytes of a [`VisualRun7`], field after field.
pub open spec fn visual_run7_bytes(c: VisualRun7) -> Seq<u8> {
    c.font_sizes@
}

/// Whether `c` is the [`VisualRun7`] stored at `p`.
pub open spec fn visual_run7_at(d: Seq<u8>, p: int, c: VisualRun7) -> bool {
    &&& c.font_sizes@ == d.subrange(p, p + 20)
}

/// Read a [`VisualRun7`].
pub fn read_visual_run7(r: &mut ConfigReader) -> (res: Result<VisualRun7, SharedConfigError>)
    ensures
        final(r).bytes() == old(r).bytes(),
        old(r).at() + VISUAL_RUN7_LEN <= old(r).bytes().len() ==> (res matches Ok(c) && visual_run7_at(
            old(r).bytes(),
            old(r).at(),
            c,
        ) && final(r).at() == old(r).at() + VISUAL_RUN7_LEN),
        old(r).at() + VISUAL_RUN7_LEN > old(r).bytes().len() ==> (res matches Err(e) && e@ == eof_msg()),
{
    Ok(VisualRun7 {
        font_sizes: r.read_u8_array::<20>()?,
    })
}

/// Write a [`VisualRun7`].
pub fn write_visual_run7(w: &mut ConfigWriter, c: &VisualRun7)
    requires
        old(w).wf(),
    ensures
        final(w).wf(),
        final(w).wrote_all(old(w), true, visual_run7_bytes(*c)),
{
    let ghost w0 = *w;
    let ghost wb = *w;
    w.write_u8_array(c.font_sizes.as_slice());
    proof { lemma_wrote_all_of_wrote(wb, *w, c.font_sizes@); }
}

/// The fields of a [`VisualRun7`] read back from its bytes.
pub proof fn lemma_visual_run7_at(c: VisualRun7, d: Seq<u8>, o: int)
    requires
        0 <= o,
        o + 20 <= d.len(),
        d.subrange(o, o + 20) == visual_run7_bytes(c),
    ensures
        visual_run7_bytes(c).len() == 20,
        visual_run7_at(d, o, c),
{
    let b0 = c.font_sizes@;
    let e = d.subrange(o, o + 20);
    assert(e == b0);
    assert(e.subrange(0, 20) == c.font_sizes@);
    assert(d.subrange(o + 0, o + 20) =~= e.subrange(0, 20));
}

/// Reading back the bytes of a [`VisualRun7`] gives the same record.
pub proof fn lemma_visual_run7_roundtrip(c: VisualRun7, rest: Seq<u8>)
    ensures
        visual_run7_bytes(c).len() == VISUAL_RUN7_LEN,
        visual_run7_at(visual_run7_bytes(c) + rest, 0, c),
{
    lemma_seq_split(visual_run7_bytes(c), rest);
    lemma_visual_run7_at(c, visual_run7_bytes(c) + rest, 0);
}

/// The fields of a [`VisualSection`] that a [`VisualRun7`] holds.
pub open spec fn visual_run7_of(s: VisualSection) -> VisualRun7 {
    VisualRun7 { font_sizes: s.font_sizes }
}

/// Copy the fields of a [`VisualSection`] that a [`VisualRun7`] holds.
fn visual_run7_from(s: &VisualSection) -> (r: VisualRun7)
    ensures
        r == visual_run7_of(*s),
{
    VisualRun7 { font_sizes: s.font_sizes }
}

/// Where the fields of a visual block body at `x` start: after the version byte.
pub open spec fn visual_pos0(d: Seq<u8>, x: int, be: int) -> int {
    x + 1
}

/// The position after field group 0 of a visual block body at `x`.
pub open spec fn visual_pos1(d: Seq<u8>, x: int, be: int) -> int {
    let p = visual_pos0(d, x, be);
    p + INT_COLORS_LEN
}

/// The position after field group 1 of a visual block body at `x`.
pub open spec fn visual_pos2(d: Seq<u8>, x: int, be: int) -> int {
    let p = visual_pos1(d, x, be);
    p + VISUAL_RUN1_LEN
}

/// The position after field group 2 of a visual block body at `x`.
pub open spec fn visual_pos3(d: Seq<u8>, x: int, be: int) -> int {
    let p = visual_pos2(d, x, be);
    p + CUSTOM_DRAW_TOOL_LEN
}

/// The position after field group 3 of a visual block body at `x`.
pub open spec fn visual_pos4(d: Seq<u8>, x: int, be: int) -> int {
    let p = visual_pos3(d, x, be);
    p + CUSTOM_DRAW_TOOL_LEN
}

/// The position after field group 4 of a visual block body at `x`.
pub open spec fn visual_pos5(d: Seq<u8>, x: int, be: int) -> int {
    let p = visual_pos4(d, x, be);
    p + CUSTOM_DRAW_TOOL_LEN
}

/// The position after field group 5 of a visual block body at `x`.
pub open spec fn visual_pos6(d: Seq<u8>, x: int, be: int) -> int {
    let p = visual_pos5(d, x, be);
    p + CUSTOM_DRAW_TOOL_LEN
}

/// The position after field group 6 of a visual block body at `x`.
pub open spec fn visual_pos7(d: Seq<u8>, x: int, be: int) -> int {
    let p = visual_pos6(d, x, be);
    p + CUSTOM_DRAW_TOOL_LEN
}

/// The position after field group 7 of a visual block body at `x`.
pub open spec fn visual_pos8(d: Seq<u8>, x: int, be: int) -> int {
    let p = visual_pos7(d, x, be);
    p + CUSTOM_DRAW_TOOL_LEN
}

/// The position after field group 8 of a visual block body at `x`.
pub open spec fn visual_pos9(d: Seq<u8>, x: int, be: int) -> int {
    let p = visual_pos8(d, x, be);
    p + CUSTOM_DRAW_TOOL_LEN
}

/// The position after field group 9 of a visual block body at `x`.
pub open spec fn visual_pos10(d: Seq<u8>, x: int, be: int) -> int {
    let p = visual_pos9(d, x, be);
    p + CUSTOM_DRAW_TOOL_LEN
}

/// The position after field group 10 of a visual block body at `x`.
pub open spec fn visual_pos11(d: Seq<u8>, x: int, be: int) -> int {
    let p = visual_pos10(d, x, be);
    p + CUSTOM_DRAW_TOOL_LEN
}

/// The position after field group 11 of a visual block body at `x`.
pub open spec fn visual_pos12(d: Seq<u8>, x: int, be: int) -> int {
    let p = visual_pos11(d, x, be);
    p + CUSTOM_DRAW_TOOL_LEN
}

/// The position after field group 12 of a visual block body at `x`.
pub open spec fn visual_pos13(d: Seq<u8>, x: int, be: int) -> int {
    let p = visual_pos12(d, x, be);
    p + CUSTOM_DRAW_TOOL_LEN
}

/// The position after field group 13 of a visual block body at `x`.
pub open spec fn visual_pos14(d: Seq<u8>, x: int, be: int) -> int {
    let p = visual_pos13(d, x, be);
    p + CUSTOM_DRAW_TOOL_LEN
}

/// The position after field group 14 of a visual block body at `x`.
pub open spec fn visual_pos15(d: Seq<u8>, x: int, be: int) -> int {
    let p = visual_pos14(d, x, be);
    p + CUSTOM_DRAW_TOOL_LEN
}

/// The position after field group 15 of a visual block body at `x`.
pub open spec fn visual_pos16(d: Seq<u8>, x: int, be: int) -> int {
    let p = visual_pos15(d, x, be);
    p + CUSTOM_DRAW_TOOL_LEN
}

/// The position after field group 16 of a visual block body at `x`.
pub open spec fn visual_pos17(d: Seq<u8>, x: int, be: int) -> int {
    let p = visual_pos16(d, x, be);
    p + CUSTOM_DRAW_TOOL_LEN
}

/// The position after field group 17 of a visual block body at `x`.
pub open spec fn visual_pos18(d: Seq<u8>, x: int, be: int) -> int {
    let p = visual_pos17(d, x, be);
    p + CUSTOM_DRAW_TOOL_LEN
}

/// The position after field group 18 of a visual block body at `x`.
pub open spec fn visual_pos19(d: Seq<u8>, x: int, be: int) -> int {
    let p = visual_pos18(d, x, be);
    p + VISUAL_RUN2_LEN
}

/// The position after field group 19 of a visual block body at `x`.
pub open spec fn visual_pos20(d: Seq<u8>, x: int, be: int) -> int {
    let p = visual_pos19(d, x, be);
    p + BLINK_CONFIG_LEN
}

/// The position after field group 20 of a visual block body at `x`.
pub open spec fn visual_pos21(d: Seq<u8>, x: int, be: int) -> int {
    let p = visual_pos20(d, x, be);
    p + VISUAL_RUN3_LEN
}

/// The position after field group 21 of a visual block body at `x`.
pub open spec fn visual_pos22(d: Seq<u8>, x: int, be: int) -> int {
    let p = visual_pos21(d, x, be);
    p + SHOW_FILTERS_LEN
}

/// The position after field group 22 of a visual block body at `x`.
pub open spec fn visual_pos23(d: Seq<u8>, x: int, be: int) -> int {
    let p = visual_pos22(d, x, be);
    p + VISUAL_RUN4_LEN
}

/// The position after field group 23 of a visual block body at `x`.
pub open spec fn visual_pos24(d: Seq<u8>, x: int, be: int) -> int {
    let p = visual_pos23(d, x, be);
    p + 1
}

/// The position after field group 24 of a visual block body at `x`.
pub open spec fn visual_pos25(d: Seq<u8>, x: int, be: int) -> int {
    let p = visual_pos24(d, x, be);
    p + CHARTS_SETTINGS_LEN
}

/// The position after field group 25 of a visual block body at `x`.
pub open spec fn visual_pos26(d: Seq<u8>, x: int, be: int) -> int {
    let p = visual_pos25(d, x, be);
    p + VISUAL_RUN5_LEN
}

/// The position after field group 26 of a visual block body at `x`.
pub open spec fn visual_pos27(d: Seq<u8>, x: int, be: int) -> int {
    let p = visual_pos26(d, x, be);
    p + HEAT_MAP_CONFIG_LEN
}

/// The position after field group 27 of a visual block body at `x`.
pub open spec fn visual_pos28(d: Seq<u8>, x: int, be: int) -> int {
    let p = visual_pos27(d, x, be);
    p + VISUAL_RUN6_LEN
}

/// The position after field group 28 of a visual block body at `x`.
pub open spec fn visual_pos29(d: Seq<u8>, x: int, be: int) -> int {
    let p = visual_pos28(d, x, be);
    p + NEWS_FORM_CONFIG_LEN
}

/// The position after field group 29 of a visual block body at `x`.
pub open spec fn visual_pos30(d: Seq<u8>, x: int, be: int) -> int {
    let p = visual_pos29(d, x, be);
    p + VISUAL_RUN7_LEN
}

/// The position after field group 30 of a visual block body at `x`.
pub open spec fn visual_pos31(d: Seq<u8>, x: int, be: int) -> int {
    let p = visual_pos30(d, x, be);
    if p < be { p + 1 } else { p }
}

/// The position after field group 31 of a visual block body at `x`.
pub open spec fn visual_pos32(d: Seq<u8>, x: int, be: int) -> int {
    let p = visual_pos31(d, x, be);
    if p < be { p + 1 } else { p }
}

/// The position after field group 32 of a visual block body at `x`.
pub open spec fn visual_pos33(d: Seq<u8>, x: int, be: int) -> int {
    let p = visual_pos32(d, x, be);
    if p < be { p + 1 } else { p }
}

/// The position after field group 33 of a visual block body at `x`.
pub open spec fn visual_pos34(d: Seq<u8>, x: int, be: int) -> int {
    let p = visual_pos33(d, x, be);
    if p < be { p + 1 } else { p }
}

/// The position after field group 34 of a visual block body at `x`.
pub open spec fn visual_pos35(d: Seq<u8>, x: int, be: int) -> int {
    let p = visual_pos34(d, x, be);
    if p < be { p + 1 } else { p }
}

/// The position after field group 35 of a visual block body at `x`.
pub open spec fn visual_pos36(d: Seq<u8>, x: int, be: int) -> int {
    let p = visual_pos35(d, x, be);
    if p < be { p + 4 } else { p }
}

/// The position after field group 36 of a visual block body at `x`.
pub open spec fn visual_pos37(d: Seq<u8>, x: int, be: int) -> int {
    let p = visual_pos36(d, x, be);
    if p < be { p + 4 } else { p }
}

/// The position after field group 37 of a visual block body at `x`.
pub open spec fn visual_pos38(d: Seq<u8>, x: int, be: int) -> int {
    let p = visual_pos37(d, x, be);
    if p < be { p + 4 } else { p }
}

/// The position after field group 38 of a visual block body at `x`.
pub open spec fn visual_pos39(d: Seq<u8>, x: int, be: int) -> int {
    let p = visual_pos38(d, x, be);
    if p < be { p + 4 } else { p }
}

/// The position after field group 39 of a visual block body at `x`.
pub open spec fn visual_pos40(d: Seq<u8>, x: int, be: int) -> int {
    let p = visual_pos39(d, x, be);
    if p < be { p + 4 } else { p }
}

/// The position after field group 40 of a visual block body at `x`.
pub open spec fn visual_pos41(d: Seq<u8>, x: int, be: int) -> int {
    let p = visual_pos40(d, x, be);
    if p < be { p + 4 } else { p }
}

/// The position after field group 41 of a visual block body at `x`.
pub open spec fn visual_pos42(d: Seq<u8>, x: int, be: int) -> int {
    let p = visual_pos41(d, x, be);
    if p < be { p + 1 } else { p }
}

/// The position after field group 42 of a visual block body at `x`.
pub open spec fn visual_pos43(d: Seq<u8>, x: int, be: int) -> int {
    let p = visual_pos42(d, x, be);
    if p < be { p + 1 } else { p }
}

/// The position after field group 43 of a visual block body at `x`.
pub open spec fn visual_pos44(d: Seq<u8>, x: int, be: int) -> int {
    let p = visual_pos43(d, x, be);
    if p < be { string_end(d, p) } else { p }
}

/// The position after field group 44 of a visual block body at `x`.
pub open spec fn visual_pos45(d: Seq<u8>, x: int, be: int) -> int {
    let p = visual_pos44(d, x, be);
    if p < be { string_end(d, p) } else { p }
}

/// The position after field group 45 of a visual block body at `x`.
pub open spec fn visual_pos46(d: Seq<u8>, x: int, be: int) -> int {
    let p = visual_pos45(d, x, be);
    if p < be { p + 1 } else { p }
}

/// Whether field groups 0 to 5 of a visual block body at `x` can be read.
#[verifier::opaque]
pub open spec fn visual_ok1(d: Seq<u8>, x: int, be: int) -> bool {
    let p0 = visual_pos0(d, x, be);
    let p1 = visual_pos1(d, x, be);
    let p2 = visual_pos2(d, x, be);
    let p3 = visual_pos3(d, x, be);
    let p4 = visual_pos4(d, x, be);
    let p5 = visual_pos5(d, x, be);
    &&& (p0 + INT_COLORS_LEN <= d.len())
    &&& (p1 + VISUAL_RUN1_LEN <= d.len())
    &&& (p2 + CUSTOM_DRAW_TOOL_LEN <= d.len())
    &&& (p3 + CUSTOM_DRAW_TOOL_LEN <= d.len())
    &&& (p4 + CUSTOM_DRAW_TOOL_LEN <= d.len())
    &&& (p5 + CUSTOM_DRAW_TOOL_LEN <= d.len())
}

/// Whether `s` holds field groups 0 to 5 of the visual block body at `x`.
#[verifier::opaque]
pub open spec fn visual_got1(d: Seq<u8>, x: int, be: int, s: VisualSection) -> bool {
    let p0 = visual_pos0(d, x, be);
    let p1 = visual_pos1(d, x, be);
    let p2 = visual_pos2(d, x, be);
    let p3 = visual_pos3(d, x, be);
    let p4 = visual_pos4(d, x, be);
    let p5 = visual_pos5(d, x, be);
    &&& int_colors_at(d, p0, s.colors)
    &&& visual_run1_at(d, p1, visual_run1_of(s))
    &&& custom_draw_tool_at(d, p2, s.custom_draw_config.tools@[0])
    &&& custom_draw_tool_at(d, p3, s.custom_draw_config.tools@[1])
    &&& custom_draw_tool_at(d, p4, s.custom_draw_config.tools@[2])
    &&& custom_draw_tool_at(d, p5, s.custom_draw_config.tools@[3])
}

/// Bytes of field groups 0 to 5 of a visual section.
#[verifier::opaque]
pub open spec fn visual_bytes1(s: VisualSection) -> Seq<u8> {
    int_colors_bytes(s.colors)
        + visual_run1_bytes(visual_run1_of(s))
        + custom_draw_tool_bytes(s.custom_draw_config.tools@[0])
        + custom_draw_tool_bytes(s.custom_draw_config.tools@[1])
        + custom_draw_tool_bytes(s.custom_draw_config.tools@[2])
        + custom_draw_tool_bytes(s.custom_draw_config.tools@[3])
}

/// Whether the strings of field groups 0 to 5 of a visual section fit their limit.
#[verifier::opaque]
pub open spec fn visual_fits1(s: VisualSection) -> bool {
    true
}

/// Read field groups 0 to 5 of the visual block body at `x`.
fn read_visual_part1(r: &mut ConfigReader, be: usize, Ghost(x): Ghost<int>) -> (res: Result<(IntColors, VisualRun1, CustomDrawTool, CustomDrawTool, CustomDrawTool, CustomDrawTool), SharedConfigError>)
    requires
        old(r).at() == visual_pos0(old(r).bytes(), x, be as int),
    ensures
        final(r).bytes() == old(r).bytes(),
        visual_ok1(old(r).bytes(), x, be as int) ==> (res matches Ok(t) && {
            let d = old(r).bytes();
            &&& int_colors_at(d, visual_pos0(d, x, be as int), t.0)
            &&& visual_run1_at(d, visual_pos1(d, x, be as int), t.1)
            &&& custom_draw_tool_at(d, visual_pos2(d, x, be as int), t.2)
            &&& custom_draw_tool_at(d, visual_pos3(d, x, be as int), t.3)
            &&& custom_draw_tool_at(d, visual_pos4(d, x, be as int), t.4)
            &&& custom_draw_tool_at(d, visual_pos5(d, x, be as int), t.5)
            &&& final(r).at() == visual_pos6(d, x, be as int)
        }),
        !visual_ok1(old(r).bytes(), x, be as int) ==> res is Err,
{
    proof { reveal(visual_ok1); }
    let v0 = read_int_colors(r)?;
    let v1 = read_visual_run1(r)?;
    let v2 = read_custom_draw_tool(r)?;
    let v3 = read_custom_draw_tool(r)?;
    let v4 = read_custom_draw_tool(r)?;
    let v5 = read_custom_draw_tool(r)?;
    Ok((v0, v1, v2, v3, v4, v5))
}

/// Write field groups 0 to 5 of a visual section.
fn write_visual_part1(w: &mut ConfigWriter, s: &VisualSection)
    requires
        old(w).wf(),
    ensures
        final(w).wf(),
        final(w).wrote_all(old(w), visual_fits1(*s), visual_bytes1(*s)),
{
    proof { reveal(visual_bytes1); reveal(visual_fits1); }
    let ghost w0 = *w;
    let ghost wb = *w;
    write_int_colors(w, &s.colors);
    let ghost wb = *w;
    let t1 = visual_run1_from(s);
    write_visual_run1(w, &t1);
    proof {
        lemma_wrote_all_then(w0, wb, *w, true, int_colors_bytes((*s).colors), true, visual_run1_bytes(visual_run1_of(*s)));
    }
    let ghost wb = *w;
    write_custom_draw_tool(w, &s.custom_draw_config.tools[0]);
    proof {
        lemma_wrote_all_then(w0, wb, *w, true, int_colors_bytes((*s).colors) + visual_run1_bytes(visual_run1_of(*s)), true, custom_draw_tool_bytes((*s).custom_draw_config.tools@[0]));
    }
    let ghost wb = *w;
    write_custom_draw_tool(w, &s.custom_draw_config.tools[1]);
    proof {
        lemma_wrote_all_then(w0, wb, *w, true, int_colors_bytes((*s).colors) + visual_run1_bytes(visual_run1_of(*s)) + custom_draw_tool_bytes((*s).custom_draw_config.tools@[0]), true, custom_draw_tool_bytes((*s).custom_draw_config.tools@[1]));
    }
    let ghost wb = *w;
    write_custom_draw_tool(w, &s.custom_draw_config.tools[2]);
    proof {
        lemma_wrote_all_then(w0, wb, *w, true, int_colors_bytes((*s).colors) + visual_run1_bytes(visual_run1_of(*s)) + custom_draw_tool_bytes((*s).custom_draw_config.tools@[0]) + custom_draw_tool_bytes((*s).custom_draw_config.tools@[1]), true, custom_draw_tool_bytes((*s).custom_draw_config.tools@[2]));
    }
    let ghost wb = *w;
    write_custom_draw_tool(w, &s.custom_draw_config.tools[3]);
    proof {
        lemma_wrote_all_then(w0, wb, *w, true, int_colors_bytes((*s).colors) + visual_run1_bytes(visual_run1_of(*s)) + custom_draw_tool_bytes((*s).custom_draw_config.tools@[0]) + custom_draw_tool_bytes((*s).custom_draw_config.tools@[1]) + custom_draw_tool_bytes((*s).custom_draw_config.tools@[2]), true, custom_draw_tool_bytes((*s).custom_draw_config.tools@[3]));
    }
}

/// Field groups 0 to 5 of a visual section read back from their bytes.
#[verifier::spinoff_prover]
#[verifier::rlimit(50)]
pub proof fn lemma_visual_part1(s: VisualSection, d: Seq<u8>, x: int, be: int)
    requires
        visual_fits1(s),
        0 <= visual_pos0(d, x, be),
        visual_pos0(d, x, be) + visual_bytes1(s).len() <= be <= d.len(),
        d.subrange(visual_pos0(d, x, be), visual_pos0(d, x, be) + visual_bytes1(s).len()) == visual_bytes1(s),
    ensures
        visual_ok1(d, x, be),
        visual_pos6(d, x, be) == visual_pos0(d, x, be) + visual_bytes1(s).len(),
        visual_got1(d, x, be, s),
{
    reveal(visual_ok1);
    reveal(visual_got1);
    reveal(visual_bytes1);
    reveal(visual_fits1);
    let p = visual_pos0(d, x, be);
    let b0 = int_colors_bytes(s.colors);
    let b1 = visual_run1_bytes(visual_run1_of(s));
    let b2 = custom_draw_tool_bytes(s.custom_draw_config.tools@[0]);
    let b3 = custom_draw_tool_bytes(s.custom_draw_config.tools@[1]);
    let b4 = custom_draw_tool_bytes(s.custom_draw_config.tools@[2]);
    let b5 = custom_draw_tool_bytes(s.custom_draw_config.tools@[3]);
    lemma_int_colors_roundtrip(s.colors, Seq::<u8>::empty());
    lemma_visual_run1_roundtrip(visual_run1_of(s), Seq::<u8>::empty());
    lemma_custom_draw_tool_roundtrip(s.custom_draw_config.tools@[0], Seq::<u8>::empty());
    lemma_custom_draw_tool_roundtrip(s.custom_draw_config.tools@[1], Seq::<u8>::empty());
    lemma_custom_draw_tool_roundtrip(s.custom_draw_config.tools@[2], Seq::<u8>::empty());
    lemma_custom_draw_tool_roundtrip(s.custom_draw_config.tools@[3], Seq::<u8>::empty());
    assert(visual_bytes1(s) == b0 + b1 + b2 + b3 + b4 + b5);
    lemma_parts_at(d, p, b0 + b1 + b2 + b3 + b4, b5);
    lemma_parts_at(d, p, b0 + b1 + b2 + b3, b4);
    lemma_parts_at(d, p, b0 + b1 + b2, b3);
    lemma_parts_at(d, p, b0 + b1, b2);
    lemma_parts_at(d, p, b0, b1);
    let o0 = p;
    assert(visual_pos0(d, x, be) == o0);
    lemma_int_colors_at(s.colors, d, o0);
    let o1 = o0 + b0.len();
    assert(visual_pos1(d, x, be) == o1);
    lemma_visual_run1_at(visual_run1_of(s), d, o1);
    let o2 = o1 + b1.len();
    assert(visual_pos2(d, x, be) == o2);
    lemma_custom_draw_tool_at(s.custom_draw_config.tools@[0], d, o2);
    let o3 = o2 + b2.len();
    assert(visual_pos3(d, x, be) == o3);
    lemma_custom_draw_tool_at(s.custom_draw_config.tools@[1], d, o3);
    let o4 = o3 + b3.len();
    assert(visual_pos4(d, x, be) == o4);
    lemma_custom_draw_tool_at(s.custom_draw_config.tools@[2], d, o4);
    let o5 = o4 + b4.len();
    assert(visual_pos5(d, x, be) == o5);
    lemma_custom_draw_tool_at(s.custom_draw_config.tools@[3], d, o5);
    assert(visual_pos6(d, x, be) == o5 + b5.len());
}

/// Whether field groups 6 to 11 of a visual block body at `x` can be read.
#[verifier::opaque]
pub open spec fn visual_ok2(d: Seq<u8>, x: int, be: int) -> bool {
    let p6 = visual_pos6(d, x, be);
    let p7 = visual_pos7(d, x, be);
    let p8 = visual_pos8(d, x, be);
    let p9 = visual_pos9(d, x, be);
    let p10 = visual_pos10(d, x, be);
    let p11 = visual_pos11(d, x, be);
    &&& (p6 + CUSTOM_DRAW_TOOL_LEN <= d.len())
    &&& (p7 + CUSTOM_DRAW_TOOL_LEN <= d.len())
    &&& (p8 + CUSTOM_DRAW_TOOL_LEN <= d.len())
    &&& (p9 + CUSTOM_DRAW_TOOL_LEN <= d.len())
    &&& (p10 + CUSTOM_DRAW_TOOL_LEN <= d.len())
    &&& (p11 + CUSTOM_DRAW_TOOL_LEN <= d.len())
}

/// Whether `s` holds field groups 6 to 11 of the visual block body at `x`.
#[verifier::opaque]
pub open spec fn visual_got2(d: Seq<u8>, x: int, be: int, s: VisualSection) -> bool {
    let p6 = visual_pos6(d, x, be);
    let p7 = visual_pos7(d, x, be);
    let p8 = visual_pos8(d, x, be);
    let p9 = visual_pos9(d, x, be);
    let p10 = visual_pos10(d, x, be);
    let p11 = visual_pos11(d, x, be);
    &&& custom_draw_tool_at(d, p6, s.custom_draw_config.tools@[4])
    &&& custom_draw_tool_at(d, p7, s.custom_draw_config.tools@[5])
    &&& custom_draw_tool_at(d, p8, s.custom_draw_config.tools@[6])
    &&& custom_draw_tool_at(d, p9, s.custom_draw_config.tools@[7])
    &&& custom_draw_tool_at(d, p10, s.custom_draw_config.tools@[8])
    &&& custom_draw_tool_at(d, p11, s.custom_draw_config.tools@[9])
}

/// Bytes of field groups 6 to 11 of a visual section.
#[verifier::opaque]
pub open spec fn visual_bytes2(s: VisualSection) -> Seq<u8> {
    custom_draw_tool_bytes(s.custom_draw_config.tools@[4])
        + custom_draw_tool_bytes(s.custom_draw_config.tools@[5])
        + custom_draw_tool_bytes(s.custom_draw_config.tools@[6])
        + custom_draw_tool_bytes(s.custom_draw_config.tools@[7])
        + custom_draw_tool_bytes(s.custom_draw_config.tools@[8])
        + custom_draw_tool_bytes(s.custom_draw_config.tools@[9])
}

/// Whether the strings of field groups 6 to 11 of a visual section fit their limit.
#[verifier::opaque]
pub open spec fn visual_fits2(s: VisualSection) -> bool {
    true
}

/// Read field groups 6 to 11 of the visual block body at `x`.
fn read_visual_part2(r: &mut ConfigReader, be: usize, Ghost(x): Ghost<int>) -> (res: Result<(CustomDrawTool, CustomDrawTool, CustomDrawTool, CustomDrawTool, CustomDrawTool, CustomDrawTool), SharedConfigError>)
    requires
        old(r).at() == visual_pos6(old(r).bytes(), x, be as int),
    ensures
        final(r).bytes() == old(r).bytes(),
        visual_ok2(old(r).bytes(), x, be as int) ==> (res matches Ok(t) && {
            let d = old(r).bytes();
            &&& custom_draw_tool_at(d, visual_pos6(d, x, be as int), t.0)
            &&& custom_draw_tool_at(d, visual_pos7(d, x, be as int), t.1)
            &&& custom_draw_tool_at(d, visual_pos8(d, x, be as int), t.2)
            &&& custom_draw_tool_at(d, visual_pos9(d, x, be as int), t.3)
            &&& custom_draw_tool_at(d, visual_pos10(d, x, be as int), t.4)
            &&& custom_draw_tool_at(d, visual_pos11(d, x, be as int), t.5)
            &&& final(r).at() == visual_pos12(d, x, be as int)
        }),
        !visual_ok2(old(r).bytes(), x, be as int) ==> res is Err,
{
    proof { reveal(visual_ok2); }
    let v6 = read_custom_draw_tool(r)?;
    let v7 = read_custom_draw_tool(r)?;
    let v8 = read_custom_draw_tool(r)?;
    let v9 = read_custom_draw_tool(r)?;
    let v10 = read_custom_draw_tool(r)?;
    let v11 = read_custom_draw_tool(r)?;
    Ok((v6, v7, v8, v9, v10, v11))
}

/// Write field groups 6 to 11 of a visual section.
fn write_visual_part2(w: &mut ConfigWriter, s: &VisualSection)
    requires
        old(w).wf(),
    ensures
        final(w).wf(),
        final(w).wrote_all(old(w), visual_fits2(*s), visual_bytes2(*s)),
{
    proof { reveal(visual_bytes2); reveal(visual_fits2); }
    let ghost w0 = *w;
    let ghost wb = *w;
    write_custom_draw_tool(w, &s.custom_draw_config.tools[4]);
    let ghost wb = *w;
    write_custom_draw_tool(w, &s.custom_draw_config.tools[5]);
    proof {
        lemma_wrote_all_then(w0, wb, *w, true, custom_draw_tool_bytes((*s).custom_draw_config.tools@[4]), true, custom_draw_tool_bytes((*s).custom_draw_config.tools@[5]));
    }
    let ghost wb = *w;
    write_custom_draw_tool(w, &s.custom_draw_config.tools[6]);
    proof {
        lemma_wrote_all_then(w0, wb, *w, true, custom_draw_tool_bytes((*s).custom_draw_config.tools@[4]) + custom_draw_tool_bytes((*s).custom_draw_config.tools@[5]), true, custom_draw_tool_bytes((*s).custom_draw_config.tools@[6]));
    }
    let ghost wb = *w;
    write_custom_draw_tool(w, &s.custom_draw_config.tools[7]);
    proof {
        lemma_wrote_all_then(w0, wb, *w, true, custom_draw_tool_bytes((*s).custom_draw_config.tools@[4]) + custom_draw_tool_bytes((*s).custom_draw_config.tools@[5]) + custom_draw_tool_bytes((*s).custom_draw_config.tools@[6]), true, custom_draw_tool_bytes((*s).custom_draw_config.tools@[7]));
    }
    let ghost wb = *w;
    write_custom_draw_tool(w, &s.custom_draw_config.tools[8]);
    proof {
        lemma_wrote_all_then(w0, wb, *w, true, custom_draw_tool_bytes((*s).custom_draw_config.tools@[4]) + custom_draw_tool_bytes((*s).custom_draw_config.tools@[5]) + custom_draw_tool_bytes((*s).custom_draw_config.tools@[6]) + custom_draw_tool_bytes((*s).custom_draw_config.tools@[7]), true, custom_draw_tool_bytes((*s).custom_draw_config.tools@[8]));
    }
    let ghost wb = *w;
    write_custom_draw_tool(w, &s.custom_draw_config.tools[9]);
    proof {
        lemma_wrote_all_then(w0, wb, *w, true, custom_draw_tool_bytes((*s).custom_draw_config.tools@[4]) + custom_draw_tool_bytes((*s).custom_draw_config.tools@[5]) + custom_draw_tool_bytes((*s).custom_draw_config.tools@[6]) + custom_draw_tool_bytes((*s).custom_draw_config.tools@[7]) + custom_draw_tool_bytes((*s).custom_draw_config.tools@[8]), true, custom_draw_tool_bytes((*s).custom_draw_config.tools@[9]));
    }
}

/// Field groups 6 to 11 of a visual section read back from their bytes.
#[verifier::spinoff_prover]
#[verifier::rlimit(50)]
pub proof fn lemma_visual_part2(s: VisualSection, d: Seq<u8>, x: int, be: int)
    requires
        visual_fits2(s),
        0 <= visual_pos6(d, x, be),
        visual_pos6(d, x, be) + visual_bytes2(s).len() <= be <= d.len(),
        d.subrange(visual_pos6(d, x, be), visual_pos6(d, x, be) + visual_bytes2(s).len()) == visual_bytes2(s),
    ensures
        visual_ok2(d, x, be),
        visual_pos12(d, x, be) == visual_pos6(d, x, be) + visual_bytes2(s).len(),
        visual_got2(d, x, be, s),
{
    reveal(visual_ok2);
    reveal(visual_got2);
    reveal(visual_bytes2);
    reveal(visual_fits2);
    let p = visual_pos6(d, x, be);
    let b0 = custom_draw_tool_bytes(s.custom_draw_config.tools@[4]);
    let b1 = custom_draw_tool_bytes(s.custom_draw_config.tools@[5]);
    let b2 = custom_draw_tool_bytes(s.custom_draw_config.tools@[6]);
    let b3 = custom_draw_tool_bytes(s.custom_draw_config.tools@[7]);
    let b4 = custom_draw_tool_bytes(s.custom_draw_config.tools@[8]);
    let b5 = custom_draw_tool_bytes(s.custom_draw_config.tools@[9]);
    lemma_custom_draw_tool_roundtrip(s.custom_draw_config.tools@[4], Seq::<u8>::empty());
    lemma_custom_draw_tool_roundtrip(s.custom_draw_config.tools@[5], Seq::<u8>::empty());
    lemma_custom_draw_tool_roundtrip(s.custom_draw_config.tools@[6], Seq::<u8>::empty());
    lemma_custom_draw_tool_roundtrip(s.custom_draw_config.tools@[7], Seq::<u8>::empty());
    lemma_custom_draw_tool_roundtrip(s.custom_draw_config.tools@[8], Seq::<u8>::empty());
    lemma_custom_draw_tool_roundtrip(s.custom_draw_config.tools@[9], Seq::<u8>::empty());
    assert(visual_bytes2(s) == b0 + b1 + b2 + b3 + b4 + b5);
    lemma_parts_at(d, p, b0 + b1 + b2 + b3 + b4, b5);
    lemma_parts_at(d, p, b0 + b1 + b2 + b3, b4);
    lemma_parts_at(d, p, b0 + b1 + b2, b3);
    lemma_parts_at(d, p, b0 + b1, b2);
    lemma_parts_at(d, p, b0, b1);
    let o0 = p;
    assert(visual_pos6(d, x, be) == o0);
    lemma_custom_draw_tool_at(s.custom_draw_config.tools@[4], d, o0);
    let o1 = o0 + b0.len();
    assert(visual_pos7(d, x, be) == o1);
    lemma_custom_draw_tool_at(s.custom_draw_config.tools@[5], d, o1);
    let o2 = o1 + b1.len();
    assert(visual_pos8(d, x, be) == o2);
    lemma_custom_draw_tool_at(s.custom_draw_config.tools@[6], d, o2);
    let o3 = o2 + b2.len();
    assert(visual_pos9(d, x, be) == o3);
    lemma_custom_draw_tool_at(s.custom_draw_config.tools@[7], d, o3);
    let o4 = o3 + b3.len();
    assert(visual_pos10(d, x, be) == o4);
    lemma_custom_draw_tool_at(s.custom_draw_config.tools@[8], d, o4);
    let o5 = o4 + b4.len();
    assert(visual_pos11(d, x, be) == o5);
    lemma_custom_draw_tool_at(s.custom_draw_config.tools@[9], d, o5);
    assert(visual_pos12(d, x, be) == o5 + b5.len());
}

/// Whether field groups 12 to 17 of a visual block body at `x` can be read.
#[verifier::opaque]
pub open spec fn visual_ok3(d: Seq<u8>, x: int, be: int) -> bool {
    let p12 = visual_pos12(d, x, be);
    let p13 = visual_pos13(d, x, be);
    let p14 = visual_pos14(d, x, be);
    let p15 = visual_pos15(d, x, be);
    let p16 = visual_pos16(d, x, be);
    let p17 = visual_pos17(d, x, be);
    &&& (p12 + CUSTOM_DRAW_TOOL_LEN <= d.len())
    &&& (p13 + CUSTOM_DRAW_TOOL_LEN <= d.len())
    &&& (p14 + CUSTOM_DRAW_TOOL_LEN <= d.len())
    &&& (p15 + CUSTOM_DRAW_TOOL_LEN <= d.len())
    &&& (p16 + CUSTOM_DRAW_TOOL_LEN <= d.len())
    &&& (p17 + CUSTOM_DRAW_TOOL_LEN <= d.len())
}

/// Whether `s` holds field groups 12 to 17 of the visual block body at `x`.
#[verifier::opaque]
pub open spec fn visual_got3(d: Seq<u8>, x: int, be: int, s: VisualSection) -> bool {
    let p12 = visual_pos12(d, x, be);
    let p13 = visual_pos13(d, x, be);
    let p14 = visual_pos14(d, x, be);
    let p15 = visual_pos15(d, x, be);
    let p16 = visual_pos16(d, x, be);
    let p17 = visual_pos17(d, x, be);
    &&& custom_draw_tool_at(d, p12, s.custom_draw_config.tools@[10])
    &&& custom_draw_tool_at(d, p13, s.custom_draw_config.tools@[11])
    &&& custom_draw_tool_at(d, p14, s.custom_draw_config.tools@[12])
    &&& custom_draw_tool_at(d, p15, s.custom_draw_config.tools@[13])
    &&& custom_draw_tool_at(d, p16, s.custom_draw_config.tools@[14])
    &&& custom_draw_tool_at(d, p17, s.custom_draw_config.tools@[15])
}

/// Bytes of field groups 12 to 17 of a visual section.
#[verifier::opaque]
pub open spec fn visual_bytes3(s: VisualSection) -> Seq<u8> {
    custom_draw_tool_bytes(s.custom_draw_config.tools@[10])
        + custom_draw_tool_bytes(s.custom_draw_config.tools@[11])
        + custom_draw_tool_bytes(s.custom_draw_config.tools@[12])
        + custom_draw_tool_bytes(s.custom_draw_config.tools@[13])
        + custom_draw_tool_bytes(s.custom_draw_config.tools@[14])
        + custom_draw_tool_bytes(s.custom_draw_config.tools@[15])
}

/// Whether the strings of field groups 12 to 17 of a visual section fit their limit.
#[verifier::opaque]
pub open spec fn visual_fits3(s: VisualSection) -> bool {
    true
}

/// Read field groups 12 to 17 of the visual block body at `x`.
fn read_visual_part3(r: &mut ConfigReader, be: usize, Ghost(x): Ghost<int>) -> (res: Result<(CustomDrawTool, CustomDrawTool, CustomDrawTool, CustomDrawTool, CustomDrawTool, CustomDrawTool), SharedConfigError>)
    requires
        old(r).at() == visual_pos12(old(r).bytes(), x, be as int),
    ensures
        final(r).bytes() == old(r).bytes(),
        visual_ok3(old(r).bytes(), x, be as int) ==> (res matches Ok(t) && {
            let d = old(r).bytes();
            &&& custom_draw_tool_at(d, visual_pos12(d, x, be as int), t.0)
            &&& custom_draw_tool_at(d, visual_pos13(d, x, be as int), t.1)
            &&& custom_draw_tool_at(d, visual_pos14(d, x, be as int), t.2)
            &&& custom_draw_tool_at(d, visual_pos15(d, x, be as int), t.3)
            &&& custom_draw_tool_at(d, visual_pos16(d, x, be as int), t.4)
            &&& custom_draw_tool_at(d, visual_pos17(d, x, be as int), t.5)
            &&& final(r).at() == visual_pos18(d, x, be as int)
        }),
        !visual_ok3(old(r).bytes(), x, be as int) ==> res is Err,
{
    proof { reveal(visual_ok3); }
    let v12 = read_custom_draw_tool(r)?;
    let v13 = read_custom_draw_tool(r)?;
    let v14 = read_custom_draw_tool(r)?;
    let v15 = read_custom_draw_tool(r)?;
    let v16 = read_custom_draw_tool(r)?;
    let v17 = read_custom_draw_tool(r)?;
    Ok((v12, v13, v14, v15, v16, v17))
}

/// Write field groups 12 to 17 of a visual section.
fn write_visual_part3(w: &mut ConfigWriter, s: &VisualSection)
    requires
        old(w).wf(),
    ensures
        final(w).wf(),
        final(w).wrote_all(old(w), visual_fits3(*s), visual_bytes3(*s)),
{
    proof { reveal(visual_bytes3); reveal(visual_fits3); }
    let ghost w0 = *w;
    let ghost wb = *w;
    write_custom_draw_tool(w, &s.custom_draw_config.tools[10]);
    let ghost wb = *w;
    write_custom_draw_tool(w, &s.custom_draw_config.tools[11]);
    proof {
        lemma_wrote_all_then(w0, wb, *w, true, custom_draw_tool_bytes((*s).custom_draw_config.tools@[10]), true, custom_draw_tool_bytes((*s).custom_draw_config.tools@[11]));
    }
    let ghost wb = *w;
    write_custom_draw_tool(w, &s.custom_draw_config.tools[12]);
    proof {
        lemma_wrote_all_then(w0, wb, *w, true, custom_draw_tool_bytes((*s).custom_draw_config.tools@[10]) + custom_draw_tool_bytes((*s).custom_draw_config.tools@[11]), true, custom_draw_tool_bytes((*s).custom_draw_config.tools@[12]));
    }
    let ghost wb = *w;
    write_custom_draw_tool(w, &s.custom_draw_config.tools[13]);
    proof {
        lemma_wrote_all_then(w0, wb, *w, true, custom_draw_tool_bytes((*s).custom_draw_config.tools@[10]) + custom_draw_tool_bytes((*s).custom_draw_config.tools@[11]) + custom_draw_tool_bytes((*s).custom_draw_config.tools@[12]), true, custom_draw_tool_bytes((*s).custom_draw_config.tools@[13]));
    }
    let ghost wb = *w;
    write_custom_draw_tool(w, &s.custom_draw_config.tools[14]);
    proof {
        lemma_wrote_all_then(w0, wb, *w, true, custom_draw_tool_bytes((*s).custom_draw_config.tools@[10]) + custom_draw_tool_bytes((*s).custom_draw_config.tools@[11]) + custom_draw_tool_bytes((*s).custom_draw_config.tools@[12]) + custom_draw_tool_bytes((*s).custom_draw_config.tools@[13]), true, custom_draw_tool_bytes((*s).custom_draw_config.tools@[14]));
    }
    let ghost wb = *w;
    write_custom_draw_tool(w, &s.custom_draw_config.tools[15]);
    proof {
        lemma_wrote_all_then(w0, wb, *w, true, custom_draw_tool_bytes((*s).custom_draw_config.tools@[10]) + custom_draw_tool_bytes((*s).custom_draw_config.tools@[11]) + custom_draw_tool_bytes((*s).custom_draw_config.tools@[12]) + custom_draw_tool_bytes((*s).custom_draw_config.tools@[13]) + custom_draw_tool_bytes((*s).custom_draw_config.tools@[14]), true, custom_draw_tool_bytes((*s).custom_draw_config.tools@[15]));
    }
}

/// Field groups 12 to 17 of a visual section read back from their bytes.
#[verifier::spinoff_prover]
#[verifier::rlimit(50)]
pub proof fn lemma_visual_part3(s: VisualSection, d: Seq<u8>, x: int, be: int)
    requires
        visual_fits3(s),
        0 <= visual_pos12(d, x, be),
        visual_pos12(d, x, be) + visual_bytes3(s).len() <= be <= d.len(),
        d.subrange(visual_pos12(d, x, be), visual_pos12(d, x, be) + visual_bytes3(s).len()) == visual_bytes3(s),
    ensures
        visual_ok3(d, x, be),
        visual_pos18(d, x, be) == visual_pos12(d, x, be) + visual_bytes3(s).len(),
        visual_got3(d, x, be, s),
{
    reveal(visual_ok3);
    reveal(visual_got3);
    reveal(visual_bytes3);
    reveal(visual_fits3);
    let p = visual_pos12(d, x, be);
    let b0 = custom_draw_tool_bytes(s.custom_draw_config.tools@[10]);
    let b1 = custom_draw_tool_bytes(s.custom_draw_config.tools@[11]);
    let b2 = custom_draw_tool_bytes(s.custom_draw_config.tools@[12]);
    let b3 = custom_draw_tool_bytes(s.custom_draw_config.tools@[13]);
    let b4 = custom_draw_tool_bytes(s.custom_draw_config.tools@[14]);
    let b5 = custom_draw_tool_bytes(s.custom_draw_config.tools@[15]);
    lemma_custom_draw_tool_roundtrip(s.custom_draw_config.tools@[10], Seq::<u8>::empty());
    lemma_custom_draw_tool_roundtrip(s.custom_draw_config.tools@[11], Seq::<u8>::empty());
    lemma_custom_draw_tool_roundtrip(s.custom_draw_config.tools@[12], Seq::<u8>::empty());
    lemma_custom_draw_tool_roundtrip(s.custom_draw_config.tools@[13], Seq::<u8>::empty());
    lemma_custom_draw_tool_roundtrip(s.custom_draw_config.tools@[14], Seq::<u8>::empty());
    lemma_custom_draw_tool_roundtrip(s.custom_draw_config.tools@[15], Seq::<u8>::empty());
    assert(visual_bytes3(s) == b0 + b1 + b2 + b3 + b4 + b5);
    lemma_parts_at(d, p, b0 + b1 + b2 + b3 + b4, b5);
    lemma_parts_at(d, p, b0 + b1 + b2 + b3, b4);
    lemma_parts_at(d, p, b0 + b1 + b2, b3);
    lemma_parts_at(d, p, b0 + b1, b2);
    lemma_parts_at(d, p, b0, b1);
    let o0 = p;
    assert(visual_pos12(d, x, be) == o0);
    lemma_custom_draw_tool_at(s.custom_draw_config.tools@[10], d, o0);
    let o1 = o0 + b0.len();
    assert(visual_pos13(d, x, be) == o1);
    lemma_custom_draw_tool_at(s.custom_draw_config.tools@[11], d, o1);
    let o2 = o1 + b1.len();
    assert(visual_pos14(d, x, be) == o2);
    lemma_custom_draw_tool_at(s.custom_draw_config.tools@[12], d, o2);
    let o3 = o2 + b2.len();
    assert(visual_pos15(d, x, be) == o3);
    lemma_custom_draw_tool_at(s.custom_draw_config.tools@[13], d, o3);
    let o4 = o3 + b3.len();
    assert(visual_pos16(d, x, be) == o4);
    lemma_custom_draw_tool_at(s.custom_draw_config.tools@[14], d, o4);
    let o5 = o4 + b4.len();
    assert(visual_pos17(d, x, be) == o5);
    lemma_custom_draw_tool_at(s.custom_draw_config.tools@[15], d, o5);
    assert(visual_pos18(d, x, be) == o5 + b5.len());
}

/// Whether field groups 18 to 24 of a visual block body at `x` can be read.
#[verifier::opaque]
pub open spec fn visual_ok4(d: Seq<u8>, x: int, be: int) -> bool {
    let p18 = visual_pos18(d, x, be);
    let p19 = visual_pos19(d, x, be);
    let p20 = visual_pos20(d, x, be);
    let p21 = visual_pos21(d, x, be);
    let p22 = visual_pos22(d, x, be);
    let p23 = visual_pos23(d, x, be);
    let p24 = visual_pos24(d, x, be);
    &&& (p18 + VISUAL_RUN2_LEN <= d.len())
    &&& (p19 + BLINK_CONFIG_LEN <= d.len())
    &&& (p20 + VISUAL_RUN3_LEN <= d.len())
    &&& (p21 + SHOW_FILTERS_LEN <= d.len())
    &&& (p22 + VISUAL_RUN4_LEN <= d.len())
    &&& (p23 + 1 <= d.len() && d[p23] == 1)
    &&& (p24 + CHARTS_SETTINGS_LEN <= d.len())
}

/// Whether `s` holds field groups 18 to 24 of the visual block body at `x`.
#[verifier::opaque]
pub open spec fn visual_got4(d: Seq<u8>, x: int, be: int, s: VisualSection) -> bool {
    let p18 = visual_pos18(d, x, be);
    let p19 = visual_pos19(d, x, be);
    let p20 = visual_pos20(d, x, be);
    let p21 = visual_pos21(d, x, be);
    let p22 = visual_pos22(d, x, be);
    let p24 = visual_pos24(d, x, be);
    &&& visual_run2_at(d, p18, visual_run2_of(s))
    &&& blink_config_at(d, p19, s.blink_config)
    &&& visual_run3_at(d, p20, visual_run3_of(s))
    &&& show_filters_at(d, p21, s.show_filters)
    &&& visual_run4_at(d, p22, visual_run4_of(s))
    &&& charts_settings_at(d, p24, s.charts_settings)
}

/// Bytes of field groups 18 to 24 of a visual section.
#[verifier::opaque]
pub open spec fn visual_bytes4(s: VisualSection) -> Seq<u8> {
    visual_run2_bytes(visual_run2_of(s))
        + blink_config_bytes(s.blink_config)
        + visual_run3_bytes(visual_run3_of(s))
        + show_filters_bytes(s.show_filters)
        + visual_run4_bytes(visual_run4_of(s))
        + seq![1u8]
        + charts_settings_bytes(s.charts_settings)
}

/// Whether the strings of field groups 18 to 24 of a visual section fit their limit.
#[verifier::opaque]
pub open spec fn visual_fits4(s: VisualSection) -> bool {
    true
}

/// Read field groups 18 to 24 of the visual block body at `x`.
fn read_visual_part4(r: &mut ConfigReader, be: usize, Ghost(x): Ghost<int>) -> (res: Result<(VisualRun2, BlinkConfig, VisualRun3, ShowFilters, VisualRun4, ChartsSettings), SharedConfigError>)
    requires
        old(r).at() == visual_pos18(old(r).bytes(), x, be as int),
    ensures
        final(r).bytes() == old(r).bytes(),
        visual_ok4(old(r).bytes(), x, be as int) ==> (res matches Ok(t) && {
            let d = old(r).bytes();
            &&& visual_run2_at(d, visual_pos18(d, x, be as int), t.0)
            &&& blink_config_at(d, visual_pos19(d, x, be as int), t.1)
            &&& visual_run3_at(d, visual_pos20(d, x, be as int), t.2)
            &&& show_filters_at(d, visual_pos21(d, x, be as int), t.3)
            &&& visual_run4_at(d, visual_pos22(d, x, be as int), t.4)
            &&& charts_settings_at(d, visual_pos24(d, x, be as int), t.5)
            &&& final(r).at() == visual_pos25(d, x, be as int)
        }),
        !visual_ok4(old(r).bytes(), x, be as int) ==> res is Err,
{
    proof { reveal(visual_ok4); }
    let v18 = read_visual_run2(r)?;
    let v19 = read_blink_config(r)?;
    let v20 = read_visual_run3(r)?;
    let v21 = read_show_filters(r)?;
    let v22 = read_visual_run4(r)?;
    let c23 = r.read_u8()?;
    if c23 != 1 {
        return Err(SharedConfigError::new("wrong shared charts settings version"));
    }
    let v24 = read_charts_settings(r)?;
    Ok((v18, v19, v20, v21, v22, v24))
}

/// Write field groups 18 to 24 of a visual section.
fn write_visual_part4(w: &mut ConfigWriter, s: &VisualSection)
    requires
        old(w).wf(),
    ensures
        final(w).wf(),
        final(w).wrote_all(old(w), visual_fits4(*s), visual_bytes4(*s)),
{
    proof { reveal(visual_bytes4); reveal(visual_fits4); }
    let ghost w0 = *w;
    let ghost wb = *w;
    let t18 = visual_run2_from(s);
    write_visual_run2(w, &t18);
    let ghost wb = *w;
    write_blink_config(w, &s.blink_config);
    proof {
        lemma_wrote_all_then(w0, wb, *w, true, visual_run2_bytes(visual_run2_of(*s)), true, blink_config_bytes((*s).blink_config));
    }
    let ghost wb = *w;
    let t20 = visual_run3_from(s);
    write_visual_run3(w, &t20);
    proof {
        lemma_wrote_all_then(w0, wb, *w, true, visual_run2_bytes(visual_run2_of(*s)) + blink_config_bytes((*s).blink_config), true, visual_run3_bytes(visual_run3_of(*s)));
    }
    let ghost wb = *w;
    write_show_filters(w, &s.show_filters);
    proof {
        lemma_wrote_all_then(w0, wb, *w, true, visual_run2_bytes(visual_run2_of(*s)) + blink_config_bytes((*s).blink_config) + visual_run3_bytes(visual_run3_of(*s)), true, show_filters_bytes((*s).show_filters));
    }
    let ghost wb = *w;
    let t22 = visual_run4_from(s);
    write_visual_run4(w, &t22);
    proof {
        lemma_wrote_all_then(w0, wb, *w, true, visual_run2_bytes(visual_run2_of(*s)) + blink_config_bytes((*s).blink_config) + visual_run3_bytes(visual_run3_of(*s)) + show_filters_bytes((*s).show_filters), true, visual_run4_bytes(visual_run4_of(*s)));
    }
    let ghost wb = *w;
    w.write_u8(1);
    proof {
        lemma_wrote_all_of_wrote(wb, *w, seq![1u8]);
        lemma_wrote_all_then(w0, wb, *w, true, visual_run2_bytes(visual_run2_of(*s)) + blink_config_bytes((*s).blink_config) + visual_run3_bytes(visual_run3_of(*s)) + show_filters_bytes((*s).show_filters) + visual_run4_bytes(visual_run4_of(*s)), true, seq![1u8]);
    }
    let ghost wb = *w;
    write_charts_settings(w, &s.charts_settings);
    proof {
        lemma_wrote_all_then(w0, wb, *w, true, visual_run2_bytes(visual_run2_of(*s)) + blink_config_bytes((*s).blink_config) + visual_run3_bytes(visual_run3_of(*s)) + show_filters_bytes((*s).show_filters) + visual_run4_bytes(visual_run4_of(*s)) + seq![1u8], true, charts_settings_bytes((*s).charts_settings));
    }
}

/// Field groups 18 to 24 of a visual section read back from their bytes.
#[verifier::spinoff_prover]
#[verifier::rlimit(50)]
pub proof fn lemma_visual_part4(s: VisualSection, d: Seq<u8>, x: int, be: int)
    requires
        visual_fits4(s),
        0 <= visual_pos18(d, x, be),
        visual_pos18(d, x, be) + visual_bytes4(s).len() <= be <= d.len(),
        d.subrange(visual_pos18(d, x, be), visual_pos18(d, x, be) + visual_bytes4(s).len()) == visual_bytes4(s),
    ensures
        visual_ok4(d, x, be),
        visual_pos25(d, x, be) == visual_pos18(d, x, be) + visual_bytes4(s).len(),
        visual_got4(d, x, be, s),
{
    reveal(visual_ok4);
    reveal(visual_got4);
    reveal(visual_bytes4);
    reveal(visual_fits4);
    let p = visual_pos18(d, x, be);
    let b0 = visual_run2_bytes(visual_run2_of(s));
    let b1 = blink_config_bytes(s.blink_config);
    let b2 = visual_run3_bytes(visual_run3_of(s));
    let b3 = show_filters_bytes(s.show_filters);
    let b4 = visual_run4_bytes(visual_run4_of(s));
    let b5 = seq![1u8];
    let b6 = charts_settings_bytes(s.charts_settings);
    lemma_visual_run2_roundtrip(visual_run2_of(s), Seq::<u8>::empty());
    lemma_blink_config_roundtrip(s.blink_config, Seq::<u8>::empty());
    lemma_visual_run3_roundtrip(visual_run3_of(s), Seq::<u8>::empty());
    lemma_show_filters_roundtrip(s.show_filters, Seq::<u8>::empty());
    lemma_visual_run4_roundtrip(visual_run4_of(s), Seq::<u8>::empty());
    lemma_charts_settings_roundtrip(s.charts_settings, Seq::<u8>::empty());
    assert(visual_bytes4(s) == b0 + b1 + b2 + b3 + b4 + b5 + b6);
    lemma_parts_at(d, p, b0 + b1 + b2 + b3 + b4 + b5, b6);
    lemma_parts_at(d, p, b0 + b1 + b2 + b3 + b4, b5);
    lemma_parts_at(d, p, b0 + b1 + b2 + b3, b4);
    lemma_parts_at(d, p, b0 + b1 + b2, b3);
    lemma_parts_at(d, p, b0 + b1, b2);
    lemma_parts_at(d, p, b0, b1);
    let o0 = p;
    assert(visual_pos18(d, x, be) == o0);
    lemma_visual_run2_at(visual_run2_of(s), d, o0);
    let o1 = o0 + b0.len();
    assert(visual_pos19(d, x, be) == o1);
    lemma_blink_config_at(s.blink_config, d, o1);
    let o2 = o1 + b1.len();
    assert(visual_pos20(d, x, be) == o2);
    lemma_visual_run3_at(visual_run3_of(s), d, o2);
    let o3 = o2 + b2.len();
    assert(visual_pos21(d, x, be) == o3);
    lemma_show_filters_at(s.show_filters, d, o3);
    let o4 = o3 + b3.len();
    assert(visual_pos22(d, x, be) == o4);
    lemma_visual_run4_at(visual_run4_of(s), d, o4);
    let o5 = o4 + b4.len();
    assert(visual_pos23(d, x, be) == o5);
    assert(d[o5] == b5[0]);
    let o6 = o5 + b5.len();
    assert(visual_pos24(d, x, be) == o6);
    lemma_charts_settings_at(s.charts_settings, d, o6);
    assert(visual_pos25(d, x, be) == o6 + b6.len());
}

/// Whether field groups 25 to 30 of a visual block body at `x` can be read.
#[verifier::opaque]
pub open spec fn visual_ok5(d: Seq<u8>, x: int, be: int) -> bool {
    let p25 = visual_pos25(d, x, be);
    let p26 = visual_pos26(d, x, be);
    let p27 = visual_pos27(d, x, be);
    let p28 = visual_pos28(d, x, be);
    let p29 = visual_pos29(d, x, be);
    let p30 = visual_pos30(d, x, be);
    &&& (p25 + VISUAL_RUN5_LEN <= d.len())
    &&& (p26 + HEAT_MAP_CONFIG_LEN <= d.len())
    &&& (p27 + VISUAL_RUN6_LEN <= d.len())
    &&& (p28 + NEWS_FORM_CONFIG_LEN <= d.len())
    &&& (p29 + VISUAL_RUN7_LEN <= d.len())
    &&& (p30 < be ==> p30 + 1 <= d.len())
}

/// Whether `s` holds field groups 25 to 30 of the visual block body at `x`.
#[verifier::opaque]
pub open spec fn visual_got5(d: Seq<u8>, x: int, be: int, s: VisualSection) -> bool {
    let p25 = visual_pos25(d, x, be);
    let p26 = visual_pos26(d, x, be);
    let p27 = visual_pos27(d, x, be);
    let p28 = visual_pos28(d, x, be);
    let p29 = visual_pos29(d, x, be);
    let p30 = visual_pos30(d, x, be);
    &&& visual_run5_at(d, p25, visual_run5_of(s))
    &&& heat_map_config_at(d, p26, s.heatmap_config)
    &&& visual_run6_at(d, p27, visual_run6_of(s))
    &&& news_form_config_at(d, p28, s.news_form_config)
    &&& visual_run7_at(d, p29, visual_run7_of(s))
    &&& s.chart_candles_style == (if p30 < be { d[p30] } else { 2 })
}

/// Bytes of field groups 25 to 30 of a visual section.
#[verifier::opaque]
pub open spec fn visual_bytes5(s: VisualSection) -> Seq<u8> {
    visual_run5_bytes(visual_run5_of(s))
        + heat_map_config_bytes(s.heatmap_config)
        + visual_run6_bytes(visual_run6_of(s))
        + news_form_config_bytes(s.news_form_config)
        + visual_run7_bytes(visual_run7_of(s))
        + seq![s.chart_candles_style]
}

/// Whether the strings of field groups 25 to 30 of a visual section fit their limit.
#[verifier::opaque]
pub open spec fn visual_fits5(s: VisualSection) -> bool {
    true
}

/// Read field groups 25 to 30 of the visual block body at `x`.
fn read_visual_part5(r: &mut ConfigReader, be: usize, Ghost(x): Ghost<int>) -> (res: Result<(VisualRun5, HeatMapConfig, VisualRun6, NewsFormConfig, VisualRun7, u8), SharedConfigError>)
    requires
        old(r).at() == visual_pos25(old(r).bytes(), x, be as int),
    ensures
        final(r).bytes() == old(r).bytes(),
        visual_ok5(old(r).bytes(), x, be as int) ==> (res matches Ok(t) && {
            let d = old(r).bytes();
            &&& visual_run5_at(d, visual_pos25(d, x, be as int), t.0)
            &&& heat_map_config_at(d, visual_pos26(d, x, be as int), t.1)
            &&& visual_run6_at(d, visual_pos27(d, x, be as int), t.2)
            &&& news_form_config_at(d, visual_pos28(d, x, be as int), t.3)
            &&& visual_run7_at(d, visual_pos29(d, x, be as int), t.4)
            &&& t.5 == (if visual_pos30(d, x, be as int) < be { d[visual_pos30(d, x, be as int)] } else { 2 })
            &&& final(r).at() == visual_pos31(d, x, be as int)
        }),
        !visual_ok5(old(r).bytes(), x, be as int) ==> res is Err,
{
    proof { reveal(visual_ok5); }
    let v25 = read_visual_run5(r)?;
    let v26 = read_heat_map_config(r)?;
    let v27 = read_visual_run6(r)?;
    let v28 = read_news_form_config(r)?;
    let v29 = read_visual_run7(r)?;
    let v30 = r.read_u8_or(be, 2)?;
    Ok((v25, v26, v27, v28, v29, v30))
}

/// Write field groups 25 to 30 of a visual section.
fn write_visual_part5(w: &mut ConfigWriter, s: &VisualSection)
    requires
        old(w).wf(),
    ensures
        final(w).wf(),
        final(w).wrote_all(old(w), visual_fits5(*s), visual_bytes5(*s)),
{
    proof { reveal(visual_bytes5); reveal(visual_fits5); }
    let ghost w0 = *w;
    let ghost wb = *w;
    let t25 = visual_run5_from(s);
    write_visual_run5(w, &t25);
    let ghost wb = *w;
    write_heat_map_config(w, &s.heatmap_config);
    proof {
        lemma_wrote_all_then(w0, wb, *w, true, visual_run5_bytes(visual_run5_of(*s)), true, heat_map_config_bytes((*s).heatmap_config));
    }
    let ghost wb = *w;
    let t27 = visual_run6_from(s);
    write_visual_run6(w, &t27);
    proof {
        lemma_wrote_all_then(w0, wb, *w, true, visual_run5_bytes(visual_run5_of(*s)) + heat_map_config_bytes((*s).heatmap_config), true, visual_run6_bytes(visual_run6_of(*s)));
    }
    let ghost wb = *w;
    write_news_form_config(w, &s.news_form_config);
    proof {
        lemma_wrote_all_then(w0, wb, *w, true, visual_run5_bytes(visual_run5_of(*s)) + heat_map_config_bytes((*s).heatmap_config) + visual_run6_bytes(visual_run6_of(*s)), true, news_form_config_bytes((*s).news_form_config));
    }
    let ghost wb = *w;
    let t29 = visual_run7_from(s);
    write_visual_run7(w, &t29);
    proof {
        lemma_wrote_all_then(w0, wb, *w, true, visual_run5_bytes(visual_run5_of(*s)) + heat_map_config_bytes((*s).heatmap_config) + visual_run6_bytes(visual_run6_of(*s)) + news_form_config_bytes((*s).news_form_config), true, visual_run7_bytes(visual_run7_of(*s)));
    }
    let ghost wb = *w;
    w.write_u8(s.chart_candles_style);
    proof {
        lemma_wrote_all_of_wrote(wb, *w, seq![(*s).chart_candles_style]);
        lemma_wrote_all_then(w0, wb, *w, true, visual_run5_bytes(visual_run5_of(*s)) + heat_map_config_bytes((*s).heatmap_config) + visual_run6_bytes(visual_run6_of(*s)) + news_form_config_bytes((*s).news_form_config) + visual_run7_bytes(visual_run7_of(*s)), true, seq![(*s).chart_candles_style]);
    }
}

/// Field groups 25 to 30 of a visual section read back from their bytes.
#[verifier::spinoff_prover]
#[verifier::rlimit(50)]
pub proof fn lemma_visual_part5(s: VisualSection, d: Seq<u8>, x: int, be: int)
    requires
        visual_fits5(s),
        0 <= visual_pos25(d, x, be),
        visual_pos25(d, x, be) + visual_bytes5(s).len() <= be <= d.len(),
        d.subrange(visual_pos25(d, x, be), visual_pos25(d, x, be) + visual_bytes5(s).len()) == visual_bytes5(s),
    ensures
        visual_ok5(d, x, be),
        visual_pos31(d, x, be) == visual_pos25(d, x, be) + visual_bytes5(s).len(),
        visual_got5(d, x, be, s),
{
    reveal(visual_ok5);
    reveal(visual_got5);
    reveal(visual_bytes5);
    reveal(visual_fits5);
    let p = visual_pos25(d, x, be);
    let b0 = visual_run5_bytes(visual_run5_of(s));
    let b1 = heat_map_config_bytes(s.heatmap_config);
    let b2 = visual_run6_bytes(visual_run6_of(s));
    let b3 = news_form_config_bytes(s.news_form_config);
    let b4 = visual_run7_bytes(visual_run7_of(s));
    let b5 = seq![s.chart_candles_style];
    lemma_visual_run5_roundtrip(visual_run5_of(s), Seq::<u8>::empty());
    lemma_heat_map_config_roundtrip(s.heatmap_config, Seq::<u8>::empty());
    lemma_visual_run6_roundtrip(visual_run6_of(s), Seq::<u8>::empty());
    lemma_news_form_config_roundtrip(s.news_form_config, Seq::<u8>::empty());
    lemma_visual_run7_roundtrip(visual_run7_of(s), Seq::<u8>::empty());
    assert(visual_bytes5(s) == b0 + b1 + b2 + b3 + b4 + b5);
    lemma_parts_at(d, p, b0 + b1 + b2 + b3 + b4, b5);
    lemma_parts_at(d, p, b0 + b1 + b2 + b3, b4);
    lemma_parts_at(d, p, b0 + b1 + b2, b3);
    lemma_parts_at(d, p, b0 + b1, b2);
    lemma_parts_at(d, p, b0, b1);
    let o0 = p;
    assert(visual_pos25(d, x, be) == o0);
    lemma_visual_run5_at(visual_run5_of(s), d, o0);
    let o1 = o0 + b0.len();
    assert(visual_pos26(d, x, be) == o1);
    lemma_heat_map_config_at(s.heatmap_config, d, o1);
    let o2 = o1 + b1.len();
    assert(visual_pos27(d, x, be) == o2);
    lemma_visual_run6_at(visual_run6_of(s), d, o2);
    let o3 = o2 + b2.len();
    assert(visual_pos28(d, x, be) == o3);
    lemma_news_form_config_at(s.news_form_config, d, o3);
    let o4 = o3 + b3.len();
    assert(visual_pos29(d, x, be) == o4);
    lemma_visual_run7_at(visual_run7_of(s), d, o4);
    let o5 = o4 + b4.len();
    assert(visual_pos30(d, x, be) == o5);
    assert(d[o5] == b5[0]);
    assert(visual_pos31(d, x, be) == o5 + b5.len());
}

/// Whether field groups 31 to 36 of a visual block body at `x` can be read.
#[verifier::opaque]
pub open spec fn visual_ok6(d: Seq<u8>, x: int, be: int) -> bool {
    let p31 = visual_pos31(d, x, be);
    let p32 = visual_pos32(d, x, be);
    let p33 = visual_pos33(d, x, be);
    let p34 = visual_pos34(d, x, be);
    let p35 = visual_pos35(d, x, be);
    let p36 = visual_pos36(d, x, be);
    &&& (p31 < be ==> p31 + 1 <= d.len())
    &&& (p32 < be ==> p32 + 1 <= d.len())
    &&& (p33 < be ==> p33 + 1 <= d.len())
    &&& (p34 < be ==> p34 + 1 <= d.len())
    &&& (p35 < be ==> p35 + 4 <= d.len())
    &&& (p36 < be ==> p36 + 4 <= d.len())
}

/// Whether `s` holds field groups 31 to 36 of the visual block body at `x`.
#[verifier::opaque]
pub open spec fn visual_got6(d: Seq<u8>, x: int, be: int, s: VisualSection) -> bool {
    let p31 = visual_pos31(d, x, be);
    let p32 = visual_pos32(d, x, be);
    let p33 = visual_pos33(d, x, be);
    let p34 = visual_pos34(d, x, be);
    let p35 = visual_pos35(d, x, be);
    let p36 = visual_pos36(d, x, be);
    &&& s.chart_candles_tick_opacity == (if p31 < be { d[p31] } else { 25 })
    &&& s.chart_candles_neutral_ticks == (if p32 < be { flag_of(d[p32]) } else { false })
    &&& s.chart_candles_outline_width == (if p33 < be { d[p33] } else { 2 })
    &&& s.chart_candles_tick_wicks == (if p34 < be { flag_of(d[p34]) } else { false })
    &&& s.candle_colors@[0].green == (if p35 < be { u32_at(d, p35) } else { 0 })
    &&& s.candle_colors@[0].red == (if p36 < be { u32_at(d, p36) } else { 0 })
}

/// Bytes of field groups 31 to 36 of a visual section.
#[verifier::opaque]
pub open spec fn visual_bytes6(s: VisualSection) -> Seq<u8> {
    seq![s.chart_candles_tick_opacity]
        + seq![bool_byte(s.chart_candles_neutral_ticks)]
        + seq![s.chart_candles_outline_width]
        + seq![bool_byte(s.chart_candles_tick_wicks)]
        + le_u32(s.candle_colors@[0].green)
        + le_u32(s.candle_colors@[0].red)
}

/// Whether the strings of field groups 31 to 36 of a visual section fit their limit.
#[verifier::opaque]
pub open spec fn visual_fits6(s: VisualSection) -> bool {
    true
}

/// Read field groups 31 to 36 of the visual block body at `x`.
fn read_visual_part6(r: &mut ConfigReader, be: usize, Ghost(x): Ghost<int>) -> (res: Result<(u8, bool, u8, bool, u32, u32), SharedConfigError>)
    requires
        old(r).at() == visual_pos31(old(r).bytes(), x, be as int),
    ensures
        final(r).bytes() == old(r).bytes(),
        visual_ok6(old(r).bytes(), x, be as int) ==> (res matches Ok(t) && {
            let d = old(r).bytes();
            &&& t.0 == (if visual_pos31(d, x, be as int) < be { d[visual_pos31(d, x, be as int)] } else { 25 })
            &&& t.1 == (if visual_pos32(d, x, be as int) < be { flag_of(d[visual_pos32(d, x, be as int)]) } else { false })
            &&& t.2 == (if visual_pos33(d, x, be as int) < be { d[visual_pos33(d, x, be as int)] } else { 2 })
            &&& t.3 == (if visual_pos34(d, x, be as int) < be { flag_of(d[visual_pos34(d, x, be as int)]) } else { false })
            &&& t.4 == (if visual_pos35(d, x, be as int) < be { u32_at(d, visual_pos35(d, x, be as int)) } else { 0 })
            &&& t.5 == (if visual_pos36(d, x, be as int) < be { u32_at(d, visual_pos36(d, x, be as int)) } else { 0 })
            &&& final(r).at() == visual_pos37(d, x, be as int)
        }),
        !visual_ok6(old(r).bytes(), x, be as int) ==> res is Err,
{
    proof { reveal(visual_ok6); }
    let v31 = r.read_u8_or(be, 25)?;
    let v32 = r.read_bool_or(be, false)?;
    let v33 = r.read_u8_or(be, 2)?;
    let v34 = r.read_bool_or(be, false)?;
    let v35 = r.read_u32_or(be, 0)?;
    let v36 = r.read_u32_or(be, 0)?;
    Ok((v31, v32, v33, v34, v35, v36))
}

/// Write field groups 31 to 36 of a visual section.
fn write_visual_part6(w: &mut ConfigWriter, s: &VisualSection)
    requires
        old(w).wf(),
    ensures
        final(w).wf(),
        final(w).wrote_all(old(w), visual_fits6(*s), visual_bytes6(*s)),
{
    proof { reveal(visual_bytes6); reveal(visual_fits6); }
    let ghost w0 = *w;
    let ghost wb = *w;
    w.write_u8(s.chart_candles_tick_opacity);
    proof {
        lemma_wrote_all_of_wrote(wb, *w, seq![(*s).chart_candles_tick_opacity]);
    }
    let ghost wb = *w;
    w.write_bool(s.chart_candles_neutral_ticks);
    proof {
        lemma_wrote_all_of_wrote(wb, *w, seq![bool_byte((*s).chart_candles_neutral_ticks)]);
        lemma_wrote_all_then(w0, wb, *w, true, seq![(*s).chart_candles_tick_opacity], true, seq![bool_byte((*s).chart_candles_neutral_ticks)]);
    }
    let ghost wb = *w;
    w.write_u8(s.chart_candles_outline_width);
    proof {
        lemma_wrote_all_of_wrote(wb, *w, seq![(*s).chart_candles_outline_width]);
        lemma_wrote_all_then(w0, wb, *w, true, seq![(*s).chart_candles_tick_opacity] + seq![bool_byte((*s).chart_candles_neutral_ticks)], true, seq![(*s).chart_candles_outline_width]);
    }
    let ghost wb = *w;
    w.write_bool(s.chart_candles_tick_wicks);
    proof {
        lemma_wrote_all_of_wrote(wb, *w, seq![bool_byte((*s).chart_candles_tick_wicks)]);
        lemma_wrote_all_then(w0, wb, *w, true, seq![(*s).chart_candles_tick_opacity] + seq![bool_byte((*s).chart_candles_neutral_ticks)] + seq![(*s).chart_candles_outline_width], true, seq![bool_byte((*s).chart_candles_tick_wicks)]);
    }
    let ghost wb = *w;
    w.write_u32(s.candle_colors[0].green);
    proof {
        lemma_wrote_all_of_wrote(wb, *w, le_u32((*s).candle_colors@[0].green));
        lemma_wrote_all_then(w0, wb, *w, true, seq![(*s).chart_candles_tick_opacity] + seq![bool_byte((*s).chart_candles_neutral_ticks)] + seq![(*s).chart_candles_outline_width] + seq![bool_byte((*s).chart_candles_tick_wicks)], true, le_u32((*s).candle_colors@[0].green));
    }
    let ghost wb = *w;
    w.write_u32(s.candle_colors[0].red);
    proof {
        lemma_wrote_all_of_wrote(wb, *w, le_u32((*s).candle_colors@[0].red));
        lemma_wrote_all_then(w0, wb, *w, true, seq![(*s).chart_candles_tick_opacity] + seq![bool_byte((*s).chart_candles_neutral_ticks)] + seq![(*s).chart_candles_outline_width] + seq![bool_byte((*s).chart_candles_tick_wicks)] + le_u32((*s).candle_colors@[0].green), true, le_u32((*s).candle_colors@[0].red));
    }
}

/// Field groups 31 to 36 of a visual section read back from their bytes.
#[verifier::spinoff_prover]
#[verifier::rlimit(50)]
pub proof fn lemma_visual_part6(s: VisualSection, d: Seq<u8>, x: int, be: int)
    requires
        visual_fits6(s),
        0 <= visual_pos31(d, x, be),
        visual_pos31(d, x, be) + visual_bytes6(s).len() <= be <= d.len(),
        d.subrange(visual_pos31(d, x, be), visual_pos31(d, x, be) + visual_bytes6(s).len()) == visual_bytes6(s),
    ensures
        visual_ok6(d, x, be),
        visual_pos37(d, x, be) == visual_pos31(d, x, be) + visual_bytes6(s).len(),
        visual_got6(d, x, be, s),
{
    reveal(visual_ok6);
    reveal(visual_got6);
    reveal(visual_bytes6);
    reveal(visual_fits6);
    let p = visual_pos31(d, x, be);
    let b0 = seq![s.chart_candles_tick_opacity];
    let b1 = seq![bool_byte(s.chart_candles_neutral_ticks)];
    let b2 = seq![s.chart_candles_outline_width];
    let b3 = seq![bool_byte(s.chart_candles_tick_wicks)];
    let b4 = le_u32(s.candle_colors@[0].green);
    let b5 = le_u32(s.candle_colors@[0].red);
    assert(visual_bytes6(s) == b0 + b1 + b2 + b3 + b4 + b5);
    lemma_parts_at(d, p, b0 + b1 + b2 + b3 + b4, b5);
    lemma_parts_at(d, p, b0 + b1 + b2 + b3, b4);
    lemma_parts_at(d, p, b0 + b1 + b2, b3);
    lemma_parts_at(d, p, b0 + b1, b2);
    lemma_parts_at(d, p, b0, b1);
    let o0 = p;
    assert(visual_pos31(d, x, be) == o0);
    assert(d[o0] == b0[0]);
    let o1 = o0 + b0.len();
    assert(visual_pos32(d, x, be) == o1);
    assert(d[o1] == b1[0]);
    lemma_bool_byte(s.chart_candles_neutral_ticks);
    let o2 = o1 + b1.len();
    assert(visual_pos33(d, x, be) == o2);
    assert(d[o2] == b2[0]);
    let o3 = o2 + b2.len();
    assert(visual_pos34(d, x, be) == o3);
    assert(d[o3] == b3[0]);
    lemma_bool_byte(s.chart_candles_tick_wicks);
    let o4 = o3 + b3.len();
    assert(visual_pos35(d, x, be) == o4);
    lemma_u32_at_le(s.candle_colors@[0].green, d, o4);
    let o5 = o4 + b4.len();
    assert(visual_pos36(d, x, be) == o5);
    lemma_u32_at_le(s.candle_colors@[0].red, d, o5);
    assert(visual_pos37(d, x, be) == o5 + b5.len());
}

/// Whether field groups 37 to 42 of a visual block body at `x` can be read.
#[verifier::opaque]
pub open spec fn visual_ok7(d: Seq<u8>, x: int, be: int) -> bool {
    let p37 = visual_pos37(d, x, be);
    let p38 = visual_pos38(d, x, be);
    let p39 = visual_pos39(d, x, be);
    let p40 = visual_pos40(d, x, be);
    let p41 = visual_pos41(d, x, be);
    let p42 = visual_pos42(d, x, be);
    &&& (p37 < be ==> p37 + 4 <= d.len())
    &&& (p38 < be ==> p38 + 4 <= d.len())
    &&& (p39 < be ==> p39 + 4 <= d.len())
    &&& (p40 < be ==> p40 + 4 <= d.len())
    &&& (p41 < be ==> p41 + 1 <= d.len())
    &&& (p42 < be ==> p42 + 1 <= d.len())
}

/// Whether `s` holds field groups 37 to 42 of the visual block body at `x`.
#[verifier::opaque]
pub open spec fn visual_got7(d: Seq<u8>, x: int, be: int, s: VisualSection) -> bool {
    let p37 = visual_pos37(d, x, be);
    let p38 = visual_pos38(d, x, be);
    let p39 = visual_pos39(d, x, be);
    let p40 = visual_pos40(d, x, be);
    let p41 = visual_pos41(d, x, be);
    let p42 = visual_pos42(d, x, be);
    &&& s.candle_colors@[0].neutral == (if p37 < be { u32_at(d, p37) } else { 0 })
    &&& s.candle_colors@[1].green == (if p38 < be { u32_at(d, p38) } else { 0 })
    &&& s.candle_colors@[1].red == (if p39 < be { u32_at(d, p39) } else { 0 })
    &&& s.candle_colors@[1].neutral == (if p40 < be { u32_at(d, p40) } else { 0 })
    &&& s.use_ai_coin_card == (if p41 < be { flag_of(d[p41]) } else { false })
    &&& s.ai_card_provider == (if p42 < be { d[p42] } else { 0 })
}

/// Bytes of field groups 37 to 42 of a visual section.
#[verifier::opaque]
pub open spec fn visual_bytes7(s: VisualSection) -> Seq<u8> {
    le_u32(s.candle_colors@[0].neutral)
        + le_u32(s.candle_colors@[1].green)
        + le_u32(s.candle_colors@[1].red)
        + le_u32(s.candle_colors@[1].neutral)
        + seq![bool_byte(s.use_ai_coin_card)]
        + seq![s.ai_card_provider]
}

/// Whether the strings of field groups 37 to 42 of a visual section fit their limit.
#[verifier::opaque]
pub open spec fn visual_fits7(s: VisualSection) -> bool {
    true
}

/// Read field groups 37 to 42 of the visual block body at `x`.
fn read_visual_part7(r: &mut ConfigReader, be: usize, Ghost(x): Ghost<int>) -> (res: Result<(u32, u32, u32, u32, bool, u8), SharedConfigError>)
    requires
        old(r).at() == visual_pos37(old(r).bytes(), x, be as int),
    ensures
        final(r).bytes() == old(r).bytes(),
        visual_ok7(old(r).bytes(), x, be as int) ==> (res matches Ok(t) && {
            let d = old(r).bytes();
            &&& t.0 == (if visual_pos37(d, x, be as int) < be { u32_at(d, visual_pos37(d, x, be as int)) } else { 0 })
            &&& t.1 == (if visual_pos38(d, x, be as int) < be { u32_at(d, visual_pos38(d, x, be as int)) } else { 0 })
            &&& t.2 == (if visual_pos39(d, x, be as int) < be { u32_at(d, visual_pos39(d, x, be as int)) } else { 0 })
            &&& t.3 == (if visual_pos40(d, x, be as int) < be { u32_at(d, visual_pos40(d, x, be as int)) } else { 0 })
            &&& t.4 == (if visual_pos41(d, x, be as int) < be { flag_of(d[visual_pos41(d, x, be as int)]) } else { false })
            &&& t.5 == (if visual_pos42(d, x, be as int) < be { d[visual_pos42(d, x, be as int)] } else { 0 })
            &&& final(r).at() == visual_pos43(d, x, be as int)
        }),
        !visual_ok7(old(r).bytes(), x, be as int) ==> res is Err,
{
    proof { reveal(visual_ok7); }
    let v37 = r.read_u32_or(be, 0)?;
    let v38 = r.read_u32_or(be, 0)?;
    let v39 = r.read_u32_or(be, 0)?;
    let v40 = r.read_u32_or(be, 0)?;
    let v41 = r.read_bool_or(be, false)?;
    let v42 = r.read_u8_or(be, 0)?;
    Ok((v37, v38, v39, v40, v41, v42))
}

/// Write field groups 37 to 42 of a visual section.
fn write_visual_part7(w: &mut ConfigWriter, s: &VisualSection)
    requires
        old(w).wf(),
    ensures
        final(w).wf(),
        final(w).wrote_all(old(w), visual_fits7(*s), visual_bytes7(*s)),
{
    proof { reveal(visual_bytes7); reveal(visual_fits7); }
    let ghost w0 = *w;
    let ghost wb = *w;
    w.write_u32(s.candle_colors[0].neutral);
    proof {
        lemma_wrote_all_of_wrote(wb, *w, le_u32((*s).candle_colors@[0].neutral));
    }
    let ghost wb = *w;
    w.write_u32(s.candle_colors[1].green);
    proof {
        lemma_wrote_all_of_wrote(wb, *w, le_u32((*s).candle_colors@[1].green));
        lemma_wrote_all_then(w0, wb, *w, true, le_u32((*s).candle_colors@[0].neutral), true, le_u32((*s).candle_colors@[1].green));
    }
    let ghost wb = *w;
    w.write_u32(s.candle_colors[1].red);
    proof {
        lemma_wrote_all_of_wrote(wb, *w, le_u32((*s).candle_colors@[1].red));
        lemma_wrote_all_then(w0, wb, *w, true, le_u32((*s).candle_colors@[0].neutral) + le_u32((*s).candle_colors@[1].green), true, le_u32((*s).candle_colors@[1].red));
    }
    let ghost wb = *w;
    w.write_u32(s.candle_colors[1].neutral);
    proof {
        lemma_wrote_all_of_wrote(wb, *w, le_u32((*s).candle_colors@[1].neutral));
        lemma_wrote_all_then(w0, wb, *w, true, le_u32((*s).candle_colors@[0].neutral) + le_u32((*s).candle_colors@[1].green) + le_u32((*s).candle_colors@[1].red), true, le_u32((*s).candle_colors@[1].neutral));
    }
    let ghost wb = *w;
    w.write_bool(s.use_ai_coin_card);
    proof {
        lemma_wrote_all_of_wrote(wb, *w, seq![bool_byte((*s).use_ai_coin_card)]);
        lemma_wrote_all_then(w0, wb, *w, true, le_u32((*s).candle_colors@[0].neutral) + le_u32((*s).candle_colors@[1].green) + le_u32((*s).candle_colors@[1].red) + le_u32((*s).candle_colors@[1].neutral), true, seq![bool_byte((*s).use_ai_coin_card)]);
    }
    let ghost wb = *w;
    w.write_u8(s.ai_card_provider);
    proof {
        lemma_wrote_all_of_wrote(wb, *w, seq![(*s).ai_card_provider]);
        lemma_wrote_all_then(w0, wb, *w, true, le_u32((*s).candle_colors@[0].neutral) + le_u32((*s).candle_colors@[1].green) + le_u32((*s).candle_colors@[1].red) + le_u32((*s).candle_colors@[1].neutral) + seq![bool_byte((*s).use_ai_coin_card)], true, seq![(*s).ai_card_provider]);
    }
}

/// Field groups 37 to 42 of a visual section read back from their bytes.
#[verifier::spinoff_prover]
#[verifier::rlimit(50)]
pub proof fn lemma_visual_part7(s: VisualSection, d: Seq<u8>, x: int, be: int)
    requires
        visual_fits7(s),
        0 <= visual_pos37(d, x, be),
        visual_pos37(d, x, be) + visual_bytes7(s).len() <= be <= d.len(),
        d.subrange(visual_pos37(d, x, be), visual_pos37(d, x, be) + visual_bytes7(s).len()) == visual_bytes7(s),
    ensures
        visual_ok7(d, x, be),
        visual_pos43(d, x, be) == visual_pos37(d, x, be) + visual_bytes7(s).len(),
        visual_got7(d, x, be, s),
{
    reveal(visual_ok7);
    reveal(visual_got7);
    reveal(visual_bytes7);
    reveal(visual_fits7);
    let p = visual_pos37(d, x, be);
    let b0 = le_u32(s.candle_colors@[0].neutral);
    let b1 = le_u32(s.candle_colors@[1].green);
    let b2 = le_u32(s.candle_colors@[1].red);
    let b3 = le_u32(s.candle_colors@[1].neutral);
    let b4 = seq![bool_byte(s.use_ai_coin_card)];
    let b5 = seq![s.ai_card_provider];
    assert(visual_bytes7(s) == b0 + b1 + b2 + b3 + b4 + b5);
    lemma_parts_at(d, p, b0 + b1 + b2 + b3 + b4, b5);
    lemma_parts_at(d, p, b0 + b1 + b2 + b3, b4);
    lemma_parts_at(d, p, b0 + b1 + b2, b3);
    lemma_parts_at(d, p, b0 + b1, b2);
    lemma_parts_at(d, p, b0, b1);
    let o0 = p;
    assert(visual_pos37(d, x, be) == o0);
    lemma_u32_at_le(s.candle_colors@[0].neutral, d, o0);
    let o1 = o0 + b0.len();
    assert(visual_pos38(d, x, be) == o1);
    lemma_u32_at_le(s.candle_colors@[1].green, d, o1);
    let o2 = o1 + b1.len();
    assert(visual_pos39(d, x, be) == o2);
    lemma_u32_at_le(s.candle_colors@[1].red, d, o2);
    let o3 = o2 + b2.len();
    assert(visual_pos40(d, x, be) == o3);
    lemma_u32_at_le(s.candle_colors@[1].neutral, d, o3);
    let o4 = o3 + b3.len();
    assert(visual_pos41(d, x, be) == o4);
    assert(d[o4] == b4[0]);
    lemma_bool_byte(s.use_ai_coin_card);
    let o5 = o4 + b4.len();
    assert(visual_pos42(d, x, be) == o5);
    assert(d[o5] == b5[0]);
    assert(visual_pos43(d, x, be) == o5 + b5.len());
}

/// Whether field groups 43 to 45 of a visual block body at `x` can be read.
#[verifier::opaque]
pub open spec fn visual_ok8(d: Seq<u8>, x: int, be: int) -> bool {
    let p43 = visual_pos43(d, x, be);
    let p44 = visual_pos44(d, x, be);
    let p45 = visual_pos45(d, x, be);
    &&& (p43 < be ==> string_ok(d, p43))
    &&& (p44 < be ==> string_ok(d, p44))
    &&& (p45 < be ==> p45 + 1 <= d.len())
}

/// Whether `s` holds field groups 43 to 45 of the visual block body at `x`.
#[verifier::opaque]
pub open spec fn visual_got8(d: Seq<u8>, x: int, be: int, s: VisualSection) -> bool {
    let p43 = visual_pos43(d, x, be);
    let p44 = visual_pos44(d, x, be);
    let p45 = visual_pos45(d, x, be);
    &&& s.ai_card_model@ == (if p43 < be { text_at(d, p43) } else { Seq::<char>::empty() })
    &&& s.ai_card_prompt@ == (if p44 < be { text_at(d, p44) } else { Seq::<char>::empty() })
    &&& s.manual_charts_full_screen == (if p45 < be { flag_of(d[p45]) } else { false })
}

/// Bytes of field groups 43 to 45 of a visual section.
#[verifier::opaque]
pub open spec fn visual_bytes8(s: VisualSection) -> Seq<u8> {
    string_x_bytes(s.ai_card_model@)
        + string_x_bytes(s.ai_card_prompt@)
        + seq![bool_byte(s.manual_charts_full_screen)]
}

/// Whether the strings of field groups 43 to 45 of a visual section fit their limit.
#[verifier::opaque]
pub open spec fn visual_fits8(s: VisualSection) -> bool {
    string_fits(s.ai_card_model@)
        && string_fits(s.ai_card_prompt@)
}

/// Read field groups 43 to 45 of the visual block body at `x`.
fn read_visual_part8(r: &mut ConfigReader, be: usize, Ghost(x): Ghost<int>) -> (res: Result<(String, String, bool), SharedConfigError>)
    requires
        old(r).at() == visual_pos43(old(r).bytes(), x, be as int),
    ensures
        final(r).bytes() == old(r).bytes(),
        visual_ok8(old(r).bytes(), x, be as int) ==> (res matches Ok(t) && {
            let d = old(r).bytes();
            &&& t.0@ == (if visual_pos43(d, x, be as int) < be { text_at(d, visual_pos43(d, x, be as int)) } else { Seq::<char>::empty() })
            &&& t.1@ == (if visual_pos44(d, x, be as int) < be { text_at(d, visual_pos44(d, x, be as int)) } else { Seq::<char>::empty() })
            &&& t.2 == (if visual_pos45(d, x, be as int) < be { flag_of(d[visual_pos45(d, x, be as int)]) } else { false })
            &&& final(r).at() == visual_pos46(d, x, be as int)
        }),
        !visual_ok8(old(r).bytes(), x, be as int) ==> res is Err,
{
    proof { reveal(visual_ok8); }
    let v43 = read_text_or_empty(r, be)?;
    let v44 = read_text_or_empty(r, be)?;
    let v45 = r.read_bool_or(be, false)?;
    Ok((v43, v44, v45))
}

/// Write field groups 43 to 45 of a visual section.
fn write_visual_part8(w: &mut ConfigWriter, s: &VisualSection)
    requires
        old(w).wf(),
    ensures
        final(w).wf(),
        final(w).wrote_all(old(w), visual_fits8(*s), visual_bytes8(*s)),
{
    proof { reveal(visual_bytes8); reveal(visual_fits8); }
    let ghost w0 = *w;
    let ghost wb = *w;
    w.write_string_x(s.ai_card_model.as_str());
    let ghost wb = *w;
    w.write_string_x(s.ai_card_prompt.as_str());
    proof {
        lemma_wrote_all_then(w0, wb, *w, string_fits((*s).ai_card_model@), string_x_bytes((*s).ai_card_model@), string_fits((*s).ai_card_prompt@), string_x_bytes((*s).ai_card_prompt@));
    }
    let ghost wb = *w;
    w.write_bool(s.manual_charts_full_screen);
    proof {
        lemma_wrote_all_of_wrote(wb, *w, seq![bool_byte((*s).manual_charts_full_screen)]);
        lemma_wrote_all_then(w0, wb, *w, string_fits((*s).ai_card_model@) && string_fits((*s).ai_card_prompt@), string_x_bytes((*s).ai_card_model@) + string_x_bytes((*s).ai_card_prompt@), true, seq![bool_byte((*s).manual_charts_full_screen)]);
    }
}

/// Field groups 43 to 45 of a visual section read back from their bytes.
#[verifier::spinoff_prover]
#[verifier::rlimit(50)]
pub proof fn lemma_visual_part8(s: VisualSection, d: Seq<u8>, x: int, be: int)
    requires
        visual_fits8(s),
        0 <= visual_pos43(d, x, be),
        visual_pos43(d, x, be) + visual_bytes8(s).len() <= be <= d.len(),
        d.subrange(visual_pos43(d, x, be), visual_pos43(d, x, be) + visual_bytes8(s).len()) == visual_bytes8(s),
    ensures
        visual_ok8(d, x, be),
        visual_pos46(d, x, be) == visual_pos43(d, x, be) + visual_bytes8(s).len(),
        visual_got8(d, x, be, s),
{
    reveal(visual_ok8);
    reveal(visual_got8);
    reveal(visual_bytes8);
    reveal(visual_fits8);
    let p = visual_pos43(d, x, be);
    let b0 = string_x_bytes(s.ai_card_model@);
    let b1 = string_x_bytes(s.ai_card_prompt@);
    let b2 = seq![bool_byte(s.manual_charts_full_screen)];
    assert(visual_bytes8(s) == b0 + b1 + b2);
    lemma_parts_at(d, p, b0 + b1, b2);
    lemma_parts_at(d, p, b0, b1);
    let o0 = p;
    assert(visual_pos43(d, x, be) == o0);
    lemma_text_at(s.ai_card_model@, d, o0);
    let o1 = o0 + b0.len();
    assert(visual_pos44(d, x, be) == o1);
    lemma_text_at(s.ai_card_prompt@, d, o1);
    let o2 = o1 + b1.len();
    assert(visual_pos45(d, x, be) == o2);
    assert(d[o2] == b2[0]);
    lemma_bool_byte(s.manual_charts_full_screen);
    assert(visual_pos46(d, x, be) == o2 + b2.len());
}

/// Whether a visual block body at `x`, ending at `be`, can be read: version `2`
/// and every field group within the data.
pub open spec fn visual_ok(d: Seq<u8>, x: int, be: int) -> bool {
    &&& x + 1 <= d.len()
    &&& d[x] == 2
    &&& visual_ok1(d, x, be)
    &&& visual_ok2(d, x, be)
    &&& visual_ok3(d, x, be)
    &&& visual_ok4(d, x, be)
    &&& visual_ok5(d, x, be)
    &&& visual_ok6(d, x, be)
    &&& visual_ok7(d, x, be)
    &&& visual_ok8(d, x, be)
}

/// Whether `s` is the visual block body at `x`, with the rest of the block
/// up to `be` kept.
pub open spec fn visual_decoded(d: Seq<u8>, x: int, be: int, s: VisualSection) -> bool {
    &&& visual_got1(d, x, be, s)
    &&& visual_got2(d, x, be, s)
    &&& visual_got3(d, x, be, s)
    &&& visual_got4(d, x, be, s)
    &&& visual_got5(d, x, be, s)
    &&& visual_got6(d, x, be, s)
    &&& visual_got7(d, x, be, s)
    &&& visual_got8(d, x, be, s)
    &&& s.unknown_tail@ == tail_of(d, visual_pos46(d, x, be), be)
}

/// Read the visual block body that ends at `block_end`.
#[verifier::spinoff_prover]
#[verifier::rlimit(50)]
pub fn parse_visual(r: &mut ConfigReader, block_end: usize) -> (res: Result<VisualSection, SharedConfigError>)
    requires
        block_end <= old(r).bytes().len(),
    ensures
        visual_ok(old(r).bytes(), old(r).at(), block_end as int) ==> (res matches Ok(s) && visual_decoded(
            old(r).bytes(),
            old(r).at(),
            block_end as int,
            s,
        )),
        !visual_ok(old(r).bytes(), old(r).at(), block_end as int) ==> res is Err,
{
    let ghost x: int = r.at();
    let ghost d = r.bytes();
    let be = block_end;
    let ver = r.read_u8()?;
    if ver != 2 {
        return Err(SharedConfigError::new("wrong shared visual version"));
    }
    let (v0, v1, v2, v3, v4, v5) = read_visual_part1(r, be, Ghost(x))?;
    let (v6, v7, v8, v9, v10, v11) = read_visual_part2(r, be, Ghost(x))?;
    let (v12, v13, v14, v15, v16, v17) = read_visual_part3(r, be, Ghost(x))?;
    let (v18, v19, v20, v21, v22, v24) = read_visual_part4(r, be, Ghost(x))?;
    let (v25, v26, v27, v28, v29, v30) = read_visual_part5(r, be, Ghost(x))?;
    let (v31, v32, v33, v34, v35, v36) = read_visual_part6(r, be, Ghost(x))?;
    let (v37, v38, v39, v40, v41, v42) = read_visual_part7(r, be, Ghost(x))?;
    let (v43, v44, v45) = read_visual_part8(r, be, Ghost(x))?;
    let unknown_tail = r.read_tail(be);
    let s = VisualSection {
        colors: v0,
        panic_sell_opacity: v1.panic_sell_opacity,
        hide_forum_label: v1.hide_forum_label,
        show_red_green_lines: v1.show_red_green_lines,
        scrolling_charts: v1.scrolling_charts,
        startup_load_charts: v1.startup_load_charts,
        auto_close_charts: v1.auto_close_charts,
        left_chart_info: v1.left_chart_info,
        show_red_green_dots: v1.show_red_green_dots,
        glass_opacity: v1.glass_opacity,
        chart_time_scale: v1.chart_time_scale,
        chart_watch_multi_frames: v1.chart_watch_multi_frames,
        chart_history_len: v1.chart_history_len,
        hide_right_chart_panel: v1.hide_right_chart_panel,
        show_vert_volume: v1.show_vert_volume,
        vert_vol_time_frame: v1.vert_vol_time_frame,
        vert_vol_opacity: v1.vert_vol_opacity,
        vert_vol_height: v1.vert_vol_height,
        vert_vol_kind: v1.vert_vol_kind,
        v_tool_show: v1.v_tool_show,
        v_tool_time: v1.v_tool_time,
        v_tool_opacity: v1.v_tool_opacity,
        v_tool_show_buyers: v1.v_tool_show_buyers,
        v_tool_time_index: v1.v_tool_time_index,
        hv_show: v1.hv_show,
        hv_width: v1.hv_width,
        hv_time_frame_ind: v1.hv_time_frame_ind,
        hv_time_frame: v1.hv_time_frame,
        hv_price_frame: v1.hv_price_frame,
        hv_opacity: v1.hv_opacity,
        custom_draw_config: CustomDrawConfig { ver: v1.cdc_ver, f_opacity: v1.cdc_opacity, f_show: v1.cdc_show, tools: [v2, v3, v4, v5, v6, v7, v8, v9, v10, v11, v12, v13, v14, v15, v16, v17] },
        global_current_draw_kind: v18.global_current_draw_kind,
        hv_disp_vol: v18.hv_disp_vol,
        hv_kind: v18.hv_kind,
        show_market_captions: v18.show_market_captions,
        show_orders_captions: v18.show_orders_captions,
        orders_captions_lower: v18.orders_captions_lower,
        show_usd_on_charts: v18.show_usd_on_charts,
        new_markets_max_scale: v18.new_markets_max_scale,
        vert_vol_ind_pos: v18.vert_vol_ind_pos,
        book_cumulative_opacity: v18.book_cumulative_opacity,
        book_orders_opacity: v18.book_orders_opacity,
        book_orders_width: v18.book_orders_width,
        blink_config: v19,
        charts_auto_shift: v20.charts_auto_shift,
        show_iceberg: v20.show_iceberg,
        hide_pnl: v20.hide_pnl,
        draw_cur_price: v20.draw_cur_price,
        auto_request_charts: v20.auto_request_charts,
        vo_sort_kind: v20.vo_sort_kind,
        vo_older_first: v20.vo_older_first,
        vo_sort_by_market: v20.vo_sort_by_market,
        hide_buy_button: v20.hide_buy_button,
        show_strat_numbers: v20.show_strat_numbers,
        show_filters: v21,
        hide_cashback_button: v22.hide_cashback_button,
        hide_ny_elka: v22.hide_ny_elka,
        charts_settings: v24,
        spy_hide_mode: v25.spy_hide_mode,
        heatmap_config: v26,
        icon_selection: v27.icon_selection,
        remember_chart_buttons: v27.remember_chart_buttons,
        show_detects_tool: v27.show_detects_tool,
        scale_plus_index: v27.scale_plus_index,
        scale_minus_index: v27.scale_minus_index,
        news_form_config: v28,
        font_sizes: v29.font_sizes,
        chart_candles_style: v30,
        chart_candles_tick_opacity: v31,
        chart_candles_neutral_ticks: v32,
        chart_candles_outline_width: v33,
        chart_candles_tick_wicks: v34,
        candle_colors: [CandleColorSet { green: v35, red: v36, neutral: v37 }, CandleColorSet { green: v38, red: v39, neutral: v40 }],
        use_ai_coin_card: v41,
        ai_card_provider: v42,
        ai_card_model: v43,
        ai_card_prompt: v44,
        manual_charts_full_screen: v45,
        unknown_tail,
    };
    proof {
        assert(visual_got1(d, x, be as int, s)) by {
            reveal(visual_got1);
        }
        assert(visual_got2(d, x, be as int, s)) by {
            reveal(visual_got2);
        }
        assert(visual_got3(d, x, be as int, s)) by {
            reveal(visual_got3);
        }
        assert(visual_got4(d, x, be as int, s)) by {
            reveal(visual_got4);
        }
        assert(visual_got5(d, x, be as int, s)) by {
            reveal(visual_got5);
        }
        assert(visual_got6(d, x, be as int, s)) by {
            reveal(visual_got6);
        }
        assert(visual_got7(d, x, be as int, s)) by {
            reveal(visual_got7);
        }
        assert(visual_got8(d, x, be as int, s)) by {
            reveal(visual_got8);
        }
    }
    Ok(s)
}

/// Bytes of a visual block body: version `2`, the field groups and the kept tail.
pub open spec fn visual_bytes(s: VisualSection) -> Seq<u8> {
    seq![2u8] + visual_bytes1(s) + visual_bytes2(s) + visual_bytes3(s) + visual_bytes4(s) + visual_bytes5(s) + visual_bytes6(s) + visual_bytes7(s) + visual_bytes8(s) + s.unknown_tail@
}

/// Whether a visual section can be written: every string within its limit.
pub open spec fn visual_fits(s: VisualSection) -> bool {
    visual_fits1(s) && visual_fits2(s) && visual_fits3(s) && visual_fits4(s) && visual_fits5(s) && visual_fits6(s) && visual_fits7(s) && visual_fits8(s)
}

/// Write a visual block body.
pub fn write_visual(w: &mut ConfigWriter, s: &VisualSection)
    requires
        old(w).wf(),
    ensures
        final(w).wf(),
        final(w).wrote_all(old(w), visual_fits(*s), visual_bytes(*s)),
{
    let ghost w0 = *w;
    w.write_u8(2);
    proof { lemma_wrote_all_of_wrote(w0, *w, seq![2u8]); }
    let ghost wb = *w;
    write_visual_part1(w, s);
    proof { lemma_wrote_all_then(w0, wb, *w, true, seq![2u8], visual_fits1(*s), visual_bytes1(*s)); }
    let ghost wb = *w;
    write_visual_part2(w, s);
    proof { lemma_wrote_all_then(w0, wb, *w, visual_fits1(*s), seq![2u8] + visual_bytes1(*s), visual_fits2(*s), visual_bytes2(*s)); }
    let ghost wb = *w;
    write_visual_part3(w, s);
    proof { lemma_wrote_all_then(w0, wb, *w, visual_fits1(*s) && visual_fits2(*s), seq![2u8] + visual_bytes1(*s) + visual_bytes2(*s), visual_fits3(*s), visual_bytes3(*s)); }
    let ghost wb = *w;
    write_visual_part4(w, s);
    proof { lemma_wrote_all_then(w0, wb, *w, visual_fits1(*s) && visual_fits2(*s) && visual_fits3(*s), seq![2u8] + visual_bytes1(*s) + visual_bytes2(*s) + visual_bytes3(*s), visual_fits4(*s), visual_bytes4(*s)); }
    let ghost wb = *w;
    write_visual_part5(w, s);
    proof { lemma_wrote_all_then(w0, wb, *w, visual_fits1(*s) && visual_fits2(*s) && visual_fits3(*s) && visual_fits4(*s), seq![2u8] + visual_bytes1(*s) + visual_bytes2(*s) + visual_bytes3(*s) + visual_bytes4(*s), visual_fits5(*s), visual_bytes5(*s)); }
    let ghost wb = *w;
    write_visual_part6(w, s);
    proof { lemma_wrote_all_then(w0, wb, *w, visual_fits1(*s) && visual_fits2(*s) && visual_fits3(*s) && visual_fits4(*s) && visual_fits5(*s), seq![2u8] + visual_bytes1(*s) + visual_bytes2(*s) + visual_bytes3(*s) + visual_bytes4(*s) + visual_bytes5(*s), visual_fits6(*s), visual_bytes6(*s)); }
    let ghost wb = *w;
    write_visual_part7(w, s);
    proof { lemma_wrote_all_then(w0, wb, *w, visual_fits1(*s) && visual_fits2(*s) && visual_fits3(*s) && visual_fits4(*s) && visual_fits5(*s) && visual_fits6(*s), seq![2u8] + visual_bytes1(*s) + visual_bytes2(*s) + visual_bytes3(*s) + visual_bytes4(*s) + visual_bytes5(*s) + visual_bytes6(*s), visual_fits7(*s), visual_bytes7(*s)); }
    let ghost wb = *w;
    write_visual_part8(w, s);
    proof { lemma_wrote_all_then(w0, wb, *w, visual_fits1(*s) && visual_fits2(*s) && visual_fits3(*s) && visual_fits4(*s) && visual_fits5(*s) && visual_fits6(*s) && visual_fits7(*s), seq![2u8] + visual_bytes1(*s) + visual_bytes2(*s) + visual_bytes3(*s) + visual_bytes4(*s) + visual_bytes5(*s) + visual_bytes6(*s) + visual_bytes7(*s), visual_fits8(*s), visual_bytes8(*s)); }
    let ghost wb = *w;
    w.write_bytes(s.unknown_tail.as_slice());
    proof {
        lemma_wrote_all_of_wrote(wb, *w, s.unknown_tail@);
        lemma_wrote_all_then(w0, wb, *w, visual_fits1(*s) && visual_fits2(*s) && visual_fits3(*s) && visual_fits4(*s) && visual_fits5(*s) && visual_fits6(*s) && visual_fits7(*s) && visual_fits8(*s), seq![2u8] + visual_bytes1(*s) + visual_bytes2(*s) + visual_bytes3(*s) + visual_bytes4(*s) + visual_bytes5(*s) + visual_bytes6(*s) + visual_bytes7(*s) + visual_bytes8(*s), true, s.unknown_tail@);
    }
}

/// Reading back a written visual block gives the same section, when every
/// string fits its limit.
#[verifier::spinoff_prover]
#[verifier::rlimit(50)]
pub proof fn lemma_visual_roundtrip(s: VisualSection)
    requires
        visual_fits(s),
    ensures
        visual_ok(visual_bytes(s), 0, visual_bytes(s).len() as int),
        visual_decoded(visual_bytes(s), 0, visual_bytes(s).len() as int, s),
{
    let d = visual_bytes(s);
    let be = d.len() as int;
    let q0 = seq![2u8];
    let q1 = q0 + visual_bytes1(s);
    let q2 = q1 + visual_bytes2(s);
    let q3 = q2 + visual_bytes3(s);
    let q4 = q3 + visual_bytes4(s);
    let q5 = q4 + visual_bytes5(s);
    let q6 = q5 + visual_bytes6(s);
    let q7 = q6 + visual_bytes7(s);
    let q8 = q7 + visual_bytes8(s);
    assert(d == q8 + s.unknown_tail@);
    assert(d.subrange(0, d.len() as int) =~= d);
    lemma_parts_at(d, 0, q8, s.unknown_tail@);
    lemma_parts_at(d, 0, q7, visual_bytes8(s));
    lemma_parts_at(d, 0, q6, visual_bytes7(s));
    lemma_parts_at(d, 0, q5, visual_bytes6(s));
    lemma_parts_at(d, 0, q4, visual_bytes5(s));
    lemma_parts_at(d, 0, q3, visual_bytes4(s));
    lemma_parts_at(d, 0, q2, visual_bytes3(s));
    lemma_parts_at(d, 0, q1, visual_bytes2(s));
    lemma_parts_at(d, 0, q0, visual_bytes1(s));
    assert(d[0] == q0[0]);
    lemma_visual_part1(s, d, 0, be);
    lemma_visual_part2(s, d, 0, be);
    lemma_visual_part3(s, d, 0, be);
    lemma_visual_part4(s, d, 0, be);
    lemma_visual_part5(s, d, 0, be);
    lemma_visual_part6(s, d, 0, be);
    lemma_visual_part7(s, d, 0, be);
    lemma_visual_part8(s, d, 0, be);
    let q = q8.len() as int;
    if q >= d.len() {
        assert(s.unknown_tail@ =~= Seq::<u8>::empty());
    } else {
        assert(d.subrange(q, d.len() as int) == s.unknown_tail@);
    }
}

} // verus!
