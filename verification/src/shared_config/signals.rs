//! The signals section: signal sources, message parsing and alert sounds.

use crate::le::{le_u16, le_u32, lemma_le_u16_roundtrip, lemma_le_u32_roundtrip};
use crate::shared_config::codec_lemmas::{
    lemma_flag_at, lemma_le_i32_roundtrip, lemma_seq_split, lemma_string_list_x_at,
    lemma_string_x_at, lemma_subrange_of_prefix,
};
use crate::shared_config::error::SharedConfigError;
use crate::shared_config::ini::tail_of;
use crate::shared_config::reader::{
    eof_msg, i32_at, string_list_x_at, string_x_at, texts, u16_at, u32_at, ConfigReader,
};
use crate::shared_config::records::{
    lemma_signal_config_at, read_signal_config, signal_config_at,
    signal_config_bytes, write_signal_config, SignalConfig, SIGNAL_CONFIG_LEN,
};
use crate::shared_config::writer::{
    bool_byte, flag_of, lemma_bool_byte, lemma_wrote_all_of_wrote, lemma_wrote_all_then,
    string_fits, string_list_fits, string_list_x_bytes, string_x_bytes, texts_of, ConfigWriter,
};
use vstd::prelude::*;

verus! {

broadcast use crate::le::group_le_len;

/// Signal parsing configuration for Telegram channels, clipboard monitoring, and autodetection-driven autobuy.
#[derive(Clone, Debug)]
pub struct SignalsSection {
    /// Primary Telegram channel name for signal monitoring.
    pub pump_channel: String,
    /// Additional Telegram channels (multi-channel mode).
    pub pump_channels: Vec<String>,
    /// Master toggle: enable signal monitoring pipeline.
    pub do_monitoring: bool,
    /// Parse full hyperlinks in Telegram messages for token names.
    pub look_full_link_tlg: bool,
    /// Allow signals from multiple channels simultaneously.
    pub multi_channels: bool,
    /// Auto-buy when a Telegram signal matches.
    pub telegram_auto_buy: bool,
    /// Load and analyze historical candles for all markets on startup
    /// (Properties: "Analize coins on startup").
    pub load_deep_history: bool,
    /// Internal MoonBot setting, no user-facing control. Keep the value
    /// received from the kernel.
    pub only_secret_signal: bool,
    /// Require the token to appear in more than one channel before buying.
    pub more_then_1_channel: bool,
    /// Auto-buy when a token name is detected on the clipboard.
    pub clipboard_auto_buy: bool,
    /// Auto-buy on autodetect-engine signals (pump/volume/delta detects).
    pub autodetect_auto_buy: bool,
    /// Sound preset index for incoming signal notifications (1-based).
    pub signal_sound: i32,
    /// Play an alert sound on network problems (disconnects / high latency),
    /// throttled to once per 5 s. Despite the historical name this is a
    /// connectivity alert, not a signal sound.
    pub play_signal_sound: bool,
    /// Convert detected tokens to lowercase before matching (Telegram source).
    pub lower_case_token_tlg: bool,
    /// Show crosshair cursor on the chart.
    pub show_cross: bool,
    /// Enable clipboard monitoring for token names.
    pub monitor_clipboard: bool,
    /// Convert detected tokens to lowercase (clipboard source).
    pub lower_case_token_cbd: bool,
    /// Parse full hyperlinks in clipboard text for token names.
    pub look_full_link_cbd: bool,
    /// Keywords that indicate a BUY/LONG signal in message text.
    pub msg_keywords_long: String,
    /// Keywords that indicate a SHORT signal in message text.
    pub msg_keywords_short: String,
    /// Tag prefixes used to find token tickers in messages (e.g. "#,$").
    pub msg_token_tags: String,
    /// Words whose presence cancels a signal (e.g. "called,dont").
    pub msg_black_words: String,
    /// Signal parser sub-config (telegram message analysis rules).
    pub signal_config: SignalConfig,
    /// Use advanced per-strategy signal filtering rules.
    pub advanced_filter: bool,
    /// Automatically show/switch to the chart on new signal.
    pub auto_show_on_signal: bool,
    /// Use advanced filtering also for clipboard-source signals.
    pub advanced_filter_clipboard: bool,
    /// Volume indicator type index for the base detection.
    pub base_vol_ind_type: i32,
    /// Legacy, no consumers in current MoonBot code (a config migration
    /// resets it to 0). Kept for wire compatibility only.
    pub max_too_long_msg_len: i32,
    /// Sound preset for the second alert tier.
    pub signal_sound_2: i32,
    /// Play the sell alert when the price is within this percentage of the
    /// sell-order price.
    pub sell_alert_level: i32,
    /// Play a sound when a sell condition triggers.
    pub play_sell_alert: bool,
    /// Last manually chosen order type (1-based UI combo index).
    pub last_used_order_type: i32,
    /// Suppress new chart windows from signals while working in full-screen
    /// chart mode or when the cursor is in the orderbook area.
    pub full_screen_prevent_signals: bool,
    /// Listen to the built-in MoonBot signal channel.
    pub listen_moon_channel: bool,
    /// Phrases that indicate the price might drop further — suppress buy
    /// (comma-separated, e.g. "wait dip,for dip").
    pub lower_price_words: String,
    /// Ignore signals that are replies to other messages.
    pub dont_buy_reply: bool,
    /// Minimum 24 h base volume (in BTC equivalent) for a token to qualify.
    pub base_vol_n: i32,
    /// Use the last detection's caption as the chart title.
    pub use_last_detect_caption: bool,
    /// Sound preset for buy-signal alert.
    pub buy_signal_sound: i32,
    /// Play a sound on buy alert.
    pub play_buy_alert: bool,
    /// Play the buy alert when the price is within this percentage of the
    /// buy-order price.
    pub buy_alert_level: i32,
    /// Comma-separated strategy name filter (only react to these strats).
    pub strats_filter: String,
    /// Comma-separated news-tag filter.
    pub news_tags_filter: String,
    /// Comma-separated news-token filter.
    pub news_tokens_filter: String,
    /// Opaque bytes from a newer MoonBot version (preserved for roundtrip).
    pub unknown_tail: Vec<u8>,
}

/// Flags of the signals block from `do_monitoring` to `look_full_link_cbd`, in wire order.
#[derive(Clone, Copy, Debug)]
pub struct SignalSourceFlags {
    /// Master toggle: enable signal monitoring pipeline.
    pub do_monitoring: bool,
    /// Parse full hyperlinks in Telegram messages for token names.
    pub look_full_link_tlg: bool,
    /// Allow signals from multiple channels simultaneously.
    pub multi_channels: bool,
    /// Auto-buy when a Telegram signal matches.
    pub telegram_auto_buy: bool,
    /// Load and analyze historical candles for all markets on startup
    /// (Properties: "Analize coins on startup").
    pub load_deep_history: bool,
    /// Internal MoonBot setting, no user-facing control. Keep the value
    /// received from the kernel.
    pub only_secret_signal: bool,
    /// Require the token to appear in more than one channel before buying.
    pub more_then_1_channel: bool,
    /// Auto-buy when a token name is detected on the clipboard.
    pub clipboard_auto_buy: bool,
    /// Auto-buy on autodetect-engine signals (pump/volume/delta detects).
    pub autodetect_auto_buy: bool,
    /// Sound preset index for incoming signal notifications (1-based).
    pub signal_sound: i32,
    /// Play an alert sound on network problems (disconnects / high latency),
    /// throttled to once per 5 s. Despite the historical name this is a
    /// connectivity alert, not a signal sound.
    pub play_signal_sound: bool,
    /// Convert detected tokens to lowercase before matching (Telegram source).
    pub lower_case_token_tlg: bool,
    /// Show crosshair cursor on the chart.
    pub show_cross: bool,
    /// Enable clipboard monitoring for token names.
    pub monitor_clipboard: bool,
    /// Convert detected tokens to lowercase (clipboard source).
    pub lower_case_token_cbd: bool,
    /// Parse full hyperlinks in clipboard text for token names.
    pub look_full_link_cbd: bool,
}

/// Wire size of [`SignalSourceFlags`].
pub const SIGNAL_SOURCE_FLAGS_LEN: usize = 19;

/// Wire bytes of fields `do_monitoring` to `only_secret_signal` of a [`SignalSourceFlags`].
pub open spec fn signal_source_flags_part1_bytes(c: SignalSourceFlags) -> Seq<u8> {
    seq![bool_byte(c.do_monitoring)]
        + seq![bool_byte(c.look_full_link_tlg)]
        + seq![bool_byte(c.multi_channels)]
        + seq![bool_byte(c.telegram_auto_buy)]
        + seq![bool_byte(c.load_deep_history)]
        + seq![bool_byte(c.only_secret_signal)]
}

/// Whether fields `do_monitoring` to `only_secret_signal` of `c` are stored at `p`.
pub open spec fn signal_source_flags_part1_at(d: Seq<u8>, p: int, c: SignalSourceFlags) -> bool {
    &&& c.do_monitoring == flag_of(d[p])
    &&& c.look_full_link_tlg == flag_of(d[p + 1])
    &&& c.multi_channels == flag_of(d[p + 2])
    &&& c.telegram_auto_buy == flag_of(d[p + 3])
    &&& c.load_deep_history == flag_of(d[p + 4])
    &&& c.only_secret_signal == flag_of(d[p + 5])
}

/// Wire bytes of fields `more_then_1_channel` to `lower_case_token_tlg` of a [`SignalSourceFlags`].
pub open spec fn signal_source_flags_part2_bytes(c: SignalSourceFlags) -> Seq<u8> {
    seq![bool_byte(c.more_then_1_channel)]
        + seq![bool_byte(c.clipboard_auto_buy)]
        + seq![bool_byte(c.autodetect_auto_buy)]
        + le_u32(c.signal_sound as u32)
        + seq![bool_byte(c.play_signal_sound)]
        + seq![bool_byte(c.lower_case_token_tlg)]
}

/// Whether fields `more_then_1_channel` to `lower_case_token_tlg` of `c` are stored at `p`.
pub open spec fn signal_source_flags_part2_at(d: Seq<u8>, p: int, c: SignalSourceFlags) -> bool {
    &&& c.more_then_1_channel == flag_of(d[p])
    &&& c.clipboard_auto_buy == flag_of(d[p + 1])
    &&& c.autodetect_auto_buy == flag_of(d[p + 2])
    &&& c.signal_sound == i32_at(d, p + 3)
    &&& c.play_signal_sound == flag_of(d[p + 7])
    &&& c.lower_case_token_tlg == flag_of(d[p + 8])
}

/// Wire bytes of fields `show_cross` to `look_full_link_cbd` of a [`SignalSourceFlags`].
pub open spec fn signal_source_flags_part3_bytes(c: SignalSourceFlags) -> Seq<u8> {
    seq![bool_byte(c.show_cross)]
        + seq![bool_byte(c.monitor_clipboard)]
        + seq![bool_byte(c.lower_case_token_cbd)]
        + seq![bool_byte(c.look_full_link_cbd)]
}

/// Whether fields `show_cross` to `look_full_link_cbd` of `c` are stored at `p`.
pub open spec fn signal_source_flags_part3_at(d: Seq<u8>, p: int, c: SignalSourceFlags) -> bool {
    &&& c.show_cross == flag_of(d[p])
    &&& c.monitor_clipboard == flag_of(d[p + 1])
    &&& c.lower_case_token_cbd == flag_of(d[p + 2])
    &&& c.look_full_link_cbd == flag_of(d[p + 3])
}

/// Wire bytes of a [`SignalSourceFlags`], field after field.
pub open spec fn signal_source_flags_bytes(c: SignalSourceFlags) -> Seq<u8> {
    signal_source_flags_part1_bytes(c)
        + signal_source_flags_part2_bytes(c)
        + signal_source_flags_part3_bytes(c)
}

/// Whether `c` is the [`SignalSourceFlags`] stored at `p`.
pub open spec fn signal_source_flags_at(d: Seq<u8>, p: int, c: SignalSourceFlags) -> bool {
    &&& signal_source_flags_part1_at(d, p, c)
    &&& signal_source_flags_part2_at(d, p + 6, c)
    &&& signal_source_flags_part3_at(d, p + 15, c)
}

/// Read a [`SignalSourceFlags`].
pub fn read_signal_source_flags(r: &mut ConfigReader) -> (res: Result<SignalSourceFlags, SharedConfigError>)
    ensures
        final(r).bytes() == old(r).bytes(),
        old(r).at() + SIGNAL_SOURCE_FLAGS_LEN <= old(r).bytes().len() ==> (res matches Ok(c) && signal_source_flags_at(
            old(r).bytes(),
            old(r).at(),
            c,
        ) && final(r).at() == old(r).at() + SIGNAL_SOURCE_FLAGS_LEN),
        old(r).at() + SIGNAL_SOURCE_FLAGS_LEN > old(r).bytes().len() ==> (res matches Err(e) && e@ == eof_msg()),
{
    Ok(SignalSourceFlags {
        do_monitoring: r.read_bool()?,
        look_full_link_tlg: r.read_bool()?,
        multi_channels: r.read_bool()?,
        telegram_auto_buy: r.read_bool()?,
        load_deep_history: r.read_bool()?,
        only_secret_signal: r.read_bool()?,
        more_then_1_channel: r.read_bool()?,
        clipboard_auto_buy: r.read_bool()?,
        autodetect_auto_buy: r.read_bool()?,
        signal_sound: r.read_i32()?,
        play_signal_sound: r.read_bool()?,
        lower_case_token_tlg: r.read_bool()?,
        show_cross: r.read_bool()?,
        monitor_clipboard: r.read_bool()?,
        lower_case_token_cbd: r.read_bool()?,
        look_full_link_cbd: r.read_bool()?,
    })
}

/// Write fields `do_monitoring` to `only_secret_signal` of a [`SignalSourceFlags`].
fn write_signal_source_flags_part1(w: &mut ConfigWriter, c: &SignalSourceFlags)
    requires
        old(w).wf(),
    ensures
        final(w).wf(),
        final(w).wrote_all(old(w), true, signal_source_flags_part1_bytes(*c)),
{
    let ghost w0 = *w;
    let ghost wb = *w;
    w.write_bool(c.do_monitoring);
    proof { lemma_wrote_all_of_wrote(wb, *w, seq![bool_byte(c.do_monitoring)]); }
    let ghost wb = *w;
    w.write_bool(c.look_full_link_tlg);
    proof {
        lemma_wrote_all_of_wrote(wb, *w, seq![bool_byte(c.look_full_link_tlg)]);
        lemma_wrote_all_then(w0, wb, *w, true, seq![bool_byte(c.do_monitoring)], true, seq![bool_byte(c.look_full_link_tlg)]);
    }
    let ghost wb = *w;
    w.write_bool(c.multi_channels);
    proof {
        lemma_wrote_all_of_wrote(wb, *w, seq![bool_byte(c.multi_channels)]);
        lemma_wrote_all_then(w0, wb, *w, true, seq![bool_byte(c.do_monitoring)] + seq![bool_byte(c.look_full_link_tlg)], true, seq![bool_byte(c.multi_channels)]);
    }
    let ghost wb = *w;
    w.write_bool(c.telegram_auto_buy);
    proof {
        lemma_wrote_all_of_wrote(wb, *w, seq![bool_byte(c.telegram_auto_buy)]);
        lemma_wrote_all_then(w0, wb, *w, true, seq![bool_byte(c.do_monitoring)] + seq![bool_byte(c.look_full_link_tlg)] + seq![bool_byte(c.multi_channels)], true, seq![bool_byte(c.telegram_auto_buy)]);
    }
    let ghost wb = *w;
    w.write_bool(c.load_deep_history);
    proof {
        lemma_wrote_all_of_wrote(wb, *w, seq![bool_byte(c.load_deep_history)]);
        lemma_wrote_all_then(w0, wb, *w, true, seq![bool_byte(c.do_monitoring)] + seq![bool_byte(c.look_full_link_tlg)] + seq![bool_byte(c.multi_channels)] + seq![bool_byte(c.telegram_auto_buy)], true, seq![bool_byte(c.load_deep_history)]);
    }
    let ghost wb = *w;
    w.write_bool(c.only_secret_signal);
    proof {
        lemma_wrote_all_of_wrote(wb, *w, seq![bool_byte(c.only_secret_signal)]);
        lemma_wrote_all_then(w0, wb, *w, true, seq![bool_byte(c.do_monitoring)] + seq![bool_byte(c.look_full_link_tlg)] + seq![bool_byte(c.multi_channels)] + seq![bool_byte(c.telegram_auto_buy)] + seq![bool_byte(c.load_deep_history)], true, seq![bool_byte(c.only_secret_signal)]);
    }
}

/// Write fields `more_then_1_channel` to `lower_case_token_tlg` of a [`SignalSourceFlags`].
fn write_signal_source_flags_part2(w: &mut ConfigWriter, c: &SignalSourceFlags)
    requires
        old(w).wf(),
    ensures
        final(w).wf(),
        final(w).wrote_all(old(w), true, signal_source_flags_part2_bytes(*c)),
{
    let ghost w0 = *w;
    let ghost wb = *w;
    w.write_bool(c.more_then_1_channel);
    proof { lemma_wrote_all_of_wrote(wb, *w, seq![bool_byte(c.more_then_1_channel)]); }
    let ghost wb = *w;
    w.write_bool(c.clipboard_auto_buy);
    proof {
        lemma_wrote_all_of_wrote(wb, *w, seq![bool_byte(c.clipboard_auto_buy)]);
        lemma_wrote_all_then(w0, wb, *w, true, seq![bool_byte(c.more_then_1_channel)], true, seq![bool_byte(c.clipboard_auto_buy)]);
    }
    let ghost wb = *w;
    w.write_bool(c.autodetect_auto_buy);
    proof {
        lemma_wrote_all_of_wrote(wb, *w, seq![bool_byte(c.autodetect_auto_buy)]);
        lemma_wrote_all_then(w0, wb, *w, true, seq![bool_byte(c.more_then_1_channel)] + seq![bool_byte(c.clipboard_auto_buy)], true, seq![bool_byte(c.autodetect_auto_buy)]);
    }
    let ghost wb = *w;
    w.write_i32(c.signal_sound);
    proof {
        lemma_wrote_all_of_wrote(wb, *w, le_u32(c.signal_sound as u32));
        lemma_wrote_all_then(w0, wb, *w, true, seq![bool_byte(c.more_then_1_channel)] + seq![bool_byte(c.clipboard_auto_buy)] + seq![bool_byte(c.autodetect_auto_buy)], true, le_u32(c.signal_sound as u32));
    }
    let ghost wb = *w;
    w.write_bool(c.play_signal_sound);
    proof {
        lemma_wrote_all_of_wrote(wb, *w, seq![bool_byte(c.play_signal_sound)]);
        lemma_wrote_all_then(w0, wb, *w, true, seq![bool_byte(c.more_then_1_channel)] + seq![bool_byte(c.clipboard_auto_buy)] + seq![bool_byte(c.autodetect_auto_buy)] + le_u32(c.signal_sound as u32), true, seq![bool_byte(c.play_signal_sound)]);
    }
    let ghost wb = *w;
    w.write_bool(c.lower_case_token_tlg);
    proof {
        lemma_wrote_all_of_wrote(wb, *w, seq![bool_byte(c.lower_case_token_tlg)]);
        lemma_wrote_all_then(w0, wb, *w, true, seq![bool_byte(c.more_then_1_channel)] + seq![bool_byte(c.clipboard_auto_buy)] + seq![bool_byte(c.autodetect_auto_buy)] + le_u32(c.signal_sound as u32) + seq![bool_byte(c.play_signal_sound)], true, seq![bool_byte(c.lower_case_token_tlg)]);
    }
}

/// Write fields `show_cross` to `look_full_link_cbd` of a [`SignalSourceFlags`].
fn write_signal_source_flags_part3(w: &mut ConfigWriter, c: &SignalSourceFlags)
    requires
        old(w).wf(),
    ensures
        final(w).wf(),
        final(w).wrote_all(old(w), true, signal_source_flags_part3_bytes(*c)),
{
    let ghost w0 = *w;
    let ghost wb = *w;
    w.write_bool(c.show_cross);
    proof { lemma_wrote_all_of_wrote(wb, *w, seq![bool_byte(c.show_cross)]); }
    let ghost wb = *w;
    w.write_bool(c.monitor_clipboard);
    proof {
        lemma_wrote_all_of_wrote(wb, *w, seq![bool_byte(c.monitor_clipboard)]);
        lemma_wrote_all_then(w0, wb, *w, true, seq![bool_byte(c.show_cross)], true, seq![bool_byte(c.monitor_clipboard)]);
    }
    let ghost wb = *w;
    w.write_bool(c.lower_case_token_cbd);
    proof {
        lemma_wrote_all_of_wrote(wb, *w, seq![bool_byte(c.lower_case_token_cbd)]);
        lemma_wrote_all_then(w0, wb, *w, true, seq![bool_byte(c.show_cross)] + seq![bool_byte(c.monitor_clipboard)], true, seq![bool_byte(c.lower_case_token_cbd)]);
    }
    let ghost wb = *w;
    w.write_bool(c.look_full_link_cbd);
    proof {
        lemma_wrote_all_of_wrote(wb, *w, seq![bool_byte(c.look_full_link_cbd)]);
        lemma_wrote_all_then(w0, wb, *w, true, seq![bool_byte(c.show_cross)] + seq![bool_byte(c.monitor_clipboard)] + seq![bool_byte(c.lower_case_token_cbd)], true, seq![bool_byte(c.look_full_link_cbd)]);
    }
}

/// Write a [`SignalSourceFlags`].
pub fn write_signal_source_flags(w: &mut ConfigWriter, c: &SignalSourceFlags)
    requires
        old(w).wf(),
    ensures
        final(w).wf(),
        final(w).wrote_all(old(w), true, signal_source_flags_bytes(*c)),
{
    let ghost w0 = *w;
    let ghost wb = *w;
    write_signal_source_flags_part1(w, c);
    let ghost wb = *w;
    write_signal_source_flags_part2(w, c);
    proof { lemma_wrote_all_then(w0, wb, *w, true, signal_source_flags_part1_bytes(*c), true, signal_source_flags_part2_bytes(*c)); }
    let ghost wb = *w;
    write_signal_source_flags_part3(w, c);
    proof { lemma_wrote_all_then(w0, wb, *w, true, signal_source_flags_part1_bytes(*c) + signal_source_flags_part2_bytes(*c), true, signal_source_flags_part3_bytes(*c)); }
}

/// Fields `do_monitoring` to `only_secret_signal` read back from their bytes.
pub proof fn lemma_signal_source_flags_part1_at(c: SignalSourceFlags, d: Seq<u8>, o: int)
    requires
        0 <= o,
        o + 6 <= d.len(),
        d.subrange(o, o + 6) == signal_source_flags_part1_bytes(c),
    ensures
        signal_source_flags_part1_bytes(c).len() == 6,
        signal_source_flags_part1_at(d, o, c),
{
    let b0 = seq![bool_byte(c.do_monitoring)];
    let b1 = b0 + seq![bool_byte(c.look_full_link_tlg)];
    let b2 = b1 + seq![bool_byte(c.multi_channels)];
    let b3 = b2 + seq![bool_byte(c.telegram_auto_buy)];
    let b4 = b3 + seq![bool_byte(c.load_deep_history)];
    let b5 = b4 + seq![bool_byte(c.only_secret_signal)];
    let e = d.subrange(o, o + 6);
    assert(e == b5);
    lemma_seq_split(b4, seq![bool_byte(c.only_secret_signal)]);
    lemma_subrange_of_prefix(e, 6, 0, 5);
    lemma_subrange_of_prefix(e, 6, 5, 6);
    lemma_seq_split(b3, seq![bool_byte(c.load_deep_history)]);
    lemma_subrange_of_prefix(e, 5, 0, 4);
    lemma_subrange_of_prefix(e, 5, 4, 5);
    lemma_seq_split(b2, seq![bool_byte(c.telegram_auto_buy)]);
    lemma_subrange_of_prefix(e, 4, 0, 3);
    lemma_subrange_of_prefix(e, 4, 3, 4);
    lemma_seq_split(b1, seq![bool_byte(c.multi_channels)]);
    lemma_subrange_of_prefix(e, 3, 0, 2);
    lemma_subrange_of_prefix(e, 3, 2, 3);
    lemma_seq_split(b0, seq![bool_byte(c.look_full_link_tlg)]);
    lemma_subrange_of_prefix(e, 2, 0, 1);
    lemma_subrange_of_prefix(e, 2, 1, 2);
    assert(e.subrange(0, 1) == seq![bool_byte(c.do_monitoring)]);
    assert(d[o + 0] == e.subrange(0, 1)[0]);
    lemma_bool_byte(c.do_monitoring);
    assert(e.subrange(1, 2) == seq![bool_byte(c.look_full_link_tlg)]);
    assert(d[o + 1] == e.subrange(1, 2)[0]);
    lemma_bool_byte(c.look_full_link_tlg);
    assert(e.subrange(2, 3) == seq![bool_byte(c.multi_channels)]);
    assert(d[o + 2] == e.subrange(2, 3)[0]);
    lemma_bool_byte(c.multi_channels);
    assert(e.subrange(3, 4) == seq![bool_byte(c.telegram_auto_buy)]);
    assert(d[o + 3] == e.subrange(3, 4)[0]);
    lemma_bool_byte(c.telegram_auto_buy);
    assert(e.subrange(4, 5) == seq![bool_byte(c.load_deep_history)]);
    assert(d[o + 4] == e.subrange(4, 5)[0]);
    lemma_bool_byte(c.load_deep_history);
    assert(e.subrange(5, 6) == seq![bool_byte(c.only_secret_signal)]);
    assert(d[o + 5] == e.subrange(5, 6)[0]);
    lemma_bool_byte(c.only_secret_signal);
}

/// Fields `more_then_1_channel` to `lower_case_token_tlg` read back from their bytes.
pub proof fn lemma_signal_source_flags_part2_at(c: SignalSourceFlags, d: Seq<u8>, o: int)
    requires
        0 <= o,
        o + 9 <= d.len(),
        d.subrange(o, o + 9) == signal_source_flags_part2_bytes(c),
    ensures
        signal_source_flags_part2_bytes(c).len() == 9,
        signal_source_flags_part2_at(d, o, c),
{
    let b0 = seq![bool_byte(c.more_then_1_channel)];
    let b1 = b0 + seq![bool_byte(c.clipboard_auto_buy)];
    let b2 = b1 + seq![bool_byte(c.autodetect_auto_buy)];
    let b3 = b2 + le_u32(c.signal_sound as u32);
    let b4 = b3 + seq![bool_byte(c.play_signal_sound)];
    let b5 = b4 + seq![bool_byte(c.lower_case_token_tlg)];
    let e = d.subrange(o, o + 9);
    assert(e == b5);
    lemma_seq_split(b4, seq![bool_byte(c.lower_case_token_tlg)]);
    lemma_subrange_of_prefix(e, 9, 0, 8);
    lemma_subrange_of_prefix(e, 9, 8, 9);
    lemma_seq_split(b3, seq![bool_byte(c.play_signal_sound)]);
    lemma_subrange_of_prefix(e, 8, 0, 7);
    lemma_subrange_of_prefix(e, 8, 7, 8);
    lemma_seq_split(b2, le_u32(c.signal_sound as u32));
    lemma_subrange_of_prefix(e, 7, 0, 3);
    lemma_subrange_of_prefix(e, 7, 3, 7);
    lemma_seq_split(b1, seq![bool_byte(c.autodetect_auto_buy)]);
    lemma_subrange_of_prefix(e, 3, 0, 2);
    lemma_subrange_of_prefix(e, 3, 2, 3);
    lemma_seq_split(b0, seq![bool_byte(c.clipboard_auto_buy)]);
    lemma_subrange_of_prefix(e, 2, 0, 1);
    lemma_subrange_of_prefix(e, 2, 1, 2);
    assert(e.subrange(0, 1) == seq![bool_byte(c.more_then_1_channel)]);
    assert(d[o + 0] == e.subrange(0, 1)[0]);
    lemma_bool_byte(c.more_then_1_channel);
    assert(e.subrange(1, 2) == seq![bool_byte(c.clipboard_auto_buy)]);
    assert(d[o + 1] == e.subrange(1, 2)[0]);
    lemma_bool_byte(c.clipboard_auto_buy);
    assert(e.subrange(2, 3) == seq![bool_byte(c.autodetect_auto_buy)]);
    assert(d[o + 2] == e.subrange(2, 3)[0]);
    lemma_bool_byte(c.autodetect_auto_buy);
    assert(e.subrange(3, 7) == le_u32(c.signal_sound as u32));
    lemma_le_i32_roundtrip(c.signal_sound);
    assert(d[o + 3] == e.subrange(3, 7)[0] && d[o + 4] == e.subrange(3, 7)[1] && d[o + 5] == e.subrange(3, 7)[2] && d[o + 6] == e.subrange(3, 7)[3]);
    assert(e.subrange(7, 8) == seq![bool_byte(c.play_signal_sound)]);
    assert(d[o + 7] == e.subrange(7, 8)[0]);
    lemma_bool_byte(c.play_signal_sound);
    assert(e.subrange(8, 9) == seq![bool_byte(c.lower_case_token_tlg)]);
    assert(d[o + 8] == e.subrange(8, 9)[0]);
    lemma_bool_byte(c.lower_case_token_tlg);
}

/// Fields `show_cross` to `look_full_link_cbd` read back from their bytes.
pub proof fn lemma_signal_source_flags_part3_at(c: SignalSourceFlags, d: Seq<u8>, o: int)
    requires
        0 <= o,
        o + 4 <= d.len(),
        d.subrange(o, o + 4) == signal_source_flags_part3_bytes(c),
    ensures
        signal_source_flags_part3_bytes(c).len() == 4,
        signal_source_flags_part3_at(d, o, c),
{
    let b0 = seq![bool_byte(c.show_cross)];
    let b1 = b0 + seq![bool_byte(c.monitor_clipboard)];
    let b2 = b1 + seq![bool_byte(c.lower_case_token_cbd)];
    let b3 = b2 + seq![bool_byte(c.look_full_link_cbd)];
    let e = d.subrange(o, o + 4);
    assert(e == b3);
    lemma_seq_split(b2, seq![bool_byte(c.look_full_link_cbd)]);
    lemma_subrange_of_prefix(e, 4, 0, 3);
    lemma_subrange_of_prefix(e, 4, 3, 4);
    lemma_seq_split(b1, seq![bool_byte(c.lower_case_token_cbd)]);
    lemma_subrange_of_prefix(e, 3, 0, 2);
    lemma_subrange_of_prefix(e, 3, 2, 3);
    lemma_seq_split(b0, seq![bool_byte(c.monitor_clipboard)]);
    lemma_subrange_of_prefix(e, 2, 0, 1);
    lemma_subrange_of_prefix(e, 2, 1, 2);
    assert(e.subrange(0, 1) == seq![bool_byte(c.show_cross)]);
    assert(d[o + 0] == e.subrange(0, 1)[0]);
    lemma_bool_byte(c.show_cross);
    assert(e.subrange(1, 2) == seq![bool_byte(c.monitor_clipboard)]);
    assert(d[o + 1] == e.subrange(1, 2)[0]);
    lemma_bool_byte(c.monitor_clipboard);
    assert(e.subrange(2, 3) == seq![bool_byte(c.lower_case_token_cbd)]);
    assert(d[o + 2] == e.subrange(2, 3)[0]);
    lemma_bool_byte(c.lower_case_token_cbd);
    assert(e.subrange(3, 4) == seq![bool_byte(c.look_full_link_cbd)]);
    assert(d[o + 3] == e.subrange(3, 4)[0]);
    lemma_bool_byte(c.look_full_link_cbd);
}

/// The fields of a [`SignalSourceFlags`] read back from its bytes.
pub proof fn lemma_signal_source_flags_at(c: SignalSourceFlags, d: Seq<u8>, o: int)
    requires
        0 <= o,
        o + 19 <= d.len(),
        d.subrange(o, o + 19) == signal_source_flags_bytes(c),
    ensures
        signal_source_flags_bytes(c).len() == 19,
        signal_source_flags_at(d, o, c),
{
    let g0 = signal_source_flags_part1_bytes(c);
    let g1 = g0 + signal_source_flags_part2_bytes(c);
    let g2 = g1 + signal_source_flags_part3_bytes(c);
    let e = d.subrange(o, o + 19);
    assert(e == g2);
    lemma_seq_split(g1, signal_source_flags_part3_bytes(c));
    lemma_subrange_of_prefix(e, 19, 0, 15);
    lemma_subrange_of_prefix(e, 19, 15, 19);
    assert(d.subrange(o + 15, o + 19) =~= e.subrange(15, 19));
    lemma_signal_source_flags_part3_at(c, d, o + 15);
    lemma_seq_split(g0, signal_source_flags_part2_bytes(c));
    lemma_subrange_of_prefix(e, 15, 0, 6);
    lemma_subrange_of_prefix(e, 15, 6, 15);
    assert(d.subrange(o + 6, o + 15) =~= e.subrange(6, 15));
    lemma_signal_source_flags_part2_at(c, d, o + 6);
    assert(d.subrange(o + 0, o + 6) =~= e.subrange(0, 6));
    lemma_signal_source_flags_part1_at(c, d, o + 0);
}


/// The signal source flags of a signals section.
pub open spec fn signal_source_flags_of(s: SignalsSection) -> SignalSourceFlags {
    SignalSourceFlags { do_monitoring: s.do_monitoring, look_full_link_tlg: s.look_full_link_tlg, multi_channels: s.multi_channels, telegram_auto_buy: s.telegram_auto_buy, load_deep_history: s.load_deep_history, only_secret_signal: s.only_secret_signal, more_then_1_channel: s.more_then_1_channel, clipboard_auto_buy: s.clipboard_auto_buy, autodetect_auto_buy: s.autodetect_auto_buy, signal_sound: s.signal_sound, play_signal_sound: s.play_signal_sound, lower_case_token_tlg: s.lower_case_token_tlg, show_cross: s.show_cross, monitor_clipboard: s.monitor_clipboard, lower_case_token_cbd: s.lower_case_token_cbd, look_full_link_cbd: s.look_full_link_cbd }
}

/// Copy the signal source flags out of a signals section.
fn signal_source_flags_from(s: &SignalsSection) -> (r: SignalSourceFlags)
    ensures
        r == signal_source_flags_of(*s),
{
    SignalSourceFlags { do_monitoring: s.do_monitoring, look_full_link_tlg: s.look_full_link_tlg, multi_channels: s.multi_channels, telegram_auto_buy: s.telegram_auto_buy, load_deep_history: s.load_deep_history, only_secret_signal: s.only_secret_signal, more_then_1_channel: s.more_then_1_channel, clipboard_auto_buy: s.clipboard_auto_buy, autodetect_auto_buy: s.autodetect_auto_buy, signal_sound: s.signal_sound, play_signal_sound: s.play_signal_sound, lower_case_token_tlg: s.lower_case_token_tlg, show_cross: s.show_cross, monitor_clipboard: s.monitor_clipboard, lower_case_token_cbd: s.lower_case_token_cbd, look_full_link_cbd: s.look_full_link_cbd }
}

/// Fields of the signals block from `advanced_filter` to `listen_moon_channel`, in wire order.
#[derive(Clone, Copy, Debug)]
pub struct SignalAlertSettings {
    /// Use advanced per-strategy signal filtering rules.
    pub advanced_filter: bool,
    /// Automatically show/switch to the chart on new signal.
    pub auto_show_on_signal: bool,
    /// Use advanced filtering also for clipboard-source signals.
    pub advanced_filter_clipboard: bool,
    /// Volume indicator type index for the base detection.
    pub base_vol_ind_type: i32,
    /// Legacy, no consumers in current MoonBot code (a config migration
    /// resets it to 0). Kept for wire compatibility only.
    pub max_too_long_msg_len: i32,
    /// Sound preset for the second alert tier.
    pub signal_sound_2: i32,
    /// Play the sell alert when the price is within this percentage of the
    /// sell-order price.
    pub sell_alert_level: i32,
    /// Play a sound when a sell condition triggers.
    pub play_sell_alert: bool,
    /// Last manually chosen order type (1-based UI combo index).
    pub last_used_order_type: i32,
    /// Suppress new chart windows from signals while working in full-screen
    /// chart mode or when the cursor is in the orderbook area.
    pub full_screen_prevent_signals: bool,
    /// Listen to the built-in MoonBot signal channel.
    pub listen_moon_channel: bool,
}

/// Wire size of [`SignalAlertSettings`].
pub const SIGNAL_ALERT_SETTINGS_LEN: usize = 26;

/// Wire bytes of fields `advanced_filter` to `signal_sound_2` of a [`SignalAlertSettings`].
pub open spec fn signal_alert_settings_part1_bytes(c: SignalAlertSettings) -> Seq<u8> {
    seq![bool_byte(c.advanced_filter)]
        + seq![bool_byte(c.auto_show_on_signal)]
        + seq![bool_byte(c.advanced_filter_clipboard)]
        + le_u32(c.base_vol_ind_type as u32)
        + le_u32(c.max_too_long_msg_len as u32)
        + le_u32(c.signal_sound_2 as u32)
}

/// Whether fields `advanced_filter` to `signal_sound_2` of `c` are stored at `p`.
pub open spec fn signal_alert_settings_part1_at(d: Seq<u8>, p: int, c: SignalAlertSettings) -> bool {
    &&& c.advanced_filter == flag_of(d[p])
    &&& c.auto_show_on_signal == flag_of(d[p + 1])
    &&& c.advanced_filter_clipboard == flag_of(d[p + 2])
    &&& c.base_vol_ind_type == i32_at(d, p + 3)
    &&& c.max_too_long_msg_len == i32_at(d, p + 7)
    &&& c.signal_sound_2 == i32_at(d, p + 11)
}

/// Wire bytes of fields `sell_alert_level` to `listen_moon_channel` of a [`SignalAlertSettings`].
pub open spec fn signal_alert_settings_part2_bytes(c: SignalAlertSettings) -> Seq<u8> {
    le_u32(c.sell_alert_level as u32)
        + seq![bool_byte(c.play_sell_alert)]
        + le_u32(c.last_used_order_type as u32)
        + seq![bool_byte(c.full_screen_prevent_signals)]
        + seq![bool_byte(c.listen_moon_channel)]
}

/// Whether fields `sell_alert_level` to `listen_moon_channel` of `c` are stored at `p`.
pub open spec fn signal_alert_settings_part2_at(d: Seq<u8>, p: int, c: SignalAlertSettings) -> bool {
    &&& c.sell_alert_level == i32_at(d, p)
    &&& c.play_sell_alert == flag_of(d[p + 4])
    &&& c.last_used_order_type == i32_at(d, p + 5)
    &&& c.full_screen_prevent_signals == flag_of(d[p + 9])
    &&& c.listen_moon_channel == flag_of(d[p + 10])
}

/// Wire bytes of a [`SignalAlertSettings`], field after field.
pub open spec fn signal_alert_settings_bytes(c: SignalAlertSettings) -> Seq<u8> {
    signal_alert_settings_part1_bytes(c)
        + signal_alert_settings_part2_bytes(c)
}

/// Whether `c` is the [`SignalAlertSettings`] stored at `p`.
pub open spec fn signal_alert_settings_at(d: Seq<u8>, p: int, c: SignalAlertSettings) -> bool {
    &&& signal_alert_settings_part1_at(d, p, c)
    &&& signal_alert_settings_part2_at(d, p + 15, c)
}

/// Read a [`SignalAlertSettings`].
pub fn read_signal_alert_settings(r: &mut ConfigReader) -> (res: Result<SignalAlertSettings, SharedConfigError>)
    ensures
        final(r).bytes() == old(r).bytes(),
        old(r).at() + SIGNAL_ALERT_SETTINGS_LEN <= old(r).bytes().len() ==> (res matches Ok(c) && signal_alert_settings_at(
            old(r).bytes(),
            old(r).at(),
            c,
        ) && final(r).at() == old(r).at() + SIGNAL_ALERT_SETTINGS_LEN),
        old(r).at() + SIGNAL_ALERT_SETTINGS_LEN > old(r).bytes().len() ==> (res matches Err(e) && e@ == eof_msg()),
{
    Ok(SignalAlertSettings {
        advanced_filter: r.read_bool()?,
        auto_show_on_signal: r.read_bool()?,
        advanced_filter_clipboard: r.read_bool()?,
        base_vol_ind_type: r.read_i32()?,
        max_too_long_msg_len: r.read_i32()?,
        signal_sound_2: r.read_i32()?,
        sell_alert_level: r.read_i32()?,
        play_sell_alert: r.read_bool()?,
        last_used_order_type: r.read_i32()?,
        full_screen_prevent_signals: r.read_bool()?,
        listen_moon_channel: r.read_bool()?,
    })
}

/// Write fields `advanced_filter` to `signal_sound_2` of a [`SignalAlertSettings`].
fn write_signal_alert_settings_part1(w: &mut ConfigWriter, c: &SignalAlertSettings)
    requires
        old(w).wf(),
    ensures
        final(w).wf(),
        final(w).wrote_all(old(w), true, signal_alert_settings_part1_bytes(*c)),
{
    let ghost w0 = *w;
    let ghost wb = *w;
    w.write_bool(c.advanced_filter);
    proof { lemma_wrote_all_of_wrote(wb, *w, seq![bool_byte(c.advanced_filter)]); }
    let ghost wb = *w;
    w.write_bool(c.auto_show_on_signal);
    proof {
        lemma_wrote_all_of_wrote(wb, *w, seq![bool_byte(c.auto_show_on_signal)]);
        lemma_wrote_all_then(w0, wb, *w, true, seq![bool_byte(c.advanced_filter)], true, seq![bool_byte(c.auto_show_on_signal)]);
    }
    let ghost wb = *w;
    w.write_bool(c.advanced_filter_clipboard);
    proof {
        lemma_wrote_all_of_wrote(wb, *w, seq![bool_byte(c.advanced_filter_clipboard)]);
        lemma_wrote_all_then(w0, wb, *w, true, seq![bool_byte(c.advanced_filter)] + seq![bool_byte(c.auto_show_on_signal)], true, seq![bool_byte(c.advanced_filter_clipboard)]);
    }
    let ghost wb = *w;
    w.write_i32(c.base_vol_ind_type);
    proof {
        lemma_wrote_all_of_wrote(wb, *w, le_u32(c.base_vol_ind_type as u32));
        lemma_wrote_all_then(w0, wb, *w, true, seq![bool_byte(c.advanced_filter)] + seq![bool_byte(c.auto_show_on_signal)] + seq![bool_byte(c.advanced_filter_clipboard)], true, le_u32(c.base_vol_ind_type as u32));
    }
    let ghost wb = *w;
    w.write_i32(c.max_too_long_msg_len);
    proof {
        lemma_wrote_all_of_wrote(wb, *w, le_u32(c.max_too_long_msg_len as u32));
        lemma_wrote_all_then(w0, wb, *w, true, seq![bool_byte(c.advanced_filter)] + seq![bool_byte(c.auto_show_on_signal)] + seq![bool_byte(c.advanced_filter_clipboard)] + le_u32(c.base_vol_ind_type as u32), true, le_u32(c.max_too_long_msg_len as u32));
    }
    let ghost wb = *w;
    w.write_i32(c.signal_sound_2);
    proof {
        lemma_wrote_all_of_wrote(wb, *w, le_u32(c.signal_sound_2 as u32));
        lemma_wrote_all_then(w0, wb, *w, true, seq![bool_byte(c.advanced_filter)] + seq![bool_byte(c.auto_show_on_signal)] + seq![bool_byte(c.advanced_filter_clipboard)] + le_u32(c.base_vol_ind_type as u32) + le_u32(c.max_too_long_msg_len as u32), true, le_u32(c.signal_sound_2 as u32));
    }
}

/// Write fields `sell_alert_level` to `listen_moon_channel` of a [`SignalAlertSettings`].
fn write_signal_alert_settings_part2(w: &mut ConfigWriter, c: &SignalAlertSettings)
    requires
        old(w).wf(),
    ensures
        final(w).wf(),
        final(w).wrote_all(old(w), true, signal_alert_settings_part2_bytes(*c)),
{
    let ghost w0 = *w;
    let ghost wb = *w;
    w.write_i32(c.sell_alert_level);
    proof { lemma_wrote_all_of_wrote(wb, *w, le_u32(c.sell_alert_level as u32)); }
    let ghost wb = *w;
    w.write_bool(c.play_sell_alert);
    proof {
        lemma_wrote_all_of_wrote(wb, *w, seq![bool_byte(c.play_sell_alert)]);
        lemma_wrote_all_then(w0, wb, *w, true, le_u32(c.sell_alert_level as u32), true, seq![bool_byte(c.play_sell_alert)]);
    }
    let ghost wb = *w;
    w.write_i32(c.last_used_order_type);
    proof {
        lemma_wrote_all_of_wrote(wb, *w, le_u32(c.last_used_order_type as u32));
        lemma_wrote_all_then(w0, wb, *w, true, le_u32(c.sell_alert_level as u32) + seq![bool_byte(c.play_sell_alert)], true, le_u32(c.last_used_order_type as u32));
    }
    let ghost wb = *w;
    w.write_bool(c.full_screen_prevent_signals);
    proof {
        lemma_wrote_all_of_wrote(wb, *w, seq![bool_byte(c.full_screen_prevent_signals)]);
        lemma_wrote_all_then(w0, wb, *w, true, le_u32(c.sell_alert_level as u32) + seq![bool_byte(c.play_sell_alert)] + le_u32(c.last_used_order_type as u32), true, seq![bool_byte(c.full_screen_prevent_signals)]);
    }
    let ghost wb = *w;
    w.write_bool(c.listen_moon_channel);
    proof {
        lemma_wrote_all_of_wrote(wb, *w, seq![bool_byte(c.listen_moon_channel)]);
        lemma_wrote_all_then(w0, wb, *w, true, le_u32(c.sell_alert_level as u32) + seq![bool_byte(c.play_sell_alert)] + le_u32(c.last_used_order_type as u32) + seq![bool_byte(c.full_screen_prevent_signals)], true, seq![bool_byte(c.listen_moon_channel)]);
    }
}

/// Write a [`SignalAlertSettings`].
pub fn write_signal_alert_settings(w: &mut ConfigWriter, c: &SignalAlertSettings)
    requires
        old(w).wf(),
    ensures
        final(w).wf(),
        final(w).wrote_all(old(w), true, signal_alert_settings_bytes(*c)),
{
    let ghost w0 = *w;
    let ghost wb = *w;
    write_signal_alert_settings_part1(w, c);
    let ghost wb = *w;
    write_signal_alert_settings_part2(w, c);
    proof { lemma_wrote_all_then(w0, wb, *w, true, signal_alert_settings_part1_bytes(*c), true, signal_alert_settings_part2_bytes(*c)); }
}

/// Fields `advanced_filter` to `signal_sound_2` read back from their bytes.
pub proof fn lemma_signal_alert_settings_part1_at(c: SignalAlertSettings, d: Seq<u8>, o: int)
    requires
        0 <= o,
        o + 15 <= d.len(),
        d.subrange(o, o + 15) == signal_alert_settings_part1_bytes(c),
    ensures
        signal_alert_settings_part1_bytes(c).len() == 15,
        signal_alert_settings_part1_at(d, o, c),
{
    let b0 = seq![bool_byte(c.advanced_filter)];
    let b1 = b0 + seq![bool_byte(c.auto_show_on_signal)];
    let b2 = b1 + seq![bool_byte(c.advanced_filter_clipboard)];
    let b3 = b2 + le_u32(c.base_vol_ind_type as u32);
    let b4 = b3 + le_u32(c.max_too_long_msg_len as u32);
    let b5 = b4 + le_u32(c.signal_sound_2 as u32);
    let e = d.subrange(o, o + 15);
    assert(e == b5);
    lemma_seq_split(b4, le_u32(c.signal_sound_2 as u32));
    lemma_subrange_of_prefix(e, 15, 0, 11);
    lemma_subrange_of_prefix(e, 15, 11, 15);
    lemma_seq_split(b3, le_u32(c.max_too_long_msg_len as u32));
    lemma_subrange_of_prefix(e, 11, 0, 7);
    lemma_subrange_of_prefix(e, 11, 7, 11);
    lemma_seq_split(b2, le_u32(c.base_vol_ind_type as u32));
    lemma_subrange_of_prefix(e, 7, 0, 3);
    lemma_subrange_of_prefix(e, 7, 3, 7);
    lemma_seq_split(b1, seq![bool_byte(c.advanced_filter_clipboard)]);
    lemma_subrange_of_prefix(e, 3, 0, 2);
    lemma_subrange_of_prefix(e, 3, 2, 3);
    lemma_seq_split(b0, seq![bool_byte(c.auto_show_on_signal)]);
    lemma_subrange_of_prefix(e, 2, 0, 1);
    lemma_subrange_of_prefix(e, 2, 1, 2);
    assert(e.subrange(0, 1) == seq![bool_byte(c.advanced_filter)]);
    assert(d[o + 0] == e.subrange(0, 1)[0]);
    lemma_bool_byte(c.advanced_filter);
    assert(e.subrange(1, 2) == seq![bool_byte(c.auto_show_on_signal)]);
    assert(d[o + 1] == e.subrange(1, 2)[0]);
    lemma_bool_byte(c.auto_show_on_signal);
    assert(e.subrange(2, 3) == seq![bool_byte(c.advanced_filter_clipboard)]);
    assert(d[o + 2] == e.subrange(2, 3)[0]);
    lemma_bool_byte(c.advanced_filter_clipboard);
    assert(e.subrange(3, 7) == le_u32(c.base_vol_ind_type as u32));
    lemma_le_i32_roundtrip(c.base_vol_ind_type);
    assert(d[o + 3] == e.subrange(3, 7)[0] && d[o + 4] == e.subrange(3, 7)[1] && d[o + 5] == e.subrange(3, 7)[2] && d[o + 6] == e.subrange(3, 7)[3]);
    assert(e.subrange(7, 11) == le_u32(c.max_too_long_msg_len as u32));
    lemma_le_i32_roundtrip(c.max_too_long_msg_len);
    assert(d[o + 7] == e.subrange(7, 11)[0] && d[o + 8] == e.subrange(7, 11)[1] && d[o + 9] == e.subrange(7, 11)[2] && d[o + 10] == e.subrange(7, 11)[3]);
    assert(e.subrange(11, 15) == le_u32(c.signal_sound_2 as u32));
    lemma_le_i32_roundtrip(c.signal_sound_2);
    assert(d[o + 11] == e.subrange(11, 15)[0] && d[o + 12] == e.subrange(11, 15)[1] && d[o + 13] == e.subrange(11, 15)[2] && d[o + 14] == e.subrange(11, 15)[3]);
}

/// Fields `sell_alert_level` to `listen_moon_channel` read back from their bytes.
pub proof fn lemma_signal_alert_settings_part2_at(c: SignalAlertSettings, d: Seq<u8>, o: int)
    requires
        0 <= o,
        o + 11 <= d.len(),
        d.subrange(o, o + 11) == signal_alert_settings_part2_bytes(c),
    ensures
        signal_alert_settings_part2_bytes(c).len() == 11,
        signal_alert_settings_part2_at(d, o, c),
{
    let b0 = le_u32(c.sell_alert_level as u32);
    let b1 = b0 + seq![bool_byte(c.play_sell_alert)];
    let b2 = b1 + le_u32(c.last_used_order_type as u32);
    let b3 = b2 + seq![bool_byte(c.full_screen_prevent_signals)];
    let b4 = b3 + seq![bool_byte(c.listen_moon_channel)];
    let e = d.subrange(o, o + 11);
    assert(e == b4);
    lemma_seq_split(b3, seq![bool_byte(c.listen_moon_channel)]);
    lemma_subrange_of_prefix(e, 11, 0, 10);
    lemma_subrange_of_prefix(e, 11, 10, 11);
    lemma_seq_split(b2, seq![bool_byte(c.full_screen_prevent_signals)]);
    lemma_subrange_of_prefix(e, 10, 0, 9);
    lemma_subrange_of_prefix(e, 10, 9, 10);
    lemma_seq_split(b1, le_u32(c.last_used_order_type as u32));
    lemma_subrange_of_prefix(e, 9, 0, 5);
    lemma_subrange_of_prefix(e, 9, 5, 9);
    lemma_seq_split(b0, seq![bool_byte(c.play_sell_alert)]);
    lemma_subrange_of_prefix(e, 5, 0, 4);
    lemma_subrange_of_prefix(e, 5, 4, 5);
    assert(e.subrange(0, 4) == le_u32(c.sell_alert_level as u32));
    lemma_le_i32_roundtrip(c.sell_alert_level);
    assert(d[o + 0] == e.subrange(0, 4)[0] && d[o + 1] == e.subrange(0, 4)[1] && d[o + 2] == e.subrange(0, 4)[2] && d[o + 3] == e.subrange(0, 4)[3]);
    assert(e.subrange(4, 5) == seq![bool_byte(c.play_sell_alert)]);
    assert(d[o + 4] == e.subrange(4, 5)[0]);
    lemma_bool_byte(c.play_sell_alert);
    assert(e.subrange(5, 9) == le_u32(c.last_used_order_type as u32));
    lemma_le_i32_roundtrip(c.last_used_order_type);
    assert(d[o + 5] == e.subrange(5, 9)[0] && d[o + 6] == e.subrange(5, 9)[1] && d[o + 7] == e.subrange(5, 9)[2] && d[o + 8] == e.subrange(5, 9)[3]);
    assert(e.subrange(9, 10) == seq![bool_byte(c.full_screen_prevent_signals)]);
    assert(d[o + 9] == e.subrange(9, 10)[0]);
    lemma_bool_byte(c.full_screen_prevent_signals);
    assert(e.subrange(10, 11) == seq![bool_byte(c.listen_moon_channel)]);
    assert(d[o + 10] == e.subrange(10, 11)[0]);
    lemma_bool_byte(c.listen_moon_channel);
}

/// The fields of a [`SignalAlertSettings`] read back from its bytes.
pub proof fn lemma_signal_alert_settings_at(c: SignalAlertSettings, d: Seq<u8>, o: int)
    requires
        0 <= o,
        o + 26 <= d.len(),
        d.subrange(o, o + 26) == signal_alert_settings_bytes(c),
    ensures
        signal_alert_settings_bytes(c).len() == 26,
        signal_alert_settings_at(d, o, c),
{
    let g0 = signal_alert_settings_part1_bytes(c);
    let g1 = g0 + signal_alert_settings_part2_bytes(c);
    let e = d.subrange(o, o + 26);
    assert(e == g1);
    lemma_seq_split(g0, signal_alert_settings_part2_bytes(c));
    lemma_subrange_of_prefix(e, 26, 0, 15);
    lemma_subrange_of_prefix(e, 26, 15, 26);
    assert(d.subrange(o + 15, o + 26) =~= e.subrange(15, 26));
    lemma_signal_alert_settings_part2_at(c, d, o + 15);
    assert(d.subrange(o + 0, o + 15) =~= e.subrange(0, 15));
    lemma_signal_alert_settings_part1_at(c, d, o + 0);
}


/// The signal alert settings of a signals section.
pub open spec fn signal_alert_settings_of(s: SignalsSection) -> SignalAlertSettings {
    SignalAlertSettings { advanced_filter: s.advanced_filter, auto_show_on_signal: s.auto_show_on_signal, advanced_filter_clipboard: s.advanced_filter_clipboard, base_vol_ind_type: s.base_vol_ind_type, max_too_long_msg_len: s.max_too_long_msg_len, signal_sound_2: s.signal_sound_2, sell_alert_level: s.sell_alert_level, play_sell_alert: s.play_sell_alert, last_used_order_type: s.last_used_order_type, full_screen_prevent_signals: s.full_screen_prevent_signals, listen_moon_channel: s.listen_moon_channel }
}

/// Copy the signal alert settings out of a signals section.
fn signal_alert_settings_from(s: &SignalsSection) -> (r: SignalAlertSettings)
    ensures
        r == signal_alert_settings_of(*s),
{
    SignalAlertSettings { advanced_filter: s.advanced_filter, auto_show_on_signal: s.auto_show_on_signal, advanced_filter_clipboard: s.advanced_filter_clipboard, base_vol_ind_type: s.base_vol_ind_type, max_too_long_msg_len: s.max_too_long_msg_len, signal_sound_2: s.signal_sound_2, sell_alert_level: s.sell_alert_level, play_sell_alert: s.play_sell_alert, last_used_order_type: s.last_used_order_type, full_screen_prevent_signals: s.full_screen_prevent_signals, listen_moon_channel: s.listen_moon_channel }
}

/// Fields of the signals block from `dont_buy_reply` to `buy_alert_level`, in wire order.
#[derive(Clone, Copy, Debug)]
pub struct BuyAlertSettings {
    /// Ignore signals that are replies to other messages.
    pub dont_buy_reply: bool,
    /// Minimum 24 h base volume (in BTC equivalent) for a token to qualify.
    pub base_vol_n: i32,
    /// Use the last detection's caption as the chart title.
    pub use_last_detect_caption: bool,
    /// Sound preset for buy-signal alert.
    pub buy_signal_sound: i32,
    /// Play a sound on buy alert.
    pub play_buy_alert: bool,
    /// Play the buy alert when the price is within this percentage of the
    /// buy-order price.
    pub buy_alert_level: i32,
}

/// Wire size of [`BuyAlertSettings`].
pub const BUY_ALERT_SETTINGS_LEN: usize = 15;

/// Wire bytes of a [`BuyAlertSettings`], field after field.
pub open spec fn buy_alert_settings_bytes(c: BuyAlertSettings) -> Seq<u8> {
    seq![bool_byte(c.dont_buy_reply)]
        + le_u32(c.base_vol_n as u32)
        + seq![bool_byte(c.use_last_detect_caption)]
        + le_u32(c.buy_signal_sound as u32)
        + seq![bool_byte(c.play_buy_alert)]
        + le_u32(c.buy_alert_level as u32)
}

/// Whether `c` is the [`BuyAlertSettings`] stored at `p`.
pub open spec fn buy_alert_settings_at(d: Seq<u8>, p: int, c: BuyAlertSettings) -> bool {
    &&& c.dont_buy_reply == flag_of(d[p])
    &&& c.base_vol_n == i32_at(d, p + 1)
    &&& c.use_last_detect_caption == flag_of(d[p + 5])
    &&& c.buy_signal_sound == i32_at(d, p + 6)
    &&& c.play_buy_alert == flag_of(d[p + 10])
    &&& c.buy_alert_level == i32_at(d, p + 11)
}

/// Read a [`BuyAlertSettings`].
pub fn read_buy_alert_settings(r: &mut ConfigReader) -> (res: Result<BuyAlertSettings, SharedConfigError>)
    ensures
        final(r).bytes() == old(r).bytes(),
        old(r).at() + BUY_ALERT_SETTINGS_LEN <= old(r).bytes().len() ==> (res matches Ok(c) && buy_alert_settings_at(
            old(r).bytes(),
            old(r).at(),
            c,
        ) && final(r).at() == old(r).at() + BUY_ALERT_SETTINGS_LEN),
        old(r).at() + BUY_ALERT_SETTINGS_LEN > old(r).bytes().len() ==> (res matches Err(e) && e@ == eof_msg()),
{
    Ok(BuyAlertSettings {
        dont_buy_reply: r.read_bool()?,
        base_vol_n: r.read_i32()?,
        use_last_detect_caption: r.read_bool()?,
        buy_signal_sound: r.read_i32()?,
        play_buy_alert: r.read_bool()?,
        buy_alert_level: r.read_i32()?,
    })
}

/// Write a [`BuyAlertSettings`].
pub fn write_buy_alert_settings(w: &mut ConfigWriter, c: &BuyAlertSettings)
    requires
        old(w).wf(),
    ensures
        final(w).wf(),
        final(w).wrote_all(old(w), true, buy_alert_settings_bytes(*c)),
{
    let ghost w0 = *w;
    let ghost wb = *w;
    w.write_bool(c.dont_buy_reply);
    proof { lemma_wrote_all_of_wrote(wb, *w, seq![bool_byte(c.dont_buy_reply)]); }
    let ghost wb = *w;
    w.write_i32(c.base_vol_n);
    proof {
        lemma_wrote_all_of_wrote(wb, *w, le_u32(c.base_vol_n as u32));
        lemma_wrote_all_then(w0, wb, *w, true, seq![bool_byte(c.dont_buy_reply)], true, le_u32(c.base_vol_n as u32));
    }
    let ghost wb = *w;
    w.write_bool(c.use_last_detect_caption);
    proof {
        lemma_wrote_all_of_wrote(wb, *w, seq![bool_byte(c.use_last_detect_caption)]);
        lemma_wrote_all_then(w0, wb, *w, true, seq![bool_byte(c.dont_buy_reply)] + le_u32(c.base_vol_n as u32), true, seq![bool_byte(c.use_last_detect_caption)]);
    }
    let ghost wb = *w;
    w.write_i32(c.buy_signal_sound);
    proof {
        lemma_wrote_all_of_wrote(wb, *w, le_u32(c.buy_signal_sound as u32));
        lemma_wrote_all_then(w0, wb, *w, true, seq![bool_byte(c.dont_buy_reply)] + le_u32(c.base_vol_n as u32) + seq![bool_byte(c.use_last_detect_caption)], true, le_u32(c.buy_signal_sound as u32));
    }
    let ghost wb = *w;
    w.write_bool(c.play_buy_alert);
    proof {
        lemma_wrote_all_of_wrote(wb, *w, seq![bool_byte(c.play_buy_alert)]);
        lemma_wrote_all_then(w0, wb, *w, true, seq![bool_byte(c.dont_buy_reply)] + le_u32(c.base_vol_n as u32) + seq![bool_byte(c.use_last_detect_caption)] + le_u32(c.buy_signal_sound as u32), true, seq![bool_byte(c.play_buy_alert)]);
    }
    let ghost wb = *w;
    w.write_i32(c.buy_alert_level);
    proof {
        lemma_wrote_all_of_wrote(wb, *w, le_u32(c.buy_alert_level as u32));
        lemma_wrote_all_then(w0, wb, *w, true, seq![bool_byte(c.dont_buy_reply)] + le_u32(c.base_vol_n as u32) + seq![bool_byte(c.use_last_detect_caption)] + le_u32(c.buy_signal_sound as u32) + seq![bool_byte(c.play_buy_alert)], true, le_u32(c.buy_alert_level as u32));
    }
}

/// The fields of a [`BuyAlertSettings`] read back from its bytes.
pub proof fn lemma_buy_alert_settings_at(c: BuyAlertSettings, d: Seq<u8>, o: int)
    requires
        0 <= o,
        o + 15 <= d.len(),
        d.subrange(o, o + 15) == buy_alert_settings_bytes(c),
    ensures
        buy_alert_settings_bytes(c).len() == 15,
        buy_alert_settings_at(d, o, c),
{
    let b0 = seq![bool_byte(c.dont_buy_reply)];
    let b1 = b0 + le_u32(c.base_vol_n as u32);
    let b2 = b1 + seq![bool_byte(c.use_last_detect_caption)];
    let b3 = b2 + le_u32(c.buy_signal_sound as u32);
    let b4 = b3 + seq![bool_byte(c.play_buy_alert)];
    let b5 = b4 + le_u32(c.buy_alert_level as u32);
    let e = d.subrange(o, o + 15);
    assert(e == b5);
    lemma_seq_split(b4, le_u32(c.buy_alert_level as u32));
    lemma_subrange_of_prefix(e, 15, 0, 11);
    lemma_subrange_of_prefix(e, 15, 11, 15);
    lemma_seq_split(b3, seq![bool_byte(c.play_buy_alert)]);
    lemma_subrange_of_prefix(e, 11, 0, 10);
    lemma_subrange_of_prefix(e, 11, 10, 11);
    lemma_seq_split(b2, le_u32(c.buy_signal_sound as u32));
    lemma_subrange_of_prefix(e, 10, 0, 6);
    lemma_subrange_of_prefix(e, 10, 6, 10);
    lemma_seq_split(b1, seq![bool_byte(c.use_last_detect_caption)]);
    lemma_subrange_of_prefix(e, 6, 0, 5);
    lemma_subrange_of_prefix(e, 6, 5, 6);
    lemma_seq_split(b0, le_u32(c.base_vol_n as u32));
    lemma_subrange_of_prefix(e, 5, 0, 1);
    lemma_subrange_of_prefix(e, 5, 1, 5);
    assert(e.subrange(0, 1) == seq![bool_byte(c.dont_buy_reply)]);
    assert(d[o + 0] == e.subrange(0, 1)[0]);
    lemma_bool_byte(c.dont_buy_reply);
    assert(e.subrange(1, 5) == le_u32(c.base_vol_n as u32));
    lemma_le_i32_roundtrip(c.base_vol_n);
    assert(d[o + 1] == e.subrange(1, 5)[0] && d[o + 2] == e.subrange(1, 5)[1] && d[o + 3] == e.subrange(1, 5)[2] && d[o + 4] == e.subrange(1, 5)[3]);
    assert(e.subrange(5, 6) == seq![bool_byte(c.use_last_detect_caption)]);
    assert(d[o + 5] == e.subrange(5, 6)[0]);
    lemma_bool_byte(c.use_last_detect_caption);
    assert(e.subrange(6, 10) == le_u32(c.buy_signal_sound as u32));
    lemma_le_i32_roundtrip(c.buy_signal_sound);
    assert(d[o + 6] == e.subrange(6, 10)[0] && d[o + 7] == e.subrange(6, 10)[1] && d[o + 8] == e.subrange(6, 10)[2] && d[o + 9] == e.subrange(6, 10)[3]);
    assert(e.subrange(10, 11) == seq![bool_byte(c.play_buy_alert)]);
    assert(d[o + 10] == e.subrange(10, 11)[0]);
    lemma_bool_byte(c.play_buy_alert);
    assert(e.subrange(11, 15) == le_u32(c.buy_alert_level as u32));
    lemma_le_i32_roundtrip(c.buy_alert_level);
    assert(d[o + 11] == e.subrange(11, 15)[0] && d[o + 12] == e.subrange(11, 15)[1] && d[o + 13] == e.subrange(11, 15)[2] && d[o + 14] == e.subrange(11, 15)[3]);
}


/// The buy alert settings of a signals section.
pub open spec fn buy_alert_settings_of(s: SignalsSection) -> BuyAlertSettings {
    BuyAlertSettings { dont_buy_reply: s.dont_buy_reply, base_vol_n: s.base_vol_n, use_last_detect_caption: s.use_last_detect_caption, buy_signal_sound: s.buy_signal_sound, play_buy_alert: s.play_buy_alert, buy_alert_level: s.buy_alert_level }
}

/// Copy the buy alert settings out of a signals section.
fn buy_alert_settings_from(s: &SignalsSection) -> (r: BuyAlertSettings)
    ensures
        r == buy_alert_settings_of(*s),
{
    BuyAlertSettings { dont_buy_reply: s.dont_buy_reply, base_vol_n: s.base_vol_n, use_last_detect_caption: s.use_last_detect_caption, buy_signal_sound: s.buy_signal_sound, play_buy_alert: s.play_buy_alert, buy_alert_level: s.buy_alert_level }
}


impl SignalsSection {
    /// Whether every field holds the value that [`SignalsSection::default`] gives.
    pub open spec fn is_default(&self) -> bool {
        &&& self.pump_channel@ == Seq::<char>::empty()
        &&& self.pump_channels@.len() == 0
        &&& !self.do_monitoring
        &&& self.look_full_link_tlg
        &&& !self.multi_channels
        &&& !self.telegram_auto_buy
        &&& self.load_deep_history
        &&& !self.only_secret_signal
        &&& !self.more_then_1_channel
        &&& !self.clipboard_auto_buy
        &&& !self.autodetect_auto_buy
        &&& self.signal_sound == 1
        &&& !self.play_signal_sound
        &&& !self.lower_case_token_tlg
        &&& self.show_cross
        &&& !self.monitor_clipboard
        &&& !self.lower_case_token_cbd
        &&& self.look_full_link_cbd
        &&& self.msg_keywords_long@ == "buy"@
        &&& self.msg_keywords_short@ == "short"@
        &&& self.msg_token_tags@ == "#,$"@
        &&& self.msg_black_words@ == "called,gave,told,dont,don't,reached"@
        &&& self.advanced_filter
        &&& !self.auto_show_on_signal
        &&& self.advanced_filter_clipboard
        &&& self.base_vol_ind_type == 0
        &&& self.max_too_long_msg_len == 0
        &&& self.signal_sound_2 == 2
        &&& self.sell_alert_level == 1
        &&& !self.play_sell_alert
        &&& self.last_used_order_type == 1
        &&& self.full_screen_prevent_signals
        &&& !self.listen_moon_channel
        &&& self.lower_price_words@ == "wait dip,for dip,when dump,when dumped"@
        &&& self.dont_buy_reply
        &&& self.base_vol_n == 100
        &&& self.use_last_detect_caption
        &&& self.buy_signal_sound == 2
        &&& !self.play_buy_alert
        &&& self.buy_alert_level == 0
        &&& self.strats_filter@ == Seq::<char>::empty()
        &&& self.news_tags_filter@ == Seq::<char>::empty()
        &&& self.news_tokens_filter@ == Seq::<char>::empty()
        &&& self.unknown_tail@.len() == 0
        &&& self.signal_config.is_default()
    }
}

impl Default for SignalsSection {
    fn default() -> (r: Self)
        ensures
            r.is_default(),
    {
        SignalsSection {
            pump_channel: String::new(),
            pump_channels: Vec::new(),
            do_monitoring: false,
            look_full_link_tlg: true,
            multi_channels: false,
            telegram_auto_buy: false,
            load_deep_history: true,
            only_secret_signal: false,
            more_then_1_channel: false,
            clipboard_auto_buy: false,
            autodetect_auto_buy: false,
            signal_sound: 1,
            play_signal_sound: false,
            lower_case_token_tlg: false,
            show_cross: true,
            monitor_clipboard: false,
            lower_case_token_cbd: false,
            look_full_link_cbd: true,
            msg_keywords_long: "buy".to_owned(),
            msg_keywords_short: "short".to_owned(),
            msg_token_tags: "#,$".to_owned(),
            msg_black_words: "called,gave,told,dont,don't,reached".to_owned(),
            signal_config: SignalConfig::default(),
            advanced_filter: true,
            auto_show_on_signal: false,
            advanced_filter_clipboard: true,
            base_vol_ind_type: 0,
            max_too_long_msg_len: 0,
            signal_sound_2: 2,
            sell_alert_level: 1,
            play_sell_alert: false,
            last_used_order_type: 1,
            full_screen_prevent_signals: true,
            listen_moon_channel: false,
            lower_price_words: "wait dip,for dip,when dump,when dumped".to_owned(),
            dont_buy_reply: true,
            base_vol_n: 100,
            use_last_detect_caption: true,
            buy_signal_sound: 2,
            play_buy_alert: false,
            buy_alert_level: 0,
            strats_filter: String::new(),
            news_tags_filter: String::new(),
            news_tokens_filter: String::new(),
            unknown_tail: Vec::new(),
        }
    }
}

/// The position after the `StringX` at `p`.
#[verifier::opaque]
pub open spec fn string_end(d: Seq<u8>, p: int) -> int {
    string_x_at(d, p)->Ok_0.1
}

/// Whether a `StringX` can be read at `p`.
#[verifier::opaque]
pub open spec fn string_ok(d: Seq<u8>, p: int) -> bool {
    string_x_at(d, p) is Ok
}

/// The position after the string list at `p`.
#[verifier::opaque]
pub open spec fn list_end(d: Seq<u8>, p: int) -> int {
    string_list_x_at(d, p)->Ok_0.1
}

/// Whether a string list can be read at `p`.
#[verifier::opaque]
pub open spec fn list_ok(d: Seq<u8>, p: int) -> bool {
    string_list_x_at(d, p) is Ok
}

/// The texts of the string list at `p`.
#[verifier::opaque]
pub open spec fn list_texts(d: Seq<u8>, p: int) -> Seq<Seq<char>> {
    string_list_x_at(d, p)->Ok_0.0
}

/// The end of the first part of a signals body at `x`: the pump channel,
/// the channel list and the source flags.
pub open spec fn head_end(d: Seq<u8>, x: int) -> int {
    list_end(d, string_end(d, x)) + SIGNAL_SOURCE_FLAGS_LEN
}

/// Whether the first part of a signals body can be read at `x`.
pub open spec fn head_ok(d: Seq<u8>, x: int) -> bool {
    &&& string_ok(d, x)
    &&& list_ok(d, string_end(d, x))
    &&& head_end(d, x) <= d.len()
}

/// The end of the second part: the four keyword strings, the parser record and
/// the alert settings.
pub open spec fn middle_end(d: Seq<u8>, x: int) -> int {
    string_end(d, string_end(d, string_end(d, string_end(d, x)))) + SIGNAL_CONFIG_LEN
        + SIGNAL_ALERT_SETTINGS_LEN
}

/// Whether the second part can be read at `x`.
pub open spec fn middle_ok(d: Seq<u8>, x: int) -> bool {
    &&& string_ok(d, x)
    &&& string_ok(d, string_end(d, x))
    &&& string_ok(d, string_end(d, string_end(d, x)))
    &&& string_ok(d, string_end(d, string_end(d, string_end(d, x))))
    &&& middle_end(d, x) <= d.len()
}

/// Where the buy alert settings of the third part start.
pub open spec fn buy_alerts_at(d: Seq<u8>, x: int) -> int {
    string_end(d, x)
}

/// The end of the third part: the lower-price words, the buy alert settings
/// and the three filters.
pub open spec fn tail_start(d: Seq<u8>, x: int) -> int {
    let q = buy_alerts_at(d, x) + BUY_ALERT_SETTINGS_LEN;
    string_end(d, string_end(d, string_end(d, q)))
}

/// Whether the third part can be read at `x`.
pub open spec fn last_ok(d: Seq<u8>, x: int) -> bool {
    let q = buy_alerts_at(d, x) + BUY_ALERT_SETTINGS_LEN;
    &&& string_ok(d, x)
    &&& q <= d.len()
    &&& string_ok(d, q)
    &&& string_ok(d, string_end(d, q))
    &&& string_ok(d, string_end(d, string_end(d, q)))
}

/// Whether a signals block body at `p` is well formed: version `2`, every
/// string and list within its limits and every part within the data.
pub open spec fn signals_ok(d: Seq<u8>, p: int) -> bool {
    &&& p + 1 <= d.len()
    &&& d[p] == 2
    &&& head_ok(d, p + 1)
    &&& middle_ok(d, head_end(d, p + 1))
    &&& last_ok(d, middle_end(d, head_end(d, p + 1)))
}

/// The text of the `StringX` at `p`.
#[verifier::opaque]
pub open spec fn text_at(d: Seq<u8>, p: int) -> Seq<char> {
    string_x_at(d, p)->Ok_0.0
}

/// Read a `StringX`, described by the position functions.
pub fn read_text(r: &mut ConfigReader) -> (res: Result<String, SharedConfigError>)
    ensures
        final(r).bytes() == old(r).bytes(),
        string_ok(old(r).bytes(), old(r).at()) ==> (res matches Ok(t) && t@ == text_at(
            old(r).bytes(),
            old(r).at(),
        ) && final(r).at() == string_end(old(r).bytes(), old(r).at())),
        !string_ok(old(r).bytes(), old(r).at()) ==> res is Err,
{
    proof {
        reveal(string_ok);
        reveal(text_at);
        reveal(string_end);
    }
    r.read_string_x()
}

/// Read a `StringX` when the position is before `block_end`; an empty text
/// otherwise.
pub fn read_text_or_empty(r: &mut ConfigReader, block_end: usize) -> (res: Result<String, SharedConfigError>)
    ensures
        final(r).bytes() == old(r).bytes(),
        old(r).at() >= block_end ==> (res matches Ok(t) && t@ == Seq::<char>::empty() && final(r).at()
            == old(r).at()),
        old(r).at() < block_end && string_ok(old(r).bytes(), old(r).at()) ==> (res matches Ok(t) && t@
            == text_at(old(r).bytes(), old(r).at()) && final(r).at() == string_end(old(r).bytes(), old(r).at())),
        old(r).at() < block_end && !string_ok(old(r).bytes(), old(r).at()) ==> res is Err,
{
    proof {
        reveal(string_ok);
        reveal(text_at);
        reveal(string_end);
    }
    r.read_string_x_or_empty(block_end)
}

/// Read a string list, described by the position functions.
fn read_texts(r: &mut ConfigReader) -> (res: Result<Vec<String>, SharedConfigError>)
    ensures
        final(r).bytes() == old(r).bytes(),
        list_ok(old(r).bytes(), old(r).at()) ==> (res matches Ok(t) && texts(t@) == list_texts(
            old(r).bytes(),
            old(r).at(),
        ) && final(r).at() == list_end(old(r).bytes(), old(r).at())),
        !list_ok(old(r).bytes(), old(r).at()) ==> res is Err,
{
    proof {
        reveal(list_ok);
        reveal(list_texts);
        reveal(list_end);
    }
    r.read_string_list_x()
}

/// Whether the source flags of `s` are stored at `p`.
#[verifier::opaque]
pub open spec fn source_flags_stored(d: Seq<u8>, p: int, s: SignalsSection) -> bool {
    signal_source_flags_at(d, p, signal_source_flags_of(s))
}

/// Whether the alert settings of `s` are stored at `p`.
#[verifier::opaque]
pub open spec fn alert_settings_stored(d: Seq<u8>, p: int, s: SignalsSection) -> bool {
    signal_alert_settings_at(d, p, signal_alert_settings_of(s))
}

/// Whether the buy alert settings of `s` are stored at `p`.
#[verifier::opaque]
pub open spec fn buy_alerts_stored(d: Seq<u8>, p: int, s: SignalsSection) -> bool {
    buy_alert_settings_at(d, p, buy_alert_settings_of(s))
}

/// Whether `s` is the signals block body at `p`, with the rest of the block
/// up to `block_end` kept.
pub open spec fn signals_decoded(d: Seq<u8>, p: int, block_end: int, s: SignalsSection) -> bool {
    let x1 = p + 1;
    let x2 = head_end(d, x1);
    let x3 = middle_end(d, x2);
    let k1 = string_end(d, x2);
    let k2 = string_end(d, k1);
    let k3 = string_end(d, k2);
    let c = string_end(d, k3);
    let b = buy_alerts_at(d, x3);
    let f1 = b + BUY_ALERT_SETTINGS_LEN;
    let f2 = string_end(d, f1);
    let f3 = string_end(d, f2);
    &&& s.pump_channel@ == text_at(d, x1)
    &&& texts(s.pump_channels@) == list_texts(d, string_end(d, x1))
    &&& source_flags_stored(d, list_end(d, string_end(d, x1)), s)
    &&& s.msg_keywords_long@ == text_at(d, x2)
    &&& s.msg_keywords_short@ == text_at(d, k1)
    &&& s.msg_token_tags@ == text_at(d, k2)
    &&& s.msg_black_words@ == text_at(d, k3)
    &&& signal_config_at(d, c, s.signal_config)
    &&& alert_settings_stored(d, c + SIGNAL_CONFIG_LEN, s)
    &&& s.lower_price_words@ == text_at(d, x3)
    &&& buy_alerts_stored(d, b, s)
    &&& s.strats_filter@ == text_at(d, f1)
    &&& s.news_tags_filter@ == text_at(d, f2)
    &&& s.news_tokens_filter@ == text_at(d, f3)
    &&& s.unknown_tail@ == tail_of(d, tail_start(d, x3), block_end)
}

/// Read the pump channel, the channel list and the source flags.
fn read_head(r: &mut ConfigReader) -> (res: Result<(String, Vec<String>, SignalSourceFlags), SharedConfigError>)
    ensures
        final(r).bytes() == old(r).bytes(),
        head_ok(old(r).bytes(), old(r).at()) ==> (res matches Ok(t) && t.0@ == text_at(
            old(r).bytes(),
            old(r).at(),
        ) && texts(t.1@) == list_texts(old(r).bytes(), string_end(old(r).bytes(), old(r).at()))
            && signal_source_flags_at(
            old(r).bytes(),
            list_end(old(r).bytes(), string_end(old(r).bytes(), old(r).at())),
            t.2,
        ) && final(r).at() == head_end(old(r).bytes(), old(r).at())),
        !head_ok(old(r).bytes(), old(r).at()) ==> res is Err,
{
    let pump_channel = read_text(r)?;
    let pump_channels = read_texts(r)?;
    let flags = read_signal_source_flags(r)?;
    Ok((pump_channel, pump_channels, flags))
}

/// Read the keyword strings, the parser record and the alert settings.
fn read_middle(r: &mut ConfigReader) -> (res: Result<
    (String, String, String, String, SignalConfig, SignalAlertSettings),
    SharedConfigError,
>)
    ensures
        final(r).bytes() == old(r).bytes(),
        middle_ok(old(r).bytes(), old(r).at()) ==> (res matches Ok(t) && {
            let d = old(r).bytes();
            let k1 = string_end(d, old(r).at());
            let k2 = string_end(d, k1);
            let k3 = string_end(d, k2);
            let c = string_end(d, k3);
            &&& t.0@ == text_at(d, old(r).at())
            &&& t.1@ == text_at(d, k1)
            &&& t.2@ == text_at(d, k2)
            &&& t.3@ == text_at(d, k3)
            &&& signal_config_at(d, c, t.4)
            &&& signal_alert_settings_at(d, c + SIGNAL_CONFIG_LEN, t.5)
            &&& final(r).at() == middle_end(d, old(r).at())
        }),
        !middle_ok(old(r).bytes(), old(r).at()) ==> res is Err,
{
    let long = read_text(r)?;
    let short = read_text(r)?;
    let tags = read_text(r)?;
    let black = read_text(r)?;
    let config = read_signal_config(r)?;
    let alerts = read_signal_alert_settings(r)?;
    Ok((long, short, tags, black, config, alerts))
}

/// Read the lower-price words, the buy alert settings and the three filters.
fn read_last(r: &mut ConfigReader) -> (res: Result<
    (String, BuyAlertSettings, String, String, String),
    SharedConfigError,
>)
    ensures
        final(r).bytes() == old(r).bytes(),
        last_ok(old(r).bytes(), old(r).at()) ==> (res matches Ok(t) && {
            let d = old(r).bytes();
            let b = buy_alerts_at(d, old(r).at());
            let f1 = b + BUY_ALERT_SETTINGS_LEN;
            let f2 = string_end(d, f1);
            let f3 = string_end(d, f2);
            &&& t.0@ == text_at(d, old(r).at())
            &&& buy_alert_settings_at(d, b, t.1)
            &&& t.2@ == text_at(d, f1)
            &&& t.3@ == text_at(d, f2)
            &&& t.4@ == text_at(d, f3)
            &&& final(r).at() == tail_start(d, old(r).at())
        }),
        !last_ok(old(r).bytes(), old(r).at()) ==> res is Err,
{
    let lower = read_text(r)?;
    let buys = read_buy_alert_settings(r)?;
    let strats = read_text(r)?;
    let tags = read_text(r)?;
    let tokens = read_text(r)?;
    Ok((lower, buys, strats, tags, tokens))
}

/// Read the signals block body that ends at `block_end`.
#[verifier::spinoff_prover]
#[verifier::rlimit(50)]
pub fn parse_signals(r: &mut ConfigReader, block_end: usize) -> (res: Result<SignalsSection, SharedConfigError>)
    requires
        block_end <= old(r).bytes().len(),
    ensures
        signals_ok(old(r).bytes(), old(r).at()) ==> (res matches Ok(s) && signals_decoded(
            old(r).bytes(),
            old(r).at(),
            block_end as int,
            s,
        )),
        !signals_ok(old(r).bytes(), old(r).at()) ==> res is Err,
{
    let ver = r.read_u8()?;
    if ver != 2 {
        return Err(SharedConfigError::new("wrong shared signals version"));
    }
    let (pump_channel, pump_channels, a) = read_head(r)?;
    let (msg_keywords_long, msg_keywords_short, msg_token_tags, msg_black_words, signal_config, b) =
        read_middle(r)?;
    let (lower_price_words, c, strats_filter, news_tags_filter, news_tokens_filter) = read_last(r)?;
    let unknown_tail = r.read_tail(block_end);
    let s = SignalsSection {
        pump_channel,
        pump_channels,
        do_monitoring: a.do_monitoring,
        look_full_link_tlg: a.look_full_link_tlg,
        multi_channels: a.multi_channels,
        telegram_auto_buy: a.telegram_auto_buy,
        load_deep_history: a.load_deep_history,
        only_secret_signal: a.only_secret_signal,
        more_then_1_channel: a.more_then_1_channel,
        clipboard_auto_buy: a.clipboard_auto_buy,
        autodetect_auto_buy: a.autodetect_auto_buy,
        signal_sound: a.signal_sound,
        play_signal_sound: a.play_signal_sound,
        lower_case_token_tlg: a.lower_case_token_tlg,
        show_cross: a.show_cross,
        monitor_clipboard: a.monitor_clipboard,
        lower_case_token_cbd: a.lower_case_token_cbd,
        look_full_link_cbd: a.look_full_link_cbd,
        msg_keywords_long,
        msg_keywords_short,
        msg_token_tags,
        msg_black_words,
        signal_config,
        advanced_filter: b.advanced_filter,
        auto_show_on_signal: b.auto_show_on_signal,
        advanced_filter_clipboard: b.advanced_filter_clipboard,
        base_vol_ind_type: b.base_vol_ind_type,
        max_too_long_msg_len: b.max_too_long_msg_len,
        signal_sound_2: b.signal_sound_2,
        sell_alert_level: b.sell_alert_level,
        play_sell_alert: b.play_sell_alert,
        last_used_order_type: b.last_used_order_type,
        full_screen_prevent_signals: b.full_screen_prevent_signals,
        listen_moon_channel: b.listen_moon_channel,
        lower_price_words,
        dont_buy_reply: c.dont_buy_reply,
        base_vol_n: c.base_vol_n,
        use_last_detect_caption: c.use_last_detect_caption,
        buy_signal_sound: c.buy_signal_sound,
        play_buy_alert: c.play_buy_alert,
        buy_alert_level: c.buy_alert_level,
        strats_filter,
        news_tags_filter,
        news_tokens_filter,
        unknown_tail,
    };
    proof {
        assert(signal_source_flags_of(s) == a);
        assert(signal_alert_settings_of(s) == b);
        assert(buy_alert_settings_of(s) == c);
        reveal(source_flags_stored);
        reveal(alert_settings_stored);
        reveal(buy_alerts_stored);
    }
    Ok(s)
}

/// Bytes of the pump channel, the channel list and the source flags.
pub open spec fn head_bytes(s: SignalsSection) -> Seq<u8> {
    string_x_bytes(s.pump_channel@) + string_list_x_bytes(texts_of(s.pump_channels@))
        + signal_source_flags_bytes(signal_source_flags_of(s))
}

/// Bytes of the keyword strings, the parser record and the alert settings.
pub open spec fn middle_bytes(s: SignalsSection) -> Seq<u8> {
    string_x_bytes(s.msg_keywords_long@) + string_x_bytes(s.msg_keywords_short@) + string_x_bytes(
        s.msg_token_tags@,
    ) + string_x_bytes(s.msg_black_words@) + signal_config_bytes(s.signal_config)
        + signal_alert_settings_bytes(signal_alert_settings_of(s))
}

/// Bytes of the lower-price words, the buy alert settings and the filters.
pub open spec fn last_bytes(s: SignalsSection) -> Seq<u8> {
    string_x_bytes(s.lower_price_words@) + buy_alert_settings_bytes(buy_alert_settings_of(s))
        + string_x_bytes(s.strats_filter@) + string_x_bytes(s.news_tags_filter@) + string_x_bytes(
        s.news_tokens_filter@,
    )
}

/// Bytes of a signals block body: version `2`, the three parts and the kept tail.
pub open spec fn signals_bytes(s: SignalsSection) -> Seq<u8> {
    seq![2u8] + head_bytes(s) + middle_bytes(s) + last_bytes(s) + s.unknown_tail@
}

/// Whether every string of the first part fits its limit.
pub open spec fn head_fits(s: SignalsSection) -> bool {
    string_fits(s.pump_channel@) && string_list_fits(texts_of(s.pump_channels@))
}

/// Whether every string of the second part fits its limit.
pub open spec fn middle_fits(s: SignalsSection) -> bool {
    &&& string_fits(s.msg_keywords_long@)
    &&& string_fits(s.msg_keywords_short@)
    &&& string_fits(s.msg_token_tags@)
    &&& string_fits(s.msg_black_words@)
}

/// Whether every string of the third part fits its limit.
pub open spec fn last_fits(s: SignalsSection) -> bool {
    &&& string_fits(s.lower_price_words@)
    &&& string_fits(s.strats_filter@)
    &&& string_fits(s.news_tags_filter@)
    &&& string_fits(s.news_tokens_filter@)
}

/// Whether a signals section can be written: every string and list within its limits.
pub open spec fn signals_fit(s: SignalsSection) -> bool {
    head_fits(s) && middle_fits(s) && last_fits(s)
}

/// Write the pump channel, the channel list and the source flags.
fn write_head(w: &mut ConfigWriter, s: &SignalsSection)
    requires
        old(w).wf(),
    ensures
        final(w).wf(),
        final(w).wrote_all(old(w), head_fits(*s), head_bytes(*s)),
{
    let ghost w0 = *w;
    w.write_string_x(s.pump_channel.as_str());
    let ghost w1 = *w;
    w.write_string_list_x(s.pump_channels.as_slice());
    let ghost w2 = *w;
    let flags = signal_source_flags_from(s);
    write_signal_source_flags(w, &flags);
    proof {
        lemma_wrote_all_then(w0, w1, w2, string_fits(s.pump_channel@), string_x_bytes(s.pump_channel@), string_list_fits(texts_of(s.pump_channels@)), string_list_x_bytes(texts_of(s.pump_channels@)));
        lemma_wrote_all_then(w0, w2, *w, head_fits(*s), string_x_bytes(s.pump_channel@) + string_list_x_bytes(texts_of(s.pump_channels@)), true, signal_source_flags_bytes(signal_source_flags_of(*s)));
    }
}

/// Write the keyword strings, the parser record and the alert settings.
fn write_middle(w: &mut ConfigWriter, s: &SignalsSection)
    requires
        old(w).wf(),
    ensures
        final(w).wf(),
        final(w).wrote_all(old(w), middle_fits(*s), middle_bytes(*s)),
{
    let ghost w0 = *w;
    w.write_string_x(s.msg_keywords_long.as_str());
    let ghost w1 = *w;
    w.write_string_x(s.msg_keywords_short.as_str());
    let ghost w2 = *w;
    w.write_string_x(s.msg_token_tags.as_str());
    let ghost w3 = *w;
    w.write_string_x(s.msg_black_words.as_str());
    let ghost w4 = *w;
    write_signal_config(w, &s.signal_config);
    let ghost w5 = *w;
    let alerts = signal_alert_settings_from(s);
    write_signal_alert_settings(w, &alerts);
    proof {
        let a = string_x_bytes(s.msg_keywords_long@);
        let b = string_x_bytes(s.msg_keywords_short@);
        let c = string_x_bytes(s.msg_token_tags@);
        let e = string_x_bytes(s.msg_black_words@);
        let fa = string_fits(s.msg_keywords_long@);
        let fb = string_fits(s.msg_keywords_short@);
        let fc = string_fits(s.msg_token_tags@);
        let fe = string_fits(s.msg_black_words@);
        lemma_wrote_all_then(w0, w1, w2, fa, a, fb, b);
        lemma_wrote_all_then(w0, w2, w3, fa && fb, a + b, fc, c);
        lemma_wrote_all_then(w0, w3, w4, fa && fb && fc, a + b + c, fe, e);
        lemma_wrote_all_then(w0, w4, w5, fa && fb && fc && fe, a + b + c + e, true, signal_config_bytes(s.signal_config));
        lemma_wrote_all_then(w0, w5, *w, fa && fb && fc && fe, a + b + c + e + signal_config_bytes(s.signal_config), true, signal_alert_settings_bytes(signal_alert_settings_of(*s)));
    }
}

/// Write the lower-price words, the buy alert settings and the filters.
fn write_last(w: &mut ConfigWriter, s: &SignalsSection)
    requires
        old(w).wf(),
    ensures
        final(w).wf(),
        final(w).wrote_all(old(w), last_fits(*s), last_bytes(*s)),
{
    let ghost w0 = *w;
    w.write_string_x(s.lower_price_words.as_str());
    let ghost w1 = *w;
    let buys = buy_alert_settings_from(s);
    write_buy_alert_settings(w, &buys);
    let ghost w2 = *w;
    w.write_string_x(s.strats_filter.as_str());
    let ghost w3 = *w;
    w.write_string_x(s.news_tags_filter.as_str());
    let ghost w4 = *w;
    w.write_string_x(s.news_tokens_filter.as_str());
    proof {
        let a = string_x_bytes(s.lower_price_words@);
        let b = buy_alert_settings_bytes(buy_alert_settings_of(*s));
        let c = string_x_bytes(s.strats_filter@);
        let e = string_x_bytes(s.news_tags_filter@);
        let f = string_x_bytes(s.news_tokens_filter@);
        let fa = string_fits(s.lower_price_words@);
        let fc = string_fits(s.strats_filter@);
        let fe = string_fits(s.news_tags_filter@);
        let ff = string_fits(s.news_tokens_filter@);
        lemma_wrote_all_then(w0, w1, w2, fa, a, true, b);
        lemma_wrote_all_then(w0, w2, w3, fa, a + b, fc, c);
        lemma_wrote_all_then(w0, w3, w4, fa && fc, a + b + c, fe, e);
        lemma_wrote_all_then(w0, w4, *w, fa && fc && fe, a + b + c + e, ff, f);
    }
}

/// Write a signals block body.
#[verifier::spinoff_prover]
#[verifier::rlimit(50)]
pub fn write_signals(w: &mut ConfigWriter, s: &SignalsSection)
    requires
        old(w).wf(),
    ensures
        final(w).wf(),
        final(w).wrote_all(old(w), signals_fit(*s), signals_bytes(*s)),
{
    let ghost w0 = *w;
    w.write_u8(2);
    let ghost w1 = *w;
    write_head(w, s);
    let ghost w2 = *w;
    write_middle(w, s);
    let ghost w3 = *w;
    write_last(w, s);
    let ghost w4 = *w;
    w.write_bytes(s.unknown_tail.as_slice());
    proof {
        lemma_wrote_all_of_wrote(w0, w1, seq![2u8]);
        lemma_wrote_all_then(w0, w1, w2, true, seq![2u8], head_fits(*s), head_bytes(*s));
        lemma_wrote_all_then(w0, w2, w3, head_fits(*s), seq![2u8] + head_bytes(*s), middle_fits(*s), middle_bytes(*s));
        lemma_wrote_all_then(w0, w3, w4, head_fits(*s) && middle_fits(*s), seq![2u8] + head_bytes(*s) + middle_bytes(*s), last_fits(*s), last_bytes(*s));
        lemma_wrote_all_of_wrote(w4, *w, s.unknown_tail@);
        lemma_wrote_all_then(w0, w4, *w, signals_fit(*s), seq![2u8] + head_bytes(*s) + middle_bytes(*s) + last_bytes(*s), true, s.unknown_tail@);
    }
}

/// A `StringX` read back from its bytes, in terms of the position functions.
pub proof fn lemma_text_at(x: Seq<char>, d: Seq<u8>, o: int)
    requires
        string_fits(x),
        0 <= o,
        o + string_x_bytes(x).len() <= d.len(),
        d.subrange(o, o + string_x_bytes(x).len()) == string_x_bytes(x),
    ensures
        string_ok(d, o),
        string_end(d, o) == o + string_x_bytes(x).len(),
        text_at(d, o) == x,
{
    lemma_string_x_at(x, d, o);
    reveal(string_ok);
    reveal(string_end);
    reveal(text_at);
}

/// A string list read back from its bytes, in terms of the position functions.
pub proof fn lemma_list_at(v: Seq<Seq<char>>, d: Seq<u8>, o: int)
    requires
        string_list_fits(v),
        0 <= o,
        o + string_list_x_bytes(v).len() <= d.len(),
        d.subrange(o, o + string_list_x_bytes(v).len()) == string_list_x_bytes(v),
    ensures
        list_ok(d, o),
        list_end(d, o) == o + string_list_x_bytes(v).len(),
        list_texts(d, o) == v,
{
    lemma_string_list_x_at(v, d, o);
    reveal(list_ok);
    reveal(list_end);
    reveal(list_texts);
}

/// Two adjacent parts `a` and `b` stored from `o` on, taken out one by one.
pub proof fn lemma_parts_at(d: Seq<u8>, o: int, a: Seq<u8>, b: Seq<u8>)
    requires
        0 <= o,
        o + a.len() + b.len() <= d.len(),
        d.subrange(o, o + a.len() + b.len()) == a + b,
    ensures
        d.subrange(o, o + a.len()) == a,
        d.subrange(o + a.len(), o + a.len() + b.len()) == b,
{
    let all = d.subrange(o, o + a.len() + b.len());
    lemma_seq_split(a, b);
    assert(d.subrange(o, o + a.len()) =~= all.subrange(0, a.len() as int));
    assert(d.subrange(o + a.len(), o + a.len() + b.len()) =~= all.subrange(
        a.len() as int,
        (a.len() + b.len()) as int,
    ));
}

/// The first part of a signals body read back from its bytes.
#[verifier::spinoff_prover]
#[verifier::rlimit(50)]
pub proof fn lemma_head_at(s: SignalsSection, d: Seq<u8>, x: int)
    requires
        head_fits(s),
        0 <= x,
        x + head_bytes(s).len() <= d.len(),
        d.subrange(x, x + head_bytes(s).len()) == head_bytes(s),
    ensures
        head_ok(d, x),
        head_end(d, x) == x + head_bytes(s).len(),
        text_at(d, x) == s.pump_channel@,
        list_texts(d, string_end(d, x)) == texts(s.pump_channels@),
        source_flags_stored(d, list_end(d, string_end(d, x)), s),
{
    let a = string_x_bytes(s.pump_channel@);
    let b = string_list_x_bytes(texts_of(s.pump_channels@));
    let c = signal_source_flags_bytes(signal_source_flags_of(s));
    lemma_parts_at(d, x, a + b, c);
    lemma_parts_at(d, x, a, b);
    lemma_text_at(s.pump_channel@, d, x);
    lemma_list_at(texts_of(s.pump_channels@), d, x + a.len());
    assert(texts(s.pump_channels@) =~= texts_of(s.pump_channels@));
    lemma_signal_source_flags_at(signal_source_flags_of(s), d, x + a.len() + b.len());
    reveal(source_flags_stored);
}

/// The second part of a signals body read back from its bytes.
#[verifier::spinoff_prover]
#[verifier::rlimit(50)]
pub proof fn lemma_middle_at(s: SignalsSection, d: Seq<u8>, x: int)
    requires
        middle_fits(s),
        0 <= x,
        x + middle_bytes(s).len() <= d.len(),
        d.subrange(x, x + middle_bytes(s).len()) == middle_bytes(s),
    ensures
        middle_ok(d, x),
        middle_end(d, x) == x + middle_bytes(s).len(),
        text_at(d, x) == s.msg_keywords_long@,
        text_at(d, string_end(d, x)) == s.msg_keywords_short@,
        text_at(d, string_end(d, string_end(d, x))) == s.msg_token_tags@,
        text_at(d, string_end(d, string_end(d, string_end(d, x)))) == s.msg_black_words@,
        signal_config_at(
            d,
            string_end(d, string_end(d, string_end(d, string_end(d, x)))),
            s.signal_config,
        ),
        alert_settings_stored(
            d,
            string_end(d, string_end(d, string_end(d, string_end(d, x)))) + SIGNAL_CONFIG_LEN,
            s,
        ),
{
    let a = string_x_bytes(s.msg_keywords_long@);
    let b = string_x_bytes(s.msg_keywords_short@);
    let c = string_x_bytes(s.msg_token_tags@);
    let e = string_x_bytes(s.msg_black_words@);
    let f = signal_config_bytes(s.signal_config);
    let g = signal_alert_settings_bytes(signal_alert_settings_of(s));
    lemma_parts_at(d, x, a + b + c + e + f, g);
    lemma_parts_at(d, x, a + b + c + e, f);
    lemma_parts_at(d, x, a + b + c, e);
    lemma_parts_at(d, x, a + b, c);
    lemma_parts_at(d, x, a, b);
    lemma_text_at(s.msg_keywords_long@, d, x);
    lemma_text_at(s.msg_keywords_short@, d, x + a.len());
    lemma_text_at(s.msg_token_tags@, d, x + a.len() + b.len());
    lemma_text_at(s.msg_black_words@, d, x + a.len() + b.len() + c.len());
    lemma_signal_config_at(s.signal_config, d, x + a.len() + b.len() + c.len() + e.len());
    lemma_signal_alert_settings_at(
        signal_alert_settings_of(s),
        d,
        x + a.len() + b.len() + c.len() + e.len() + f.len(),
    );
    reveal(alert_settings_stored);
}

/// The third part of a signals body read back from its bytes.
#[verifier::spinoff_prover]
#[verifier::rlimit(50)]
pub proof fn lemma_last_at(s: SignalsSection, d: Seq<u8>, x: int)
    requires
        last_fits(s),
        0 <= x,
        x + last_bytes(s).len() <= d.len(),
        d.subrange(x, x + last_bytes(s).len()) == last_bytes(s),
    ensures
        last_ok(d, x),
        tail_start(d, x) == x + last_bytes(s).len(),
        text_at(d, x) == s.lower_price_words@,
        buy_alerts_stored(d, buy_alerts_at(d, x), s),
        text_at(d, buy_alerts_at(d, x) + BUY_ALERT_SETTINGS_LEN) == s.strats_filter@,
        text_at(d, string_end(d, buy_alerts_at(d, x) + BUY_ALERT_SETTINGS_LEN))
            == s.news_tags_filter@,
        text_at(
            d,
            string_end(d, string_end(d, buy_alerts_at(d, x) + BUY_ALERT_SETTINGS_LEN)),
        ) == s.news_tokens_filter@,
{
    let a = string_x_bytes(s.lower_price_words@);
    let b = buy_alert_settings_bytes(buy_alert_settings_of(s));
    let c = string_x_bytes(s.strats_filter@);
    let e = string_x_bytes(s.news_tags_filter@);
    let f = string_x_bytes(s.news_tokens_filter@);
    lemma_parts_at(d, x, a + b + c + e, f);
    lemma_parts_at(d, x, a + b + c, e);
    lemma_parts_at(d, x, a + b, c);
    lemma_parts_at(d, x, a, b);
    lemma_text_at(s.lower_price_words@, d, x);
    lemma_buy_alert_settings_at(buy_alert_settings_of(s), d, x + a.len());
    lemma_text_at(s.strats_filter@, d, x + a.len() + b.len());
    lemma_text_at(s.news_tags_filter@, d, x + a.len() + b.len() + c.len());
    lemma_text_at(s.news_tokens_filter@, d, x + a.len() + b.len() + c.len() + e.len());
    reveal(buy_alerts_stored);
}

/// Reading back a written signals block gives the same section, when every
/// string and list fits its limits.
#[verifier::spinoff_prover]
#[verifier::rlimit(50)]
pub proof fn lemma_signals_roundtrip(s: SignalsSection)
    requires
        signals_fit(s),
    ensures
        signals_ok(signals_bytes(s), 0),
        signals_decoded(signals_bytes(s), 0, signals_bytes(s).len() as int, s),
{
    let d = signals_bytes(s);
    let h = head_bytes(s);
    let m = middle_bytes(s);
    let l = last_bytes(s);
    let t = s.unknown_tail@;
    let one = seq![2u8];
    assert(d == one + h + m + l + t);
    assert(d.subrange(0, d.len() as int) =~= d);
    lemma_parts_at(d, 0, one + h + m + l, t);
    lemma_parts_at(d, 0, one + h + m, l);
    lemma_parts_at(d, 0, one + h, m);
    lemma_parts_at(d, 0, one, h);
    assert(d[0] == d.subrange(0, 1)[0]);
    lemma_head_at(s, d, 1);
    lemma_middle_at(s, d, (1 + h.len()) as int);
    lemma_last_at(s, d, (1 + h.len() + m.len()) as int);
    let q = (1 + h.len() + m.len() + l.len()) as int;
    if q >= d.len() {
        assert(t =~= Seq::<u8>::empty());
    } else {
        assert(d.subrange(q, d.len() as int) == t);
    }
}

} // verus!
