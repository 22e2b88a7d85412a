//! Fixed-layout sub-records whose numeric settings are IEEE-754 values.
//! Each such value is carried as its bit pattern (`u32` for single,
//! `u64` for double precision), so the layout and its round trip are
//! stated exactly, whatever the values mean as numbers.

use crate::le::{le_u16, le_u32, le_u64, lemma_le_u16_roundtrip, lemma_le_u32_roundtrip};
use crate::shared_config::error::SharedConfigError;
use crate::shared_config::reader::{eof_msg, i32_at, u16_at, u16s_at, u32_at, u32s_at, u64_at, u64s_at, ConfigReader};
use crate::shared_config::writer::{
    bool_byte, flag_of, lemma_bool_byte, lemma_u32s_bytes_len, lemma_u64s_bytes_len, lemma_units_bytes_len,
    lemma_wrote_all_of_wrote, lemma_wrote_all_then, u32s_bytes, u64s_bytes, units_bytes, ConfigWriter,
};
use crate::shared_config::codec_lemmas::{
    lemma_le_i32_roundtrip, lemma_seq_split, lemma_subrange_of_prefix, lemma_u16s_at_units_bytes, lemma_u32s_at_bytes,
    lemma_u64_at_le, lemma_u64s_at_bytes,
};
use vstd::prelude::*;

verus! {

broadcast use {
    crate::le::group_le_len,
};

/// Automatic start, stop, restart, and panic-sell rules.
#[derive(Clone, Copy, Debug)]
pub struct AutoStartConfig {
    /// Auto-start detection on application launch.
    pub auto_start: bool,
    /// Auto-enable detection engine on start.
    pub auto_detect_on: bool,
    /// Auto-enable strategies on start.
    pub strategies_on: bool,
    /// Restrict trading to a time-of-day window.
    pub work_time: bool,
    /// Stop the bot if cumulative loss exceeds threshold.
    pub auto_stop_if_loss: bool,
    /// Remember last running state across restarts.
    pub remember_state: bool,
    /// Sell all positions when loss threshold is hit.
    pub sell_if_loss: bool,
    /// Don't wait for pending sells before stopping.
    pub dont_wait_sells: bool,
    /// Loss threshold amount (in quote currency) that triggers auto-stop.
    /// (IEEE-754 bits of the `f64` value.)
    pub auto_stop_loss: u64,
    /// Enable BTC price panic-sell trigger.
    pub panic_btc: bool,
    /// Enable market (alt) price panic-sell trigger.
    pub panic_market: bool,
    /// Use hourly session window for loss calculation.
    pub auto_stop_if_loss_hours: bool,
    /// Auto-update to new MoonBot releases.
    pub auto_update: bool,
    /// Restart on persistent API errors.
    pub restart_after_err: bool,
    /// Restart on high-latency / ping timeout.
    pub restart_after_ping: bool,
    /// Exclude emulator orders from loss calculation.
    pub ignore_emulator: bool,
    /// Number of trades in the loss-calculation window.
    pub stop_trades: i32,
    /// Seconds to wait before error-triggered restart.
    pub restart_err_time: i32,
    /// Hourly BTC rate drop (%) that triggers the global panic sell.
    /// (IEEE-754 bits of the `f64` value.)
    pub panic_btc_delta: u64,
    /// Hourly average market rate drop (%) that triggers the global panic
    /// sell.
    /// (IEEE-754 bits of the `f64` value.)
    pub panic_market_delta: u64,
    /// Stop detection on persistent errors.
    pub auto_stop_on_errors: bool,
    /// Stop detection on high-latency / ping timeout.
    pub auto_stop_on_ping: bool,
    /// Sell all positions on persistent errors.
    pub sell_all_on_errors: bool,
    /// Sell all positions on ping timeout.
    pub sell_all_on_ping: bool,
    /// Error count that qualifies as "persistent".
    pub errors_level: i32,
    /// Ping (ms) that qualifies as "high latency".
    pub ping_level: i32,
    /// Seconds to wait before ping-triggered restart.
    pub restart_ping_time: i32,
    /// Hourly loss cap for auto-stop (in quote currency).
    /// (IEEE-754 bits of the `f64` value.)
    pub auto_stop_hours_val: u64,
    /// Hours to look back for hourly loss calculation.
    pub stop_hours: i32,
    /// Minimum trades in the hourly window.
    pub stop_hours_trades: i32,
    /// Hourly BTC rate rise (%) that triggers the global panic sell.
    /// (IEEE-754 bits of the `f64` value.)
    pub panic_btc_delta_up: u64,
    /// Work-time window start (fraction of day, e.g. 0.0 = midnight).
    /// (IEEE-754 bits of the `f64` value.)
    pub work_time_from: u64,
    /// Work-time window end (fraction of day, e.g. 0.9999 ≈ 23:59).
    /// (IEEE-754 bits of the `f64` value.)
    pub work_time_to: u64,
}

/// Wire size of [`AutoStartConfig`].
pub const AUTO_START_CONFIG_LEN: usize = 103;

/// Wire bytes of fields `auto_start` to `remember_state` of a [`AutoStartConfig`].
pub open spec fn auto_start_config_part1_bytes(c: AutoStartConfig) -> Seq<u8> {
    seq![bool_byte(c.auto_start)]
        + seq![bool_byte(c.auto_detect_on)]
        + seq![bool_byte(c.strategies_on)]
        + seq![bool_byte(c.work_time)]
        + seq![bool_byte(c.auto_stop_if_loss)]
        + seq![bool_byte(c.remember_state)]
}

/// Whether fields `auto_start` to `remember_state` of `c` are stored at `p`.
pub open spec fn auto_start_config_part1_at(d: Seq<u8>, p: int, c: AutoStartConfig) -> bool {
    &&& c.auto_start == flag_of(d[p])
    &&& c.auto_detect_on == flag_of(d[p + 1])
    &&& c.strategies_on == flag_of(d[p + 2])
    &&& c.work_time == flag_of(d[p + 3])
    &&& c.auto_stop_if_loss == flag_of(d[p + 4])
    &&& c.remember_state == flag_of(d[p + 5])
}

/// Wire bytes of fields `sell_if_loss` to `auto_stop_if_loss_hours` of a [`AutoStartConfig`].
pub open spec fn auto_start_config_part2_bytes(c: AutoStartConfig) -> Seq<u8> {
    seq![bool_byte(c.sell_if_loss)]
        + seq![bool_byte(c.dont_wait_sells)]
        + le_u64(c.auto_stop_loss)
        + seq![bool_byte(c.panic_btc)]
        + seq![bool_byte(c.panic_market)]
        + seq![bool_byte(c.auto_stop_if_loss_hours)]
}

/// Whether fields `sell_if_loss` to `auto_stop_if_loss_hours` of `c` are stored at `p`.
pub open spec fn auto_start_config_part2_at(d: Seq<u8>, p: int, c: AutoStartConfig) -> bool {
    &&& c.sell_if_loss == flag_of(d[p])
    &&& c.dont_wait_sells == flag_of(d[p + 1])
    &&& c.auto_stop_loss == u64_at(d, p + 2)
    &&& c.panic_btc == flag_of(d[p + 10])
    &&& c.panic_market == flag_of(d[p + 11])
    &&& c.auto_stop_if_loss_hours == flag_of(d[p + 12])
}

/// Wire bytes of fields `auto_update` to `restart_err_time` of a [`AutoStartConfig`].
pub open spec fn auto_start_config_part3_bytes(c: AutoStartConfig) -> Seq<u8> {
    seq![bool_byte(c.auto_update)]
        + seq![bool_byte(c.restart_after_err)]
        + seq![bool_byte(c.restart_after_ping)]
        + seq![bool_byte(c.ignore_emulator)]
        + le_u32(c.stop_trades as u32)
        + le_u32(c.restart_err_time as u32)
}

/// Whether fields `auto_update` to `restart_err_time` of `c` are stored at `p`.
pub open spec fn auto_start_config_part3_at(d: Seq<u8>, p: int, c: AutoStartConfig) -> bool {
    &&& c.auto_update == flag_of(d[p])
    &&& c.restart_after_err == flag_of(d[p + 1])
    &&& c.restart_after_ping == flag_of(d[p + 2])
    &&& c.ignore_emulator == flag_of(d[p + 3])
    &&& c.stop_trades == i32_at(d, p + 4)
    &&& c.restart_err_time == i32_at(d, p + 8)
}

/// Wire bytes of fields `panic_btc_delta` to `sell_all_on_ping` of a [`AutoStartConfig`].
pub open spec fn auto_start_config_part4_bytes(c: AutoStartConfig) -> Seq<u8> {
    le_u64(c.panic_btc_delta)
        + le_u64(c.panic_market_delta)
        + seq![bool_byte(c.auto_stop_on_errors)]
        + seq![bool_byte(c.auto_stop_on_ping)]
        + seq![bool_byte(c.sell_all_on_errors)]
        + seq![bool_byte(c.sell_all_on_ping)]
}

/// Whether fields `panic_btc_delta` to `sell_all_on_ping` of `c` are stored at `p`.
pub open spec fn auto_start_config_part4_at(d: Seq<u8>, p: int, c: AutoStartConfig) -> bool {
    &&& c.panic_btc_delta == u64_at(d, p)
    &&& c.panic_market_delta == u64_at(d, p + 8)
    &&& c.auto_stop_on_errors == flag_of(d[p + 16])
    &&& c.auto_stop_on_ping == flag_of(d[p + 17])
    &&& c.sell_all_on_errors == flag_of(d[p + 18])
    &&& c.sell_all_on_ping == flag_of(d[p + 19])
}

/// Wire bytes of fields `errors_level` to `stop_hours_trades` of a [`AutoStartConfig`].
pub open spec fn auto_start_config_part5_bytes(c: AutoStartConfig) -> Seq<u8> {
    le_u32(c.errors_level as u32)
        + le_u32(c.ping_level as u32)
        + le_u32(c.restart_ping_time as u32)
        + le_u64(c.auto_stop_hours_val)
        + le_u32(c.stop_hours as u32)
        + le_u32(c.stop_hours_trades as u32)
}

/// Whether fields `errors_level` to `stop_hours_trades` of `c` are stored at `p`.
pub open spec fn auto_start_config_part5_at(d: Seq<u8>, p: int, c: AutoStartConfig) -> bool {
    &&& c.errors_level == i32_at(d, p)
    &&& c.ping_level == i32_at(d, p + 4)
    &&& c.restart_ping_time == i32_at(d, p + 8)
    &&& c.auto_stop_hours_val == u64_at(d, p + 12)
    &&& c.stop_hours == i32_at(d, p + 20)
    &&& c.stop_hours_trades == i32_at(d, p + 24)
}

/// Wire bytes of fields `panic_btc_delta_up` to `work_time_to` of a [`AutoStartConfig`].
pub open spec fn auto_start_config_part6_bytes(c: AutoStartConfig) -> Seq<u8> {
    le_u64(c.panic_btc_delta_up)
        + le_u64(c.work_time_from)
        + le_u64(c.work_time_to)
}

/// Whether fields `panic_btc_delta_up` to `work_time_to` of `c` are stored at `p`.
pub open spec fn auto_start_config_part6_at(d: Seq<u8>, p: int, c: AutoStartConfig) -> bool {
    &&& c.panic_btc_delta_up == u64_at(d, p)
    &&& c.work_time_from == u64_at(d, p + 8)
    &&& c.work_time_to == u64_at(d, p + 16)
}

/// Wire bytes of a [`AutoStartConfig`], field after field.
pub open spec fn auto_start_config_bytes(c: AutoStartConfig) -> Seq<u8> {
    auto_start_config_part1_bytes(c)
        + auto_start_config_part2_bytes(c)
        + auto_start_config_part3_bytes(c)
        + auto_start_config_part4_bytes(c)
        + auto_start_config_part5_bytes(c)
        + auto_start_config_part6_bytes(c)
}

/// Whether `c` is the [`AutoStartConfig`] stored at `p`.
pub open spec fn auto_start_config_at(d: Seq<u8>, p: int, c: AutoStartConfig) -> bool {
    &&& auto_start_config_part1_at(d, p, c)
    &&& auto_start_config_part2_at(d, p + 6, c)
    &&& auto_start_config_part3_at(d, p + 19, c)
    &&& auto_start_config_part4_at(d, p + 31, c)
    &&& auto_start_config_part5_at(d, p + 51, c)
    &&& auto_start_config_part6_at(d, p + 79, c)
}

/// Read a [`AutoStartConfig`].
pub fn read_auto_start_config(r: &mut ConfigReader) -> (res: Result<AutoStartConfig, SharedConfigError>)
    ensures
        final(r).bytes() == old(r).bytes(),
        old(r).at() + AUTO_START_CONFIG_LEN <= old(r).bytes().len() ==> (res matches Ok(c) && auto_start_config_at(
            old(r).bytes(),
            old(r).at(),
            c,
        ) && final(r).at() == old(r).at() + AUTO_START_CONFIG_LEN),
        old(r).at() + AUTO_START_CONFIG_LEN > old(r).bytes().len() ==> (res matches Err(e) && e@ == eof_msg()),
{
    Ok(AutoStartConfig {
        auto_start: r.read_bool()?,
        auto_detect_on: r.read_bool()?,
        strategies_on: r.read_bool()?,
        work_time: r.read_bool()?,
        auto_stop_if_loss: r.read_bool()?,
        remember_state: r.read_bool()?,
        sell_if_loss: r.read_bool()?,
        dont_wait_sells: r.read_bool()?,
        auto_stop_loss: r.read_u64()?,
        panic_btc: r.read_bool()?,
        panic_market: r.read_bool()?,
        auto_stop_if_loss_hours: r.read_bool()?,
        auto_update: r.read_bool()?,
        restart_after_err: r.read_bool()?,
        restart_after_ping: r.read_bool()?,
        ignore_emulator: r.read_bool()?,
        stop_trades: r.read_i32()?,
        restart_err_time: r.read_i32()?,
        panic_btc_delta: r.read_u64()?,
        panic_market_delta: r.read_u64()?,
        auto_stop_on_errors: r.read_bool()?,
        auto_stop_on_ping: r.read_bool()?,
        sell_all_on_errors: r.read_bool()?,
        sell_all_on_ping: r.read_bool()?,
        errors_level: r.read_i32()?,
        ping_level: r.read_i32()?,
        restart_ping_time: r.read_i32()?,
        auto_stop_hours_val: r.read_u64()?,
        stop_hours: r.read_i32()?,
        stop_hours_trades: r.read_i32()?,
        panic_btc_delta_up: r.read_u64()?,
        work_time_from: r.read_u64()?,
        work_time_to: r.read_u64()?,
    })
}

/// Write fields `auto_start` to `remember_state` of a [`AutoStartConfig`].
fn write_auto_start_config_part1(w: &mut ConfigWriter, c: &AutoStartConfig)
    requires
        old(w).wf(),
    ensures
        final(w).wf(),
        final(w).wrote_all(old(w), true, auto_start_config_part1_bytes(*c)),
{
    let ghost w0 = *w;
    let ghost wb = *w;
    w.write_bool(c.auto_start);
    proof { lemma_wrote_all_of_wrote(wb, *w, seq![bool_byte(c.auto_start)]); }
    let ghost wb = *w;
    w.write_bool(c.auto_detect_on);
    proof {
        lemma_wrote_all_of_wrote(wb, *w, seq![bool_byte(c.auto_detect_on)]);
        lemma_wrote_all_then(w0, wb, *w, true, seq![bool_byte(c.auto_start)], true, seq![bool_byte(c.auto_detect_on)]);
    }
    let ghost wb = *w;
    w.write_bool(c.strategies_on);
    proof {
        lemma_wrote_all_of_wrote(wb, *w, seq![bool_byte(c.strategies_on)]);
        lemma_wrote_all_then(w0, wb, *w, true, seq![bool_byte(c.auto_start)] + seq![bool_byte(c.auto_detect_on)], true, seq![bool_byte(c.strategies_on)]);
    }
    let ghost wb = *w;
    w.write_bool(c.work_time);
    proof {
        lemma_wrote_all_of_wrote(wb, *w, seq![bool_byte(c.work_time)]);
        lemma_wrote_all_then(w0, wb, *w, true, seq![bool_byte(c.auto_start)] + seq![bool_byte(c.auto_detect_on)] + seq![bool_byte(c.strategies_on)], true, seq![bool_byte(c.work_time)]);
    }
    let ghost wb = *w;
    w.write_bool(c.auto_stop_if_loss);
    proof {
        lemma_wrote_all_of_wrote(wb, *w, seq![bool_byte(c.auto_stop_if_loss)]);
        lemma_wrote_all_then(w0, wb, *w, true, seq![bool_byte(c.auto_start)] + seq![bool_byte(c.auto_detect_on)] + seq![bool_byte(c.strategies_on)] + seq![bool_byte(c.work_time)], true, seq![bool_byte(c.auto_stop_if_loss)]);
    }
    let ghost wb = *w;
    w.write_bool(c.remember_state);
    proof {
        lemma_wrote_all_of_wrote(wb, *w, seq![bool_byte(c.remember_state)]);
        lemma_wrote_all_then(w0, wb, *w, true, seq![bool_byte(c.auto_start)] + seq![bool_byte(c.auto_detect_on)] + seq![bool_byte(c.strategies_on)] + seq![bool_byte(c.work_time)] + seq![bool_byte(c.auto_stop_if_loss)], true, seq![bool_byte(c.remember_state)]);
    }
}

/// Write fields `sell_if_loss` to `auto_stop_if_loss_hours` of a [`AutoStartConfig`].
fn write_auto_start_config_part2(w: &mut ConfigWriter, c: &AutoStartConfig)
    requires
        old(w).wf(),
    ensures
        final(w).wf(),
        final(w).wrote_all(old(w), true, auto_start_config_part2_bytes(*c)),
{
    let ghost w0 = *w;
    let ghost wb = *w;
    w.write_bool(c.sell_if_loss);
    proof { lemma_wrote_all_of_wrote(wb, *w, seq![bool_byte(c.sell_if_loss)]); }
    let ghost wb = *w;
    w.write_bool(c.dont_wait_sells);
    proof {
        lemma_wrote_all_of_wrote(wb, *w, seq![bool_byte(c.dont_wait_sells)]);
        lemma_wrote_all_then(w0, wb, *w, true, seq![bool_byte(c.sell_if_loss)], true, seq![bool_byte(c.dont_wait_sells)]);
    }
    let ghost wb = *w;
    w.write_u64(c.auto_stop_loss);
    proof {
        lemma_wrote_all_of_wrote(wb, *w, le_u64(c.auto_stop_loss));
        lemma_wrote_all_then(w0, wb, *w, true, seq![bool_byte(c.sell_if_loss)] + seq![bool_byte(c.dont_wait_sells)], true, le_u64(c.auto_stop_loss));
    }
    let ghost wb = *w;
    w.write_bool(c.panic_btc);
    proof {
        lemma_wrote_all_of_wrote(wb, *w, seq![bool_byte(c.panic_btc)]);
        lemma_wrote_all_then(w0, wb, *w, true, seq![bool_byte(c.sell_if_loss)] + seq![bool_byte(c.dont_wait_sells)] + le_u64(c.auto_stop_loss), true, seq![bool_byte(c.panic_btc)]);
    }
    let ghost wb = *w;
    w.write_bool(c.panic_market);
    proof {
        lemma_wrote_all_of_wrote(wb, *w, seq![bool_byte(c.panic_market)]);
        lemma_wrote_all_then(w0, wb, *w, true, seq![bool_byte(c.sell_if_loss)] + seq![bool_byte(c.dont_wait_sells)] + le_u64(c.auto_stop_loss) + seq![bool_byte(c.panic_btc)], true, seq![bool_byte(c.panic_market)]);
    }
    let ghost wb = *w;
    w.write_bool(c.auto_stop_if_loss_hours);
    proof {
        lemma_wrote_all_of_wrote(wb, *w, seq![bool_byte(c.auto_stop_if_loss_hours)]);
        lemma_wrote_all_then(w0, wb, *w, true, seq![bool_byte(c.sell_if_loss)] + seq![bool_byte(c.dont_wait_sells)] + le_u64(c.auto_stop_loss) + seq![bool_byte(c.panic_btc)] + seq![bool_byte(c.panic_market)], true, seq![bool_byte(c.auto_stop_if_loss_hours)]);
    }
}

/// Write fields `auto_update` to `restart_err_time` of a [`AutoStartConfig`].
fn write_auto_start_config_part3(w: &mut ConfigWriter, c: &AutoStartConfig)
    requires
        old(w).wf(),
    ensures
        final(w).wf(),
        final(w).wrote_all(old(w), true, auto_start_config_part3_bytes(*c)),
{
    let ghost w0 = *w;
    let ghost wb = *w;
    w.write_bool(c.auto_update);
    proof { lemma_wrote_all_of_wrote(wb, *w, seq![bool_byte(c.auto_update)]); }
    let ghost wb = *w;
    w.write_bool(c.restart_after_err);
    proof {
        lemma_wrote_all_of_wrote(wb, *w, seq![bool_byte(c.restart_after_err)]);
        lemma_wrote_all_then(w0, wb, *w, true, seq![bool_byte(c.auto_update)], true, seq![bool_byte(c.restart_after_err)]);
    }
    let ghost wb = *w;
    w.write_bool(c.restart_after_ping);
    proof {
        lemma_wrote_all_of_wrote(wb, *w, seq![bool_byte(c.restart_after_ping)]);
        lemma_wrote_all_then(w0, wb, *w, true, seq![bool_byte(c.auto_update)] + seq![bool_byte(c.restart_after_err)], true, seq![bool_byte(c.restart_after_ping)]);
    }
    let ghost wb = *w;
    w.write_bool(c.ignore_emulator);
    proof {
        lemma_wrote_all_of_wrote(wb, *w, seq![bool_byte(c.ignore_emulator)]);
        lemma_wrote_all_then(w0, wb, *w, true, seq![bool_byte(c.auto_update)] + seq![bool_byte(c.restart_after_err)] + seq![bool_byte(c.restart_after_ping)], true, seq![bool_byte(c.ignore_emulator)]);
    }
    let ghost wb = *w;
    w.write_i32(c.stop_trades);
    proof {
        lemma_wrote_all_of_wrote(wb, *w, le_u32(c.stop_trades as u32));
        lemma_wrote_all_then(w0, wb, *w, true, seq![bool_byte(c.auto_update)] + seq![bool_byte(c.restart_after_err)] + seq![bool_byte(c.restart_after_ping)] + seq![bool_byte(c.ignore_emulator)], true, le_u32(c.stop_trades as u32));
    }
    let ghost wb = *w;
    w.write_i32(c.restart_err_time);
    proof {
        lemma_wrote_all_of_wrote(wb, *w, le_u32(c.restart_err_time as u32));
        lemma_wrote_all_then(w0, wb, *w, true, seq![bool_byte(c.auto_update)] + seq![bool_byte(c.restart_after_err)] + seq![bool_byte(c.restart_after_ping)] + seq![bool_byte(c.ignore_emulator)] + le_u32(c.stop_trades as u32), true, le_u32(c.restart_err_time as u32));
    }
}

/// Write fields `panic_btc_delta` to `sell_all_on_ping` of a [`AutoStartConfig`].
fn write_auto_start_config_part4(w: &mut ConfigWriter, c: &AutoStartConfig)
    requires
        old(w).wf(),
    ensures
        final(w).wf(),
        final(w).wrote_all(old(w), true, auto_start_config_part4_bytes(*c)),
{
    let ghost w0 = *w;
    let ghost wb = *w;
    w.write_u64(c.panic_btc_delta);
    proof { lemma_wrote_all_of_wrote(wb, *w, le_u64(c.panic_btc_delta)); }
    let ghost wb = *w;
    w.write_u64(c.panic_market_delta);
    proof {
        lemma_wrote_all_of_wrote(wb, *w, le_u64(c.panic_market_delta));
        lemma_wrote_all_then(w0, wb, *w, true, le_u64(c.panic_btc_delta), true, le_u64(c.panic_market_delta));
    }
    let ghost wb = *w;
    w.write_bool(c.auto_stop_on_errors);
    proof {
        lemma_wrote_all_of_wrote(wb, *w, seq![bool_byte(c.auto_stop_on_errors)]);
        lemma_wrote_all_then(w0, wb, *w, true, le_u64(c.panic_btc_delta) + le_u64(c.panic_market_delta), true, seq![bool_byte(c.auto_stop_on_errors)]);
    }
    let ghost wb = *w;
    w.write_bool(c.auto_stop_on_ping);
    proof {
        lemma_wrote_all_of_wrote(wb, *w, seq![bool_byte(c.auto_stop_on_ping)]);
        lemma_wrote_all_then(w0, wb, *w, true, le_u64(c.panic_btc_delta) + le_u64(c.panic_market_delta) + seq![bool_byte(c.auto_stop_on_errors)], true, seq![bool_byte(c.auto_stop_on_ping)]);
    }
    let ghost wb = *w;
    w.write_bool(c.sell_all_on_errors);
    proof {
        lemma_wrote_all_of_wrote(wb, *w, seq![bool_byte(c.sell_all_on_errors)]);
        lemma_wrote_all_then(w0, wb, *w, true, le_u64(c.panic_btc_delta) + le_u64(c.panic_market_delta) + seq![bool_byte(c.auto_stop_on_errors)] + seq![bool_byte(c.auto_stop_on_ping)], true, seq![bool_byte(c.sell_all_on_errors)]);
    }
    let ghost wb = *w;
    w.write_bool(c.sell_all_on_ping);
    proof {
        lemma_wrote_all_of_wrote(wb, *w, seq![bool_byte(c.sell_all_on_ping)]);
        lemma_wrote_all_then(w0, wb, *w, true, le_u64(c.panic_btc_delta) + le_u64(c.panic_market_delta) + seq![bool_byte(c.auto_stop_on_errors)] + seq![bool_byte(c.auto_stop_on_ping)] + seq![bool_byte(c.sell_all_on_errors)], true, seq![bool_byte(c.sell_all_on_ping)]);
    }
}

/// Write fields `errors_level` to `stop_hours_trades` of a [`AutoStartConfig`].
fn write_auto_start_config_part5(w: &mut ConfigWriter, c: &AutoStartConfig)
    requires
        old(w).wf(),
    ensures
        final(w).wf(),
        final(w).wrote_all(old(w), true, auto_start_config_part5_bytes(*c)),
{
    let ghost w0 = *w;
    let ghost wb = *w;
    w.write_i32(c.errors_level);
    proof { lemma_wrote_all_of_wrote(wb, *w, le_u32(c.errors_level as u32)); }
    let ghost wb = *w;
    w.write_i32(c.ping_level);
    proof {
        lemma_wrote_all_of_wrote(wb, *w, le_u32(c.ping_level as u32));
        lemma_wrote_all_then(w0, wb, *w, true, le_u32(c.errors_level as u32), true, le_u32(c.ping_level as u32));
    }
    let ghost wb = *w;
    w.write_i32(c.restart_ping_time);
    proof {
        lemma_wrote_all_of_wrote(wb, *w, le_u32(c.restart_ping_time as u32));
        lemma_wrote_all_then(w0, wb, *w, true, le_u32(c.errors_level as u32) + le_u32(c.ping_level as u32), true, le_u32(c.restart_ping_time as u32));
    }
    let ghost wb = *w;
    w.write_u64(c.auto_stop_hours_val);
    proof {
        lemma_wrote_all_of_wrote(wb, *w, le_u64(c.auto_stop_hours_val));
        lemma_wrote_all_then(w0, wb, *w, true, le_u32(c.errors_level as u32) + le_u32(c.ping_level as u32) + le_u32(c.restart_ping_time as u32), true, le_u64(c.auto_stop_hours_val));
    }
    let ghost wb = *w;
    w.write_i32(c.stop_hours);
    proof {
        lemma_wrote_all_of_wrote(wb, *w, le_u32(c.stop_hours as u32));
        lemma_wrote_all_then(w0, wb, *w, true, le_u32(c.errors_level as u32) + le_u32(c.ping_level as u32) + le_u32(c.restart_ping_time as u32) + le_u64(c.auto_stop_hours_val), true, le_u32(c.stop_hours as u32));
    }
    let ghost wb = *w;
    w.write_i32(c.stop_hours_trades);
    proof {
        lemma_wrote_all_of_wrote(wb, *w, le_u32(c.stop_hours_trades as u32));
        lemma_wrote_all_then(w0, wb, *w, true, le_u32(c.errors_level as u32) + le_u32(c.ping_level as u32) + le_u32(c.restart_ping_time as u32) + le_u64(c.auto_stop_hours_val) + le_u32(c.stop_hours as u32), true, le_u32(c.stop_hours_trades as u32));
    }
}

/// Write fields `panic_btc_delta_up` to `work_time_to` of a [`AutoStartConfig`].
fn write_auto_start_config_part6(w: &mut ConfigWriter, c: &AutoStartConfig)
    requires
        old(w).wf(),
    ensures
        final(w).wf(),
        final(w).wrote_all(old(w), true, auto_start_config_part6_bytes(*c)),
{
    let ghost w0 = *w;
    let ghost wb = *w;
    w.write_u64(c.panic_btc_delta_up);
    proof { lemma_wrote_all_of_wrote(wb, *w, le_u64(c.panic_btc_delta_up)); }
    let ghost wb = *w;
    w.write_u64(c.work_time_from);
    proof {
        lemma_wrote_all_of_wrote(wb, *w, le_u64(c.work_time_from));
        lemma_wrote_all_then(w0, wb, *w, true, le_u64(c.panic_btc_delta_up), true, le_u64(c.work_time_from));
    }
    let ghost wb = *w;
    w.write_u64(c.work_time_to);
    proof {
        lemma_wrote_all_of_wrote(wb, *w, le_u64(c.work_time_to));
        lemma_wrote_all_then(w0, wb, *w, true, le_u64(c.panic_btc_delta_up) + le_u64(c.work_time_from), true, le_u64(c.work_time_to));
    }
}

/// Write a [`AutoStartConfig`].
pub fn write_auto_start_config(w: &mut ConfigWriter, c: &AutoStartConfig)
    requires
        old(w).wf(),
    ensures
        final(w).wf(),
        final(w).wrote_all(old(w), true, auto_start_config_bytes(*c)),
{
    let ghost w0 = *w;
    let ghost wb = *w;
    write_auto_start_config_part1(w, c);
    let ghost wb = *w;
    write_auto_start_config_part2(w, c);
    proof { lemma_wrote_all_then(w0, wb, *w, true, auto_start_config_part1_bytes(*c), true, auto_start_config_part2_bytes(*c)); }
    let ghost wb = *w;
    write_auto_start_config_part3(w, c);
    proof { lemma_wrote_all_then(w0, wb, *w, true, auto_start_config_part1_bytes(*c) + auto_start_config_part2_bytes(*c), true, auto_start_config_part3_bytes(*c)); }
    let ghost wb = *w;
    write_auto_start_config_part4(w, c);
    proof { lemma_wrote_all_then(w0, wb, *w, true, auto_start_config_part1_bytes(*c) + auto_start_config_part2_bytes(*c) + auto_start_config_part3_bytes(*c), true, auto_start_config_part4_bytes(*c)); }
    let ghost wb = *w;
    write_auto_start_config_part5(w, c);
    proof { lemma_wrote_all_then(w0, wb, *w, true, auto_start_config_part1_bytes(*c) + auto_start_config_part2_bytes(*c) + auto_start_config_part3_bytes(*c) + auto_start_config_part4_bytes(*c), true, auto_start_config_part5_bytes(*c)); }
    let ghost wb = *w;
    write_auto_start_config_part6(w, c);
    proof { lemma_wrote_all_then(w0, wb, *w, true, auto_start_config_part1_bytes(*c) + auto_start_config_part2_bytes(*c) + auto_start_config_part3_bytes(*c) + auto_start_config_part4_bytes(*c) + auto_start_config_part5_bytes(*c), true, auto_start_config_part6_bytes(*c)); }
}

/// Fields `auto_start` to `remember_state` read back from their bytes.
pub proof fn lemma_auto_start_config_part1_at(c: AutoStartConfig, d: Seq<u8>, o: int)
    requires
        0 <= o,
        o + 6 <= d.len(),
        d.subrange(o, o + 6) == auto_start_config_part1_bytes(c),
    ensures
        auto_start_config_part1_bytes(c).len() == 6,
        auto_start_config_part1_at(d, o, c),
{
    let b0 = seq![bool_byte(c.auto_start)];
    let b1 = b0 + seq![bool_byte(c.auto_detect_on)];
    let b2 = b1 + seq![bool_byte(c.strategies_on)];
    let b3 = b2 + seq![bool_byte(c.work_time)];
    let b4 = b3 + seq![bool_byte(c.auto_stop_if_loss)];
    let b5 = b4 + seq![bool_byte(c.remember_state)];
    let e = d.subrange(o, o + 6);
    assert(e == b5);
    lemma_seq_split(b4, seq![bool_byte(c.remember_state)]);
    lemma_subrange_of_prefix(e, 6, 0, 5);
    lemma_subrange_of_prefix(e, 6, 5, 6);
    lemma_seq_split(b3, seq![bool_byte(c.auto_stop_if_loss)]);
    lemma_subrange_of_prefix(e, 5, 0, 4);
    lemma_subrange_of_prefix(e, 5, 4, 5);
    lemma_seq_split(b2, seq![bool_byte(c.work_time)]);
    lemma_subrange_of_prefix(e, 4, 0, 3);
    lemma_subrange_of_prefix(e, 4, 3, 4);
    lemma_seq_split(b1, seq![bool_byte(c.strategies_on)]);
    lemma_subrange_of_prefix(e, 3, 0, 2);
    lemma_subrange_of_prefix(e, 3, 2, 3);
    lemma_seq_split(b0, seq![bool_byte(c.auto_detect_on)]);
    lemma_subrange_of_prefix(e, 2, 0, 1);
    lemma_subrange_of_prefix(e, 2, 1, 2);
    assert(e.subrange(0, 1) == seq![bool_byte(c.auto_start)]);
    assert(d[o + 0] == e.subrange(0, 1)[0]);
    lemma_bool_byte(c.auto_start);
    assert(e.subrange(1, 2) == seq![bool_byte(c.auto_detect_on)]);
    assert(d[o + 1] == e.subrange(1, 2)[0]);
    lemma_bool_byte(c.auto_detect_on);
    assert(e.subrange(2, 3) == seq![bool_byte(c.strategies_on)]);
    assert(d[o + 2] == e.subrange(2, 3)[0]);
    lemma_bool_byte(c.strategies_on);
    assert(e.subrange(3, 4) == seq![bool_byte(c.work_time)]);
    assert(d[o + 3] == e.subrange(3, 4)[0]);
    lemma_bool_byte(c.work_time);
    assert(e.subrange(4, 5) == seq![bool_byte(c.auto_stop_if_loss)]);
    assert(d[o + 4] == e.subrange(4, 5)[0]);
    lemma_bool_byte(c.auto_stop_if_loss);
    assert(e.subrange(5, 6) == seq![bool_byte(c.remember_state)]);
    assert(d[o + 5] == e.subrange(5, 6)[0]);
    lemma_bool_byte(c.remember_state);
}

/// Fields `sell_if_loss` to `auto_stop_if_loss_hours` read back from their bytes.
pub proof fn lemma_auto_start_config_part2_at(c: AutoStartConfig, d: Seq<u8>, o: int)
    requires
        0 <= o,
        o + 13 <= d.len(),
        d.subrange(o, o + 13) == auto_start_config_part2_bytes(c),
    ensures
        auto_start_config_part2_bytes(c).len() == 13,
        auto_start_config_part2_at(d, o, c),
{
    let b0 = seq![bool_byte(c.sell_if_loss)];
    let b1 = b0 + seq![bool_byte(c.dont_wait_sells)];
    let b2 = b1 + le_u64(c.auto_stop_loss);
    let b3 = b2 + seq![bool_byte(c.panic_btc)];
    let b4 = b3 + seq![bool_byte(c.panic_market)];
    let b5 = b4 + seq![bool_byte(c.auto_stop_if_loss_hours)];
    let e = d.subrange(o, o + 13);
    assert(e == b5);
    lemma_seq_split(b4, seq![bool_byte(c.auto_stop_if_loss_hours)]);
    lemma_subrange_of_prefix(e, 13, 0, 12);
    lemma_subrange_of_prefix(e, 13, 12, 13);
    lemma_seq_split(b3, seq![bool_byte(c.panic_market)]);
    lemma_subrange_of_prefix(e, 12, 0, 11);
    lemma_subrange_of_prefix(e, 12, 11, 12);
    lemma_seq_split(b2, seq![bool_byte(c.panic_btc)]);
    lemma_subrange_of_prefix(e, 11, 0, 10);
    lemma_subrange_of_prefix(e, 11, 10, 11);
    lemma_seq_split(b1, le_u64(c.auto_stop_loss));
    lemma_subrange_of_prefix(e, 10, 0, 2);
    lemma_subrange_of_prefix(e, 10, 2, 10);
    lemma_seq_split(b0, seq![bool_byte(c.dont_wait_sells)]);
    lemma_subrange_of_prefix(e, 2, 0, 1);
    lemma_subrange_of_prefix(e, 2, 1, 2);
    assert(e.subrange(0, 1) == seq![bool_byte(c.sell_if_loss)]);
    assert(d[o + 0] == e.subrange(0, 1)[0]);
    lemma_bool_byte(c.sell_if_loss);
    assert(e.subrange(1, 2) == seq![bool_byte(c.dont_wait_sells)]);
    assert(d[o + 1] == e.subrange(1, 2)[0]);
    lemma_bool_byte(c.dont_wait_sells);
    assert(e.subrange(2, 10) == le_u64(c.auto_stop_loss));
    assert(d.subrange(o + 2, o + 10) =~= e.subrange(2, 10));
    lemma_u64_at_le(c.auto_stop_loss, d, o + 2);
    assert(e.subrange(10, 11) == seq![bool_byte(c.panic_btc)]);
    assert(d[o + 10] == e.subrange(10, 11)[0]);
    lemma_bool_byte(c.panic_btc);
    assert(e.subrange(11, 12) == seq![bool_byte(c.panic_market)]);
    assert(d[o + 11] == e.subrange(11, 12)[0]);
    lemma_bool_byte(c.panic_market);
    assert(e.subrange(12, 13) == seq![bool_byte(c.auto_stop_if_loss_hours)]);
    assert(d[o + 12] == e.subrange(12, 13)[0]);
    lemma_bool_byte(c.auto_stop_if_loss_hours);
}

/// Fields `auto_update` to `restart_err_time` read back from their bytes.
pub proof fn lemma_auto_start_config_part3_at(c: AutoStartConfig, d: Seq<u8>, o: int)
    requires
        0 <= o,
        o + 12 <= d.len(),
        d.subrange(o, o + 12) == auto_start_config_part3_bytes(c),
    ensures
        auto_start_config_part3_bytes(c).len() == 12,
        auto_start_config_part3_at(d, o, c),
{
    let b0 = seq![bool_byte(c.auto_update)];
    let b1 = b0 + seq![bool_byte(c.restart_after_err)];
    let b2 = b1 + seq![bool_byte(c.restart_after_ping)];
    let b3 = b2 + seq![bool_byte(c.ignore_emulator)];
    let b4 = b3 + le_u32(c.stop_trades as u32);
    let b5 = b4 + le_u32(c.restart_err_time as u32);
    let e = d.subrange(o, o + 12);
    assert(e == b5);
    lemma_seq_split(b4, le_u32(c.restart_err_time as u32));
    lemma_subrange_of_prefix(e, 12, 0, 8);
    lemma_subrange_of_prefix(e, 12, 8, 12);
    lemma_seq_split(b3, le_u32(c.stop_trades as u32));
    lemma_subrange_of_prefix(e, 8, 0, 4);
    lemma_subrange_of_prefix(e, 8, 4, 8);
    lemma_seq_split(b2, seq![bool_byte(c.ignore_emulator)]);
    lemma_subrange_of_prefix(e, 4, 0, 3);
    lemma_subrange_of_prefix(e, 4, 3, 4);
    lemma_seq_split(b1, seq![bool_byte(c.restart_after_ping)]);
    lemma_subrange_of_prefix(e, 3, 0, 2);
    lemma_subrange_of_prefix(e, 3, 2, 3);
    lemma_seq_split(b0, seq![bool_byte(c.restart_after_err)]);
    lemma_subrange_of_prefix(e, 2, 0, 1);
    lemma_subrange_of_prefix(e, 2, 1, 2);
    assert(e.subrange(0, 1) == seq![bool_byte(c.auto_update)]);
    assert(d[o + 0] == e.subrange(0, 1)[0]);
    lemma_bool_byte(c.auto_update);
    assert(e.subrange(1, 2) == seq![bool_byte(c.restart_after_err)]);
    assert(d[o + 1] == e.subrange(1, 2)[0]);
    lemma_bool_byte(c.restart_after_err);
    assert(e.subrange(2, 3) == seq![bool_byte(c.restart_after_ping)]);
    assert(d[o + 2] == e.subrange(2, 3)[0]);
    lemma_bool_byte(c.restart_after_ping);
    assert(e.subrange(3, 4) == seq![bool_byte(c.ignore_emulator)]);
    assert(d[o + 3] == e.subrange(3, 4)[0]);
    lemma_bool_byte(c.ignore_emulator);
    assert(e.subrange(4, 8) == le_u32(c.stop_trades as u32));
    lemma_le_i32_roundtrip(c.stop_trades);
    assert(d[o + 4] == e.subrange(4, 8)[0] && d[o + 5] == e.subrange(4, 8)[1] && d[o + 6] == e.subrange(4, 8)[2] && d[o + 7] == e.subrange(4, 8)[3]);
    assert(e.subrange(8, 12) == le_u32(c.restart_err_time as u32));
    lemma_le_i32_roundtrip(c.restart_err_time);
    assert(d[o + 8] == e.subrange(8, 12)[0] && d[o + 9] == e.subrange(8, 12)[1] && d[o + 10] == e.subrange(8, 12)[2] && d[o + 11] == e.subrange(8, 12)[3]);
}

/// Fields `panic_btc_delta` to `sell_all_on_ping` read back from their bytes.
pub proof fn lemma_auto_start_config_part4_at(c: AutoStartConfig, d: Seq<u8>, o: int)
    requires
        0 <= o,
        o + 20 <= d.len(),
        d.subrange(o, o + 20) == auto_start_config_part4_bytes(c),
    ensures
        auto_start_config_part4_bytes(c).len() == 20,
        auto_start_config_part4_at(d, o, c),
{
    let b0 = le_u64(c.panic_btc_delta);
    let b1 = b0 + le_u64(c.panic_market_delta);
    let b2 = b1 + seq![bool_byte(c.auto_stop_on_errors)];
    let b3 = b2 + seq![bool_byte(c.auto_stop_on_ping)];
    let b4 = b3 + seq![bool_byte(c.sell_all_on_errors)];
    let b5 = b4 + seq![bool_byte(c.sell_all_on_ping)];
    let e = d.subrange(o, o + 20);
    assert(e == b5);
    lemma_seq_split(b4, seq![bool_byte(c.sell_all_on_ping)]);
    lemma_subrange_of_prefix(e, 20, 0, 19);
    lemma_subrange_of_prefix(e, 20, 19, 20);
    lemma_seq_split(b3, seq![bool_byte(c.sell_all_on_errors)]);
    lemma_subrange_of_prefix(e, 19, 0, 18);
    lemma_subrange_of_prefix(e, 19, 18, 19);
    lemma_seq_split(b2, seq![bool_byte(c.auto_stop_on_ping)]);
    lemma_subrange_of_prefix(e, 18, 0, 17);
    lemma_subrange_of_prefix(e, 18, 17, 18);
    lemma_seq_split(b1, seq![bool_byte(c.auto_stop_on_errors)]);
    lemma_subrange_of_prefix(e, 17, 0, 16);
    lemma_subrange_of_prefix(e, 17, 16, 17);
    lemma_seq_split(b0, le_u64(c.panic_market_delta));
    lemma_subrange_of_prefix(e, 16, 0, 8);
    lemma_subrange_of_prefix(e, 16, 8, 16);
    assert(e.subrange(0, 8) == le_u64(c.panic_btc_delta));
    assert(d.subrange(o + 0, o + 8) =~= e.subrange(0, 8));
    lemma_u64_at_le(c.panic_btc_delta, d, o + 0);
    assert(e.subrange(8, 16) == le_u64(c.panic_market_delta));
    assert(d.subrange(o + 8, o + 16) =~= e.subrange(8, 16));
    lemma_u64_at_le(c.panic_market_delta, d, o + 8);
    assert(e.subrange(16, 17) == seq![bool_byte(c.auto_stop_on_errors)]);
    assert(d[o + 16] == e.subrange(16, 17)[0]);
    lemma_bool_byte(c.auto_stop_on_errors);
    assert(e.subrange(17, 18) == seq![bool_byte(c.auto_stop_on_ping)]);
    assert(d[o + 17] == e.subrange(17, 18)[0]);
    lemma_bool_byte(c.auto_stop_on_ping);
    assert(e.subrange(18, 19) == seq![bool_byte(c.sell_all_on_errors)]);
    assert(d[o + 18] == e.subrange(18, 19)[0]);
    lemma_bool_byte(c.sell_all_on_errors);
    assert(e.subrange(19, 20) == seq![bool_byte(c.sell_all_on_ping)]);
    assert(d[o + 19] == e.subrange(19, 20)[0]);
    lemma_bool_byte(c.sell_all_on_ping);
}

/// Fields `errors_level` to `stop_hours_trades` read back from their bytes.
pub proof fn lemma_auto_start_config_part5_at(c: AutoStartConfig, d: Seq<u8>, o: int)
    requires
        0 <= o,
        o + 28 <= d.len(),
        d.subrange(o, o + 28) == auto_start_config_part5_bytes(c),
    ensures
        auto_start_config_part5_bytes(c).len() == 28,
        auto_start_config_part5_at(d, o, c),
{
    let b0 = le_u32(c.errors_level as u32);
    let b1 = b0 + le_u32(c.ping_level as u32);
    let b2 = b1 + le_u32(c.restart_ping_time as u32);
    let b3 = b2 + le_u64(c.auto_stop_hours_val);
    let b4 = b3 + le_u32(c.stop_hours as u32);
    let b5 = b4 + le_u32(c.stop_hours_trades as u32);
    let e = d.subrange(o, o + 28);
    assert(e == b5);
    lemma_seq_split(b4, le_u32(c.stop_hours_trades as u32));
    lemma_subrange_of_prefix(e, 28, 0, 24);
    lemma_subrange_of_prefix(e, 28, 24, 28);
    lemma_seq_split(b3, le_u32(c.stop_hours as u32));
    lemma_subrange_of_prefix(e, 24, 0, 20);
    lemma_subrange_of_prefix(e, 24, 20, 24);
    lemma_seq_split(b2, le_u64(c.auto_stop_hours_val));
    lemma_subrange_of_prefix(e, 20, 0, 12);
    lemma_subrange_of_prefix(e, 20, 12, 20);
    lemma_seq_split(b1, le_u32(c.restart_ping_time as u32));
    lemma_subrange_of_prefix(e, 12, 0, 8);
    lemma_subrange_of_prefix(e, 12, 8, 12);
    lemma_seq_split(b0, le_u32(c.ping_level as u32));
    lemma_subrange_of_prefix(e, 8, 0, 4);
    lemma_subrange_of_prefix(e, 8, 4, 8);
    assert(e.subrange(0, 4) == le_u32(c.errors_level as u32));
    lemma_le_i32_roundtrip(c.errors_level);
    assert(d[o + 0] == e.subrange(0, 4)[0] && d[o + 1] == e.subrange(0, 4)[1] && d[o + 2] == e.subrange(0, 4)[2] && d[o + 3] == e.subrange(0, 4)[3]);
    assert(e.subrange(4, 8) == le_u32(c.ping_level as u32));
    lemma_le_i32_roundtrip(c.ping_level);
    assert(d[o + 4] == e.subrange(4, 8)[0] && d[o + 5] == e.subrange(4, 8)[1] && d[o + 6] == e.subrange(4, 8)[2] && d[o + 7] == e.subrange(4, 8)[3]);
    assert(e.subrange(8, 12) == le_u32(c.restart_ping_time as u32));
    lemma_le_i32_roundtrip(c.restart_ping_time);
    assert(d[o + 8] == e.subrange(8, 12)[0] && d[o + 9] == e.subrange(8, 12)[1] && d[o + 10] == e.subrange(8, 12)[2] && d[o + 11] == e.subrange(8, 12)[3]);
    assert(e.subrange(12, 20) == le_u64(c.auto_stop_hours_val));
    assert(d.subrange(o + 12, o + 20) =~= e.subrange(12, 20));
    lemma_u64_at_le(c.auto_stop_hours_val, d, o + 12);
    assert(e.subrange(20, 24) == le_u32(c.stop_hours as u32));
    lemma_le_i32_roundtrip(c.stop_hours);
    assert(d[o + 20] == e.subrange(20, 24)[0] && d[o + 21] == e.subrange(20, 24)[1] && d[o + 22] == e.subrange(20, 24)[2] && d[o + 23] == e.subrange(20, 24)[3]);
    assert(e.subrange(24, 28) == le_u32(c.stop_hours_trades as u32));
    lemma_le_i32_roundtrip(c.stop_hours_trades);
    assert(d[o + 24] == e.subrange(24, 28)[0] && d[o + 25] == e.subrange(24, 28)[1] && d[o + 26] == e.subrange(24, 28)[2] && d[o + 27] == e.subrange(24, 28)[3]);
}

/// Fields `panic_btc_delta_up` to `work_time_to` read back from their bytes.
pub proof fn lemma_auto_start_config_part6_at(c: AutoStartConfig, d: Seq<u8>, o: int)
    requires
        0 <= o,
        o + 24 <= d.len(),
        d.subrange(o, o + 24) == auto_start_config_part6_bytes(c),
    ensures
        auto_start_config_part6_bytes(c).len() == 24,
        auto_start_config_part6_at(d, o, c),
{
    let b0 = le_u64(c.panic_btc_delta_up);
    let b1 = b0 + le_u64(c.work_time_from);
    let b2 = b1 + le_u64(c.work_time_to);
    let e = d.subrange(o, o + 24);
    assert(e == b2);
    lemma_seq_split(b1, le_u64(c.work_time_to));
    lemma_subrange_of_prefix(e, 24, 0, 16);
    lemma_subrange_of_prefix(e, 24, 16, 24);
    lemma_seq_split(b0, le_u64(c.work_time_from));
    lemma_subrange_of_prefix(e, 16, 0, 8);
    lemma_subrange_of_prefix(e, 16, 8, 16);
    assert(e.subrange(0, 8) == le_u64(c.panic_btc_delta_up));
    assert(d.subrange(o + 0, o + 8) =~= e.subrange(0, 8));
    lemma_u64_at_le(c.panic_btc_delta_up, d, o + 0);
    assert(e.subrange(8, 16) == le_u64(c.work_time_from));
    assert(d.subrange(o + 8, o + 16) =~= e.subrange(8, 16));
    lemma_u64_at_le(c.work_time_from, d, o + 8);
    assert(e.subrange(16, 24) == le_u64(c.work_time_to));
    assert(d.subrange(o + 16, o + 24) =~= e.subrange(16, 24));
    lemma_u64_at_le(c.work_time_to, d, o + 16);
}

/// The fields of a [`AutoStartConfig`] read back from its bytes.
#[verifier::rlimit(50)]
#[verifier::spinoff_prover]
pub proof fn lemma_auto_start_config_at(c: AutoStartConfig, d: Seq<u8>, o: int)
    requires
        0 <= o,
        o + 103 <= d.len(),
        d.subrange(o, o + 103) == auto_start_config_bytes(c),
    ensures
        auto_start_config_bytes(c).len() == 103,
        auto_start_config_at(d, o, c),
{
    let g0 = auto_start_config_part1_bytes(c);
    let g1 = g0 + auto_start_config_part2_bytes(c);
    let g2 = g1 + auto_start_config_part3_bytes(c);
    let g3 = g2 + auto_start_config_part4_bytes(c);
    let g4 = g3 + auto_start_config_part5_bytes(c);
    let g5 = g4 + auto_start_config_part6_bytes(c);
    let e = d.subrange(o, o + 103);
    assert(e == g5);
    lemma_seq_split(g4, auto_start_config_part6_bytes(c));
    lemma_subrange_of_prefix(e, 103, 0, 79);
    lemma_subrange_of_prefix(e, 103, 79, 103);
    assert(d.subrange(o + 79, o + 103) =~= e.subrange(79, 103));
    lemma_auto_start_config_part6_at(c, d, o + 79);
    lemma_seq_split(g3, auto_start_config_part5_bytes(c));
    lemma_subrange_of_prefix(e, 79, 0, 51);
    lemma_subrange_of_prefix(e, 79, 51, 79);
    assert(d.subrange(o + 51, o + 79) =~= e.subrange(51, 79));
    lemma_auto_start_config_part5_at(c, d, o + 51);
    lemma_seq_split(g2, auto_start_config_part4_bytes(c));
    lemma_subrange_of_prefix(e, 51, 0, 31);
    lemma_subrange_of_prefix(e, 51, 31, 51);
    assert(d.subrange(o + 31, o + 51) =~= e.subrange(31, 51));
    lemma_auto_start_config_part4_at(c, d, o + 31);
    lemma_seq_split(g1, auto_start_config_part3_bytes(c));
    lemma_subrange_of_prefix(e, 31, 0, 19);
    lemma_subrange_of_prefix(e, 31, 19, 31);
    assert(d.subrange(o + 19, o + 31) =~= e.subrange(19, 31));
    lemma_auto_start_config_part3_at(c, d, o + 19);
    lemma_seq_split(g0, auto_start_config_part2_bytes(c));
    lemma_subrange_of_prefix(e, 19, 0, 6);
    lemma_subrange_of_prefix(e, 19, 6, 19);
    assert(d.subrange(o + 6, o + 19) =~= e.subrange(6, 19));
    lemma_auto_start_config_part2_at(c, d, o + 6);
    assert(d.subrange(o + 0, o + 6) =~= e.subrange(0, 6));
    lemma_auto_start_config_part1_at(c, d, o + 0);
}

/// Reading back the bytes of a [`AutoStartConfig`] gives the same record.
#[verifier::rlimit(50)]
#[verifier::spinoff_prover]
pub proof fn lemma_auto_start_config_roundtrip(c: AutoStartConfig, rest: Seq<u8>)
    ensures
        auto_start_config_bytes(c).len() == AUTO_START_CONFIG_LEN,
        auto_start_config_at(auto_start_config_bytes(c) + rest, 0, c),
{
    lemma_seq_split(auto_start_config_bytes(c), rest);
    lemma_auto_start_config_at(c, auto_start_config_bytes(c) + rest, 0);
}

impl AutoStartConfig {
    /// Whether every field holds the value that [`AutoStartConfig::default`] gives.
    pub open spec fn is_default(&self) -> bool {
        &&& self.auto_start == false
        &&& self.auto_detect_on == false
        &&& self.strategies_on == false
        &&& self.work_time == false
        &&& self.auto_stop_if_loss == true
        &&& self.remember_state == false
        &&& self.sell_if_loss == false
        &&& self.dont_wait_sells == false
        &&& self.auto_stop_loss == 0x3f689374bc6a7efa
        &&& self.panic_btc == false
        &&& self.panic_market == false
        &&& self.auto_stop_if_loss_hours == true
        &&& self.auto_update == false
        &&& self.restart_after_err == false
        &&& self.restart_after_ping == false
        &&& self.ignore_emulator == false
        &&& self.stop_trades == 50
        &&& self.restart_err_time == 60
        &&& self.panic_btc_delta == 0xc014000000000000
        &&& self.panic_market_delta == 0x0000000000000000
        &&& self.auto_stop_on_errors == true
        &&& self.auto_stop_on_ping == false
        &&& self.sell_all_on_errors == false
        &&& self.sell_all_on_ping == false
        &&& self.errors_level == 3
        &&& self.ping_level == 1000
        &&& self.restart_ping_time == 30
        &&& self.auto_stop_hours_val == 0x3f689374bc6a7efa
        &&& self.stop_hours == 12
        &&& self.stop_hours_trades == 0
        &&& self.panic_btc_delta_up == 0x4014000000000000
        &&& self.work_time_from == 0x0000000000000000
        &&& self.work_time_to == 0x3fefff2e48e8a71e
    }
}

impl Default for AutoStartConfig {
    fn default() -> (r: Self)
        ensures
            r.is_default(),
    {
        AutoStartConfig {
            auto_start: false,
            auto_detect_on: false,
            strategies_on: false,
            work_time: false,
            auto_stop_if_loss: true,
            remember_state: false,
            sell_if_loss: false,
            dont_wait_sells: false,
            auto_stop_loss: 0x3f689374bc6a7efa,
            panic_btc: false,
            panic_market: false,
            auto_stop_if_loss_hours: true,
            auto_update: false,
            restart_after_err: false,
            restart_after_ping: false,
            ignore_emulator: false,
            stop_trades: 50,
            restart_err_time: 60,
            panic_btc_delta: 0xc014000000000000,
            panic_market_delta: 0x0000000000000000,
            auto_stop_on_errors: true,
            auto_stop_on_ping: false,
            sell_all_on_errors: false,
            sell_all_on_ping: false,
            errors_level: 3,
            ping_level: 1000,
            restart_ping_time: 30,
            auto_stop_hours_val: 0x3f689374bc6a7efa,
            stop_hours: 12,
            stop_hours_trades: 0,
            panic_btc_delta_up: 0x4014000000000000,
            work_time_from: 0x0000000000000000,
            work_time_to: 0x3fefff2e48e8a71e,
        }
    }
}

/// Extended auto-start settings (BTC-threshold restart, session caps).
#[derive(Clone, Copy, Debug)]
pub struct AutoStartConfig2 {
    /// Restart trading when market changes by threshold.
    pub restart_on_market: bool,
    /// BTC must be higher than this % (from 24h baseline) to trade.
    /// (IEEE-754 bits of the `f64` value.)
    pub btc_higher_then: u64,
    /// BTC must be lower than this % to trade.
    /// (IEEE-754 bits of the `f64` value.)
    pub btc_lower_then: u64,
    /// Market must be higher than this % to trade.
    /// (IEEE-754 bits of the `f64` value.)
    pub market_higher_then: u64,
    /// Show old listing notifications even for known coins.
    pub show_old_listing: bool,
    /// Auto-reset session profit counters periodically.
    pub reset_session: bool,
    /// Maximum session cap (in quote currency).
    pub max_session_cap: i32,
    /// Hours between session resets.
    pub rs_hours: i32,
}

/// Wire size of [`AutoStartConfig2`].
pub const AUTO_START_CONFIG2_LEN: usize = 35;

/// Wire bytes of fields `restart_on_market` to `reset_session` of a [`AutoStartConfig2`].
pub open spec fn auto_start_config2_part1_bytes(c: AutoStartConfig2) -> Seq<u8> {
    seq![bool_byte(c.restart_on_market)]
        + le_u64(c.btc_higher_then)
        + le_u64(c.btc_lower_then)
        + le_u64(c.market_higher_then)
        + seq![bool_byte(c.show_old_listing)]
        + seq![bool_byte(c.reset_session)]
}

/// Whether fields `restart_on_market` to `reset_session` of `c` are stored at `p`.
pub open spec fn auto_start_config2_part1_at(d: Seq<u8>, p: int, c: AutoStartConfig2) -> bool {
    &&& c.restart_on_market == flag_of(d[p])
    &&& c.btc_higher_then == u64_at(d, p + 1)
    &&& c.btc_lower_then == u64_at(d, p + 9)
    &&& c.market_higher_then == u64_at(d, p + 17)
    &&& c.show_old_listing == flag_of(d[p + 25])
    &&& c.reset_session == flag_of(d[p + 26])
}

/// Wire bytes of fields `max_session_cap` to `rs_hours` of a [`AutoStartConfig2`].
pub open spec fn auto_start_config2_part2_bytes(c: AutoStartConfig2) -> Seq<u8> {
    le_u32(c.max_session_cap as u32)
        + le_u32(c.rs_hours as u32)
}

/// Whether fields `max_session_cap` to `rs_hours` of `c` are stored at `p`.
pub open spec fn auto_start_config2_part2_at(d: Seq<u8>, p: int, c: AutoStartConfig2) -> bool {
    &&& c.max_session_cap == i32_at(d, p)
    &&& c.rs_hours == i32_at(d, p + 4)
}

/// Wire bytes of a [`AutoStartConfig2`], field after field.
pub open spec fn auto_start_config2_bytes(c: AutoStartConfig2) -> Seq<u8> {
    auto_start_config2_part1_bytes(c)
        + auto_start_config2_part2_bytes(c)
}

/// Whether `c` is the [`AutoStartConfig2`] stored at `p`.
pub open spec fn auto_start_config2_at(d: Seq<u8>, p: int, c: AutoStartConfig2) -> bool {
    &&& auto_start_config2_part1_at(d, p, c)
    &&& auto_start_config2_part2_at(d, p + 27, c)
}

/// Read a [`AutoStartConfig2`].
pub fn read_auto_start_config2(r: &mut ConfigReader) -> (res: Result<AutoStartConfig2, SharedConfigError>)
    ensures
        final(r).bytes() == old(r).bytes(),
        old(r).at() + AUTO_START_CONFIG2_LEN <= old(r).bytes().len() ==> (res matches Ok(c) && auto_start_config2_at(
            old(r).bytes(),
            old(r).at(),
            c,
        ) && final(r).at() == old(r).at() + AUTO_START_CONFIG2_LEN),
        old(r).at() + AUTO_START_CONFIG2_LEN > old(r).bytes().len() ==> (res matches Err(e) && e@ == eof_msg()),
{
    Ok(AutoStartConfig2 {
        restart_on_market: r.read_bool()?,
        btc_higher_then: r.read_u64()?,
        btc_lower_then: r.read_u64()?,
        market_higher_then: r.read_u64()?,
        show_old_listing: r.read_bool()?,
        reset_session: r.read_bool()?,
        max_session_cap: r.read_i32()?,
        rs_hours: r.read_i32()?,
    })
}

/// Write fields `restart_on_market` to `reset_session` of a [`AutoStartConfig2`].
fn write_auto_start_config2_part1(w: &mut ConfigWriter, c: &AutoStartConfig2)
    requires
        old(w).wf(),
    ensures
        final(w).wf(),
        final(w).wrote_all(old(w), true, auto_start_config2_part1_bytes(*c)),
{
    let ghost w0 = *w;
    let ghost wb = *w;
    w.write_bool(c.restart_on_market);
    proof { lemma_wrote_all_of_wrote(wb, *w, seq![bool_byte(c.restart_on_market)]); }
    let ghost wb = *w;
    w.write_u64(c.btc_higher_then);
    proof {
        lemma_wrote_all_of_wrote(wb, *w, le_u64(c.btc_higher_then));
        lemma_wrote_all_then(w0, wb, *w, true, seq![bool_byte(c.restart_on_market)], true, le_u64(c.btc_higher_then));
    }
    let ghost wb = *w;
    w.write_u64(c.btc_lower_then);
    proof {
        lemma_wrote_all_of_wrote(wb, *w, le_u64(c.btc_lower_then));
        lemma_wrote_all_then(w0, wb, *w, true, seq![bool_byte(c.restart_on_market)] + le_u64(c.btc_higher_then), true, le_u64(c.btc_lower_then));
    }
    let ghost wb = *w;
    w.write_u64(c.market_higher_then);
    proof {
        lemma_wrote_all_of_wrote(wb, *w, le_u64(c.market_higher_then));
        lemma_wrote_all_then(w0, wb, *w, true, seq![bool_byte(c.restart_on_market)] + le_u64(c.btc_higher_then) + le_u64(c.btc_lower_then), true, le_u64(c.market_higher_then));
    }
    let ghost wb = *w;
    w.write_bool(c.show_old_listing);
    proof {
        lemma_wrote_all_of_wrote(wb, *w, seq![bool_byte(c.show_old_listing)]);
        lemma_wrote_all_then(w0, wb, *w, true, seq![bool_byte(c.restart_on_market)] + le_u64(c.btc_higher_then) + le_u64(c.btc_lower_then) + le_u64(c.market_higher_then), true, seq![bool_byte(c.show_old_listing)]);
    }
    let ghost wb = *w;
    w.write_bool(c.reset_session);
    proof {
        lemma_wrote_all_of_wrote(wb, *w, seq![bool_byte(c.reset_session)]);
        lemma_wrote_all_then(w0, wb, *w, true, seq![bool_byte(c.restart_on_market)] + le_u64(c.btc_higher_then) + le_u64(c.btc_lower_then) + le_u64(c.market_higher_then) + seq![bool_byte(c.show_old_listing)], true, seq![bool_byte(c.reset_session)]);
    }
}

/// Write fields `max_session_cap` to `rs_hours` of a [`AutoStartConfig2`].
fn write_auto_start_config2_part2(w: &mut ConfigWriter, c: &AutoStartConfig2)
    requires
        old(w).wf(),
    ensures
        final(w).wf(),
        final(w).wrote_all(old(w), true, auto_start_config2_part2_bytes(*c)),
{
    let ghost w0 = *w;
    let ghost wb = *w;
    w.write_i32(c.max_session_cap);
    proof { lemma_wrote_all_of_wrote(wb, *w, le_u32(c.max_session_cap as u32)); }
    let ghost wb = *w;
    w.write_i32(c.rs_hours);
    proof {
        lemma_wrote_all_of_wrote(wb, *w, le_u32(c.rs_hours as u32));
        lemma_wrote_all_then(w0, wb, *w, true, le_u32(c.max_session_cap as u32), true, le_u32(c.rs_hours as u32));
    }
}

/// Write a [`AutoStartConfig2`].
pub fn write_auto_start_config2(w: &mut ConfigWriter, c: &AutoStartConfig2)
    requires
        old(w).wf(),
    ensures
        final(w).wf(),
        final(w).wrote_all(old(w), true, auto_start_config2_bytes(*c)),
{
    let ghost w0 = *w;
    let ghost wb = *w;
    write_auto_start_config2_part1(w, c);
    let ghost wb = *w;
    write_auto_start_config2_part2(w, c);
    proof { lemma_wrote_all_then(w0, wb, *w, true, auto_start_config2_part1_bytes(*c), true, auto_start_config2_part2_bytes(*c)); }
}

/// Fields `restart_on_market` to `reset_session` read back from their bytes.
pub proof fn lemma_auto_start_config2_part1_at(c: AutoStartConfig2, d: Seq<u8>, o: int)
    requires
        0 <= o,
        o + 27 <= d.len(),
        d.subrange(o, o + 27) == auto_start_config2_part1_bytes(c),
    ensures
        auto_start_config2_part1_bytes(c).len() == 27,
        auto_start_config2_part1_at(d, o, c),
{
    let b0 = seq![bool_byte(c.restart_on_market)];
    let b1 = b0 + le_u64(c.btc_higher_then);
    let b2 = b1 + le_u64(c.btc_lower_then);
    let b3 = b2 + le_u64(c.market_higher_then);
    let b4 = b3 + seq![bool_byte(c.show_old_listing)];
    let b5 = b4 + seq![bool_byte(c.reset_session)];
    let e = d.subrange(o, o + 27);
    assert(e == b5);
    lemma_seq_split(b4, seq![bool_byte(c.reset_session)]);
    lemma_subrange_of_prefix(e, 27, 0, 26);
    lemma_subrange_of_prefix(e, 27, 26, 27);
    lemma_seq_split(b3, seq![bool_byte(c.show_old_listing)]);
    lemma_subrange_of_prefix(e, 26, 0, 25);
    lemma_subrange_of_prefix(e, 26, 25, 26);
    lemma_seq_split(b2, le_u64(c.market_higher_then));
    lemma_subrange_of_prefix(e, 25, 0, 17);
    lemma_subrange_of_prefix(e, 25, 17, 25);
    lemma_seq_split(b1, le_u64(c.btc_lower_then));
    lemma_subrange_of_prefix(e, 17, 0, 9);
    lemma_subrange_of_prefix(e, 17, 9, 17);
    lemma_seq_split(b0, le_u64(c.btc_higher_then));
    lemma_subrange_of_prefix(e, 9, 0, 1);
    lemma_subrange_of_prefix(e, 9, 1, 9);
    assert(e.subrange(0, 1) == seq![bool_byte(c.restart_on_market)]);
    assert(d[o + 0] == e.subrange(0, 1)[0]);
    lemma_bool_byte(c.restart_on_market);
    assert(e.subrange(1, 9) == le_u64(c.btc_higher_then));
    assert(d.subrange(o + 1, o + 9) =~= e.subrange(1, 9));
    lemma_u64_at_le(c.btc_higher_then, d, o + 1);
    assert(e.subrange(9, 17) == le_u64(c.btc_lower_then));
    assert(d.subrange(o + 9, o + 17) =~= e.subrange(9, 17));
    lemma_u64_at_le(c.btc_lower_then, d, o + 9);
    assert(e.subrange(17, 25) == le_u64(c.market_higher_then));
    assert(d.subrange(o + 17, o + 25) =~= e.subrange(17, 25));
    lemma_u64_at_le(c.market_higher_then, d, o + 17);
    assert(e.subrange(25, 26) == seq![bool_byte(c.show_old_listing)]);
    assert(d[o + 25] == e.subrange(25, 26)[0]);
    lemma_bool_byte(c.show_old_listing);
    assert(e.subrange(26, 27) == seq![bool_byte(c.reset_session)]);
    assert(d[o + 26] == e.subrange(26, 27)[0]);
    lemma_bool_byte(c.reset_session);
}

/// Fields `max_session_cap` to `rs_hours` read back from their bytes.
pub proof fn lemma_auto_start_config2_part2_at(c: AutoStartConfig2, d: Seq<u8>, o: int)
    requires
        0 <= o,
        o + 8 <= d.len(),
        d.subrange(o, o + 8) == auto_start_config2_part2_bytes(c),
    ensures
        auto_start_config2_part2_bytes(c).len() == 8,
        auto_start_config2_part2_at(d, o, c),
{
    let b0 = le_u32(c.max_session_cap as u32);
    let b1 = b0 + le_u32(c.rs_hours as u32);
    let e = d.subrange(o, o + 8);
    assert(e == b1);
    lemma_seq_split(b0, le_u32(c.rs_hours as u32));
    lemma_subrange_of_prefix(e, 8, 0, 4);
    lemma_subrange_of_prefix(e, 8, 4, 8);
    assert(e.subrange(0, 4) == le_u32(c.max_session_cap as u32));
    lemma_le_i32_roundtrip(c.max_session_cap);
    assert(d[o + 0] == e.subrange(0, 4)[0] && d[o + 1] == e.subrange(0, 4)[1] && d[o + 2] == e.subrange(0, 4)[2] && d[o + 3] == e.subrange(0, 4)[3]);
    assert(e.subrange(4, 8) == le_u32(c.rs_hours as u32));
    lemma_le_i32_roundtrip(c.rs_hours);
    assert(d[o + 4] == e.subrange(4, 8)[0] && d[o + 5] == e.subrange(4, 8)[1] && d[o + 6] == e.subrange(4, 8)[2] && d[o + 7] == e.subrange(4, 8)[3]);
}

/// The fields of a [`AutoStartConfig2`] read back from its bytes.
pub proof fn lemma_auto_start_config2_at(c: AutoStartConfig2, d: Seq<u8>, o: int)
    requires
        0 <= o,
        o + 35 <= d.len(),
        d.subrange(o, o + 35) == auto_start_config2_bytes(c),
    ensures
        auto_start_config2_bytes(c).len() == 35,
        auto_start_config2_at(d, o, c),
{
    let g0 = auto_start_config2_part1_bytes(c);
    let g1 = g0 + auto_start_config2_part2_bytes(c);
    let e = d.subrange(o, o + 35);
    assert(e == g1);
    lemma_seq_split(g0, auto_start_config2_part2_bytes(c));
    lemma_subrange_of_prefix(e, 35, 0, 27);
    lemma_subrange_of_prefix(e, 35, 27, 35);
    assert(d.subrange(o + 27, o + 35) =~= e.subrange(27, 35));
    lemma_auto_start_config2_part2_at(c, d, o + 27);
    assert(d.subrange(o + 0, o + 27) =~= e.subrange(0, 27));
    lemma_auto_start_config2_part1_at(c, d, o + 0);
}

/// Reading back the bytes of a [`AutoStartConfig2`] gives the same record.
pub proof fn lemma_auto_start_config2_roundtrip(c: AutoStartConfig2, rest: Seq<u8>)
    ensures
        auto_start_config2_bytes(c).len() == AUTO_START_CONFIG2_LEN,
        auto_start_config2_at(auto_start_config2_bytes(c) + rest, 0, c),
{
    lemma_seq_split(auto_start_config2_bytes(c), rest);
    lemma_auto_start_config2_at(c, auto_start_config2_bytes(c) + rest, 0);
}

impl AutoStartConfig2 {
    /// Whether every field holds the value that [`AutoStartConfig2::default`] gives.
    pub open spec fn is_default(&self) -> bool {
        &&& self.restart_on_market == false
        &&& self.btc_higher_then == 0xbfe0000000000000
        &&& self.btc_lower_then == 0x3fe0000000000000
        &&& self.market_higher_then == 0xbfb999999999999a
        &&& self.show_old_listing == false
        &&& self.reset_session == false
        &&& self.max_session_cap == 0
        &&& self.rs_hours == 0
    }
}

impl Default for AutoStartConfig2 {
    fn default() -> (r: Self)
        ensures
            r.is_default(),
    {
        AutoStartConfig2 {
            restart_on_market: false,
            btc_higher_then: 0xbfe0000000000000,
            btc_lower_then: 0x3fe0000000000000,
            market_higher_then: 0xbfb999999999999a,
            show_old_listing: false,
            reset_session: false,
            max_session_cap: 0,
            rs_hours: 0,
        }
    }
}

/// Multi-order mode settings (visual order grid placement and movement).
#[derive(Clone, Copy, Debug)]
pub struct MultiOrdersConfig {
    /// Internal version of this sub-record.
    pub ver: u8,
    /// Enable multi-order visual grid mode.
    pub use_multi_orders: bool,
    /// Click action to place a buy order at chart price.
    pub buy_set_click: u8,
    /// Click action to move buy orders.
    pub buy_move_click: u8,
    /// Click action to move sell orders.
    pub sell_move_click: u8,
    /// How to select which buy to replace (shift/topvol/all/...).
    pub replace_buy_kind: u8,
    /// How to select which sell to replace.
    pub replace_sell_kind: u8,
    /// Number of split-sell parts (0 = no split).
    pub split_sells: i32,
    /// Show order count badges on chart.
    pub show_orders_num: bool,
    /// Use Kir-style order visualization.
    pub kir_style: bool,
    /// Position side filter (0=both, 1=long, 2=short).
    pub fix_pos: u8,
    /// Join-sell mode (0=none, 1=fixed price, 2=fixed profit).
    pub join_sell_kind: u8,
    /// Click action to set short order at chart price.
    pub short_set_click: u8,
    /// Click action to set pending short.
    pub pending_short_set_click: u8,
    /// Opacity of completed/done orders on chart (0.0..1.0).
    /// (IEEE-754 bits of the `f32` value.)
    pub done_opacity: u32,
    /// Secondary buy-move click action.
    pub buy_move_click_2: u8,
    /// Secondary sell-move click action.
    pub sell_move_click_2: u8,
    /// Secondary buy-replace logic.
    pub replace_buy_kind_2: u8,
    /// Secondary sell-replace logic.
    pub replace_sell_kind_2: u8,
    /// Use the same hotkeys for both primary and secondary move.
    pub same_hotkeys_for_move: bool,
    /// Short-side buy move click.
    pub short_buy_move_click: u8,
    /// Short-side sell move click.
    pub short_sell_move_click: u8,
    /// Short-side secondary buy move click.
    pub short_buy_move_click_2: u8,
    /// Short-side secondary sell move click.
    pub short_sell_move_click_2: u8,
}

/// Wire size of [`MultiOrdersConfig`].
pub const MULTI_ORDERS_CONFIG_LEN: usize = 30;

/// Wire bytes of fields `ver` to `replace_buy_kind` of a [`MultiOrdersConfig`].
pub open spec fn multi_orders_config_part1_bytes(c: MultiOrdersConfig) -> Seq<u8> {
    seq![c.ver]
        + seq![bool_byte(c.use_multi_orders)]
        + seq![c.buy_set_click]
        + seq![c.buy_move_click]
        + seq![c.sell_move_click]
        + seq![c.replace_buy_kind]
}

/// Whether fields `ver` to `replace_buy_kind` of `c` are stored at `p`.
pub open spec fn multi_orders_config_part1_at(d: Seq<u8>, p: int, c: MultiOrdersConfig) -> bool {
    &&& c.ver == d[p]
    &&& c.use_multi_orders == flag_of(d[p + 1])
    &&& c.buy_set_click == d[p + 2]
    &&& c.buy_move_click == d[p + 3]
    &&& c.sell_move_click == d[p + 4]
    &&& c.replace_buy_kind == d[p + 5]
}

/// Wire bytes of fields `replace_sell_kind` to `join_sell_kind` of a [`MultiOrdersConfig`].
pub open spec fn multi_orders_config_part2_bytes(c: MultiOrdersConfig) -> Seq<u8> {
    seq![c.replace_sell_kind]
        + le_u32(c.split_sells as u32)
        + seq![bool_byte(c.show_orders_num)]
        + seq![bool_byte(c.kir_style)]
        + seq![c.fix_pos]
        + seq![c.join_sell_kind]
}

/// Whether fields `replace_sell_kind` to `join_sell_kind` of `c` are stored at `p`.
pub open spec fn multi_orders_config_part2_at(d: Seq<u8>, p: int, c: MultiOrdersConfig) -> bool {
    &&& c.replace_sell_kind == d[p]
    &&& c.split_sells == i32_at(d, p + 1)
    &&& c.show_orders_num == flag_of(d[p + 5])
    &&& c.kir_style == flag_of(d[p + 6])
    &&& c.fix_pos == d[p + 7]
    &&& c.join_sell_kind == d[p + 8]
}

/// Wire bytes of fields `short_set_click` to `replace_buy_kind_2` of a [`MultiOrdersConfig`].
pub open spec fn multi_orders_config_part3_bytes(c: MultiOrdersConfig) -> Seq<u8> {
    seq![c.short_set_click]
        + seq![c.pending_short_set_click]
        + le_u32(c.done_opacity)
        + seq![c.buy_move_click_2]
        + seq![c.sell_move_click_2]
        + seq![c.replace_buy_kind_2]
}

/// Whether fields `short_set_click` to `replace_buy_kind_2` of `c` are stored at `p`.
pub open spec fn multi_orders_config_part3_at(d: Seq<u8>, p: int, c: MultiOrdersConfig) -> bool {
    &&& c.short_set_click == d[p]
    &&& c.pending_short_set_click == d[p + 1]
    &&& c.done_opacity == u32_at(d, p + 2)
    &&& c.buy_move_click_2 == d[p + 6]
    &&& c.sell_move_click_2 == d[p + 7]
    &&& c.replace_buy_kind_2 == d[p + 8]
}

/// Wire bytes of fields `replace_sell_kind_2` to `short_sell_move_click_2` of a [`MultiOrdersConfig`].
pub open spec fn multi_orders_config_part4_bytes(c: MultiOrdersConfig) -> Seq<u8> {
    seq![c.replace_sell_kind_2]
        + seq![bool_byte(c.same_hotkeys_for_move)]
        + seq![c.short_buy_move_click]
        + seq![c.short_sell_move_click]
        + seq![c.short_buy_move_click_2]
        + seq![c.short_sell_move_click_2]
}

/// Whether fields `replace_sell_kind_2` to `short_sell_move_click_2` of `c` are stored at `p`.
pub open spec fn multi_orders_config_part4_at(d: Seq<u8>, p: int, c: MultiOrdersConfig) -> bool {
    &&& c.replace_sell_kind_2 == d[p]
    &&& c.same_hotkeys_for_move == flag_of(d[p + 1])
    &&& c.short_buy_move_click == d[p + 2]
    &&& c.short_sell_move_click == d[p + 3]
    &&& c.short_buy_move_click_2 == d[p + 4]
    &&& c.short_sell_move_click_2 == d[p + 5]
}

/// Wire bytes of a [`MultiOrdersConfig`], field after field.
pub open spec fn multi_orders_config_bytes(c: MultiOrdersConfig) -> Seq<u8> {
    multi_orders_config_part1_bytes(c)
        + multi_orders_config_part2_bytes(c)
        + multi_orders_config_part3_bytes(c)
        + multi_orders_config_part4_bytes(c)
}

/// Whether `c` is the [`MultiOrdersConfig`] stored at `p`.
pub open spec fn multi_orders_config_at(d: Seq<u8>, p: int, c: MultiOrdersConfig) -> bool {
    &&& multi_orders_config_part1_at(d, p, c)
    &&& multi_orders_config_part2_at(d, p + 6, c)
    &&& multi_orders_config_part3_at(d, p + 15, c)
    &&& multi_orders_config_part4_at(d, p + 24, c)
}

/// Read a [`MultiOrdersConfig`].
pub fn read_multi_orders_config(r: &mut ConfigReader) -> (res: Result<MultiOrdersConfig, SharedConfigError>)
    ensures
        final(r).bytes() == old(r).bytes(),
        old(r).at() + MULTI_ORDERS_CONFIG_LEN <= old(r).bytes().len() ==> (res matches Ok(c) && multi_orders_config_at(
            old(r).bytes(),
            old(r).at(),
            c,
        ) && final(r).at() == old(r).at() + MULTI_ORDERS_CONFIG_LEN),
        old(r).at() + MULTI_ORDERS_CONFIG_LEN > old(r).bytes().len() ==> (res matches Err(e) && e@ == eof_msg()),
{
    Ok(MultiOrdersConfig {
        ver: r.read_u8()?,
        use_multi_orders: r.read_bool()?,
        buy_set_click: r.read_u8()?,
        buy_move_click: r.read_u8()?,
        sell_move_click: r.read_u8()?,
        replace_buy_kind: r.read_u8()?,
        replace_sell_kind: r.read_u8()?,
        split_sells: r.read_i32()?,
        show_orders_num: r.read_bool()?,
        kir_style: r.read_bool()?,
        fix_pos: r.read_u8()?,
        join_sell_kind: r.read_u8()?,
        short_set_click: r.read_u8()?,
        pending_short_set_click: r.read_u8()?,
        done_opacity: r.read_u32()?,
        buy_move_click_2: r.read_u8()?,
        sell_move_click_2: r.read_u8()?,
        replace_buy_kind_2: r.read_u8()?,
        replace_sell_kind_2: r.read_u8()?,
        same_hotkeys_for_move: r.read_bool()?,
        short_buy_move_click: r.read_u8()?,
        short_sell_move_click: r.read_u8()?,
        short_buy_move_click_2: r.read_u8()?,
        short_sell_move_click_2: r.read_u8()?,
    })
}

/// Write fields `ver` to `replace_buy_kind` of a [`MultiOrdersConfig`].
fn write_multi_orders_config_part1(w: &mut ConfigWriter, c: &MultiOrdersConfig)
    requires
        old(w).wf(),
    ensures
        final(w).wf(),
        final(w).wrote_all(old(w), true, multi_orders_config_part1_bytes(*c)),
{
    let ghost w0 = *w;
    let ghost wb = *w;
    w.write_u8(c.ver);
    proof { lemma_wrote_all_of_wrote(wb, *w, seq![c.ver]); }
    let ghost wb = *w;
    w.write_bool(c.use_multi_orders);
    proof {
        lemma_wrote_all_of_wrote(wb, *w, seq![bool_byte(c.use_multi_orders)]);
        lemma_wrote_all_then(w0, wb, *w, true, seq![c.ver], true, seq![bool_byte(c.use_multi_orders)]);
    }
    let ghost wb = *w;
    w.write_u8(c.buy_set_click);
    proof {
        lemma_wrote_all_of_wrote(wb, *w, seq![c.buy_set_click]);
        lemma_wrote_all_then(w0, wb, *w, true, seq![c.ver] + seq![bool_byte(c.use_multi_orders)], true, seq![c.buy_set_click]);
    }
    let ghost wb = *w;
    w.write_u8(c.buy_move_click);
    proof {
        lemma_wrote_all_of_wrote(wb, *w, seq![c.buy_move_click]);
        lemma_wrote_all_then(w0, wb, *w, true, seq![c.ver] + seq![bool_byte(c.use_multi_orders)] + seq![c.buy_set_click], true, seq![c.buy_move_click]);
    }
    let ghost wb = *w;
    w.write_u8(c.sell_move_click);
    proof {
        lemma_wrote_all_of_wrote(wb, *w, seq![c.sell_move_click]);
        lemma_wrote_all_then(w0, wb, *w, true, seq![c.ver] + seq![bool_byte(c.use_multi_orders)] + seq![c.buy_set_click] + seq![c.buy_move_click], true, seq![c.sell_move_click]);
    }
    let ghost wb = *w;
    w.write_u8(c.replace_buy_kind);
    proof {
        lemma_wrote_all_of_wrote(wb, *w, seq![c.replace_buy_kind]);
        lemma_wrote_all_then(w0, wb, *w, true, seq![c.ver] + seq![bool_byte(c.use_multi_orders)] + seq![c.buy_set_click] + seq![c.buy_move_click] + seq![c.sell_move_click], true, seq![c.replace_buy_kind]);
    }
}

/// Write fields `replace_sell_kind` to `join_sell_kind` of a [`MultiOrdersConfig`].
fn write_multi_orders_config_part2(w: &mut ConfigWriter, c: &MultiOrdersConfig)
    requires
        old(w).wf(),
    ensures
        final(w).wf(),
        final(w).wrote_all(old(w), true, multi_orders_config_part2_bytes(*c)),
{
    let ghost w0 = *w;
    let ghost wb = *w;
    w.write_u8(c.replace_sell_kind);
    proof { lemma_wrote_all_of_wrote(wb, *w, seq![c.replace_sell_kind]); }
    let ghost wb = *w;
    w.write_i32(c.split_sells);
    proof {
        lemma_wrote_all_of_wrote(wb, *w, le_u32(c.split_sells as u32));
        lemma_wrote_all_then(w0, wb, *w, true, seq![c.replace_sell_kind], true, le_u32(c.split_sells as u32));
    }
    let ghost wb = *w;
    w.write_bool(c.show_orders_num);
    proof {
        lemma_wrote_all_of_wrote(wb, *w, seq![bool_byte(c.show_orders_num)]);
        lemma_wrote_all_then(w0, wb, *w, true, seq![c.replace_sell_kind] + le_u32(c.split_sells as u32), true, seq![bool_byte(c.show_orders_num)]);
    }
    let ghost wb = *w;
    w.write_bool(c.kir_style);
    proof {
        lemma_wrote_all_of_wrote(wb, *w, seq![bool_byte(c.kir_style)]);
        lemma_wrote_all_then(w0, wb, *w, true, seq![c.replace_sell_kind] + le_u32(c.split_sells as u32) + seq![bool_byte(c.show_orders_num)], true, seq![bool_byte(c.kir_style)]);
    }
    let ghost wb = *w;
    w.write_u8(c.fix_pos);
    proof {
        lemma_wrote_all_of_wrote(wb, *w, seq![c.fix_pos]);
        lemma_wrote_all_then(w0, wb, *w, true, seq![c.replace_sell_kind] + le_u32(c.split_sells as u32) + seq![bool_byte(c.show_orders_num)] + seq![bool_byte(c.kir_style)], true, seq![c.fix_pos]);
    }
    let ghost wb = *w;
    w.write_u8(c.join_sell_kind);
    proof {
        lemma_wrote_all_of_wrote(wb, *w, seq![c.join_sell_kind]);
        lemma_wrote_all_then(w0, wb, *w, true, seq![c.replace_sell_kind] + le_u32(c.split_sells as u32) + seq![bool_byte(c.show_orders_num)] + seq![bool_byte(c.kir_style)] + seq![c.fix_pos], true, seq![c.join_sell_kind]);
    }
}

/// Write fields `short_set_click` to `replace_buy_kind_2` of a [`MultiOrdersConfig`].
fn write_multi_orders_config_part3(w: &mut ConfigWriter, c: &MultiOrdersConfig)
    requires
        old(w).wf(),
    ensures
        final(w).wf(),
        final(w).wrote_all(old(w), true, multi_orders_config_part3_bytes(*c)),
{
    let ghost w0 = *w;
    let ghost wb = *w;
    w.write_u8(c.short_set_click);
    proof { lemma_wrote_all_of_wrote(wb, *w, seq![c.short_set_click]); }
    let ghost wb = *w;
    w.write_u8(c.pending_short_set_click);
    proof {
        lemma_wrote_all_of_wrote(wb, *w, seq![c.pending_short_set_click]);
        lemma_wrote_all_then(w0, wb, *w, true, seq![c.short_set_click], true, seq![c.pending_short_set_click]);
    }
    let ghost wb = *w;
    w.write_u32(c.done_opacity);
    proof {
        lemma_wrote_all_of_wrote(wb, *w, le_u32(c.done_opacity));
        lemma_wrote_all_then(w0, wb, *w, true, seq![c.short_set_click] + seq![c.pending_short_set_click], true, le_u32(c.done_opacity));
    }
    let ghost wb = *w;
    w.write_u8(c.buy_move_click_2);
    proof {
        lemma_wrote_all_of_wrote(wb, *w, seq![c.buy_move_click_2]);
        lemma_wrote_all_then(w0, wb, *w, true, seq![c.short_set_click] + seq![c.pending_short_set_click] + le_u32(c.done_opacity), true, seq![c.buy_move_click_2]);
    }
    let ghost wb = *w;
    w.write_u8(c.sell_move_click_2);
    proof {
        lemma_wrote_all_of_wrote(wb, *w, seq![c.sell_move_click_2]);
        lemma_wrote_all_then(w0, wb, *w, true, seq![c.short_set_click] + seq![c.pending_short_set_click] + le_u32(c.done_opacity) + seq![c.buy_move_click_2], true, seq![c.sell_move_click_2]);
    }
    let ghost wb = *w;
    w.write_u8(c.replace_buy_kind_2);
    proof {
        lemma_wrote_all_of_wrote(wb, *w, seq![c.replace_buy_kind_2]);
        lemma_wrote_all_then(w0, wb, *w, true, seq![c.short_set_click] + seq![c.pending_short_set_click] + le_u32(c.done_opacity) + seq![c.buy_move_click_2] + seq![c.sell_move_click_2], true, seq![c.replace_buy_kind_2]);
    }
}

/// Write fields `replace_sell_kind_2` to `short_sell_move_click_2` of a [`MultiOrdersConfig`].
fn write_multi_orders_config_part4(w: &mut ConfigWriter, c: &MultiOrdersConfig)
    requires
        old(w).wf(),
    ensures
        final(w).wf(),
        final(w).wrote_all(old(w), true, multi_orders_config_part4_bytes(*c)),
{
    let ghost w0 = *w;
    let ghost wb = *w;
    w.write_u8(c.replace_sell_kind_2);
    proof { lemma_wrote_all_of_wrote(wb, *w, seq![c.replace_sell_kind_2]); }
    let ghost wb = *w;
    w.write_bool(c.same_hotkeys_for_move);
    proof {
        lemma_wrote_all_of_wrote(wb, *w, seq![bool_byte(c.same_hotkeys_for_move)]);
        lemma_wrote_all_then(w0, wb, *w, true, seq![c.replace_sell_kind_2], true, seq![bool_byte(c.same_hotkeys_for_move)]);
    }
    let ghost wb = *w;
    w.write_u8(c.short_buy_move_click);
    proof {
        lemma_wrote_all_of_wrote(wb, *w, seq![c.short_buy_move_click]);
        lemma_wrote_all_then(w0, wb, *w, true, seq![c.replace_sell_kind_2] + seq![bool_byte(c.same_hotkeys_for_move)], true, seq![c.short_buy_move_click]);
    }
    let ghost wb = *w;
    w.write_u8(c.short_sell_move_click);
    proof {
        lemma_wrote_all_of_wrote(wb, *w, seq![c.short_sell_move_click]);
        lemma_wrote_all_then(w0, wb, *w, true, seq![c.replace_sell_kind_2] + seq![bool_byte(c.same_hotkeys_for_move)] + seq![c.short_buy_move_click], true, seq![c.short_sell_move_click]);
    }
    let ghost wb = *w;
    w.write_u8(c.short_buy_move_click_2);
    proof {
        lemma_wrote_all_of_wrote(wb, *w, seq![c.short_buy_move_click_2]);
        lemma_wrote_all_then(w0, wb, *w, true, seq![c.replace_sell_kind_2] + seq![bool_byte(c.same_hotkeys_for_move)] + seq![c.short_buy_move_click] + seq![c.short_sell_move_click], true, seq![c.short_buy_move_click_2]);
    }
    let ghost wb = *w;
    w.write_u8(c.short_sell_move_click_2);
    proof {
        lemma_wrote_all_of_wrote(wb, *w, seq![c.short_sell_move_click_2]);
        lemma_wrote_all_then(w0, wb, *w, true, seq![c.replace_sell_kind_2] + seq![bool_byte(c.same_hotkeys_for_move)] + seq![c.short_buy_move_click] + seq![c.short_sell_move_click] + seq![c.short_buy_move_click_2], true, seq![c.short_sell_move_click_2]);
    }
}

/// Write a [`MultiOrdersConfig`].
pub fn write_multi_orders_config(w: &mut ConfigWriter, c: &MultiOrdersConfig)
    requires
        old(w).wf(),
    ensures
        final(w).wf(),
        final(w).wrote_all(old(w), true, multi_orders_config_bytes(*c)),
{
    let ghost w0 = *w;
    let ghost wb = *w;
    write_multi_orders_config_part1(w, c);
    let ghost wb = *w;
    write_multi_orders_config_part2(w, c);
    proof { lemma_wrote_all_then(w0, wb, *w, true, multi_orders_config_part1_bytes(*c), true, multi_orders_config_part2_bytes(*c)); }
    let ghost wb = *w;
    write_multi_orders_config_part3(w, c);
    proof { lemma_wrote_all_then(w0, wb, *w, true, multi_orders_config_part1_bytes(*c) + multi_orders_config_part2_bytes(*c), true, multi_orders_config_part3_bytes(*c)); }
    let ghost wb = *w;
    write_multi_orders_config_part4(w, c);
    proof { lemma_wrote_all_then(w0, wb, *w, true, multi_orders_config_part1_bytes(*c) + multi_orders_config_part2_bytes(*c) + multi_orders_config_part3_bytes(*c), true, multi_orders_config_part4_bytes(*c)); }
}

/// Fields `ver` to `replace_buy_kind` read back from their bytes.
pub proof fn lemma_multi_orders_config_part1_at(c: MultiOrdersConfig, d: Seq<u8>, o: int)
    requires
        0 <= o,
        o + 6 <= d.len(),
        d.subrange(o, o + 6) == multi_orders_config_part1_bytes(c),
    ensures
        multi_orders_config_part1_bytes(c).len() == 6,
        multi_orders_config_part1_at(d, o, c),
{
    let b0 = seq![c.ver];
    let b1 = b0 + seq![bool_byte(c.use_multi_orders)];
    let b2 = b1 + seq![c.buy_set_click];
    let b3 = b2 + seq![c.buy_move_click];
    let b4 = b3 + seq![c.sell_move_click];
    let b5 = b4 + seq![c.replace_buy_kind];
    let e = d.subrange(o, o + 6);
    assert(e == b5);
    lemma_seq_split(b4, seq![c.replace_buy_kind]);
    lemma_subrange_of_prefix(e, 6, 0, 5);
    lemma_subrange_of_prefix(e, 6, 5, 6);
    lemma_seq_split(b3, seq![c.sell_move_click]);
    lemma_subrange_of_prefix(e, 5, 0, 4);
    lemma_subrange_of_prefix(e, 5, 4, 5);
    lemma_seq_split(b2, seq![c.buy_move_click]);
    lemma_subrange_of_prefix(e, 4, 0, 3);
    lemma_subrange_of_prefix(e, 4, 3, 4);
    lemma_seq_split(b1, seq![c.buy_set_click]);
    lemma_subrange_of_prefix(e, 3, 0, 2);
    lemma_subrange_of_prefix(e, 3, 2, 3);
    lemma_seq_split(b0, seq![bool_byte(c.use_multi_orders)]);
    lemma_subrange_of_prefix(e, 2, 0, 1);
    lemma_subrange_of_prefix(e, 2, 1, 2);
    assert(e.subrange(0, 1) == seq![c.ver]);
    assert(d[o + 0] == e.subrange(0, 1)[0]);
    assert(e.subrange(1, 2) == seq![bool_byte(c.use_multi_orders)]);
    assert(d[o + 1] == e.subrange(1, 2)[0]);
    lemma_bool_byte(c.use_multi_orders);
    assert(e.subrange(2, 3) == seq![c.buy_set_click]);
    assert(d[o + 2] == e.subrange(2, 3)[0]);
    assert(e.subrange(3, 4) == seq![c.buy_move_click]);
    assert(d[o + 3] == e.subrange(3, 4)[0]);
    assert(e.subrange(4, 5) == seq![c.sell_move_click]);
    assert(d[o + 4] == e.subrange(4, 5)[0]);
    assert(e.subrange(5, 6) == seq![c.replace_buy_kind]);
    assert(d[o + 5] == e.subrange(5, 6)[0]);
}

/// Fields `replace_sell_kind` to `join_sell_kind` read back from their bytes.
pub proof fn lemma_multi_orders_config_part2_at(c: MultiOrdersConfig, d: Seq<u8>, o: int)
    requires
        0 <= o,
        o + 9 <= d.len(),
        d.subrange(o, o + 9) == multi_orders_config_part2_bytes(c),
    ensures
        multi_orders_config_part2_bytes(c).len() == 9,
        multi_orders_config_part2_at(d, o, c),
{
    let b0 = seq![c.replace_sell_kind];
    let b1 = b0 + le_u32(c.split_sells as u32);
    let b2 = b1 + seq![bool_byte(c.show_orders_num)];
    let b3 = b2 + seq![bool_byte(c.kir_style)];
    let b4 = b3 + seq![c.fix_pos];
    let b5 = b4 + seq![c.join_sell_kind];
    let e = d.subrange(o, o + 9);
    assert(e == b5);
    lemma_seq_split(b4, seq![c.join_sell_kind]);
    lemma_subrange_of_prefix(e, 9, 0, 8);
    lemma_subrange_of_prefix(e, 9, 8, 9);
    lemma_seq_split(b3, seq![c.fix_pos]);
    lemma_subrange_of_prefix(e, 8, 0, 7);
    lemma_subrange_of_prefix(e, 8, 7, 8);
    lemma_seq_split(b2, seq![bool_byte(c.kir_style)]);
    lemma_subrange_of_prefix(e, 7, 0, 6);
    lemma_subrange_of_prefix(e, 7, 6, 7);
    lemma_seq_split(b1, seq![bool_byte(c.show_orders_num)]);
    lemma_subrange_of_prefix(e, 6, 0, 5);
    lemma_subrange_of_prefix(e, 6, 5, 6);
    lemma_seq_split(b0, le_u32(c.split_sells as u32));
    lemma_subrange_of_prefix(e, 5, 0, 1);
    lemma_subrange_of_prefix(e, 5, 1, 5);
    assert(e.subrange(0, 1) == seq![c.replace_sell_kind]);
    assert(d[o + 0] == e.subrange(0, 1)[0]);
    assert(e.subrange(1, 5) == le_u32(c.split_sells as u32));
    lemma_le_i32_roundtrip(c.split_sells);
    assert(d[o + 1] == e.subrange(1, 5)[0] && d[o + 2] == e.subrange(1, 5)[1] && d[o + 3] == e.subrange(1, 5)[2] && d[o + 4] == e.subrange(1, 5)[3]);
    assert(e.subrange(5, 6) == seq![bool_byte(c.show_orders_num)]);
    assert(d[o + 5] == e.subrange(5, 6)[0]);
    lemma_bool_byte(c.show_orders_num);
    assert(e.subrange(6, 7) == seq![bool_byte(c.kir_style)]);
    assert(d[o + 6] == e.subrange(6, 7)[0]);
    lemma_bool_byte(c.kir_style);
    assert(e.subrange(7, 8) == seq![c.fix_pos]);
    assert(d[o + 7] == e.subrange(7, 8)[0]);
    assert(e.subrange(8, 9) == seq![c.join_sell_kind]);
    assert(d[o + 8] == e.subrange(8, 9)[0]);
}

/// Fields `short_set_click` to `replace_buy_kind_2` read back from their bytes.
pub proof fn lemma_multi_orders_config_part3_at(c: MultiOrdersConfig, d: Seq<u8>, o: int)
    requires
        0 <= o,
        o + 9 <= d.len(),
        d.subrange(o, o + 9) == multi_orders_config_part3_bytes(c),
    ensures
        multi_orders_config_part3_bytes(c).len() == 9,
        multi_orders_config_part3_at(d, o, c),
{
    let b0 = seq![c.short_set_click];
    let b1 = b0 + seq![c.pending_short_set_click];
    let b2 = b1 + le_u32(c.done_opacity);
    let b3 = b2 + seq![c.buy_move_click_2];
    let b4 = b3 + seq![c.sell_move_click_2];
    let b5 = b4 + seq![c.replace_buy_kind_2];
    let e = d.subrange(o, o + 9);
    assert(e == b5);
    lemma_seq_split(b4, seq![c.replace_buy_kind_2]);
    lemma_subrange_of_prefix(e, 9, 0, 8);
    lemma_subrange_of_prefix(e, 9, 8, 9);
    lemma_seq_split(b3, seq![c.sell_move_click_2]);
    lemma_subrange_of_prefix(e, 8, 0, 7);
    lemma_subrange_of_prefix(e, 8, 7, 8);
    lemma_seq_split(b2, seq![c.buy_move_click_2]);
    lemma_subrange_of_prefix(e, 7, 0, 6);
    lemma_subrange_of_prefix(e, 7, 6, 7);
    lemma_seq_split(b1, le_u32(c.done_opacity));
    lemma_subrange_of_prefix(e, 6, 0, 2);
    lemma_subrange_of_prefix(e, 6, 2, 6);
    lemma_seq_split(b0, seq![c.pending_short_set_click]);
    lemma_subrange_of_prefix(e, 2, 0, 1);
    lemma_subrange_of_prefix(e, 2, 1, 2);
    assert(e.subrange(0, 1) == seq![c.short_set_click]);
    assert(d[o + 0] == e.subrange(0, 1)[0]);
    assert(e.subrange(1, 2) == seq![c.pending_short_set_click]);
    assert(d[o + 1] == e.subrange(1, 2)[0]);
    assert(e.subrange(2, 6) == le_u32(c.done_opacity));
    lemma_le_u32_roundtrip(c.done_opacity);
    assert(d[o + 2] == e.subrange(2, 6)[0] && d[o + 3] == e.subrange(2, 6)[1] && d[o + 4] == e.subrange(2, 6)[2] && d[o + 5] == e.subrange(2, 6)[3]);
    assert(e.subrange(6, 7) == seq![c.buy_move_click_2]);
    assert(d[o + 6] == e.subrange(6, 7)[0]);
    assert(e.subrange(7, 8) == seq![c.sell_move_click_2]);
    assert(d[o + 7] == e.subrange(7, 8)[0]);
    assert(e.subrange(8, 9) == seq![c.replace_buy_kind_2]);
    assert(d[o + 8] == e.subrange(8, 9)[0]);
}

/// Fields `replace_sell_kind_2` to `short_sell_move_click_2` read back from their bytes.
pub proof fn lemma_multi_orders_config_part4_at(c: MultiOrdersConfig, d: Seq<u8>, o: int)
    requires
        0 <= o,
        o + 6 <= d.len(),
        d.subrange(o, o + 6) == multi_orders_config_part4_bytes(c),
    ensures
        multi_orders_config_part4_bytes(c).len() == 6,
        multi_orders_config_part4_at(d, o, c),
{
    let b0 = seq![c.replace_sell_kind_2];
    let b1 = b0 + seq![bool_byte(c.same_hotkeys_for_move)];
    let b2 = b1 + seq![c.short_buy_move_click];
    let b3 = b2 + seq![c.short_sell_move_click];
    let b4 = b3 + seq![c.short_buy_move_click_2];
    let b5 = b4 + seq![c.short_sell_move_click_2];
    let e = d.subrange(o, o + 6);
    assert(e == b5);
    lemma_seq_split(b4, seq![c.short_sell_move_click_2]);
    lemma_subrange_of_prefix(e, 6, 0, 5);
    lemma_subrange_of_prefix(e, 6, 5, 6);
    lemma_seq_split(b3, seq![c.short_buy_move_click_2]);
    lemma_subrange_of_prefix(e, 5, 0, 4);
    lemma_subrange_of_prefix(e, 5, 4, 5);
    lemma_seq_split(b2, seq![c.short_sell_move_click]);
    lemma_subrange_of_prefix(e, 4, 0, 3);
    lemma_subrange_of_prefix(e, 4, 3, 4);
    lemma_seq_split(b1, seq![c.short_buy_move_click]);
    lemma_subrange_of_prefix(e, 3, 0, 2);
    lemma_subrange_of_prefix(e, 3, 2, 3);
    lemma_seq_split(b0, seq![bool_byte(c.same_hotkeys_for_move)]);
    lemma_subrange_of_prefix(e, 2, 0, 1);
    lemma_subrange_of_prefix(e, 2, 1, 2);
    assert(e.subrange(0, 1) == seq![c.replace_sell_kind_2]);
    assert(d[o + 0] == e.subrange(0, 1)[0]);
    assert(e.subrange(1, 2) == seq![bool_byte(c.same_hotkeys_for_move)]);
    assert(d[o + 1] == e.subrange(1, 2)[0]);
    lemma_bool_byte(c.same_hotkeys_for_move);
    assert(e.subrange(2, 3) == seq![c.short_buy_move_click]);
    assert(d[o + 2] == e.subrange(2, 3)[0]);
    assert(e.subrange(3, 4) == seq![c.short_sell_move_click]);
    assert(d[o + 3] == e.subrange(3, 4)[0]);
    assert(e.subrange(4, 5) == seq![c.short_buy_move_click_2]);
    assert(d[o + 4] == e.subrange(4, 5)[0]);
    assert(e.subrange(5, 6) == seq![c.short_sell_move_click_2]);
    assert(d[o + 5] == e.subrange(5, 6)[0]);
}

/// The fields of a [`MultiOrdersConfig`] read back from its bytes.
pub proof fn lemma_multi_orders_config_at(c: MultiOrdersConfig, d: Seq<u8>, o: int)
    requires
        0 <= o,
        o + 30 <= d.len(),
        d.subrange(o, o + 30) == multi_orders_config_bytes(c),
    ensures
        multi_orders_config_bytes(c).len() == 30,
        multi_orders_config_at(d, o, c),
{
    let g0 = multi_orders_config_part1_bytes(c);
    let g1 = g0 + multi_orders_config_part2_bytes(c);
    let g2 = g1 + multi_orders_config_part3_bytes(c);
    let g3 = g2 + multi_orders_config_part4_bytes(c);
    let e = d.subrange(o, o + 30);
    assert(e == g3);
    lemma_seq_split(g2, multi_orders_config_part4_bytes(c));
    lemma_subrange_of_prefix(e, 30, 0, 24);
    lemma_subrange_of_prefix(e, 30, 24, 30);
    assert(d.subrange(o + 24, o + 30) =~= e.subrange(24, 30));
    lemma_multi_orders_config_part4_at(c, d, o + 24);
    lemma_seq_split(g1, multi_orders_config_part3_bytes(c));
    lemma_subrange_of_prefix(e, 24, 0, 15);
    lemma_subrange_of_prefix(e, 24, 15, 24);
    assert(d.subrange(o + 15, o + 24) =~= e.subrange(15, 24));
    lemma_multi_orders_config_part3_at(c, d, o + 15);
    lemma_seq_split(g0, multi_orders_config_part2_bytes(c));
    lemma_subrange_of_prefix(e, 15, 0, 6);
    lemma_subrange_of_prefix(e, 15, 6, 15);
    assert(d.subrange(o + 6, o + 15) =~= e.subrange(6, 15));
    lemma_multi_orders_config_part2_at(c, d, o + 6);
    assert(d.subrange(o + 0, o + 6) =~= e.subrange(0, 6));
    lemma_multi_orders_config_part1_at(c, d, o + 0);
}

/// Reading back the bytes of a [`MultiOrdersConfig`] gives the same record.
pub proof fn lemma_multi_orders_config_roundtrip(c: MultiOrdersConfig, rest: Seq<u8>)
    ensures
        multi_orders_config_bytes(c).len() == MULTI_ORDERS_CONFIG_LEN,
        multi_orders_config_at(multi_orders_config_bytes(c) + rest, 0, c),
{
    lemma_seq_split(multi_orders_config_bytes(c), rest);
    lemma_multi_orders_config_at(c, multi_orders_config_bytes(c) + rest, 0);
}

impl MultiOrdersConfig {
    /// Whether every field holds the value that [`MultiOrdersConfig::default`] gives.
    pub open spec fn is_default(&self) -> bool {
        &&& self.ver == 1
        &&& self.use_multi_orders == true
        &&& self.buy_set_click == 1
        &&& self.buy_move_click == 3
        &&& self.sell_move_click == 2
        &&& self.replace_buy_kind == 3
        &&& self.replace_sell_kind == 2
        &&& self.split_sells == 0
        &&& self.show_orders_num == true
        &&& self.kir_style == false
        &&& self.fix_pos == 0
        &&& self.join_sell_kind == 0
        &&& self.short_set_click == 0
        &&& self.pending_short_set_click == 0
        &&& self.done_opacity == 0x3f000000
        &&& self.buy_move_click_2 == 0
        &&& self.sell_move_click_2 == 0
        &&& self.replace_buy_kind_2 == 0
        &&& self.replace_sell_kind_2 == 0
        &&& self.same_hotkeys_for_move == true
        &&& self.short_buy_move_click == 3
        &&& self.short_sell_move_click == 2
        &&& self.short_buy_move_click_2 == 0
        &&& self.short_sell_move_click_2 == 0
    }
}

impl Default for MultiOrdersConfig {
    fn default() -> (r: Self)
        ensures
            r.is_default(),
    {
        MultiOrdersConfig {
            ver: 1,
            use_multi_orders: true,
            buy_set_click: 1,
            buy_move_click: 3,
            sell_move_click: 2,
            replace_buy_kind: 3,
            replace_sell_kind: 2,
            split_sells: 0,
            show_orders_num: true,
            kir_style: false,
            fix_pos: 0,
            join_sell_kind: 0,
            short_set_click: 0,
            pending_short_set_click: 0,
            done_opacity: 0x3f000000,
            buy_move_click_2: 0,
            sell_move_click_2: 0,
            replace_buy_kind_2: 0,
            replace_sell_kind_2: 0,
            same_hotkeys_for_move: true,
            short_buy_move_click: 3,
            short_sell_move_click: 2,
            short_buy_move_click_2: 0,
            short_sell_move_click_2: 0,
        }
    }
}

/// Spot chart panel display settings.
#[derive(Clone, Copy, Debug)]
pub struct SpotConfig {
    /// Show trade ticker stream.
    pub show_trades: bool,
    /// Show orderbook visualization.
    pub show_book: bool,
    /// Orderbook visual depth (percentage of chart width).
    /// (IEEE-754 bits of the `f32` value.)
    pub book_len: u32,
    /// Show volume-weighted market average line.
    pub show_market_avg: bool,
    /// Show 24h min/max price markers.
    pub show_min_max: bool,
    /// Show average entry price line.
    pub show_avg_price: bool,
    /// Show BTC price in the spot panel.
    pub spot_btc: bool,
    /// Shift spot chart to account for orderbook panel width.
    pub shift_spot: bool,
    /// Show mark price (futures).
    pub show_mark_price: bool,
    /// Show liquidation price line (futures).
    pub show_liq: bool,
    /// Highlight abnormally large liquidations.
    pub huge_liq: bool,
    /// Show open interest indicator.
    pub show_open_int: bool,
    /// Show average price as a chart line (not just label).
    pub show_avg_price_line: bool,
}

/// Wire size of [`SpotConfig`].
pub const SPOT_CONFIG_LEN: usize = 16;

/// Wire bytes of fields `show_trades` to `show_avg_price` of a [`SpotConfig`].
pub open spec fn spot_config_part1_bytes(c: SpotConfig) -> Seq<u8> {
    seq![bool_byte(c.show_trades)]
        + seq![bool_byte(c.show_book)]
        + le_u32(c.book_len)
        + seq![bool_byte(c.show_market_avg)]
        + seq![bool_byte(c.show_min_max)]
        + seq![bool_byte(c.show_avg_price)]
}

/// Whether fields `show_trades` to `show_avg_price` of `c` are stored at `p`.
pub open spec fn spot_config_part1_at(d: Seq<u8>, p: int, c: SpotConfig) -> bool {
    &&& c.show_trades == flag_of(d[p])
    &&& c.show_book == flag_of(d[p + 1])
    &&& c.book_len == u32_at(d, p + 2)
    &&& c.show_market_avg == flag_of(d[p + 6])
    &&& c.show_min_max == flag_of(d[p + 7])
    &&& c.show_avg_price == flag_of(d[p + 8])
}

/// Wire bytes of fields `spot_btc` to `show_open_int` of a [`SpotConfig`].
pub open spec fn spot_config_part2_bytes(c: SpotConfig) -> Seq<u8> {
    seq![bool_byte(c.spot_btc)]
        + seq![bool_byte(c.shift_spot)]
        + seq![bool_byte(c.show_mark_price)]
        + seq![bool_byte(c.show_liq)]
        + seq![bool_byte(c.huge_liq)]
        + seq![bool_byte(c.show_open_int)]
}

/// Whether fields `spot_btc` to `show_open_int` of `c` are stored at `p`.
pub open spec fn spot_config_part2_at(d: Seq<u8>, p: int, c: SpotConfig) -> bool {
    &&& c.spot_btc == flag_of(d[p])
    &&& c.shift_spot == flag_of(d[p + 1])
    &&& c.show_mark_price == flag_of(d[p + 2])
    &&& c.show_liq == flag_of(d[p + 3])
    &&& c.huge_liq == flag_of(d[p + 4])
    &&& c.show_open_int == flag_of(d[p + 5])
}

/// Wire bytes of fields `show_avg_price_line` to `show_avg_price_line` of a [`SpotConfig`].
pub open spec fn spot_config_part3_bytes(c: SpotConfig) -> Seq<u8> {
    seq![bool_byte(c.show_avg_price_line)]
}

/// Whether fields `show_avg_price_line` to `show_avg_price_line` of `c` are stored at `p`.
pub open spec fn spot_config_part3_at(d: Seq<u8>, p: int, c: SpotConfig) -> bool {
    &&& c.show_avg_price_line == flag_of(d[p])
}

/// Wire bytes of a [`SpotConfig`], field after field.
pub open spec fn spot_config_bytes(c: SpotConfig) -> Seq<u8> {
    spot_config_part1_bytes(c)
        + spot_config_part2_bytes(c)
        + spot_config_part3_bytes(c)
}

/// Whether `c` is the [`SpotConfig`] stored at `p`.
pub open spec fn spot_config_at(d: Seq<u8>, p: int, c: SpotConfig) -> bool {
    &&& spot_config_part1_at(d, p, c)
    &&& spot_config_part2_at(d, p + 9, c)
    &&& spot_config_part3_at(d, p + 15, c)
}

/// Read a [`SpotConfig`].
pub fn read_spot_config(r: &mut ConfigReader) -> (res: Result<SpotConfig, SharedConfigError>)
    ensures
        final(r).bytes() == old(r).bytes(),
        old(r).at() + SPOT_CONFIG_LEN <= old(r).bytes().len() ==> (res matches Ok(c) && spot_config_at(
            old(r).bytes(),
            old(r).at(),
            c,
        ) && final(r).at() == old(r).at() + SPOT_CONFIG_LEN),
        old(r).at() + SPOT_CONFIG_LEN > old(r).bytes().len() ==> (res matches Err(e) && e@ == eof_msg()),
{
    Ok(SpotConfig {
        show_trades: r.read_bool()?,
        show_book: r.read_bool()?,
        book_len: r.read_u32()?,
        show_market_avg: r.read_bool()?,
        show_min_max: r.read_bool()?,
        show_avg_price: r.read_bool()?,
        spot_btc: r.read_bool()?,
        shift_spot: r.read_bool()?,
        show_mark_price: r.read_bool()?,
        show_liq: r.read_bool()?,
        huge_liq: r.read_bool()?,
        show_open_int: r.read_bool()?,
        show_avg_price_line: r.read_bool()?,
    })
}

/// Write fields `show_trades` to `show_avg_price` of a [`SpotConfig`].
fn write_spot_config_part1(w: &mut ConfigWriter, c: &SpotConfig)
    requires
        old(w).wf(),
    ensures
        final(w).wf(),
        final(w).wrote_all(old(w), true, spot_config_part1_bytes(*c)),
{
    let ghost w0 = *w;
    let ghost wb = *w;
    w.write_bool(c.show_trades);
    proof { lemma_wrote_all_of_wrote(wb, *w, seq![bool_byte(c.show_trades)]); }
    let ghost wb = *w;
    w.write_bool(c.show_book);
    proof {
        lemma_wrote_all_of_wrote(wb, *w, seq![bool_byte(c.show_book)]);
        lemma_wrote_all_then(w0, wb, *w, true, seq![bool_byte(c.show_trades)], true, seq![bool_byte(c.show_book)]);
    }
    let ghost wb = *w;
    w.write_u32(c.book_len);
    proof {
        lemma_wrote_all_of_wrote(wb, *w, le_u32(c.book_len));
        lemma_wrote_all_then(w0, wb, *w, true, seq![bool_byte(c.show_trades)] + seq![bool_byte(c.show_book)], true, le_u32(c.book_len));
    }
    let ghost wb = *w;
    w.write_bool(c.show_market_avg);
    proof {
        lemma_wrote_all_of_wrote(wb, *w, seq![bool_byte(c.show_market_avg)]);
        lemma_wrote_all_then(w0, wb, *w, true, seq![bool_byte(c.show_trades)] + seq![bool_byte(c.show_book)] + le_u32(c.book_len), true, seq![bool_byte(c.show_market_avg)]);
    }
    let ghost wb = *w;
    w.write_bool(c.show_min_max);
    proof {
        lemma_wrote_all_of_wrote(wb, *w, seq![bool_byte(c.show_min_max)]);
        lemma_wrote_all_then(w0, wb, *w, true, seq![bool_byte(c.show_trades)] + seq![bool_byte(c.show_book)] + le_u32(c.book_len) + seq![bool_byte(c.show_market_avg)], true, seq![bool_byte(c.show_min_max)]);
    }
    let ghost wb = *w;
    w.write_bool(c.show_avg_price);
    proof {
        lemma_wrote_all_of_wrote(wb, *w, seq![bool_byte(c.show_avg_price)]);
        lemma_wrote_all_then(w0, wb, *w, true, seq![bool_byte(c.show_trades)] + seq![bool_byte(c.show_book)] + le_u32(c.book_len) + seq![bool_byte(c.show_market_avg)] + seq![bool_byte(c.show_min_max)], true, seq![bool_byte(c.show_avg_price)]);
    }
}

/// Write fields `spot_btc` to `show_open_int` of a [`SpotConfig`].
fn write_spot_config_part2(w: &mut ConfigWriter, c: &SpotConfig)
    requires
        old(w).wf(),
    ensures
        final(w).wf(),
        final(w).wrote_all(old(w), true, spot_config_part2_bytes(*c)),
{
    let ghost w0 = *w;
    let ghost wb = *w;
    w.write_bool(c.spot_btc);
    proof { lemma_wrote_all_of_wrote(wb, *w, seq![bool_byte(c.spot_btc)]); }
    let ghost wb = *w;
    w.write_bool(c.shift_spot);
    proof {
        lemma_wrote_all_of_wrote(wb, *w, seq![bool_byte(c.shift_spot)]);
        lemma_wrote_all_then(w0, wb, *w, true, seq![bool_byte(c.spot_btc)], true, seq![bool_byte(c.shift_spot)]);
    }
    let ghost wb = *w;
    w.write_bool(c.show_mark_price);
    proof {
        lemma_wrote_all_of_wrote(wb, *w, seq![bool_byte(c.show_mark_price)]);
        lemma_wrote_all_then(w0, wb, *w, true, seq![bool_byte(c.spot_btc)] + seq![bool_byte(c.shift_spot)], true, seq![bool_byte(c.show_mark_price)]);
    }
    let ghost wb = *w;
    w.write_bool(c.show_liq);
    proof {
        lemma_wrote_all_of_wrote(wb, *w, seq![bool_byte(c.show_liq)]);
        lemma_wrote_all_then(w0, wb, *w, true, seq![bool_byte(c.spot_btc)] + seq![bool_byte(c.shift_spot)] + seq![bool_byte(c.show_mark_price)], true, seq![bool_byte(c.show_liq)]);
    }
    let ghost wb = *w;
    w.write_bool(c.huge_liq);
    proof {
        lemma_wrote_all_of_wrote(wb, *w, seq![bool_byte(c.huge_liq)]);
        lemma_wrote_all_then(w0, wb, *w, true, seq![bool_byte(c.spot_btc)] + seq![bool_byte(c.shift_spot)] + seq![bool_byte(c.show_mark_price)] + seq![bool_byte(c.show_liq)], true, seq![bool_byte(c.huge_liq)]);
    }
    let ghost wb = *w;
    w.write_bool(c.show_open_int);
    proof {
        lemma_wrote_all_of_wrote(wb, *w, seq![bool_byte(c.show_open_int)]);
        lemma_wrote_all_then(w0, wb, *w, true, seq![bool_byte(c.spot_btc)] + seq![bool_byte(c.shift_spot)] + seq![bool_byte(c.show_mark_price)] + seq![bool_byte(c.show_liq)] + seq![bool_byte(c.huge_liq)], true, seq![bool_byte(c.show_open_int)]);
    }
}

/// Write fields `show_avg_price_line` to `show_avg_price_line` of a [`SpotConfig`].
fn write_spot_config_part3(w: &mut ConfigWriter, c: &SpotConfig)
    requires
        old(w).wf(),
    ensures
        final(w).wf(),
        final(w).wrote_all(old(w), true, spot_config_part3_bytes(*c)),
{
    let ghost w0 = *w;
    let ghost wb = *w;
    w.write_bool(c.show_avg_price_line);
    proof { lemma_wrote_all_of_wrote(wb, *w, seq![bool_byte(c.show_avg_price_line)]); }
}

/// Write a [`SpotConfig`].
pub fn write_spot_config(w: &mut ConfigWriter, c: &SpotConfig)
    requires
        old(w).wf(),
    ensures
        final(w).wf(),
        final(w).wrote_all(old(w), true, spot_config_bytes(*c)),
{
    let ghost w0 = *w;
    let ghost wb = *w;
    write_spot_config_part1(w, c);
    let ghost wb = *w;
    write_spot_config_part2(w, c);
    proof { lemma_wrote_all_then(w0, wb, *w, true, spot_config_part1_bytes(*c), true, spot_config_part2_bytes(*c)); }
    let ghost wb = *w;
    write_spot_config_part3(w, c);
    proof { lemma_wrote_all_then(w0, wb, *w, true, spot_config_part1_bytes(*c) + spot_config_part2_bytes(*c), true, spot_config_part3_bytes(*c)); }
}

/// Fields `show_trades` to `show_avg_price` read back from their bytes.
pub proof fn lemma_spot_config_part1_at(c: SpotConfig, d: Seq<u8>, o: int)
    requires
        0 <= o,
        o + 9 <= d.len(),
        d.subrange(o, o + 9) == spot_config_part1_bytes(c),
    ensures
        spot_config_part1_bytes(c).len() == 9,
        spot_config_part1_at(d, o, c),
{
    let b0 = seq![bool_byte(c.show_trades)];
    let b1 = b0 + seq![bool_byte(c.show_book)];
    let b2 = b1 + le_u32(c.book_len);
    let b3 = b2 + seq![bool_byte(c.show_market_avg)];
    let b4 = b3 + seq![bool_byte(c.show_min_max)];
    let b5 = b4 + seq![bool_byte(c.show_avg_price)];
    let e = d.subrange(o, o + 9);
    assert(e == b5);
    lemma_seq_split(b4, seq![bool_byte(c.show_avg_price)]);
    lemma_subrange_of_prefix(e, 9, 0, 8);
    lemma_subrange_of_prefix(e, 9, 8, 9);
    lemma_seq_split(b3, seq![bool_byte(c.show_min_max)]);
    lemma_subrange_of_prefix(e, 8, 0, 7);
    lemma_subrange_of_prefix(e, 8, 7, 8);
    lemma_seq_split(b2, seq![bool_byte(c.show_market_avg)]);
    lemma_subrange_of_prefix(e, 7, 0, 6);
    lemma_subrange_of_prefix(e, 7, 6, 7);
    lemma_seq_split(b1, le_u32(c.book_len));
    lemma_subrange_of_prefix(e, 6, 0, 2);
    lemma_subrange_of_prefix(e, 6, 2, 6);
    lemma_seq_split(b0, seq![bool_byte(c.show_book)]);
    lemma_subrange_of_prefix(e, 2, 0, 1);
    lemma_subrange_of_prefix(e, 2, 1, 2);
    assert(e.subrange(0, 1) == seq![bool_byte(c.show_trades)]);
    assert(d[o + 0] == e.subrange(0, 1)[0]);
    lemma_bool_byte(c.show_trades);
    assert(e.subrange(1, 2) == seq![bool_byte(c.show_book)]);
    assert(d[o + 1] == e.subrange(1, 2)[0]);
    lemma_bool_byte(c.show_book);
    assert(e.subrange(2, 6) == le_u32(c.book_len));
    lemma_le_u32_roundtrip(c.book_len);
    assert(d[o + 2] == e.subrange(2, 6)[0] && d[o + 3] == e.subrange(2, 6)[1] && d[o + 4] == e.subrange(2, 6)[2] && d[o + 5] == e.subrange(2, 6)[3]);
    assert(e.subrange(6, 7) == seq![bool_byte(c.show_market_avg)]);
    assert(d[o + 6] == e.subrange(6, 7)[0]);
    lemma_bool_byte(c.show_market_avg);
    assert(e.subrange(7, 8) == seq![bool_byte(c.show_min_max)]);
    assert(d[o + 7] == e.subrange(7, 8)[0]);
    lemma_bool_byte(c.show_min_max);
    assert(e.subrange(8, 9) == seq![bool_byte(c.show_avg_price)]);
    assert(d[o + 8] == e.subrange(8, 9)[0]);
    lemma_bool_byte(c.show_avg_price);
}

/// Fields `spot_btc` to `show_open_int` read back from their bytes.
pub proof fn lemma_spot_config_part2_at(c: SpotConfig, d: Seq<u8>, o: int)
    requires
        0 <= o,
        o + 6 <= d.len(),
        d.subrange(o, o + 6) == spot_config_part2_bytes(c),
    ensures
        spot_config_part2_bytes(c).len() == 6,
        spot_config_part2_at(d, o, c),
{
    let b0 = seq![bool_byte(c.spot_btc)];
    let b1 = b0 + seq![bool_byte(c.shift_spot)];
    let b2 = b1 + seq![bool_byte(c.show_mark_price)];
    let b3 = b2 + seq![bool_byte(c.show_liq)];
    let b4 = b3 + seq![bool_byte(c.huge_liq)];
    let b5 = b4 + seq![bool_byte(c.show_open_int)];
    let e = d.subrange(o, o + 6);
    assert(e == b5);
    lemma_seq_split(b4, seq![bool_byte(c.show_open_int)]);
    lemma_subrange_of_prefix(e, 6, 0, 5);
    lemma_subrange_of_prefix(e, 6, 5, 6);
    lemma_seq_split(b3, seq![bool_byte(c.huge_liq)]);
    lemma_subrange_of_prefix(e, 5, 0, 4);
    lemma_subrange_of_prefix(e, 5, 4, 5);
    lemma_seq_split(b2, seq![bool_byte(c.show_liq)]);
    lemma_subrange_of_prefix(e, 4, 0, 3);
    lemma_subrange_of_prefix(e, 4, 3, 4);
    lemma_seq_split(b1, seq![bool_byte(c.show_mark_price)]);
    lemma_subrange_of_prefix(e, 3, 0, 2);
    lemma_subrange_of_prefix(e, 3, 2, 3);
    lemma_seq_split(b0, seq![bool_byte(c.shift_spot)]);
    lemma_subrange_of_prefix(e, 2, 0, 1);
    lemma_subrange_of_prefix(e, 2, 1, 2);
    assert(e.subrange(0, 1) == seq![bool_byte(c.spot_btc)]);
    assert(d[o + 0] == e.subrange(0, 1)[0]);
    lemma_bool_byte(c.spot_btc);
    assert(e.subrange(1, 2) == seq![bool_byte(c.shift_spot)]);
    assert(d[o + 1] == e.subrange(1, 2)[0]);
    lemma_bool_byte(c.shift_spot);
    assert(e.subrange(2, 3) == seq![bool_byte(c.show_mark_price)]);
    assert(d[o + 2] == e.subrange(2, 3)[0]);
    lemma_bool_byte(c.show_mark_price);
    assert(e.subrange(3, 4) == seq![bool_byte(c.show_liq)]);
    assert(d[o + 3] == e.subrange(3, 4)[0]);
    lemma_bool_byte(c.show_liq);
    assert(e.subrange(4, 5) == seq![bool_byte(c.huge_liq)]);
    assert(d[o + 4] == e.subrange(4, 5)[0]);
    lemma_bool_byte(c.huge_liq);
    assert(e.subrange(5, 6) == seq![bool_byte(c.show_open_int)]);
    assert(d[o + 5] == e.subrange(5, 6)[0]);
    lemma_bool_byte(c.show_open_int);
}

/// Fields `show_avg_price_line` to `show_avg_price_line` read back from their bytes.
pub proof fn lemma_spot_config_part3_at(c: SpotConfig, d: Seq<u8>, o: int)
    requires
        0 <= o,
        o + 1 <= d.len(),
        d.subrange(o, o + 1) == spot_config_part3_bytes(c),
    ensures
        spot_config_part3_bytes(c).len() == 1,
        spot_config_part3_at(d, o, c),
{
    let b0 = seq![bool_byte(c.show_avg_price_line)];
    let e = d.subrange(o, o + 1);
    assert(e == b0);
    assert(e.subrange(0, 1) == seq![bool_byte(c.show_avg_price_line)]);
    assert(d[o + 0] == e.subrange(0, 1)[0]);
    lemma_bool_byte(c.show_avg_price_line);
}

/// The fields of a [`SpotConfig`] read back from its bytes.
pub proof fn lemma_spot_config_at(c: SpotConfig, d: Seq<u8>, o: int)
    requires
        0 <= o,
        o + 16 <= d.len(),
        d.subrange(o, o + 16) == spot_config_bytes(c),
    ensures
        spot_config_bytes(c).len() == 16,
        spot_config_at(d, o, c),
{
    let g0 = spot_config_part1_bytes(c);
    let g1 = g0 + spot_config_part2_bytes(c);
    let g2 = g1 + spot_config_part3_bytes(c);
    let e = d.subrange(o, o + 16);
    assert(e == g2);
    lemma_seq_split(g1, spot_config_part3_bytes(c));
    lemma_subrange_of_prefix(e, 16, 0, 15);
    lemma_subrange_of_prefix(e, 16, 15, 16);
    assert(d.subrange(o + 15, o + 16) =~= e.subrange(15, 16));
    lemma_spot_config_part3_at(c, d, o + 15);
    lemma_seq_split(g0, spot_config_part2_bytes(c));
    lemma_subrange_of_prefix(e, 15, 0, 9);
    lemma_subrange_of_prefix(e, 15, 9, 15);
    assert(d.subrange(o + 9, o + 15) =~= e.subrange(9, 15));
    lemma_spot_config_part2_at(c, d, o + 9);
    assert(d.subrange(o + 0, o + 9) =~= e.subrange(0, 9));
    lemma_spot_config_part1_at(c, d, o + 0);
}

/// Reading back the bytes of a [`SpotConfig`] gives the same record.
pub proof fn lemma_spot_config_roundtrip(c: SpotConfig, rest: Seq<u8>)
    ensures
        spot_config_bytes(c).len() == SPOT_CONFIG_LEN,
        spot_config_at(spot_config_bytes(c) + rest, 0, c),
{
    lemma_seq_split(spot_config_bytes(c), rest);
    lemma_spot_config_at(c, spot_config_bytes(c) + rest, 0);
}

impl SpotConfig {
    /// Whether every field holds the value that [`SpotConfig::default`] gives.
    pub open spec fn is_default(&self) -> bool {
        &&& self.show_trades == true
        &&& self.show_book == true
        &&& self.book_len == 0x428c0000
        &&& self.show_market_avg == false
        &&& self.show_min_max == false
        &&& self.show_avg_price == false
        &&& self.spot_btc == false
        &&& self.shift_spot == false
        &&& self.show_mark_price == true
        &&& self.show_liq == true
        &&& self.huge_liq == false
        &&& self.show_open_int == true
        &&& self.show_avg_price_line == false
    }
}

impl Default for SpotConfig {
    fn default() -> (r: Self)
        ensures
            r.is_default(),
    {
        SpotConfig {
            show_trades: true,
            show_book: true,
            book_len: 0x428c0000,
            show_market_avg: false,
            show_min_max: false,
            show_avg_price: false,
            spot_btc: false,
            shift_spot: false,
            show_mark_price: true,
            show_liq: true,
            huge_liq: false,
            show_open_int: true,
            show_avg_price_line: false,
        }
    }
}

/// Order lifecycle watchdog settings.
#[derive(Clone, Copy, Debug)]
pub struct OrdersControl {
    /// Enable order lifecycle watchdog.
    pub active: bool,
    /// Minimum order price threshold.
    /// (IEEE-754 bits of the `f64` value.)
    pub min_price: u64,
    /// Maximum time for an order to stay pending (seconds).
    pub max_time: i32,
    /// Enable hanging-position detection.
    pub h_pos_control: bool,
    /// Report hanging positions via Telegram.
    pub h_pos_report: bool,
    /// Auto-sell hanging positions.
    pub h_pos_auto_sell: bool,
    /// Ignore the "replacing" order state bug in some engines.
    pub ignore_replacing_bug: bool,
    /// Order protection bypass level (0 = enabled).
    pub ignore_protection: i32,
    /// Sign orders with HMAC for thin-client authentication.
    /// Mirrors [`ClientSettingsCommand::sign_orders`].
    pub sign_orders: bool,
    /// Enable liquidation-price proximity control.
    pub liq_control: bool,
}

/// Wire size of [`OrdersControl`].
pub const ORDERS_CONTROL_LEN: usize = 23;

/// Wire bytes of fields `active` to `h_pos_auto_sell` of a [`OrdersControl`].
pub open spec fn orders_control_part1_bytes(c: OrdersControl) -> Seq<u8> {
    seq![bool_byte(c.active)]
        + le_u64(c.min_price)
        + le_u32(c.max_time as u32)
        + seq![bool_byte(c.h_pos_control)]
        + seq![bool_byte(c.h_pos_report)]
        + seq![bool_byte(c.h_pos_auto_sell)]
}

/// Whether fields `active` to `h_pos_auto_sell` of `c` are stored at `p`.
pub open spec fn orders_control_part1_at(d: Seq<u8>, p: int, c: OrdersControl) -> bool {
    &&& c.active == flag_of(d[p])
    &&& c.min_price == u64_at(d, p + 1)
    &&& c.max_time == i32_at(d, p + 9)
    &&& c.h_pos_control == flag_of(d[p + 13])
    &&& c.h_pos_report == flag_of(d[p + 14])
    &&& c.h_pos_auto_sell == flag_of(d[p + 15])
}

/// Wire bytes of fields `ignore_replacing_bug` to `liq_control` of a [`OrdersControl`].
pub open spec fn orders_control_part2_bytes(c: OrdersControl) -> Seq<u8> {
    seq![bool_byte(c.ignore_replacing_bug)]
        + le_u32(c.ignore_protection as u32)
        + seq![bool_byte(c.sign_orders)]
        + seq![bool_byte(c.liq_control)]
}

/// Whether fields `ignore_replacing_bug` to `liq_control` of `c` are stored at `p`.
pub open spec fn orders_control_part2_at(d: Seq<u8>, p: int, c: OrdersControl) -> bool {
    &&& c.ignore_replacing_bug == flag_of(d[p])
    &&& c.ignore_protection == i32_at(d, p + 1)
    &&& c.sign_orders == flag_of(d[p + 5])
    &&& c.liq_control == flag_of(d[p + 6])
}

/// Wire bytes of a [`OrdersControl`], field after field.
pub open spec fn orders_control_bytes(c: OrdersControl) -> Seq<u8> {
    orders_control_part1_bytes(c)
        + orders_control_part2_bytes(c)
}

/// Whether `c` is the [`OrdersControl`] stored at `p`.
pub open spec fn orders_control_at(d: Seq<u8>, p: int, c: OrdersControl) -> bool {
    &&& orders_control_part1_at(d, p, c)
    &&& orders_control_part2_at(d, p + 16, c)
}

/// Read a [`OrdersControl`].
pub fn read_orders_control(r: &mut ConfigReader) -> (res: Result<OrdersControl, SharedConfigError>)
    ensures
        final(r).bytes() == old(r).bytes(),
        old(r).at() + ORDERS_CONTROL_LEN <= old(r).bytes().len() ==> (res matches Ok(c) && orders_control_at(
            old(r).bytes(),
            old(r).at(),
            c,
        ) && final(r).at() == old(r).at() + ORDERS_CONTROL_LEN),
        old(r).at() + ORDERS_CONTROL_LEN > old(r).bytes().len() ==> (res matches Err(e) && e@ == eof_msg()),
{
    Ok(OrdersControl {
        active: r.read_bool()?,
        min_price: r.read_u64()?,
        max_time: r.read_i32()?,
        h_pos_control: r.read_bool()?,
        h_pos_report: r.read_bool()?,
        h_pos_auto_sell: r.read_bool()?,
        ignore_replacing_bug: r.read_bool()?,
        ignore_protection: r.read_i32()?,
        sign_orders: r.read_bool()?,
        liq_control: r.read_bool()?,
    })
}

/// Write fields `active` to `h_pos_auto_sell` of a [`OrdersControl`].
fn write_orders_control_part1(w: &mut ConfigWriter, c: &OrdersControl)
    requires
        old(w).wf(),
    ensures
        final(w).wf(),
        final(w).wrote_all(old(w), true, orders_control_part1_bytes(*c)),
{
    let ghost w0 = *w;
    let ghost wb = *w;
    w.write_bool(c.active);
    proof { lemma_wrote_all_of_wrote(wb, *w, seq![bool_byte(c.active)]); }
    let ghost wb = *w;
    w.write_u64(c.min_price);
    proof {
        lemma_wrote_all_of_wrote(wb, *w, le_u64(c.min_price));
        lemma_wrote_all_then(w0, wb, *w, true, seq![bool_byte(c.active)], true, le_u64(c.min_price));
    }
    let ghost wb = *w;
    w.write_i32(c.max_time);
    proof {
        lemma_wrote_all_of_wrote(wb, *w, le_u32(c.max_time as u32));
        lemma_wrote_all_then(w0, wb, *w, true, seq![bool_byte(c.active)] + le_u64(c.min_price), true, le_u32(c.max_time as u32));
    }
    let ghost wb = *w;
    w.write_bool(c.h_pos_control);
    proof {
        lemma_wrote_all_of_wrote(wb, *w, seq![bool_byte(c.h_pos_control)]);
        lemma_wrote_all_then(w0, wb, *w, true, seq![bool_byte(c.active)] + le_u64(c.min_price) + le_u32(c.max_time as u32), true, seq![bool_byte(c.h_pos_control)]);
    }
    let ghost wb = *w;
    w.write_bool(c.h_pos_report);
    proof {
        lemma_wrote_all_of_wrote(wb, *w, seq![bool_byte(c.h_pos_report)]);
        lemma_wrote_all_then(w0, wb, *w, true, seq![bool_byte(c.active)] + le_u64(c.min_price) + le_u32(c.max_time as u32) + seq![bool_byte(c.h_pos_control)], true, seq![bool_byte(c.h_pos_report)]);
    }
    let ghost wb = *w;
    w.write_bool(c.h_pos_auto_sell);
    proof {
        lemma_wrote_all_of_wrote(wb, *w, seq![bool_byte(c.h_pos_auto_sell)]);
        lemma_wrote_all_then(w0, wb, *w, true, seq![bool_byte(c.active)] + le_u64(c.min_price) + le_u32(c.max_time as u32) + seq![bool_byte(c.h_pos_control)] + seq![bool_byte(c.h_pos_report)], true, seq![bool_byte(c.h_pos_auto_sell)]);
    }
}

/// Write fields `ignore_replacing_bug` to `liq_control` of a [`OrdersControl`].
fn write_orders_control_part2(w: &mut ConfigWriter, c: &OrdersControl)
    requires
        old(w).wf(),
    ensures
        final(w).wf(),
        final(w).wrote_all(old(w), true, orders_control_part2_bytes(*c)),
{
    let ghost w0 = *w;
    let ghost wb = *w;
    w.write_bool(c.ignore_replacing_bug);
    proof { lemma_wrote_all_of_wrote(wb, *w, seq![bool_byte(c.ignore_replacing_bug)]); }
    let ghost wb = *w;
    w.write_i32(c.ignore_protection);
    proof {
        lemma_wrote_all_of_wrote(wb, *w, le_u32(c.ignore_protection as u32));
        lemma_wrote_all_then(w0, wb, *w, true, seq![bool_byte(c.ignore_replacing_bug)], true, le_u32(c.ignore_protection as u32));
    }
    let ghost wb = *w;
    w.write_bool(c.sign_orders);
    proof {
        lemma_wrote_all_of_wrote(wb, *w, seq![bool_byte(c.sign_orders)]);
        lemma_wrote_all_then(w0, wb, *w, true, seq![bool_byte(c.ignore_replacing_bug)] + le_u32(c.ignore_protection as u32), true, seq![bool_byte(c.sign_orders)]);
    }
    let ghost wb = *w;
    w.write_bool(c.liq_control);
    proof {
        lemma_wrote_all_of_wrote(wb, *w, seq![bool_byte(c.liq_control)]);
        lemma_wrote_all_then(w0, wb, *w, true, seq![bool_byte(c.ignore_replacing_bug)] + le_u32(c.ignore_protection as u32) + seq![bool_byte(c.sign_orders)], true, seq![bool_byte(c.liq_control)]);
    }
}

/// Write a [`OrdersControl`].
pub fn write_orders_control(w: &mut ConfigWriter, c: &OrdersControl)
    requires
        old(w).wf(),
    ensures
        final(w).wf(),
        final(w).wrote_all(old(w), true, orders_control_bytes(*c)),
{
    let ghost w0 = *w;
    let ghost wb = *w;
    write_orders_control_part1(w, c);
    let ghost wb = *w;
    write_orders_control_part2(w, c);
    proof { lemma_wrote_all_then(w0, wb, *w, true, orders_control_part1_bytes(*c), true, orders_control_part2_bytes(*c)); }
}

/// Fields `active` to `h_pos_auto_sell` read back from their bytes.
pub proof fn lemma_orders_control_part1_at(c: OrdersControl, d: Seq<u8>, o: int)
    requires
        0 <= o,
        o + 16 <= d.len(),
        d.subrange(o, o + 16) == orders_control_part1_bytes(c),
    ensures
        orders_control_part1_bytes(c).len() == 16,
        orders_control_part1_at(d, o, c),
{
    let b0 = seq![bool_byte(c.active)];
    let b1 = b0 + le_u64(c.min_price);
    let b2 = b1 + le_u32(c.max_time as u32);
    let b3 = b2 + seq![bool_byte(c.h_pos_control)];
    let b4 = b3 + seq![bool_byte(c.h_pos_report)];
    let b5 = b4 + seq![bool_byte(c.h_pos_auto_sell)];
    let e = d.subrange(o, o + 16);
    assert(e == b5);
    lemma_seq_split(b4, seq![bool_byte(c.h_pos_auto_sell)]);
    lemma_subrange_of_prefix(e, 16, 0, 15);
    lemma_subrange_of_prefix(e, 16, 15, 16);
    lemma_seq_split(b3, seq![bool_byte(c.h_pos_report)]);
    lemma_subrange_of_prefix(e, 15, 0, 14);
    lemma_subrange_of_prefix(e, 15, 14, 15);
    lemma_seq_split(b2, seq![bool_byte(c.h_pos_control)]);
    lemma_subrange_of_prefix(e, 14, 0, 13);
    lemma_subrange_of_prefix(e, 14, 13, 14);
    lemma_seq_split(b1, le_u32(c.max_time as u32));
    lemma_subrange_of_prefix(e, 13, 0, 9);
    lemma_subrange_of_prefix(e, 13, 9, 13);
    lemma_seq_split(b0, le_u64(c.min_price));
    lemma_subrange_of_prefix(e, 9, 0, 1);
    lemma_subrange_of_prefix(e, 9, 1, 9);
    assert(e.subrange(0, 1) == seq![bool_byte(c.active)]);
    assert(d[o + 0] == e.subrange(0, 1)[0]);
    lemma_bool_byte(c.active);
    assert(e.subrange(1, 9) == le_u64(c.min_price));
    assert(d.subrange(o + 1, o + 9) =~= e.subrange(1, 9));
    lemma_u64_at_le(c.min_price, d, o + 1);
    assert(e.subrange(9, 13) == le_u32(c.max_time as u32));
    lemma_le_i32_roundtrip(c.max_time);
    assert(d[o + 9] == e.subrange(9, 13)[0] && d[o + 10] == e.subrange(9, 13)[1] && d[o + 11] == e.subrange(9, 13)[2] && d[o + 12] == e.subrange(9, 13)[3]);
    assert(e.subrange(13, 14) == seq![bool_byte(c.h_pos_control)]);
    assert(d[o + 13] == e.subrange(13, 14)[0]);
    lemma_bool_byte(c.h_pos_control);
    assert(e.subrange(14, 15) == seq![bool_byte(c.h_pos_report)]);
    assert(d[o + 14] == e.subrange(14, 15)[0]);
    lemma_bool_byte(c.h_pos_report);
    assert(e.subrange(15, 16) == seq![bool_byte(c.h_pos_auto_sell)]);
    assert(d[o + 15] == e.subrange(15, 16)[0]);
    lemma_bool_byte(c.h_pos_auto_sell);
}

/// Fields `ignore_replacing_bug` to `liq_control` read back from their bytes.
pub proof fn lemma_orders_control_part2_at(c: OrdersControl, d: Seq<u8>, o: int)
    requires
        0 <= o,
        o + 7 <= d.len(),
        d.subrange(o, o + 7) == orders_control_part2_bytes(c),
    ensures
        orders_control_part2_bytes(c).len() == 7,
        orders_control_part2_at(d, o, c),
{
    let b0 = seq![bool_byte(c.ignore_replacing_bug)];
    let b1 = b0 + le_u32(c.ignore_protection as u32);
    let b2 = b1 + seq![bool_byte(c.sign_orders)];
    let b3 = b2 + seq![bool_byte(c.liq_control)];
    let e = d.subrange(o, o + 7);
    assert(e == b3);
    lemma_seq_split(b2, seq![bool_byte(c.liq_control)]);
    lemma_subrange_of_prefix(e, 7, 0, 6);
    lemma_subrange_of_prefix(e, 7, 6, 7);
    lemma_seq_split(b1, seq![bool_byte(c.sign_orders)]);
    lemma_subrange_of_prefix(e, 6, 0, 5);
    lemma_subrange_of_prefix(e, 6, 5, 6);
    lemma_seq_split(b0, le_u32(c.ignore_protection as u32));
    lemma_subrange_of_prefix(e, 5, 0, 1);
    lemma_subrange_of_prefix(e, 5, 1, 5);
    assert(e.subrange(0, 1) == seq![bool_byte(c.ignore_replacing_bug)]);
    assert(d[o + 0] == e.subrange(0, 1)[0]);
    lemma_bool_byte(c.ignore_replacing_bug);
    assert(e.subrange(1, 5) == le_u32(c.ignore_protection as u32));
    lemma_le_i32_roundtrip(c.ignore_protection);
    assert(d[o + 1] == e.subrange(1, 5)[0] && d[o + 2] == e.subrange(1, 5)[1] && d[o + 3] == e.subrange(1, 5)[2] && d[o + 4] == e.subrange(1, 5)[3]);
    assert(e.subrange(5, 6) == seq![bool_byte(c.sign_orders)]);
    assert(d[o + 5] == e.subrange(5, 6)[0]);
    lemma_bool_byte(c.sign_orders);
    assert(e.subrange(6, 7) == seq![bool_byte(c.liq_control)]);
    assert(d[o + 6] == e.subrange(6, 7)[0]);
    lemma_bool_byte(c.liq_control);
}

/// The fields of a [`OrdersControl`] read back from its bytes.
pub proof fn lemma_orders_control_at(c: OrdersControl, d: Seq<u8>, o: int)
    requires
        0 <= o,
        o + 23 <= d.len(),
        d.subrange(o, o + 23) == orders_control_bytes(c),
    ensures
        orders_control_bytes(c).len() == 23,
        orders_control_at(d, o, c),
{
    let g0 = orders_control_part1_bytes(c);
    let g1 = g0 + orders_control_part2_bytes(c);
    let e = d.subrange(o, o + 23);
    assert(e == g1);
    lemma_seq_split(g0, orders_control_part2_bytes(c));
    lemma_subrange_of_prefix(e, 23, 0, 16);
    lemma_subrange_of_prefix(e, 23, 16, 23);
    assert(d.subrange(o + 16, o + 23) =~= e.subrange(16, 23));
    lemma_orders_control_part2_at(c, d, o + 16);
    assert(d.subrange(o + 0, o + 16) =~= e.subrange(0, 16));
    lemma_orders_control_part1_at(c, d, o + 0);
}

/// Reading back the bytes of a [`OrdersControl`] gives the same record.
pub proof fn lemma_orders_control_roundtrip(c: OrdersControl, rest: Seq<u8>)
    ensures
        orders_control_bytes(c).len() == ORDERS_CONTROL_LEN,
        orders_control_at(orders_control_bytes(c) + rest, 0, c),
{
    lemma_seq_split(orders_control_bytes(c), rest);
    lemma_orders_control_at(c, orders_control_bytes(c) + rest, 0);
}

impl OrdersControl {
    /// Whether every field holds the value that [`OrdersControl::default`] gives.
    pub open spec fn is_default(&self) -> bool {
        &&& self.active == false
        &&& self.min_price == 0x3ff0000000000000
        &&& self.max_time == 300
        &&& self.h_pos_control == false
        &&& self.h_pos_report == false
        &&& self.h_pos_auto_sell == false
        &&& self.ignore_replacing_bug == false
        &&& self.ignore_protection == 0
        &&& self.sign_orders == true
        &&& self.liq_control == false
    }
}

impl Default for OrdersControl {
    fn default() -> (r: Self)
        ensures
            r.is_default(),
    {
        OrdersControl {
            active: false,
            min_price: 0x3ff0000000000000,
            max_time: 300,
            h_pos_control: false,
            h_pos_report: false,
            h_pos_auto_sell: false,
            ignore_replacing_bug: false,
            ignore_protection: 0,
            sign_orders: true,
            liq_control: false,
        }
    }
}

/// Settings for a single chart draw tool.
#[derive(Clone, Copy, Debug)]
pub struct CustomDrawTool {
    /// Primary line color (white/light theme, ARGB).
    pub color_w: u32,
    /// Primary line color (black/dark theme, ARGB).
    pub color_b: u32,
    /// Fill color (light theme, ARGB).
    pub fill_color_w: u32,
    /// Fill color (dark theme, ARGB).
    pub fill_color_b: u32,
    /// Trigger a sound alert when price crosses this tool's line.
    pub sound_alert: bool,
    /// Alert sound preset index.
    pub sound_kind: i32,
    /// Primary line thickness.
    /// (IEEE-754 bits of the `f32` value.)
    pub thickness: u32,
    /// Primary line stroke style (`TStrokeDash` ordinal, 4 bytes on wire).
    pub stroke: i32,
    /// Secondary line thickness.
    /// (IEEE-754 bits of the `f32` value.)
    pub thickness_2: u32,
    /// Secondary line stroke style (4 bytes on wire).
    pub stroke_2: i32,
    /// Secondary line colors (6 per theme, light theme).
    pub color_2w: [u32; 6],
    /// Secondary line colors (dark theme).
    pub color_2b: [u32; 6],
    /// Secondary fill colors (light theme).
    pub fill_color_2w: [u32; 6],
    /// Secondary fill colors (dark theme).
    pub fill_color_2b: [u32; 6],
    /// Emulate trades when price crosses this tool's line.
    pub emulate_trades: bool,
    /// Prevent chart-switch when drawing this tool.
    pub prevent_switch: bool,
}

/// Wire size of [`CustomDrawTool`].
pub const CUSTOM_DRAW_TOOL_LEN: usize = 135;

/// Wire bytes of fields `color_w` to `sound_kind` of a [`CustomDrawTool`].
pub open spec fn custom_draw_tool_part1_bytes(c: CustomDrawTool) -> Seq<u8> {
    le_u32(c.color_w)
        + le_u32(c.color_b)
        + le_u32(c.fill_color_w)
        + le_u32(c.fill_color_b)
        + seq![bool_byte(c.sound_alert)]
        + le_u32(c.sound_kind as u32)
}

/// Whether fields `color_w` to `sound_kind` of `c` are stored at `p`.
pub open spec fn custom_draw_tool_part1_at(d: Seq<u8>, p: int, c: CustomDrawTool) -> bool {
    &&& c.color_w == u32_at(d, p)
    &&& c.color_b == u32_at(d, p + 4)
    &&& c.fill_color_w == u32_at(d, p + 8)
    &&& c.fill_color_b == u32_at(d, p + 12)
    &&& c.sound_alert == flag_of(d[p + 16])
    &&& c.sound_kind == i32_at(d, p + 17)
}

/// Wire bytes of fields `thickness` to `color_2b` of a [`CustomDrawTool`].
pub open spec fn custom_draw_tool_part2_bytes(c: CustomDrawTool) -> Seq<u8> {
    le_u32(c.thickness)
        + le_u32(c.stroke as u32)
        + le_u32(c.thickness_2)
        + le_u32(c.stroke_2 as u32)
        + u32s_bytes(c.color_2w@)
        + u32s_bytes(c.color_2b@)
}

/// Whether fields `thickness` to `color_2b` of `c` are stored at `p`.
pub open spec fn custom_draw_tool_part2_at(d: Seq<u8>, p: int, c: CustomDrawTool) -> bool {
    &&& c.thickness == u32_at(d, p)
    &&& c.stroke == i32_at(d, p + 4)
    &&& c.thickness_2 == u32_at(d, p + 8)
    &&& c.stroke_2 == i32_at(d, p + 12)
    &&& c.color_2w@ == u32s_at(d, p + 16, 6)
    &&& c.color_2b@ == u32s_at(d, p + 40, 6)
}

/// Wire bytes of fields `fill_color_2w` to `prevent_switch` of a [`CustomDrawTool`].
pub open spec fn custom_draw_tool_part3_bytes(c: CustomDrawTool) -> Seq<u8> {
    u32s_bytes(c.fill_color_2w@)
        + u32s_bytes(c.fill_color_2b@)
        + seq![bool_byte(c.emulate_trades)]
        + seq![bool_byte(c.prevent_switch)]
}

/// Whether fields `fill_color_2w` to `prevent_switch` of `c` are stored at `p`.
pub open spec fn custom_draw_tool_part3_at(d: Seq<u8>, p: int, c: CustomDrawTool) -> bool {
    &&& c.fill_color_2w@ == u32s_at(d, p, 6)
    &&& c.fill_color_2b@ == u32s_at(d, p + 24, 6)
    &&& c.emulate_trades == flag_of(d[p + 48])
    &&& c.prevent_switch == flag_of(d[p + 49])
}

/// Wire bytes of a [`CustomDrawTool`], field after field.
pub open spec fn custom_draw_tool_bytes(c: CustomDrawTool) -> Seq<u8> {
    custom_draw_tool_part1_bytes(c)
        + custom_draw_tool_part2_bytes(c)
        + custom_draw_tool_part3_bytes(c)
}

/// Whether `c` is the [`CustomDrawTool`] stored at `p`.
pub open spec fn custom_draw_tool_at(d: Seq<u8>, p: int, c: CustomDrawTool) -> bool {
    &&& custom_draw_tool_part1_at(d, p, c)
    &&& custom_draw_tool_part2_at(d, p + 21, c)
    &&& custom_draw_tool_part3_at(d, p + 85, c)
}

/// Read a [`CustomDrawTool`].
pub fn read_custom_draw_tool(r: &mut ConfigReader) -> (res: Result<CustomDrawTool, SharedConfigError>)
    ensures
        final(r).bytes() == old(r).bytes(),
        old(r).at() + CUSTOM_DRAW_TOOL_LEN <= old(r).bytes().len() ==> (res matches Ok(c) && custom_draw_tool_at(
            old(r).bytes(),
            old(r).at(),
            c,
        ) && final(r).at() == old(r).at() + CUSTOM_DRAW_TOOL_LEN),
        old(r).at() + CUSTOM_DRAW_TOOL_LEN > old(r).bytes().len() ==> (res matches Err(e) && e@ == eof_msg()),
{
    Ok(CustomDrawTool {
        color_w: r.read_u32()?,
        color_b: r.read_u32()?,
        fill_color_w: r.read_u32()?,
        fill_color_b: r.read_u32()?,
        sound_alert: r.read_bool()?,
        sound_kind: r.read_i32()?,
        thickness: r.read_u32()?,
        stroke: r.read_i32()?,
        thickness_2: r.read_u32()?,
        stroke_2: r.read_i32()?,
        color_2w: r.read_u32_array::<6>()?,
        color_2b: r.read_u32_array::<6>()?,
        fill_color_2w: r.read_u32_array::<6>()?,
        fill_color_2b: r.read_u32_array::<6>()?,
        emulate_trades: r.read_bool()?,
        prevent_switch: r.read_bool()?,
    })
}

/// Write fields `color_w` to `sound_kind` of a [`CustomDrawTool`].
fn write_custom_draw_tool_part1(w: &mut ConfigWriter, c: &CustomDrawTool)
    requires
        old(w).wf(),
    ensures
        final(w).wf(),
        final(w).wrote_all(old(w), true, custom_draw_tool_part1_bytes(*c)),
{
    let ghost w0 = *w;
    let ghost wb = *w;
    w.write_u32(c.color_w);
    proof { lemma_wrote_all_of_wrote(wb, *w, le_u32(c.color_w)); }
    let ghost wb = *w;
    w.write_u32(c.color_b);
    proof {
        lemma_wrote_all_of_wrote(wb, *w, le_u32(c.color_b));
        lemma_wrote_all_then(w0, wb, *w, true, le_u32(c.color_w), true, le_u32(c.color_b));
    }
    let ghost wb = *w;
    w.write_u32(c.fill_color_w);
    proof {
        lemma_wrote_all_of_wrote(wb, *w, le_u32(c.fill_color_w));
        lemma_wrote_all_then(w0, wb, *w, true, le_u32(c.color_w) + le_u32(c.color_b), true, le_u32(c.fill_color_w));
    }
    let ghost wb = *w;
    w.write_u32(c.fill_color_b);
    proof {
        lemma_wrote_all_of_wrote(wb, *w, le_u32(c.fill_color_b));
        lemma_wrote_all_then(w0, wb, *w, true, le_u32(c.color_w) + le_u32(c.color_b) + le_u32(c.fill_color_w), true, le_u32(c.fill_color_b));
    }
    let ghost wb = *w;
    w.write_bool(c.sound_alert);
    proof {
        lemma_wrote_all_of_wrote(wb, *w, seq![bool_byte(c.sound_alert)]);
        lemma_wrote_all_then(w0, wb, *w, true, le_u32(c.color_w) + le_u32(c.color_b) + le_u32(c.fill_color_w) + le_u32(c.fill_color_b), true, seq![bool_byte(c.sound_alert)]);
    }
    let ghost wb = *w;
    w.write_i32(c.sound_kind);
    proof {
        lemma_wrote_all_of_wrote(wb, *w, le_u32(c.sound_kind as u32));
        lemma_wrote_all_then(w0, wb, *w, true, le_u32(c.color_w) + le_u32(c.color_b) + le_u32(c.fill_color_w) + le_u32(c.fill_color_b) + seq![bool_byte(c.sound_alert)], true, le_u32(c.sound_kind as u32));
    }
}

/// Write fields `thickness` to `color_2b` of a [`CustomDrawTool`].
fn write_custom_draw_tool_part2(w: &mut ConfigWriter, c: &CustomDrawTool)
    requires
        old(w).wf(),
    ensures
        final(w).wf(),
        final(w).wrote_all(old(w), true, custom_draw_tool_part2_bytes(*c)),
{
    proof { lemma_u32s_bytes_len(c.color_2w@); }
    proof { lemma_u32s_bytes_len(c.color_2b@); }
    let ghost w0 = *w;
    let ghost wb = *w;
    w.write_u32(c.thickness);
    proof { lemma_wrote_all_of_wrote(wb, *w, le_u32(c.thickness)); }
    let ghost wb = *w;
    w.write_i32(c.stroke);
    proof {
        lemma_wrote_all_of_wrote(wb, *w, le_u32(c.stroke as u32));
        lemma_wrote_all_then(w0, wb, *w, true, le_u32(c.thickness), true, le_u32(c.stroke as u32));
    }
    let ghost wb = *w;
    w.write_u32(c.thickness_2);
    proof {
        lemma_wrote_all_of_wrote(wb, *w, le_u32(c.thickness_2));
        lemma_wrote_all_then(w0, wb, *w, true, le_u32(c.thickness) + le_u32(c.stroke as u32), true, le_u32(c.thickness_2));
    }
    let ghost wb = *w;
    w.write_i32(c.stroke_2);
    proof {
        lemma_wrote_all_of_wrote(wb, *w, le_u32(c.stroke_2 as u32));
        lemma_wrote_all_then(w0, wb, *w, true, le_u32(c.thickness) + le_u32(c.stroke as u32) + le_u32(c.thickness_2), true, le_u32(c.stroke_2 as u32));
    }
    let ghost wb = *w;
    w.write_u32_array(c.color_2w.as_slice());
    proof {
        lemma_wrote_all_then(w0, wb, *w, true, le_u32(c.thickness) + le_u32(c.stroke as u32) + le_u32(c.thickness_2) + le_u32(c.stroke_2 as u32), true, u32s_bytes(c.color_2w@));
    }
    let ghost wb = *w;
    w.write_u32_array(c.color_2b.as_slice());
    proof {
        lemma_wrote_all_then(w0, wb, *w, true, le_u32(c.thickness) + le_u32(c.stroke as u32) + le_u32(c.thickness_2) + le_u32(c.stroke_2 as u32) + u32s_bytes(c.color_2w@), true, u32s_bytes(c.color_2b@));
    }
}

/// Write fields `fill_color_2w` to `prevent_switch` of a [`CustomDrawTool`].
fn write_custom_draw_tool_part3(w: &mut ConfigWriter, c: &CustomDrawTool)
    requires
        old(w).wf(),
    ensures
        final(w).wf(),
        final(w).wrote_all(old(w), true, custom_draw_tool_part3_bytes(*c)),
{
    proof { lemma_u32s_bytes_len(c.fill_color_2w@); }
    proof { lemma_u32s_bytes_len(c.fill_color_2b@); }
    let ghost w0 = *w;
    let ghost wb = *w;
    w.write_u32_array(c.fill_color_2w.as_slice());
    let ghost wb = *w;
    w.write_u32_array(c.fill_color_2b.as_slice());
    proof {
        lemma_wrote_all_then(w0, wb, *w, true, u32s_bytes(c.fill_color_2w@), true, u32s_bytes(c.fill_color_2b@));
    }
    let ghost wb = *w;
    w.write_bool(c.emulate_trades);
    proof {
        lemma_wrote_all_of_wrote(wb, *w, seq![bool_byte(c.emulate_trades)]);
        lemma_wrote_all_then(w0, wb, *w, true, u32s_bytes(c.fill_color_2w@) + u32s_bytes(c.fill_color_2b@), true, seq![bool_byte(c.emulate_trades)]);
    }
    let ghost wb = *w;
    w.write_bool(c.prevent_switch);
    proof {
        lemma_wrote_all_of_wrote(wb, *w, seq![bool_byte(c.prevent_switch)]);
        lemma_wrote_all_then(w0, wb, *w, true, u32s_bytes(c.fill_color_2w@) + u32s_bytes(c.fill_color_2b@) + seq![bool_byte(c.emulate_trades)], true, seq![bool_byte(c.prevent_switch)]);
    }
}

/// Write a [`CustomDrawTool`].
pub fn write_custom_draw_tool(w: &mut ConfigWriter, c: &CustomDrawTool)
    requires
        old(w).wf(),
    ensures
        final(w).wf(),
        final(w).wrote_all(old(w), true, custom_draw_tool_bytes(*c)),
{
    let ghost w0 = *w;
    let ghost wb = *w;
    write_custom_draw_tool_part1(w, c);
    let ghost wb = *w;
    write_custom_draw_tool_part2(w, c);
    proof { lemma_wrote_all_then(w0, wb, *w, true, custom_draw_tool_part1_bytes(*c), true, custom_draw_tool_part2_bytes(*c)); }
    let ghost wb = *w;
    write_custom_draw_tool_part3(w, c);
    proof { lemma_wrote_all_then(w0, wb, *w, true, custom_draw_tool_part1_bytes(*c) + custom_draw_tool_part2_bytes(*c), true, custom_draw_tool_part3_bytes(*c)); }
}

/// Fields `color_w` to `sound_kind` read back from their bytes.
pub proof fn lemma_custom_draw_tool_part1_at(c: CustomDrawTool, d: Seq<u8>, o: int)
    requires
        0 <= o,
        o + 21 <= d.len(),
        d.subrange(o, o + 21) == custom_draw_tool_part1_bytes(c),
    ensures
        custom_draw_tool_part1_bytes(c).len() == 21,
        custom_draw_tool_part1_at(d, o, c),
{
    let b0 = le_u32(c.color_w);
    let b1 = b0 + le_u32(c.color_b);
    let b2 = b1 + le_u32(c.fill_color_w);
    let b3 = b2 + le_u32(c.fill_color_b);
    let b4 = b3 + seq![bool_byte(c.sound_alert)];
    let b5 = b4 + le_u32(c.sound_kind as u32);
    let e = d.subrange(o, o + 21);
    assert(e == b5);
    lemma_seq_split(b4, le_u32(c.sound_kind as u32));
    lemma_subrange_of_prefix(e, 21, 0, 17);
    lemma_subrange_of_prefix(e, 21, 17, 21);
    lemma_seq_split(b3, seq![bool_byte(c.sound_alert)]);
    lemma_subrange_of_prefix(e, 17, 0, 16);
    lemma_subrange_of_prefix(e, 17, 16, 17);
    lemma_seq_split(b2, le_u32(c.fill_color_b));
    lemma_subrange_of_prefix(e, 16, 0, 12);
    lemma_subrange_of_prefix(e, 16, 12, 16);
    lemma_seq_split(b1, le_u32(c.fill_color_w));
    lemma_subrange_of_prefix(e, 12, 0, 8);
    lemma_subrange_of_prefix(e, 12, 8, 12);
    lemma_seq_split(b0, le_u32(c.color_b));
    lemma_subrange_of_prefix(e, 8, 0, 4);
    lemma_subrange_of_prefix(e, 8, 4, 8);
    assert(e.subrange(0, 4) == le_u32(c.color_w));
    lemma_le_u32_roundtrip(c.color_w);
    assert(d[o + 0] == e.subrange(0, 4)[0] && d[o + 1] == e.subrange(0, 4)[1] && d[o + 2] == e.subrange(0, 4)[2] && d[o + 3] == e.subrange(0, 4)[3]);
    assert(e.subrange(4, 8) == le_u32(c.color_b));
    lemma_le_u32_roundtrip(c.color_b);
    assert(d[o + 4] == e.subrange(4, 8)[0] && d[o + 5] == e.subrange(4, 8)[1] && d[o + 6] == e.subrange(4, 8)[2] && d[o + 7] == e.subrange(4, 8)[3]);
    assert(e.subrange(8, 12) == le_u32(c.fill_color_w));
    lemma_le_u32_roundtrip(c.fill_color_w);
    assert(d[o + 8] == e.subrange(8, 12)[0] && d[o + 9] == e.subrange(8, 12)[1] && d[o + 10] == e.subrange(8, 12)[2] && d[o + 11] == e.subrange(8, 12)[3]);
    assert(e.subrange(12, 16) == le_u32(c.fill_color_b));
    lemma_le_u32_roundtrip(c.fill_color_b);
    assert(d[o + 12] == e.subrange(12, 16)[0] && d[o + 13] == e.subrange(12, 16)[1] && d[o + 14] == e.subrange(12, 16)[2] && d[o + 15] == e.subrange(12, 16)[3]);
    assert(e.subrange(16, 17) == seq![bool_byte(c.sound_alert)]);
    assert(d[o + 16] == e.subrange(16, 17)[0]);
    lemma_bool_byte(c.sound_alert);
    assert(e.subrange(17, 21) == le_u32(c.sound_kind as u32));
    lemma_le_i32_roundtrip(c.sound_kind);
    assert(d[o + 17] == e.subrange(17, 21)[0] && d[o + 18] == e.subrange(17, 21)[1] && d[o + 19] == e.subrange(17, 21)[2] && d[o + 20] == e.subrange(17, 21)[3]);
}

/// Fields `thickness` to `color_2b` read back from their bytes.
pub proof fn lemma_custom_draw_tool_part2_at(c: CustomDrawTool, d: Seq<u8>, o: int)
    requires
        0 <= o,
        o + 64 <= d.len(),
        d.subrange(o, o + 64) == custom_draw_tool_part2_bytes(c),
    ensures
        custom_draw_tool_part2_bytes(c).len() == 64,
        custom_draw_tool_part2_at(d, o, c),
{
    let b0 = le_u32(c.thickness);
    let b1 = b0 + le_u32(c.stroke as u32);
    let b2 = b1 + le_u32(c.thickness_2);
    let b3 = b2 + le_u32(c.stroke_2 as u32);
    let b4 = b3 + u32s_bytes(c.color_2w@);
    lemma_u32s_bytes_len(c.color_2w@);
    let b5 = b4 + u32s_bytes(c.color_2b@);
    lemma_u32s_bytes_len(c.color_2b@);
    let e = d.subrange(o, o + 64);
    assert(e == b5);
    lemma_seq_split(b4, u32s_bytes(c.color_2b@));
    lemma_subrange_of_prefix(e, 64, 0, 40);
    lemma_subrange_of_prefix(e, 64, 40, 64);
    lemma_seq_split(b3, u32s_bytes(c.color_2w@));
    lemma_subrange_of_prefix(e, 40, 0, 16);
    lemma_subrange_of_prefix(e, 40, 16, 40);
    lemma_seq_split(b2, le_u32(c.stroke_2 as u32));
    lemma_subrange_of_prefix(e, 16, 0, 12);
    lemma_subrange_of_prefix(e, 16, 12, 16);
    lemma_seq_split(b1, le_u32(c.thickness_2));
    lemma_subrange_of_prefix(e, 12, 0, 8);
    lemma_subrange_of_prefix(e, 12, 8, 12);
    lemma_seq_split(b0, le_u32(c.stroke as u32));
    lemma_subrange_of_prefix(e, 8, 0, 4);
    lemma_subrange_of_prefix(e, 8, 4, 8);
    assert(e.subrange(0, 4) == le_u32(c.thickness));
    lemma_le_u32_roundtrip(c.thickness);
    assert(d[o + 0] == e.subrange(0, 4)[0] && d[o + 1] == e.subrange(0, 4)[1] && d[o + 2] == e.subrange(0, 4)[2] && d[o + 3] == e.subrange(0, 4)[3]);
    assert(e.subrange(4, 8) == le_u32(c.stroke as u32));
    lemma_le_i32_roundtrip(c.stroke);
    assert(d[o + 4] == e.subrange(4, 8)[0] && d[o + 5] == e.subrange(4, 8)[1] && d[o + 6] == e.subrange(4, 8)[2] && d[o + 7] == e.subrange(4, 8)[3]);
    assert(e.subrange(8, 12) == le_u32(c.thickness_2));
    lemma_le_u32_roundtrip(c.thickness_2);
    assert(d[o + 8] == e.subrange(8, 12)[0] && d[o + 9] == e.subrange(8, 12)[1] && d[o + 10] == e.subrange(8, 12)[2] && d[o + 11] == e.subrange(8, 12)[3]);
    assert(e.subrange(12, 16) == le_u32(c.stroke_2 as u32));
    lemma_le_i32_roundtrip(c.stroke_2);
    assert(d[o + 12] == e.subrange(12, 16)[0] && d[o + 13] == e.subrange(12, 16)[1] && d[o + 14] == e.subrange(12, 16)[2] && d[o + 15] == e.subrange(12, 16)[3]);
    assert(e.subrange(16, 40) == u32s_bytes(c.color_2w@));
    assert(d.subrange(o + 16, o + 40) =~= e.subrange(16, 40));
    lemma_u32s_at_bytes(c.color_2w@, d, o + 16);
    assert(e.subrange(40, 64) == u32s_bytes(c.color_2b@));
    assert(d.subrange(o + 40, o + 64) =~= e.subrange(40, 64));
    lemma_u32s_at_bytes(c.color_2b@, d, o + 40);
}

/// Fields `fill_color_2w` to `prevent_switch` read back from their bytes.
pub proof fn lemma_custom_draw_tool_part3_at(c: CustomDrawTool, d: Seq<u8>, o: int)
    requires
        0 <= o,
        o + 50 <= d.len(),
        d.subrange(o, o + 50) == custom_draw_tool_part3_bytes(c),
    ensures
        custom_draw_tool_part3_bytes(c).len() == 50,
        custom_draw_tool_part3_at(d, o, c),
{
    let b0 = u32s_bytes(c.fill_color_2w@);
    lemma_u32s_bytes_len(c.fill_color_2w@);
    let b1 = b0 + u32s_bytes(c.fill_color_2b@);
    lemma_u32s_bytes_len(c.fill_color_2b@);
    let b2 = b1 + seq![bool_byte(c.emulate_trades)];
    let b3 = b2 + seq![bool_byte(c.prevent_switch)];
    let e = d.subrange(o, o + 50);
    assert(e == b3);
    lemma_seq_split(b2, seq![bool_byte(c.prevent_switch)]);
    lemma_subrange_of_prefix(e, 50, 0, 49);
    lemma_subrange_of_prefix(e, 50, 49, 50);
    lemma_seq_split(b1, seq![bool_byte(c.emulate_trades)]);
    lemma_subrange_of_prefix(e, 49, 0, 48);
    lemma_subrange_of_prefix(e, 49, 48, 49);
    lemma_seq_split(b0, u32s_bytes(c.fill_color_2b@));
    lemma_subrange_of_prefix(e, 48, 0, 24);
    lemma_subrange_of_prefix(e, 48, 24, 48);
    assert(e.subrange(0, 24) == u32s_bytes(c.fill_color_2w@));
    assert(d.subrange(o + 0, o + 24) =~= e.subrange(0, 24));
    lemma_u32s_at_bytes(c.fill_color_2w@, d, o + 0);
    assert(e.subrange(24, 48) == u32s_bytes(c.fill_color_2b@));
    assert(d.subrange(o + 24, o + 48) =~= e.subrange(24, 48));
    lemma_u32s_at_bytes(c.fill_color_2b@, d, o + 24);
    assert(e.subrange(48, 49) == seq![bool_byte(c.emulate_trades)]);
    assert(d[o + 48] == e.subrange(48, 49)[0]);
    lemma_bool_byte(c.emulate_trades);
    assert(e.subrange(49, 50) == seq![bool_byte(c.prevent_switch)]);
    assert(d[o + 49] == e.subrange(49, 50)[0]);
    lemma_bool_byte(c.prevent_switch);
}

/// The fields of a [`CustomDrawTool`] read back from its bytes.
pub proof fn lemma_custom_draw_tool_at(c: CustomDrawTool, d: Seq<u8>, o: int)
    requires
        0 <= o,
        o + 135 <= d.len(),
        d.subrange(o, o + 135) == custom_draw_tool_bytes(c),
    ensures
        custom_draw_tool_bytes(c).len() == 135,
        custom_draw_tool_at(d, o, c),
{
    lemma_u32s_bytes_len(c.color_2w@);
    lemma_u32s_bytes_len(c.color_2b@);
    lemma_u32s_bytes_len(c.fill_color_2w@);
    lemma_u32s_bytes_len(c.fill_color_2b@);
    let g0 = custom_draw_tool_part1_bytes(c);
    let g1 = g0 + custom_draw_tool_part2_bytes(c);
    let g2 = g1 + custom_draw_tool_part3_bytes(c);
    let e = d.subrange(o, o + 135);
    assert(e == g2);
    lemma_seq_split(g1, custom_draw_tool_part3_bytes(c));
    lemma_subrange_of_prefix(e, 135, 0, 85);
    lemma_subrange_of_prefix(e, 135, 85, 135);
    assert(d.subrange(o + 85, o + 135) =~= e.subrange(85, 135));
    lemma_custom_draw_tool_part3_at(c, d, o + 85);
    lemma_seq_split(g0, custom_draw_tool_part2_bytes(c));
    lemma_subrange_of_prefix(e, 85, 0, 21);
    lemma_subrange_of_prefix(e, 85, 21, 85);
    assert(d.subrange(o + 21, o + 85) =~= e.subrange(21, 85));
    lemma_custom_draw_tool_part2_at(c, d, o + 21);
    assert(d.subrange(o + 0, o + 21) =~= e.subrange(0, 21));
    lemma_custom_draw_tool_part1_at(c, d, o + 0);
}

/// Reading back the bytes of a [`CustomDrawTool`] gives the same record.
pub proof fn lemma_custom_draw_tool_roundtrip(c: CustomDrawTool, rest: Seq<u8>)
    ensures
        custom_draw_tool_bytes(c).len() == CUSTOM_DRAW_TOOL_LEN,
        custom_draw_tool_at(custom_draw_tool_bytes(c) + rest, 0, c),
{
    lemma_u32s_bytes_len(c.color_2w@);
    lemma_u32s_bytes_len(c.color_2b@);
    lemma_u32s_bytes_len(c.fill_color_2w@);
    lemma_u32s_bytes_len(c.fill_color_2b@);
    lemma_seq_split(custom_draw_tool_bytes(c), rest);
    lemma_custom_draw_tool_at(c, custom_draw_tool_bytes(c) + rest, 0);
}

impl CustomDrawTool {
    /// Whether every field holds the value that [`CustomDrawTool::default`] gives.
    pub open spec fn is_default(&self) -> bool {
        &&& self.color_w == 0
        &&& self.color_b == 0
        &&& self.fill_color_w == 0
        &&& self.fill_color_b == 0
        &&& self.sound_alert == false
        &&& self.sound_kind == 0
        &&& self.thickness == 0x3f800000
        &&& self.stroke == 0
        &&& self.thickness_2 == 0x3f800000
        &&& self.stroke_2 == 0
        &&& forall|i: int| 0 <= i < 6 ==> self.color_2w@[i] == 0
        &&& forall|i: int| 0 <= i < 6 ==> self.color_2b@[i] == 0
        &&& forall|i: int| 0 <= i < 6 ==> self.fill_color_2w@[i] == 0
        &&& forall|i: int| 0 <= i < 6 ==> self.fill_color_2b@[i] == 0
        &&& self.emulate_trades == false
        &&& self.prevent_switch == false
    }
}

impl Default for CustomDrawTool {
    fn default() -> (r: Self)
        ensures
            r.is_default(),
    {
        CustomDrawTool {
            color_w: 0,
            color_b: 0,
            fill_color_w: 0,
            fill_color_b: 0,
            sound_alert: false,
            sound_kind: 0,
            thickness: 0x3f800000,
            stroke: 0,
            thickness_2: 0x3f800000,
            stroke_2: 0,
            color_2w: [0; 6],
            color_2b: [0; 6],
            fill_color_2w: [0; 6],
            fill_color_2b: [0; 6],
            emulate_trades: false,
            prevent_switch: false,
        }
    }
}

/// BTC price blink-alert settings.
#[derive(Clone, Copy, Debug)]
pub struct BlinkConfig {
    /// Enable BTC price blink notification.
    pub blink_btc: bool,
    /// BTC drop threshold (%) to trigger blink.
    /// (IEEE-754 bits of the `f64` value.)
    pub blink_btc_delta: u64,
    /// BTC rise threshold (%) to trigger blink.
    /// (IEEE-754 bits of the `f64` value.)
    pub blink_btc_delta_up: u64,
    /// Enable audible BTC alarm.
    pub alarm_btc: bool,
    /// Alarm type (sound variant, 1 byte).
    pub alarm_type: u8,
}

/// Wire size of [`BlinkConfig`].
pub const BLINK_CONFIG_LEN: usize = 19;

/// Wire bytes of a [`BlinkConfig`], field after field.
pub open spec fn blink_config_bytes(c: BlinkConfig) -> Seq<u8> {
    seq![bool_byte(c.blink_btc)]
        + le_u64(c.blink_btc_delta)
        + le_u64(c.blink_btc_delta_up)
        + seq![bool_byte(c.alarm_btc)]
        + seq![c.alarm_type]
}

/// Whether `c` is the [`BlinkConfig`] stored at `p`.
pub open spec fn blink_config_at(d: Seq<u8>, p: int, c: BlinkConfig) -> bool {
    &&& c.blink_btc == flag_of(d[p])
    &&& c.blink_btc_delta == u64_at(d, p + 1)
    &&& c.blink_btc_delta_up == u64_at(d, p + 9)
    &&& c.alarm_btc == flag_of(d[p + 17])
    &&& c.alarm_type == d[p + 18]
}

/// Read a [`BlinkConfig`].
pub fn read_blink_config(r: &mut ConfigReader) -> (res: Result<BlinkConfig, SharedConfigError>)
    ensures
        final(r).bytes() == old(r).bytes(),
        old(r).at() + BLINK_CONFIG_LEN <= old(r).bytes().len() ==> (res matches Ok(c) && blink_config_at(
            old(r).bytes(),
            old(r).at(),
            c,
        ) && final(r).at() == old(r).at() + BLINK_CONFIG_LEN),
        old(r).at() + BLINK_CONFIG_LEN > old(r).bytes().len() ==> (res matches Err(e) && e@ == eof_msg()),
{
    Ok(BlinkConfig {
        blink_btc: r.read_bool()?,
        blink_btc_delta: r.read_u64()?,
        blink_btc_delta_up: r.read_u64()?,
        alarm_btc: r.read_bool()?,
        alarm_type: r.read_u8()?,
    })
}

/// Write a [`BlinkConfig`].
pub fn write_blink_config(w: &mut ConfigWriter, c: &BlinkConfig)
    requires
        old(w).wf(),
    ensures
        final(w).wf(),
        final(w).wrote_all(old(w), true, blink_config_bytes(*c)),
{
    let ghost w0 = *w;
    let ghost wb = *w;
    w.write_bool(c.blink_btc);
    proof { lemma_wrote_all_of_wrote(wb, *w, seq![bool_byte(c.blink_btc)]); }
    let ghost wb = *w;
    w.write_u64(c.blink_btc_delta);
    proof {
        lemma_wrote_all_of_wrote(wb, *w, le_u64(c.blink_btc_delta));
        lemma_wrote_all_then(w0, wb, *w, true, seq![bool_byte(c.blink_btc)], true, le_u64(c.blink_btc_delta));
    }
    let ghost wb = *w;
    w.write_u64(c.blink_btc_delta_up);
    proof {
        lemma_wrote_all_of_wrote(wb, *w, le_u64(c.blink_btc_delta_up));
        lemma_wrote_all_then(w0, wb, *w, true, seq![bool_byte(c.blink_btc)] + le_u64(c.blink_btc_delta), true, le_u64(c.blink_btc_delta_up));
    }
    let ghost wb = *w;
    w.write_bool(c.alarm_btc);
    proof {
        lemma_wrote_all_of_wrote(wb, *w, seq![bool_byte(c.alarm_btc)]);
        lemma_wrote_all_then(w0, wb, *w, true, seq![bool_byte(c.blink_btc)] + le_u64(c.blink_btc_delta) + le_u64(c.blink_btc_delta_up), true, seq![bool_byte(c.alarm_btc)]);
    }
    let ghost wb = *w;
    w.write_u8(c.alarm_type);
    proof {
        lemma_wrote_all_of_wrote(wb, *w, seq![c.alarm_type]);
        lemma_wrote_all_then(w0, wb, *w, true, seq![bool_byte(c.blink_btc)] + le_u64(c.blink_btc_delta) + le_u64(c.blink_btc_delta_up) + seq![bool_byte(c.alarm_btc)], true, seq![c.alarm_type]);
    }
}

/// The fields of a [`BlinkConfig`] read back from its bytes.
pub proof fn lemma_blink_config_at(c: BlinkConfig, d: Seq<u8>, o: int)
    requires
        0 <= o,
        o + 19 <= d.len(),
        d.subrange(o, o + 19) == blink_config_bytes(c),
    ensures
        blink_config_bytes(c).len() == 19,
        blink_config_at(d, o, c),
{
    let b0 = seq![bool_byte(c.blink_btc)];
    let b1 = b0 + le_u64(c.blink_btc_delta);
    let b2 = b1 + le_u64(c.blink_btc_delta_up);
    let b3 = b2 + seq![bool_byte(c.alarm_btc)];
    let b4 = b3 + seq![c.alarm_type];
    let e = d.subrange(o, o + 19);
    assert(e == b4);
    lemma_seq_split(b3, seq![c.alarm_type]);
    lemma_subrange_of_prefix(e, 19, 0, 18);
    lemma_subrange_of_prefix(e, 19, 18, 19);
    lemma_seq_split(b2, seq![bool_byte(c.alarm_btc)]);
    lemma_subrange_of_prefix(e, 18, 0, 17);
    lemma_subrange_of_prefix(e, 18, 17, 18);
    lemma_seq_split(b1, le_u64(c.blink_btc_delta_up));
    lemma_subrange_of_prefix(e, 17, 0, 9);
    lemma_subrange_of_prefix(e, 17, 9, 17);
    lemma_seq_split(b0, le_u64(c.blink_btc_delta));
    lemma_subrange_of_prefix(e, 9, 0, 1);
    lemma_subrange_of_prefix(e, 9, 1, 9);
    assert(e.subrange(0, 1) == seq![bool_byte(c.blink_btc)]);
    assert(d[o + 0] == e.subrange(0, 1)[0]);
    lemma_bool_byte(c.blink_btc);
    assert(e.subrange(1, 9) == le_u64(c.blink_btc_delta));
    assert(d.subrange(o + 1, o + 9) =~= e.subrange(1, 9));
    lemma_u64_at_le(c.blink_btc_delta, d, o + 1);
    assert(e.subrange(9, 17) == le_u64(c.blink_btc_delta_up));
    assert(d.subrange(o + 9, o + 17) =~= e.subrange(9, 17));
    lemma_u64_at_le(c.blink_btc_delta_up, d, o + 9);
    assert(e.subrange(17, 18) == seq![bool_byte(c.alarm_btc)]);
    assert(d[o + 17] == e.subrange(17, 18)[0]);
    lemma_bool_byte(c.alarm_btc);
    assert(e.subrange(18, 19) == seq![c.alarm_type]);
    assert(d[o + 18] == e.subrange(18, 19)[0]);
}

/// Reading back the bytes of a [`BlinkConfig`] gives the same record.
pub proof fn lemma_blink_config_roundtrip(c: BlinkConfig, rest: Seq<u8>)
    ensures
        blink_config_bytes(c).len() == BLINK_CONFIG_LEN,
        blink_config_at(blink_config_bytes(c) + rest, 0, c),
{
    lemma_seq_split(blink_config_bytes(c), rest);
    lemma_blink_config_at(c, blink_config_bytes(c) + rest, 0);
}

impl BlinkConfig {
    /// Whether every field holds the value that [`BlinkConfig::default`] gives.
    pub open spec fn is_default(&self) -> bool {
        &&& self.blink_btc == false
        &&& self.blink_btc_delta == 0x0000000000000000
        &&& self.blink_btc_delta_up == 0x0000000000000000
        &&& self.alarm_btc == false
        &&& self.alarm_type == 0
    }
}

impl Default for BlinkConfig {
    fn default() -> (r: Self)
        ensures
            r.is_default(),
    {
        BlinkConfig {
            blink_btc: false,
            blink_btc_delta: 0x0000000000000000,
            blink_btc_delta_up: 0x0000000000000000,
            alarm_btc: false,
            alarm_type: 0,
        }
    }
}

/// Performance heatmap display settings.
#[derive(Clone, Copy, Debug)]
pub struct HeatMapConfig {
    /// Show the heatmap bar.
    pub show: bool,
    /// Use quantile-based coloring.
    pub use_q: bool,
    /// Heatmap bar height (fraction of window, 0.0..1.0).
    /// (IEEE-754 bits of the `f32` value.)
    pub height: u32,
    /// Show CPU load segment.
    pub cpu: bool,
    /// Show trade throughput segment.
    pub trades: bool,
    /// Show application latency segment.
    pub app_latency: bool,
    /// Show draw/render latency segment.
    pub draw_latency: bool,
}

/// Wire size of [`HeatMapConfig`].
pub const HEAT_MAP_CONFIG_LEN: usize = 10;

/// Wire bytes of fields `show` to `app_latency` of a [`HeatMapConfig`].
pub open spec fn heat_map_config_part1_bytes(c: HeatMapConfig) -> Seq<u8> {
    seq![bool_byte(c.show)]
        + seq![bool_byte(c.use_q)]
        + le_u32(c.height)
        + seq![bool_byte(c.cpu)]
        + seq![bool_byte(c.trades)]
        + seq![bool_byte(c.app_latency)]
}

/// Whether fields `show` to `app_latency` of `c` are stored at `p`.
pub open spec fn heat_map_config_part1_at(d: Seq<u8>, p: int, c: HeatMapConfig) -> bool {
    &&& c.show == flag_of(d[p])
    &&& c.use_q == flag_of(d[p + 1])
    &&& c.height == u32_at(d, p + 2)
    &&& c.cpu == flag_of(d[p + 6])
    &&& c.trades == flag_of(d[p + 7])
    &&& c.app_latency == flag_of(d[p + 8])
}

/// Wire bytes of fields `draw_latency` to `draw_latency` of a [`HeatMapConfig`].
pub open spec fn heat_map_config_part2_bytes(c: HeatMapConfig) -> Seq<u8> {
    seq![bool_byte(c.draw_latency)]
}

/// Whether fields `draw_latency` to `draw_latency` of `c` are stored at `p`.
pub open spec fn heat_map_config_part2_at(d: Seq<u8>, p: int, c: HeatMapConfig) -> bool {
    &&& c.draw_latency == flag_of(d[p])
}

/// Wire bytes of a [`HeatMapConfig`], field after field.
pub open spec fn heat_map_config_bytes(c: HeatMapConfig) -> Seq<u8> {
    heat_map_config_part1_bytes(c)
        + heat_map_config_part2_bytes(c)
}

/// Whether `c` is the [`HeatMapConfig`] stored at `p`.
pub open spec fn heat_map_config_at(d: Seq<u8>, p: int, c: HeatMapConfig) -> bool {
    &&& heat_map_config_part1_at(d, p, c)
    &&& heat_map_config_part2_at(d, p + 9, c)
}

/// Read a [`HeatMapConfig`].
pub fn read_heat_map_config(r: &mut ConfigReader) -> (res: Result<HeatMapConfig, SharedConfigError>)
    ensures
        final(r).bytes() == old(r).bytes(),
        old(r).at() + HEAT_MAP_CONFIG_LEN <= old(r).bytes().len() ==> (res matches Ok(c) && heat_map_config_at(
            old(r).bytes(),
            old(r).at(),
            c,
        ) && final(r).at() == old(r).at() + HEAT_MAP_CONFIG_LEN),
        old(r).at() + HEAT_MAP_CONFIG_LEN > old(r).bytes().len() ==> (res matches Err(e) && e@ == eof_msg()),
{
    Ok(HeatMapConfig {
        show: r.read_bool()?,
        use_q: r.read_bool()?,
        height: r.read_u32()?,
        cpu: r.read_bool()?,
        trades: r.read_bool()?,
        app_latency: r.read_bool()?,
        draw_latency: r.read_bool()?,
    })
}

/// Write fields `show` to `app_latency` of a [`HeatMapConfig`].
fn write_heat_map_config_part1(w: &mut ConfigWriter, c: &HeatMapConfig)
    requires
        old(w).wf(),
    ensures
        final(w).wf(),
        final(w).wrote_all(old(w), true, heat_map_config_part1_bytes(*c)),
{
    let ghost w0 = *w;
    let ghost wb = *w;
    w.write_bool(c.show);
    proof { lemma_wrote_all_of_wrote(wb, *w, seq![bool_byte(c.show)]); }
    let ghost wb = *w;
    w.write_bool(c.use_q);
    proof {
        lemma_wrote_all_of_wrote(wb, *w, seq![bool_byte(c.use_q)]);
        lemma_wrote_all_then(w0, wb, *w, true, seq![bool_byte(c.show)], true, seq![bool_byte(c.use_q)]);
    }
    let ghost wb = *w;
    w.write_u32(c.height);
    proof {
        lemma_wrote_all_of_wrote(wb, *w, le_u32(c.height));
        lemma_wrote_all_then(w0, wb, *w, true, seq![bool_byte(c.show)] + seq![bool_byte(c.use_q)], true, le_u32(c.height));
    }
    let ghost wb = *w;
    w.write_bool(c.cpu);
    proof {
        lemma_wrote_all_of_wrote(wb, *w, seq![bool_byte(c.cpu)]);
        lemma_wrote_all_then(w0, wb, *w, true, seq![bool_byte(c.show)] + seq![bool_byte(c.use_q)] + le_u32(c.height), true, seq![bool_byte(c.cpu)]);
    }
    let ghost wb = *w;
    w.write_bool(c.trades);
    proof {
        lemma_wrote_all_of_wrote(wb, *w, seq![bool_byte(c.trades)]);
        lemma_wrote_all_then(w0, wb, *w, true, seq![bool_byte(c.show)] + seq![bool_byte(c.use_q)] + le_u32(c.height) + seq![bool_byte(c.cpu)], true, seq![bool_byte(c.trades)]);
    }
    let ghost wb = *w;
    w.write_bool(c.app_latency);
    proof {
        lemma_wrote_all_of_wrote(wb, *w, seq![bool_byte(c.app_latency)]);
        lemma_wrote_all_then(w0, wb, *w, true, seq![bool_byte(c.show)] + seq![bool_byte(c.use_q)] + le_u32(c.height) + seq![bool_byte(c.cpu)] + seq![bool_byte(c.trades)], true, seq![bool_byte(c.app_latency)]);
    }
}

/// Write fields `draw_latency` to `draw_latency` of a [`HeatMapConfig`].
fn write_heat_map_config_part2(w: &mut ConfigWriter, c: &HeatMapConfig)
    requires
        old(w).wf(),
    ensures
        final(w).wf(),
        final(w).wrote_all(old(w), true, heat_map_config_part2_bytes(*c)),
{
    let ghost w0 = *w;
    let ghost wb = *w;
    w.write_bool(c.draw_latency);
    proof { lemma_wrote_all_of_wrote(wb, *w, seq![bool_byte(c.draw_latency)]); }
}

/// Write a [`HeatMapConfig`].
pub fn write_heat_map_config(w: &mut ConfigWriter, c: &HeatMapConfig)
    requires
        old(w).wf(),
    ensures
        final(w).wf(),
        final(w).wrote_all(old(w), true, heat_map_config_bytes(*c)),
{
    let ghost w0 = *w;
    let ghost wb = *w;
    write_heat_map_config_part1(w, c);
    let ghost wb = *w;
    write_heat_map_config_part2(w, c);
    proof { lemma_wrote_all_then(w0, wb, *w, true, heat_map_config_part1_bytes(*c), true, heat_map_config_part2_bytes(*c)); }
}

/// Fields `show` to `app_latency` read back from their bytes.
pub proof fn lemma_heat_map_config_part1_at(c: HeatMapConfig, d: Seq<u8>, o: int)
    requires
        0 <= o,
        o + 9 <= d.len(),
        d.subrange(o, o + 9) == heat_map_config_part1_bytes(c),
    ensures
        heat_map_config_part1_bytes(c).len() == 9,
        heat_map_config_part1_at(d, o, c),
{
    let b0 = seq![bool_byte(c.show)];
    let b1 = b0 + seq![bool_byte(c.use_q)];
    let b2 = b1 + le_u32(c.height);
    let b3 = b2 + seq![bool_byte(c.cpu)];
    let b4 = b3 + seq![bool_byte(c.trades)];
    let b5 = b4 + seq![bool_byte(c.app_latency)];
    let e = d.subrange(o, o + 9);
    assert(e == b5);
    lemma_seq_split(b4, seq![bool_byte(c.app_latency)]);
    lemma_subrange_of_prefix(e, 9, 0, 8);
    lemma_subrange_of_prefix(e, 9, 8, 9);
    lemma_seq_split(b3, seq![bool_byte(c.trades)]);
    lemma_subrange_of_prefix(e, 8, 0, 7);
    lemma_subrange_of_prefix(e, 8, 7, 8);
    lemma_seq_split(b2, seq![bool_byte(c.cpu)]);
    lemma_subrange_of_prefix(e, 7, 0, 6);
    lemma_subrange_of_prefix(e, 7, 6, 7);
    lemma_seq_split(b1, le_u32(c.height));
    lemma_subrange_of_prefix(e, 6, 0, 2);
    lemma_subrange_of_prefix(e, 6, 2, 6);
    lemma_seq_split(b0, seq![bool_byte(c.use_q)]);
    lemma_subrange_of_prefix(e, 2, 0, 1);
    lemma_subrange_of_prefix(e, 2, 1, 2);
    assert(e.subrange(0, 1) == seq![bool_byte(c.show)]);
    assert(d[o + 0] == e.subrange(0, 1)[0]);
    lemma_bool_byte(c.show);
    assert(e.subrange(1, 2) == seq![bool_byte(c.use_q)]);
    assert(d[o + 1] == e.subrange(1, 2)[0]);
    lemma_bool_byte(c.use_q);
    assert(e.subrange(2, 6) == le_u32(c.height));
    lemma_le_u32_roundtrip(c.height);
    assert(d[o + 2] == e.subrange(2, 6)[0] && d[o + 3] == e.subrange(2, 6)[1] && d[o + 4] == e.subrange(2, 6)[2] && d[o + 5] == e.subrange(2, 6)[3]);
    assert(e.subrange(6, 7) == seq![bool_byte(c.cpu)]);
    assert(d[o + 6] == e.subrange(6, 7)[0]);
    lemma_bool_byte(c.cpu);
    assert(e.subrange(7, 8) == seq![bool_byte(c.trades)]);
    assert(d[o + 7] == e.subrange(7, 8)[0]);
    lemma_bool_byte(c.trades);
    assert(e.subrange(8, 9) == seq![bool_byte(c.app_latency)]);
    assert(d[o + 8] == e.subrange(8, 9)[0]);
    lemma_bool_byte(c.app_latency);
}

/// Fields `draw_latency` to `draw_latency` read back from their bytes.
pub proof fn lemma_heat_map_config_part2_at(c: HeatMapConfig, d: Seq<u8>, o: int)
    requires
        0 <= o,
        o + 1 <= d.len(),
        d.subrange(o, o + 1) == heat_map_config_part2_bytes(c),
    ensures
        heat_map_config_part2_bytes(c).len() == 1,
        heat_map_config_part2_at(d, o, c),
{
    let b0 = seq![bool_byte(c.draw_latency)];
    let e = d.subrange(o, o + 1);
    assert(e == b0);
    assert(e.subrange(0, 1) == seq![bool_byte(c.draw_latency)]);
    assert(d[o + 0] == e.subrange(0, 1)[0]);
    lemma_bool_byte(c.draw_latency);
}

/// The fields of a [`HeatMapConfig`] read back from its bytes.
pub proof fn lemma_heat_map_config_at(c: HeatMapConfig, d: Seq<u8>, o: int)
    requires
        0 <= o,
        o + 10 <= d.len(),
        d.subrange(o, o + 10) == heat_map_config_bytes(c),
    ensures
        heat_map_config_bytes(c).len() == 10,
        heat_map_config_at(d, o, c),
{
    let g0 = heat_map_config_part1_bytes(c);
    let g1 = g0 + heat_map_config_part2_bytes(c);
    let e = d.subrange(o, o + 10);
    assert(e == g1);
    lemma_seq_split(g0, heat_map_config_part2_bytes(c));
    lemma_subrange_of_prefix(e, 10, 0, 9);
    lemma_subrange_of_prefix(e, 10, 9, 10);
    assert(d.subrange(o + 9, o + 10) =~= e.subrange(9, 10));
    lemma_heat_map_config_part2_at(c, d, o + 9);
    assert(d.subrange(o + 0, o + 9) =~= e.subrange(0, 9));
    lemma_heat_map_config_part1_at(c, d, o + 0);
}

/// Reading back the bytes of a [`HeatMapConfig`] gives the same record.
pub proof fn lemma_heat_map_config_roundtrip(c: HeatMapConfig, rest: Seq<u8>)
    ensures
        heat_map_config_bytes(c).len() == HEAT_MAP_CONFIG_LEN,
        heat_map_config_at(heat_map_config_bytes(c) + rest, 0, c),
{
    lemma_seq_split(heat_map_config_bytes(c), rest);
    lemma_heat_map_config_at(c, heat_map_config_bytes(c) + rest, 0);
}

impl HeatMapConfig {
    /// Whether every field holds the value that [`HeatMapConfig::default`] gives.
    pub open spec fn is_default(&self) -> bool {
        &&& self.show == false
        &&& self.use_q == false
        &&& self.height == 0x3e19999a
        &&& self.cpu == false
        &&& self.trades == false
        &&& self.app_latency == false
        &&& self.draw_latency == false
    }
}

impl Default for HeatMapConfig {
    fn default() -> (r: Self)
        ensures
            r.is_default(),
    {
        HeatMapConfig {
            show: false,
            use_q: false,
            height: 0x3e19999a,
            cpu: false,
            trades: false,
            app_latency: false,
            draw_latency: false,
        }
    }
}

/// Keyboard shortcuts for order and chart operations.
#[derive(Clone, Copy, Debug)]
pub struct HotkeysConfig {
    /// Whether this config has been initialized by the user.
    pub filled: bool,
    /// Internal version.
    pub ver: u8,
    /// Buy order size presets (6 slots, in quote currency).
    /// (IEEE-754 bits of the `f64` value.)
    pub o_size: [u64; 6],
    /// Selected buy-size preset slot (1-based).
    pub b_num: i32,
    /// Buy order hotkeys (6 slots, `TShortCut` = platform key code).
    pub o_keys: [u16; 6],
    /// Number of iceberg split parts.
    pub split_parts: u8,
    /// Selected sell-price preset slot (1-based).
    /// Mirrors [`ClientSettingsCommand::sb_num`].
    pub sb_num: u8,
    /// Sell order hotkeys (6 slots).
    pub s_keys: [u16; 6],
    /// Sell price presets as percentages (6 slots, e.g. [1,3,5,10,25,100]).
    /// Mirrors [`ClientSettingsCommand::s_price`].
    /// (IEEE-754 bits of the `f32` value.)
    pub s_price: [u32; 6],
    /// Cancel buy hotkey.
    pub cancel_buy: u16,
    /// Panic sell hotkey.
    pub panic_sell: u16,
    /// Join sells hotkey.
    pub join_sells: u16,
    /// Switch active chart hotkey.
    pub switch_charts: u16,
    /// Reload orderbook hotkey.
    pub reload_book: u16,
    /// Open new long position hotkey.
    pub new_long: u16,
    /// Open new short position hotkey.
    pub new_short: u16,
    /// Split selected order hotkey.
    pub split_order: u16,
    /// Shift buy up hotkey.
    pub shift_buy_up: u16,
    /// Shift buy down hotkey.
    pub shift_buy_down: u16,
    /// Shift sell up hotkey.
    pub shift_sell_up: u16,
    /// Shift sell down hotkey.
    pub shift_sell_down: u16,
    /// Take screenshot hotkey.
    pub make_shot: u16,
    /// Take bot screenshot (with overlay) hotkey.
    pub make_shot_bot: u16,
    /// Reload chart data hotkey.
    pub reload_chart: u16,
    /// Zoom in hotkey.
    pub scale_plus: u16,
    /// Zoom out hotkey.
    pub scale_minus: u16,
    /// Increase sell price hotkey.
    pub sell_plus: u16,
    /// Decrease sell price hotkey.
    pub sell_minus: u16,
    /// Toggle spy/stealth mode hotkey.
    pub spy_mode: u16,
    /// Toggle chart visibility hotkey.
    pub show_charts: u16,
    /// Extended split-order hotkey.
    pub split_order_x: u16,
    /// Cycle draw tool hotkey.
    pub switch_figure: u16,
    /// Fit sells to orderbook hotkey.
    pub fit_sells: u16,
    /// Panic sell single position hotkey.
    pub panic_sell_one: u16,
    /// Cancel all buy orders hotkey.
    pub cancel_all_buys: u16,
    /// Broadcast command to thin-clients hotkey.
    pub broadcast: u16,
}

/// Wire size of [`HotkeysConfig`].
pub const HOTKEYS_CONFIG_LEN: usize = 158;

/// Wire bytes of fields `filled` to `split_parts` of a [`HotkeysConfig`].
pub open spec fn hotkeys_config_part1_bytes(c: HotkeysConfig) -> Seq<u8> {
    seq![bool_byte(c.filled)]
        + seq![c.ver]
        + u64s_bytes(c.o_size@)
        + le_u32(c.b_num as u32)
        + units_bytes(c.o_keys@)
        + seq![c.split_parts]
}

/// Whether fields `filled` to `split_parts` of `c` are stored at `p`.
pub open spec fn hotkeys_config_part1_at(d: Seq<u8>, p: int, c: HotkeysConfig) -> bool {
    &&& c.filled == flag_of(d[p])
    &&& c.ver == d[p + 1]
    &&& c.o_size@ == u64s_at(d, p + 2, 6)
    &&& c.b_num == i32_at(d, p + 50)
    &&& c.o_keys@ == u16s_at(d, p + 54, 6)
    &&& c.split_parts == d[p + 66]
}

/// Wire bytes of fields `sb_num` to `join_sells` of a [`HotkeysConfig`].
pub open spec fn hotkeys_config_part2_bytes(c: HotkeysConfig) -> Seq<u8> {
    seq![c.sb_num]
        + units_bytes(c.s_keys@)
        + u32s_bytes(c.s_price@)
        + le_u16(c.cancel_buy)
        + le_u16(c.panic_sell)
        + le_u16(c.join_sells)
}

/// Whether fields `sb_num` to `join_sells` of `c` are stored at `p`.
pub open spec fn hotkeys_config_part2_at(d: Seq<u8>, p: int, c: HotkeysConfig) -> bool {
    &&& c.sb_num == d[p]
    &&& c.s_keys@ == u16s_at(d, p + 1, 6)
    &&& c.s_price@ == u32s_at(d, p + 13, 6)
    &&& c.cancel_buy == u16_at(d, p + 37)
    &&& c.panic_sell == u16_at(d, p + 39)
    &&& c.join_sells == u16_at(d, p + 41)
}

/// Wire bytes of fields `switch_charts` to `shift_buy_up` of a [`HotkeysConfig`].
pub open spec fn hotkeys_config_part3_bytes(c: HotkeysConfig) -> Seq<u8> {
    le_u16(c.switch_charts)
        + le_u16(c.reload_book)
        + le_u16(c.new_long)
        + le_u16(c.new_short)
        + le_u16(c.split_order)
        + le_u16(c.shift_buy_up)
}

/// Whether fields `switch_charts` to `shift_buy_up` of `c` are stored at `p`.
pub open spec fn hotkeys_config_part3_at(d: Seq<u8>, p: int, c: HotkeysConfig) -> bool {
    &&& c.switch_charts == u16_at(d, p)
    &&& c.reload_book == u16_at(d, p + 2)
    &&& c.new_long == u16_at(d, p + 4)
    &&& c.new_short == u16_at(d, p + 6)
    &&& c.split_order == u16_at(d, p + 8)
    &&& c.shift_buy_up == u16_at(d, p + 10)
}

/// Wire bytes of fields `shift_buy_down` to `reload_chart` of a [`HotkeysConfig`].
pub open spec fn hotkeys_config_part4_bytes(c: HotkeysConfig) -> Seq<u8> {
    le_u16(c.shift_buy_down)
        + le_u16(c.shift_sell_up)
        + le_u16(c.shift_sell_down)
        + le_u16(c.make_shot)
        + le_u16(c.make_shot_bot)
        + le_u16(c.reload_chart)
}

/// Whether fields `shift_buy_down` to `reload_chart` of `c` are stored at `p`.
pub open spec fn hotkeys_config_part4_at(d: Seq<u8>, p: int, c: HotkeysConfig) -> bool {
    &&& c.shift_buy_down == u16_at(d, p)
    &&& c.shift_sell_up == u16_at(d, p + 2)
    &&& c.shift_sell_down == u16_at(d, p + 4)
    &&& c.make_shot == u16_at(d, p + 6)
    &&& c.make_shot_bot == u16_at(d, p + 8)
    &&& c.reload_chart == u16_at(d, p + 10)
}

/// Wire bytes of fields `scale_plus` to `show_charts` of a [`HotkeysConfig`].
pub open spec fn hotkeys_config_part5_bytes(c: HotkeysConfig) -> Seq<u8> {
    le_u16(c.scale_plus)
        + le_u16(c.scale_minus)
        + le_u16(c.sell_plus)
        + le_u16(c.sell_minus)
        + le_u16(c.spy_mode)
        + le_u16(c.show_charts)
}

/// Whether fields `scale_plus` to `show_charts` of `c` are stored at `p`.
pub open spec fn hotkeys_config_part5_at(d: Seq<u8>, p: int, c: HotkeysConfig) -> bool {
    &&& c.scale_plus == u16_at(d, p)
    &&& c.scale_minus == u16_at(d, p + 2)
    &&& c.sell_plus == u16_at(d, p + 4)
    &&& c.sell_minus == u16_at(d, p + 6)
    &&& c.spy_mode == u16_at(d, p + 8)
    &&& c.show_charts == u16_at(d, p + 10)
}

/// Wire bytes of fields `split_order_x` to `broadcast` of a [`HotkeysConfig`].
pub open spec fn hotkeys_config_part6_bytes(c: HotkeysConfig) -> Seq<u8> {
    le_u16(c.split_order_x)
        + le_u16(c.switch_figure)
        + le_u16(c.fit_sells)
        + le_u16(c.panic_sell_one)
        + le_u16(c.cancel_all_buys)
        + le_u16(c.broadcast)
}

/// Whether fields `split_order_x` to `broadcast` of `c` are stored at `p`.
pub open spec fn hotkeys_config_part6_at(d: Seq<u8>, p: int, c: HotkeysConfig) -> bool {
    &&& c.split_order_x == u16_at(d, p)
    &&& c.switch_figure == u16_at(d, p + 2)
    &&& c.fit_sells == u16_at(d, p + 4)
    &&& c.panic_sell_one == u16_at(d, p + 6)
    &&& c.cancel_all_buys == u16_at(d, p + 8)
    &&& c.broadcast == u16_at(d, p + 10)
}

/// Wire bytes of a [`HotkeysConfig`], field after field.
pub open spec fn hotkeys_config_bytes(c: HotkeysConfig) -> Seq<u8> {
    hotkeys_config_part1_bytes(c)
        + hotkeys_config_part2_bytes(c)
        + hotkeys_config_part3_bytes(c)
        + hotkeys_config_part4_bytes(c)
        + hotkeys_config_part5_bytes(c)
        + hotkeys_config_part6_bytes(c)
}

/// Whether `c` is the [`HotkeysConfig`] stored at `p`.
pub open spec fn hotkeys_config_at(d: Seq<u8>, p: int, c: HotkeysConfig) -> bool {
    &&& hotkeys_config_part1_at(d, p, c)
    &&& hotkeys_config_part2_at(d, p + 67, c)
    &&& hotkeys_config_part3_at(d, p + 110, c)
    &&& hotkeys_config_part4_at(d, p + 122, c)
    &&& hotkeys_config_part5_at(d, p + 134, c)
    &&& hotkeys_config_part6_at(d, p + 146, c)
}

/// Read a [`HotkeysConfig`].
pub fn read_hotkeys_config(r: &mut ConfigReader) -> (res: Result<HotkeysConfig, SharedConfigError>)
    ensures
        final(r).bytes() == old(r).bytes(),
        old(r).at() + HOTKEYS_CONFIG_LEN <= old(r).bytes().len() ==> (res matches Ok(c) && hotkeys_config_at(
            old(r).bytes(),
            old(r).at(),
            c,
        ) && final(r).at() == old(r).at() + HOTKEYS_CONFIG_LEN),
        old(r).at() + HOTKEYS_CONFIG_LEN > old(r).bytes().len() ==> (res matches Err(e) && e@ == eof_msg()),
{
    Ok(HotkeysConfig {
        filled: r.read_bool()?,
        ver: r.read_u8()?,
        o_size: r.read_u64_array::<6>()?,
        b_num: r.read_i32()?,
        o_keys: r.read_u16_array::<6>()?,
        split_parts: r.read_u8()?,
        sb_num: r.read_u8()?,
        s_keys: r.read_u16_array::<6>()?,
        s_price: r.read_u32_array::<6>()?,
        cancel_buy: r.read_u16()?,
        panic_sell: r.read_u16()?,
        join_sells: r.read_u16()?,
        switch_charts: r.read_u16()?,
        reload_book: r.read_u16()?,
        new_long: r.read_u16()?,
        new_short: r.read_u16()?,
        split_order: r.read_u16()?,
        shift_buy_up: r.read_u16()?,
        shift_buy_down: r.read_u16()?,
        shift_sell_up: r.read_u16()?,
        shift_sell_down: r.read_u16()?,
        make_shot: r.read_u16()?,
        make_shot_bot: r.read_u16()?,
        reload_chart: r.read_u16()?,
        scale_plus: r.read_u16()?,
        scale_minus: r.read_u16()?,
        sell_plus: r.read_u16()?,
        sell_minus: r.read_u16()?,
        spy_mode: r.read_u16()?,
        show_charts: r.read_u16()?,
        split_order_x: r.read_u16()?,
        switch_figure: r.read_u16()?,
        fit_sells: r.read_u16()?,
        panic_sell_one: r.read_u16()?,
        cancel_all_buys: r.read_u16()?,
        broadcast: r.read_u16()?,
    })
}

/// Write fields `filled` to `split_parts` of a [`HotkeysConfig`].
fn write_hotkeys_config_part1(w: &mut ConfigWriter, c: &HotkeysConfig)
    requires
        old(w).wf(),
    ensures
        final(w).wf(),
        final(w).wrote_all(old(w), true, hotkeys_config_part1_bytes(*c)),
{
    proof { lemma_u64s_bytes_len(c.o_size@); }
    proof { lemma_units_bytes_len(c.o_keys@); }
    let ghost w0 = *w;
    let ghost wb = *w;
    w.write_bool(c.filled);
    proof { lemma_wrote_all_of_wrote(wb, *w, seq![bool_byte(c.filled)]); }
    let ghost wb = *w;
    w.write_u8(c.ver);
    proof {
        lemma_wrote_all_of_wrote(wb, *w, seq![c.ver]);
        lemma_wrote_all_then(w0, wb, *w, true, seq![bool_byte(c.filled)], true, seq![c.ver]);
    }
    let ghost wb = *w;
    w.write_u64_array(c.o_size.as_slice());
    proof {
        lemma_wrote_all_then(w0, wb, *w, true, seq![bool_byte(c.filled)] + seq![c.ver], true, u64s_bytes(c.o_size@));
    }
    let ghost wb = *w;
    w.write_i32(c.b_num);
    proof {
        lemma_wrote_all_of_wrote(wb, *w, le_u32(c.b_num as u32));
        lemma_wrote_all_then(w0, wb, *w, true, seq![bool_byte(c.filled)] + seq![c.ver] + u64s_bytes(c.o_size@), true, le_u32(c.b_num as u32));
    }
    let ghost wb = *w;
    w.write_u16_array(c.o_keys.as_slice());
    proof {
        lemma_wrote_all_then(w0, wb, *w, true, seq![bool_byte(c.filled)] + seq![c.ver] + u64s_bytes(c.o_size@) + le_u32(c.b_num as u32), true, units_bytes(c.o_keys@));
    }
    let ghost wb = *w;
    w.write_u8(c.split_parts);
    proof {
        lemma_wrote_all_of_wrote(wb, *w, seq![c.split_parts]);
        lemma_wrote_all_then(w0, wb, *w, true, seq![bool_byte(c.filled)] + seq![c.ver] + u64s_bytes(c.o_size@) + le_u32(c.b_num as u32) + units_bytes(c.o_keys@), true, seq![c.split_parts]);
    }
}

/// Write fields `sb_num` to `join_sells` of a [`HotkeysConfig`].
fn write_hotkeys_config_part2(w: &mut ConfigWriter, c: &HotkeysConfig)
    requires
        old(w).wf(),
    ensures
        final(w).wf(),
        final(w).wrote_all(old(w), true, hotkeys_config_part2_bytes(*c)),
{
    proof { lemma_units_bytes_len(c.s_keys@); }
    proof { lemma_u32s_bytes_len(c.s_price@); }
    let ghost w0 = *w;
    let ghost wb = *w;
    w.write_u8(c.sb_num);
    proof { lemma_wrote_all_of_wrote(wb, *w, seq![c.sb_num]); }
    let ghost wb = *w;
    w.write_u16_array(c.s_keys.as_slice());
    proof {
        lemma_wrote_all_then(w0, wb, *w, true, seq![c.sb_num], true, units_bytes(c.s_keys@));
    }
    let ghost wb = *w;
    w.write_u32_array(c.s_price.as_slice());
    proof {
        lemma_wrote_all_then(w0, wb, *w, true, seq![c.sb_num] + units_bytes(c.s_keys@), true, u32s_bytes(c.s_price@));
    }
    let ghost wb = *w;
    w.write_u16(c.cancel_buy);
    proof {
        lemma_wrote_all_of_wrote(wb, *w, le_u16(c.cancel_buy));
        lemma_wrote_all_then(w0, wb, *w, true, seq![c.sb_num] + units_bytes(c.s_keys@) + u32s_bytes(c.s_price@), true, le_u16(c.cancel_buy));
    }
    let ghost wb = *w;
    w.write_u16(c.panic_sell);
    proof {
        lemma_wrote_all_of_wrote(wb, *w, le_u16(c.panic_sell));
        lemma_wrote_all_then(w0, wb, *w, true, seq![c.sb_num] + units_bytes(c.s_keys@) + u32s_bytes(c.s_price@) + le_u16(c.cancel_buy), true, le_u16(c.panic_sell));
    }
    let ghost wb = *w;
    w.write_u16(c.join_sells);
    proof {
        lemma_wrote_all_of_wrote(wb, *w, le_u16(c.join_sells));
        lemma_wrote_all_then(w0, wb, *w, true, seq![c.sb_num] + units_bytes(c.s_keys@) + u32s_bytes(c.s_price@) + le_u16(c.cancel_buy) + le_u16(c.panic_sell), true, le_u16(c.join_sells));
    }
}

/// Write fields `switch_charts` to `shift_buy_up` of a [`HotkeysConfig`].
fn write_hotkeys_config_part3(w: &mut ConfigWriter, c: &HotkeysConfig)
    requires
        old(w).wf(),
    ensures
        final(w).wf(),
        final(w).wrote_all(old(w), true, hotkeys_config_part3_bytes(*c)),
{
    let ghost w0 = *w;
    let ghost wb = *w;
    w.write_u16(c.switch_charts);
    proof { lemma_wrote_all_of_wrote(wb, *w, le_u16(c.switch_charts)); }
    let ghost wb = *w;
    w.write_u16(c.reload_book);
    proof {
        lemma_wrote_all_of_wrote(wb, *w, le_u16(c.reload_book));
        lemma_wrote_all_then(w0, wb, *w, true, le_u16(c.switch_charts), true, le_u16(c.reload_book));
    }
    let ghost wb = *w;
    w.write_u16(c.new_long);
    proof {
        lemma_wrote_all_of_wrote(wb, *w, le_u16(c.new_long));
        lemma_wrote_all_then(w0, wb, *w, true, le_u16(c.switch_charts) + le_u16(c.reload_book), true, le_u16(c.new_long));
    }
    let ghost wb = *w;
    w.write_u16(c.new_short);
    proof {
        lemma_wrote_all_of_wrote(wb, *w, le_u16(c.new_short));
        lemma_wrote_all_then(w0, wb, *w, true, le_u16(c.switch_charts) + le_u16(c.reload_book) + le_u16(c.new_long), true, le_u16(c.new_short));
    }
    let ghost wb = *w;
    w.write_u16(c.split_order);
    proof {
        lemma_wrote_all_of_wrote(wb, *w, le_u16(c.split_order));
        lemma_wrote_all_then(w0, wb, *w, true, le_u16(c.switch_charts) + le_u16(c.reload_book) + le_u16(c.new_long) + le_u16(c.new_short), true, le_u16(c.split_order));
    }
    let ghost wb = *w;
    w.write_u16(c.shift_buy_up);
    proof {
        lemma_wrote_all_of_wrote(wb, *w, le_u16(c.shift_buy_up));
        lemma_wrote_all_then(w0, wb, *w, true, le_u16(c.switch_charts) + le_u16(c.reload_book) + le_u16(c.new_long) + le_u16(c.new_short) + le_u16(c.split_order), true, le_u16(c.shift_buy_up));
    }
}

/// Write fields `shift_buy_down` to `reload_chart` of a [`HotkeysConfig`].
fn write_hotkeys_config_part4(w: &mut ConfigWriter, c: &HotkeysConfig)
    requires
        old(w).wf(),
    ensures
        final(w).wf(),
        final(w).wrote_all(old(w), true, hotkeys_config_part4_bytes(*c)),
{
    let ghost w0 = *w;
    let ghost wb = *w;
    w.write_u16(c.shift_buy_down);
    proof { lemma_wrote_all_of_wrote(wb, *w, le_u16(c.shift_buy_down)); }
    let ghost wb = *w;
    w.write_u16(c.shift_sell_up);
    proof {
        lemma_wrote_all_of_wrote(wb, *w, le_u16(c.shift_sell_up));
        lemma_wrote_all_then(w0, wb, *w, true, le_u16(c.shift_buy_down), true, le_u16(c.shift_sell_up));
    }
    let ghost wb = *w;
    w.write_u16(c.shift_sell_down);
    proof {
        lemma_wrote_all_of_wrote(wb, *w, le_u16(c.shift_sell_down));
        lemma_wrote_all_then(w0, wb, *w, true, le_u16(c.shift_buy_down) + le_u16(c.shift_sell_up), true, le_u16(c.shift_sell_down));
    }
    let ghost wb = *w;
    w.write_u16(c.make_shot);
    proof {
        lemma_wrote_all_of_wrote(wb, *w, le_u16(c.make_shot));
        lemma_wrote_all_then(w0, wb, *w, true, le_u16(c.shift_buy_down) + le_u16(c.shift_sell_up) + le_u16(c.shift_sell_down), true, le_u16(c.make_shot));
    }
    let ghost wb = *w;
    w.write_u16(c.make_shot_bot);
    proof {
        lemma_wrote_all_of_wrote(wb, *w, le_u16(c.make_shot_bot));
        lemma_wrote_all_then(w0, wb, *w, true, le_u16(c.shift_buy_down) + le_u16(c.shift_sell_up) + le_u16(c.shift_sell_down) + le_u16(c.make_shot), true, le_u16(c.make_shot_bot));
    }
    let ghost wb = *w;
    w.write_u16(c.reload_chart);
    proof {
        lemma_wrote_all_of_wrote(wb, *w, le_u16(c.reload_chart));
        lemma_wrote_all_then(w0, wb, *w, true, le_u16(c.shift_buy_down) + le_u16(c.shift_sell_up) + le_u16(c.shift_sell_down) + le_u16(c.make_shot) + le_u16(c.make_shot_bot), true, le_u16(c.reload_chart));
    }
}

/// Write fields `scale_plus` to `show_charts` of a [`HotkeysConfig`].
fn write_hotkeys_config_part5(w: &mut ConfigWriter, c: &HotkeysConfig)
    requires
        old(w).wf(),
    ensures
        final(w).wf(),
        final(w).wrote_all(old(w), true, hotkeys_config_part5_bytes(*c)),
{
    let ghost w0 = *w;
    let ghost wb = *w;
    w.write_u16(c.scale_plus);
    proof { lemma_wrote_all_of_wrote(wb, *w, le_u16(c.scale_plus)); }
    let ghost wb = *w;
    w.write_u16(c.scale_minus);
    proof {
        lemma_wrote_all_of_wrote(wb, *w, le_u16(c.scale_minus));
        lemma_wrote_all_then(w0, wb, *w, true, le_u16(c.scale_plus), true, le_u16(c.scale_minus));
    }
    let ghost wb = *w;
    w.write_u16(c.sell_plus);
    proof {
        lemma_wrote_all_of_wrote(wb, *w, le_u16(c.sell_plus));
        lemma_wrote_all_then(w0, wb, *w, true, le_u16(c.scale_plus) + le_u16(c.scale_minus), true, le_u16(c.sell_plus));
    }
    let ghost wb = *w;
    w.write_u16(c.sell_minus);
    proof {
        lemma_wrote_all_of_wrote(wb, *w, le_u16(c.sell_minus));
        lemma_wrote_all_then(w0, wb, *w, true, le_u16(c.scale_plus) + le_u16(c.scale_minus) + le_u16(c.sell_plus), true, le_u16(c.sell_minus));
    }
    let ghost wb = *w;
    w.write_u16(c.spy_mode);
    proof {
        lemma_wrote_all_of_wrote(wb, *w, le_u16(c.spy_mode));
        lemma_wrote_all_then(w0, wb, *w, true, le_u16(c.scale_plus) + le_u16(c.scale_minus) + le_u16(c.sell_plus) + le_u16(c.sell_minus), true, le_u16(c.spy_mode));
    }
    let ghost wb = *w;
    w.write_u16(c.show_charts);
    proof {
        lemma_wrote_all_of_wrote(wb, *w, le_u16(c.show_charts));
        lemma_wrote_all_then(w0, wb, *w, true, le_u16(c.scale_plus) + le_u16(c.scale_minus) + le_u16(c.sell_plus) + le_u16(c.sell_minus) + le_u16(c.spy_mode), true, le_u16(c.show_charts));
    }
}

/// Write fields `split_order_x` to `broadcast` of a [`HotkeysConfig`].
fn write_hotkeys_config_part6(w: &mut ConfigWriter, c: &HotkeysConfig)
    requires
        old(w).wf(),
    ensures
        final(w).wf(),
        final(w).wrote_all(old(w), true, hotkeys_config_part6_bytes(*c)),
{
    let ghost w0 = *w;
    let ghost wb = *w;
    w.write_u16(c.split_order_x);
    proof { lemma_wrote_all_of_wrote(wb, *w, le_u16(c.split_order_x)); }
    let ghost wb = *w;
    w.write_u16(c.switch_figure);
    proof {
        lemma_wrote_all_of_wrote(wb, *w, le_u16(c.switch_figure));
        lemma_wrote_all_then(w0, wb, *w, true, le_u16(c.split_order_x), true, le_u16(c.switch_figure));
    }
    let ghost wb = *w;
    w.write_u16(c.fit_sells);
    proof {
        lemma_wrote_all_of_wrote(wb, *w, le_u16(c.fit_sells));
        lemma_wrote_all_then(w0, wb, *w, true, le_u16(c.split_order_x) + le_u16(c.switch_figure), true, le_u16(c.fit_sells));
    }
    let ghost wb = *w;
    w.write_u16(c.panic_sell_one);
    proof {
        lemma_wrote_all_of_wrote(wb, *w, le_u16(c.panic_sell_one));
        lemma_wrote_all_then(w0, wb, *w, true, le_u16(c.split_order_x) + le_u16(c.switch_figure) + le_u16(c.fit_sells), true, le_u16(c.panic_sell_one));
    }
    let ghost wb = *w;
    w.write_u16(c.cancel_all_buys);
    proof {
        lemma_wrote_all_of_wrote(wb, *w, le_u16(c.cancel_all_buys));
        lemma_wrote_all_then(w0, wb, *w, true, le_u16(c.split_order_x) + le_u16(c.switch_figure) + le_u16(c.fit_sells) + le_u16(c.panic_sell_one), true, le_u16(c.cancel_all_buys));
    }
    let ghost wb = *w;
    w.write_u16(c.broadcast);
    proof {
        lemma_wrote_all_of_wrote(wb, *w, le_u16(c.broadcast));
        lemma_wrote_all_then(w0, wb, *w, true, le_u16(c.split_order_x) + le_u16(c.switch_figure) + le_u16(c.fit_sells) + le_u16(c.panic_sell_one) + le_u16(c.cancel_all_buys), true, le_u16(c.broadcast));
    }
}

/// Write a [`HotkeysConfig`].
pub fn write_hotkeys_config(w: &mut ConfigWriter, c: &HotkeysConfig)
    requires
        old(w).wf(),
    ensures
        final(w).wf(),
        final(w).wrote_all(old(w), true, hotkeys_config_bytes(*c)),
{
    let ghost w0 = *w;
    let ghost wb = *w;
    write_hotkeys_config_part1(w, c);
    let ghost wb = *w;
    write_hotkeys_config_part2(w, c);
    proof { lemma_wrote_all_then(w0, wb, *w, true, hotkeys_config_part1_bytes(*c), true, hotkeys_config_part2_bytes(*c)); }
    let ghost wb = *w;
    write_hotkeys_config_part3(w, c);
    proof { lemma_wrote_all_then(w0, wb, *w, true, hotkeys_config_part1_bytes(*c) + hotkeys_config_part2_bytes(*c), true, hotkeys_config_part3_bytes(*c)); }
    let ghost wb = *w;
    write_hotkeys_config_part4(w, c);
    proof { lemma_wrote_all_then(w0, wb, *w, true, hotkeys_config_part1_bytes(*c) + hotkeys_config_part2_bytes(*c) + hotkeys_config_part3_bytes(*c), true, hotkeys_config_part4_bytes(*c)); }
    let ghost wb = *w;
    write_hotkeys_config_part5(w, c);
    proof { lemma_wrote_all_then(w0, wb, *w, true, hotkeys_config_part1_bytes(*c) + hotkeys_config_part2_bytes(*c) + hotkeys_config_part3_bytes(*c) + hotkeys_config_part4_bytes(*c), true, hotkeys_config_part5_bytes(*c)); }
    let ghost wb = *w;
    write_hotkeys_config_part6(w, c);
    proof { lemma_wrote_all_then(w0, wb, *w, true, hotkeys_config_part1_bytes(*c) + hotkeys_config_part2_bytes(*c) + hotkeys_config_part3_bytes(*c) + hotkeys_config_part4_bytes(*c) + hotkeys_config_part5_bytes(*c), true, hotkeys_config_part6_bytes(*c)); }
}

/// Fields `filled` to `split_parts` read back from their bytes.
pub proof fn lemma_hotkeys_config_part1_at(c: HotkeysConfig, d: Seq<u8>, o: int)
    requires
        0 <= o,
        o + 67 <= d.len(),
        d.subrange(o, o + 67) == hotkeys_config_part1_bytes(c),
    ensures
        hotkeys_config_part1_bytes(c).len() == 67,
        hotkeys_config_part1_at(d, o, c),
{
    let b0 = seq![bool_byte(c.filled)];
    let b1 = b0 + seq![c.ver];
    let b2 = b1 + u64s_bytes(c.o_size@);
    lemma_u64s_bytes_len(c.o_size@);
    let b3 = b2 + le_u32(c.b_num as u32);
    let b4 = b3 + units_bytes(c.o_keys@);
    lemma_units_bytes_len(c.o_keys@);
    let b5 = b4 + seq![c.split_parts];
    let e = d.subrange(o, o + 67);
    assert(e == b5);
    lemma_seq_split(b4, seq![c.split_parts]);
    lemma_subrange_of_prefix(e, 67, 0, 66);
    lemma_subrange_of_prefix(e, 67, 66, 67);
    lemma_seq_split(b3, units_bytes(c.o_keys@));
    lemma_subrange_of_prefix(e, 66, 0, 54);
    lemma_subrange_of_prefix(e, 66, 54, 66);
    lemma_seq_split(b2, le_u32(c.b_num as u32));
    lemma_subrange_of_prefix(e, 54, 0, 50);
    lemma_subrange_of_prefix(e, 54, 50, 54);
    lemma_seq_split(b1, u64s_bytes(c.o_size@));
    lemma_subrange_of_prefix(e, 50, 0, 2);
    lemma_subrange_of_prefix(e, 50, 2, 50);
    lemma_seq_split(b0, seq![c.ver]);
    lemma_subrange_of_prefix(e, 2, 0, 1);
    lemma_subrange_of_prefix(e, 2, 1, 2);
    assert(e.subrange(0, 1) == seq![bool_byte(c.filled)]);
    assert(d[o + 0] == e.subrange(0, 1)[0]);
    lemma_bool_byte(c.filled);
    assert(e.subrange(1, 2) == seq![c.ver]);
    assert(d[o + 1] == e.subrange(1, 2)[0]);
    assert(e.subrange(2, 50) == u64s_bytes(c.o_size@));
    assert(d.subrange(o + 2, o + 50) =~= e.subrange(2, 50));
    lemma_u64s_at_bytes(c.o_size@, d, o + 2);
    assert(e.subrange(50, 54) == le_u32(c.b_num as u32));
    lemma_le_i32_roundtrip(c.b_num);
    assert(d[o + 50] == e.subrange(50, 54)[0] && d[o + 51] == e.subrange(50, 54)[1] && d[o + 52] == e.subrange(50, 54)[2] && d[o + 53] == e.subrange(50, 54)[3]);
    assert(e.subrange(54, 66) == units_bytes(c.o_keys@));
    assert(d.subrange(o + 54, o + 66) =~= e.subrange(54, 66));
    lemma_u16s_at_units_bytes(c.o_keys@, d, o + 54);
    assert(e.subrange(66, 67) == seq![c.split_parts]);
    assert(d[o + 66] == e.subrange(66, 67)[0]);
}

/// Fields `sb_num` to `join_sells` read back from their bytes.
pub proof fn lemma_hotkeys_config_part2_at(c: HotkeysConfig, d: Seq<u8>, o: int)
    requires
        0 <= o,
        o + 43 <= d.len(),
        d.subrange(o, o + 43) == hotkeys_config_part2_bytes(c),
    ensures
        hotkeys_config_part2_bytes(c).len() == 43,
        hotkeys_config_part2_at(d, o, c),
{
    let b0 = seq![c.sb_num];
    let b1 = b0 + units_bytes(c.s_keys@);
    lemma_units_bytes_len(c.s_keys@);
    let b2 = b1 + u32s_bytes(c.s_price@);
    lemma_u32s_bytes_len(c.s_price@);
    let b3 = b2 + le_u16(c.cancel_buy);
    let b4 = b3 + le_u16(c.panic_sell);
    let b5 = b4 + le_u16(c.join_sells);
    let e = d.subrange(o, o + 43);
    assert(e == b5);
    lemma_seq_split(b4, le_u16(c.join_sells));
    lemma_subrange_of_prefix(e, 43, 0, 41);
    lemma_subrange_of_prefix(e, 43, 41, 43);
    lemma_seq_split(b3, le_u16(c.panic_sell));
    lemma_subrange_of_prefix(e, 41, 0, 39);
    lemma_subrange_of_prefix(e, 41, 39, 41);
    lemma_seq_split(b2, le_u16(c.cancel_buy));
    lemma_subrange_of_prefix(e, 39, 0, 37);
    lemma_subrange_of_prefix(e, 39, 37, 39);
    lemma_seq_split(b1, u32s_bytes(c.s_price@));
    lemma_subrange_of_prefix(e, 37, 0, 13);
    lemma_subrange_of_prefix(e, 37, 13, 37);
    lemma_seq_split(b0, units_bytes(c.s_keys@));
    lemma_subrange_of_prefix(e, 13, 0, 1);
    lemma_subrange_of_prefix(e, 13, 1, 13);
    assert(e.subrange(0, 1) == seq![c.sb_num]);
    assert(d[o + 0] == e.subrange(0, 1)[0]);
    assert(e.subrange(1, 13) == units_bytes(c.s_keys@));
    assert(d.subrange(o + 1, o + 13) =~= e.subrange(1, 13));
    lemma_u16s_at_units_bytes(c.s_keys@, d, o + 1);
    assert(e.subrange(13, 37) == u32s_bytes(c.s_price@));
    assert(d.subrange(o + 13, o + 37) =~= e.subrange(13, 37));
    lemma_u32s_at_bytes(c.s_price@, d, o + 13);
    assert(e.subrange(37, 39) == le_u16(c.cancel_buy));
    lemma_le_u16_roundtrip(c.cancel_buy);
    assert(d[o + 37] == e.subrange(37, 39)[0] && d[o + 38] == e.subrange(37, 39)[1]);
    assert(e.subrange(39, 41) == le_u16(c.panic_sell));
    lemma_le_u16_roundtrip(c.panic_sell);
    assert(d[o + 39] == e.subrange(39, 41)[0] && d[o + 40] == e.subrange(39, 41)[1]);
    assert(e.subrange(41, 43) == le_u16(c.join_sells));
    lemma_le_u16_roundtrip(c.join_sells);
    assert(d[o + 41] == e.subrange(41, 43)[0] && d[o + 42] == e.subrange(41, 43)[1]);
}

/// Fields `switch_charts` to `shift_buy_up` read back from their bytes.
pub proof fn lemma_hotkeys_config_part3_at(c: HotkeysConfig, d: Seq<u8>, o: int)
    requires
        0 <= o,
        o + 12 <= d.len(),
        d.subrange(o, o + 12) == hotkeys_config_part3_bytes(c),
    ensures
        hotkeys_config_part3_bytes(c).len() == 12,
        hotkeys_config_part3_at(d, o, c),
{
    let b0 = le_u16(c.switch_charts);
    let b1 = b0 + le_u16(c.reload_book);
    let b2 = b1 + le_u16(c.new_long);
    let b3 = b2 + le_u16(c.new_short);
    let b4 = b3 + le_u16(c.split_order);
    let b5 = b4 + le_u16(c.shift_buy_up);
    let e = d.subrange(o, o + 12);
    assert(e == b5);
    lemma_seq_split(b4, le_u16(c.shift_buy_up));
    lemma_subrange_of_prefix(e, 12, 0, 10);
    lemma_subrange_of_prefix(e, 12, 10, 12);
    lemma_seq_split(b3, le_u16(c.split_order));
    lemma_subrange_of_prefix(e, 10, 0, 8);
    lemma_subrange_of_prefix(e, 10, 8, 10);
    lemma_seq_split(b2, le_u16(c.new_short));
    lemma_subrange_of_prefix(e, 8, 0, 6);
    lemma_subrange_of_prefix(e, 8, 6, 8);
    lemma_seq_split(b1, le_u16(c.new_long));
    lemma_subrange_of_prefix(e, 6, 0, 4);
    lemma_subrange_of_prefix(e, 6, 4, 6);
    lemma_seq_split(b0, le_u16(c.reload_book));
    lemma_subrange_of_prefix(e, 4, 0, 2);
    lemma_subrange_of_prefix(e, 4, 2, 4);
    assert(e.subrange(0, 2) == le_u16(c.switch_charts));
    lemma_le_u16_roundtrip(c.switch_charts);
    assert(d[o + 0] == e.subrange(0, 2)[0] && d[o + 1] == e.subrange(0, 2)[1]);
    assert(e.subrange(2, 4) == le_u16(c.reload_book));
    lemma_le_u16_roundtrip(c.reload_book);
    assert(d[o + 2] == e.subrange(2, 4)[0] && d[o + 3] == e.subrange(2, 4)[1]);
    assert(e.subrange(4, 6) == le_u16(c.new_long));
    lemma_le_u16_roundtrip(c.new_long);
    assert(d[o + 4] == e.subrange(4, 6)[0] && d[o + 5] == e.subrange(4, 6)[1]);
    assert(e.subrange(6, 8) == le_u16(c.new_short));
    lemma_le_u16_roundtrip(c.new_short);
    assert(d[o + 6] == e.subrange(6, 8)[0] && d[o + 7] == e.subrange(6, 8)[1]);
    assert(e.subrange(8, 10) == le_u16(c.split_order));
    lemma_le_u16_roundtrip(c.split_order);
    assert(d[o + 8] == e.subrange(8, 10)[0] && d[o + 9] == e.subrange(8, 10)[1]);
    assert(e.subrange(10, 12) == le_u16(c.shift_buy_up));
    lemma_le_u16_roundtrip(c.shift_buy_up);
    assert(d[o + 10] == e.subrange(10, 12)[0] && d[o + 11] == e.subrange(10, 12)[1]);
}

/// Fields `shift_buy_down` to `reload_chart` read back from their bytes.
pub proof fn lemma_hotkeys_config_part4_at(c: HotkeysConfig, d: Seq<u8>, o: int)
    requires
        0 <= o,
        o + 12 <= d.len(),
        d.subrange(o, o + 12) == hotkeys_config_part4_bytes(c),
    ensures
        hotkeys_config_part4_bytes(c).len() == 12,
        hotkeys_config_part4_at(d, o, c),
{
    let b0 = le_u16(c.shift_buy_down);
    let b1 = b0 + le_u16(c.shift_sell_up);
    let b2 = b1 + le_u16(c.shift_sell_down);
    let b3 = b2 + le_u16(c.make_shot);
    let b4 = b3 + le_u16(c.make_shot_bot);
    let b5 = b4 + le_u16(c.reload_chart);
    let e = d.subrange(o, o + 12);
    assert(e == b5);
    lemma_seq_split(b4, le_u16(c.reload_chart));
    lemma_subrange_of_prefix(e, 12, 0, 10);
    lemma_subrange_of_prefix(e, 12, 10, 12);
    lemma_seq_split(b3, le_u16(c.make_shot_bot));
    lemma_subrange_of_prefix(e, 10, 0, 8);
    lemma_subrange_of_prefix(e, 10, 8, 10);
    lemma_seq_split(b2, le_u16(c.make_shot));
    lemma_subrange_of_prefix(e, 8, 0, 6);
    lemma_subrange_of_prefix(e, 8, 6, 8);
    lemma_seq_split(b1, le_u16(c.shift_sell_down));
    lemma_subrange_of_prefix(e, 6, 0, 4);
    lemma_subrange_of_prefix(e, 6, 4, 6);
    lemma_seq_split(b0, le_u16(c.shift_sell_up));
    lemma_subrange_of_prefix(e, 4, 0, 2);
    lemma_subrange_of_prefix(e, 4, 2, 4);
    assert(e.subrange(0, 2) == le_u16(c.shift_buy_down));
    lemma_le_u16_roundtrip(c.shift_buy_down);
    assert(d[o + 0] == e.subrange(0, 2)[0] && d[o + 1] == e.subrange(0, 2)[1]);
    assert(e.subrange(2, 4) == le_u16(c.shift_sell_up));
    lemma_le_u16_roundtrip(c.shift_sell_up);
    assert(d[o + 2] == e.subrange(2, 4)[0] && d[o + 3] == e.subrange(2, 4)[1]);
    assert(e.subrange(4, 6) == le_u16(c.shift_sell_down));
    lemma_le_u16_roundtrip(c.shift_sell_down);
    assert(d[o + 4] == e.subrange(4, 6)[0] && d[o + 5] == e.subrange(4, 6)[1]);
    assert(e.subrange(6, 8) == le_u16(c.make_shot));
    lemma_le_u16_roundtrip(c.make_shot);
    assert(d[o + 6] == e.subrange(6, 8)[0] && d[o + 7] == e.subrange(6, 8)[1]);
    assert(e.subrange(8, 10) == le_u16(c.make_shot_bot));
    lemma_le_u16_roundtrip(c.make_shot_bot);
    assert(d[o + 8] == e.subrange(8, 10)[0] && d[o + 9] == e.subrange(8, 10)[1]);
    assert(e.subrange(10, 12) == le_u16(c.reload_chart));
    lemma_le_u16_roundtrip(c.reload_chart);
    assert(d[o + 10] == e.subrange(10, 12)[0] && d[o + 11] == e.subrange(10, 12)[1]);
}

/// Fields `scale_plus` to `show_charts` read back from their bytes.
pub proof fn lemma_hotkeys_config_part5_at(c: HotkeysConfig, d: Seq<u8>, o: int)
    requires
        0 <= o,
        o + 12 <= d.len(),
        d.subrange(o, o + 12) == hotkeys_config_part5_bytes(c),
    ensures
        hotkeys_config_part5_bytes(c).len() == 12,
        hotkeys_config_part5_at(d, o, c),
{
    let b0 = le_u16(c.scale_plus);
    let b1 = b0 + le_u16(c.scale_minus);
    let b2 = b1 + le_u16(c.sell_plus);
    let b3 = b2 + le_u16(c.sell_minus);
    let b4 = b3 + le_u16(c.spy_mode);
    let b5 = b4 + le_u16(c.show_charts);
    let e = d.subrange(o, o + 12);
    assert(e == b5);
    lemma_seq_split(b4, le_u16(c.show_charts));
    lemma_subrange_of_prefix(e, 12, 0, 10);
    lemma_subrange_of_prefix(e, 12, 10, 12);
    lemma_seq_split(b3, le_u16(c.spy_mode));
    lemma_subrange_of_prefix(e, 10, 0, 8);
    lemma_subrange_of_prefix(e, 10, 8, 10);
    lemma_seq_split(b2, le_u16(c.sell_minus));
    lemma_subrange_of_prefix(e, 8, 0, 6);
    lemma_subrange_of_prefix(e, 8, 6, 8);
    lemma_seq_split(b1, le_u16(c.sell_plus));
    lemma_subrange_of_prefix(e, 6, 0, 4);
    lemma_subrange_of_prefix(e, 6, 4, 6);
    lemma_seq_split(b0, le_u16(c.scale_minus));
    lemma_subrange_of_prefix(e, 4, 0, 2);
    lemma_subrange_of_prefix(e, 4, 2, 4);
    assert(e.subrange(0, 2) == le_u16(c.scale_plus));
    lemma_le_u16_roundtrip(c.scale_plus);
    assert(d[o + 0] == e.subrange(0, 2)[0] && d[o + 1] == e.subrange(0, 2)[1]);
    assert(e.subrange(2, 4) == le_u16(c.scale_minus));
    lemma_le_u16_roundtrip(c.scale_minus);
    assert(d[o + 2] == e.subrange(2, 4)[0] && d[o + 3] == e.subrange(2, 4)[1]);
    assert(e.subrange(4, 6) == le_u16(c.sell_plus));
    lemma_le_u16_roundtrip(c.sell_plus);
    assert(d[o + 4] == e.subrange(4, 6)[0] && d[o + 5] == e.subrange(4, 6)[1]);
    assert(e.subrange(6, 8) == le_u16(c.sell_minus));
    lemma_le_u16_roundtrip(c.sell_minus);
    assert(d[o + 6] == e.subrange(6, 8)[0] && d[o + 7] == e.subrange(6, 8)[1]);
    assert(e.subrange(8, 10) == le_u16(c.spy_mode));
    lemma_le_u16_roundtrip(c.spy_mode);
    assert(d[o + 8] == e.subrange(8, 10)[0] && d[o + 9] == e.subrange(8, 10)[1]);
    assert(e.subrange(10, 12) == le_u16(c.show_charts));
    lemma_le_u16_roundtrip(c.show_charts);
    assert(d[o + 10] == e.subrange(10, 12)[0] && d[o + 11] == e.subrange(10, 12)[1]);
}

/// Fields `split_order_x` to `broadcast` read back from their bytes.
pub proof fn lemma_hotkeys_config_part6_at(c: HotkeysConfig, d: Seq<u8>, o: int)
    requires
        0 <= o,
        o + 12 <= d.len(),
        d.subrange(o, o + 12) == hotkeys_config_part6_bytes(c),
    ensures
        hotkeys_config_part6_bytes(c).len() == 12,
        hotkeys_config_part6_at(d, o, c),
{
    let b0 = le_u16(c.split_order_x);
    let b1 = b0 + le_u16(c.switch_figure);
    let b2 = b1 + le_u16(c.fit_sells);
    let b3 = b2 + le_u16(c.panic_sell_one);
    let b4 = b3 + le_u16(c.cancel_all_buys);
    let b5 = b4 + le_u16(c.broadcast);
    let e = d.subrange(o, o + 12);
    assert(e == b5);
    lemma_seq_split(b4, le_u16(c.broadcast));
    lemma_subrange_of_prefix(e, 12, 0, 10);
    lemma_subrange_of_prefix(e, 12, 10, 12);
    lemma_seq_split(b3, le_u16(c.cancel_all_buys));
    lemma_subrange_of_prefix(e, 10, 0, 8);
    lemma_subrange_of_prefix(e, 10, 8, 10);
    lemma_seq_split(b2, le_u16(c.panic_sell_one));
    lemma_subrange_of_prefix(e, 8, 0, 6);
    lemma_subrange_of_prefix(e, 8, 6, 8);
    lemma_seq_split(b1, le_u16(c.fit_sells));
    lemma_subrange_of_prefix(e, 6, 0, 4);
    lemma_subrange_of_prefix(e, 6, 4, 6);
    lemma_seq_split(b0, le_u16(c.switch_figure));
    lemma_subrange_of_prefix(e, 4, 0, 2);
    lemma_subrange_of_prefix(e, 4, 2, 4);
    assert(e.subrange(0, 2) == le_u16(c.split_order_x));
    lemma_le_u16_roundtrip(c.split_order_x);
    assert(d[o + 0] == e.subrange(0, 2)[0] && d[o + 1] == e.subrange(0, 2)[1]);
    assert(e.subrange(2, 4) == le_u16(c.switch_figure));
    lemma_le_u16_roundtrip(c.switch_figure);
    assert(d[o + 2] == e.subrange(2, 4)[0] && d[o + 3] == e.subrange(2, 4)[1]);
    assert(e.subrange(4, 6) == le_u16(c.fit_sells));
    lemma_le_u16_roundtrip(c.fit_sells);
    assert(d[o + 4] == e.subrange(4, 6)[0] && d[o + 5] == e.subrange(4, 6)[1]);
    assert(e.subrange(6, 8) == le_u16(c.panic_sell_one));
    lemma_le_u16_roundtrip(c.panic_sell_one);
    assert(d[o + 6] == e.subrange(6, 8)[0] && d[o + 7] == e.subrange(6, 8)[1]);
    assert(e.subrange(8, 10) == le_u16(c.cancel_all_buys));
    lemma_le_u16_roundtrip(c.cancel_all_buys);
    assert(d[o + 8] == e.subrange(8, 10)[0] && d[o + 9] == e.subrange(8, 10)[1]);
    assert(e.subrange(10, 12) == le_u16(c.broadcast));
    lemma_le_u16_roundtrip(c.broadcast);
    assert(d[o + 10] == e.subrange(10, 12)[0] && d[o + 11] == e.subrange(10, 12)[1]);
}

/// The fields of a [`HotkeysConfig`] read back from its bytes.
pub proof fn lemma_hotkeys_config_at(c: HotkeysConfig, d: Seq<u8>, o: int)
    requires
        0 <= o,
        o + 158 <= d.len(),
        d.subrange(o, o + 158) == hotkeys_config_bytes(c),
    ensures
        hotkeys_config_bytes(c).len() == 158,
        hotkeys_config_at(d, o, c),
{
    lemma_u64s_bytes_len(c.o_size@);
    lemma_units_bytes_len(c.o_keys@);
    lemma_units_bytes_len(c.s_keys@);
    lemma_u32s_bytes_len(c.s_price@);
    let g0 = hotkeys_config_part1_bytes(c);
    let g1 = g0 + hotkeys_config_part2_bytes(c);
    let g2 = g1 + hotkeys_config_part3_bytes(c);
    let g3 = g2 + hotkeys_config_part4_bytes(c);
    let g4 = g3 + hotkeys_config_part5_bytes(c);
    let g5 = g4 + hotkeys_config_part6_bytes(c);
    let e = d.subrange(o, o + 158);
    assert(e == g5);
    lemma_seq_split(g4, hotkeys_config_part6_bytes(c));
    lemma_subrange_of_prefix(e, 158, 0, 146);
    lemma_subrange_of_prefix(e, 158, 146, 158);
    assert(d.subrange(o + 146, o + 158) =~= e.subrange(146, 158));
    lemma_hotkeys_config_part6_at(c, d, o + 146);
    lemma_seq_split(g3, hotkeys_config_part5_bytes(c));
    lemma_subrange_of_prefix(e, 146, 0, 134);
    lemma_subrange_of_prefix(e, 146, 134, 146);
    assert(d.subrange(o + 134, o + 146) =~= e.subrange(134, 146));
    lemma_hotkeys_config_part5_at(c, d, o + 134);
    lemma_seq_split(g2, hotkeys_config_part4_bytes(c));
    lemma_subrange_of_prefix(e, 134, 0, 122);
    lemma_subrange_of_prefix(e, 134, 122, 134);
    assert(d.subrange(o + 122, o + 134) =~= e.subrange(122, 134));
    lemma_hotkeys_config_part4_at(c, d, o + 122);
    lemma_seq_split(g1, hotkeys_config_part3_bytes(c));
    lemma_subrange_of_prefix(e, 122, 0, 110);
    lemma_subrange_of_prefix(e, 122, 110, 122);
    assert(d.subrange(o + 110, o + 122) =~= e.subrange(110, 122));
    lemma_hotkeys_config_part3_at(c, d, o + 110);
    lemma_seq_split(g0, hotkeys_config_part2_bytes(c));
    lemma_subrange_of_prefix(e, 110, 0, 67);
    lemma_subrange_of_prefix(e, 110, 67, 110);
    assert(d.subrange(o + 67, o + 110) =~= e.subrange(67, 110));
    lemma_hotkeys_config_part2_at(c, d, o + 67);
    assert(d.subrange(o + 0, o + 67) =~= e.subrange(0, 67));
    lemma_hotkeys_config_part1_at(c, d, o + 0);
}

/// Reading back the bytes of a [`HotkeysConfig`] gives the same record.
pub proof fn lemma_hotkeys_config_roundtrip(c: HotkeysConfig, rest: Seq<u8>)
    ensures
        hotkeys_config_bytes(c).len() == HOTKEYS_CONFIG_LEN,
        hotkeys_config_at(hotkeys_config_bytes(c) + rest, 0, c),
{
    lemma_u64s_bytes_len(c.o_size@);
    lemma_units_bytes_len(c.o_keys@);
    lemma_units_bytes_len(c.s_keys@);
    lemma_u32s_bytes_len(c.s_price@);
    lemma_seq_split(hotkeys_config_bytes(c), rest);
    lemma_hotkeys_config_at(c, hotkeys_config_bytes(c) + rest, 0);
}

impl HotkeysConfig {
    /// Whether every field holds the value that [`HotkeysConfig::default`] gives.
    pub open spec fn is_default(&self) -> bool {
        &&& self.filled == false
        &&& self.ver == 1
        &&& forall|i: int| 0 <= i < 6 ==> self.o_size@[i] == 0x0000000000000000
        &&& self.b_num == 1
        &&& forall|i: int| 0 <= i < 6 ==> self.o_keys@[i] == 0
        &&& self.split_parts == 0
        &&& self.sb_num == 1
        &&& forall|i: int| 0 <= i < 6 ==> self.s_keys@[i] == 0
        &&& self.s_price@ == seq![0x3f800000u32, 0x40400000, 0x40a00000, 0x41200000, 0x41c80000, 0x42c80000]
        &&& self.cancel_buy == 0
        &&& self.panic_sell == 0
        &&& self.join_sells == 0
        &&& self.switch_charts == 0
        &&& self.reload_book == 0
        &&& self.new_long == 0
        &&& self.new_short == 0
        &&& self.split_order == 0
        &&& self.shift_buy_up == 0
        &&& self.shift_buy_down == 0
        &&& self.shift_sell_up == 0
        &&& self.shift_sell_down == 0
        &&& self.make_shot == 0
        &&& self.make_shot_bot == 0
        &&& self.reload_chart == 0
        &&& self.scale_plus == 0
        &&& self.scale_minus == 0
        &&& self.sell_plus == 0
        &&& self.sell_minus == 0
        &&& self.spy_mode == 0
        &&& self.show_charts == 0
        &&& self.split_order_x == 0
        &&& self.switch_figure == 0
        &&& self.fit_sells == 0
        &&& self.panic_sell_one == 0
        &&& self.cancel_all_buys == 0
        &&& self.broadcast == 0
    }
}

impl Default for HotkeysConfig {
    fn default() -> (r: Self)
        ensures
            r.is_default(),
    {
        HotkeysConfig {
            filled: false,
            ver: 1,
            o_size: [0x0000000000000000; 6],
            b_num: 1,
            o_keys: [0; 6],
            split_parts: 0,
            sb_num: 1,
            s_keys: [0; 6],
            s_price: [0x3f800000, 0x40400000, 0x40a00000, 0x41200000, 0x41c80000, 0x42c80000],
            cancel_buy: 0,
            panic_sell: 0,
            join_sells: 0,
            switch_charts: 0,
            reload_book: 0,
            new_long: 0,
            new_short: 0,
            split_order: 0,
            shift_buy_up: 0,
            shift_buy_down: 0,
            shift_sell_up: 0,
            shift_sell_down: 0,
            make_shot: 0,
            make_shot_bot: 0,
            reload_chart: 0,
            scale_plus: 0,
            scale_minus: 0,
            sell_plus: 0,
            sell_minus: 0,
            spy_mode: 0,
            show_charts: 0,
            split_order_x: 0,
            switch_figure: 0,
            fit_sells: 0,
            panic_sell_one: 0,
            cancel_all_buys: 0,
            broadcast: 0,
        }
    }
}


} // verus!
