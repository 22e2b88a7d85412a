//! Fixed-layout sub-records of the shared config: each is a run of
//! little-endian integers, one-byte flags and fixed-length arrays.

use crate::le::{le_u16, le_u32, lemma_le_u16_roundtrip, lemma_le_u32_roundtrip};
use crate::shared_config::error::SharedConfigError;
use crate::shared_config::reader::{bools_at, eof_msg, i32_at, u16_at, u16s_at, u32_at, ConfigReader};
use crate::shared_config::writer::{
    bool_byte, bools_bytes, flag_bytes, flag_of, lemma_bool_byte, lemma_units_bytes_len, lemma_wrote_all_of_wrote, lemma_wrote_all_then,
    units_bytes, ConfigWriter,
};
use crate::shared_config::codec_lemmas::{
    lemma_flag_at, lemma_le_i32_roundtrip, lemma_seq_split, lemma_subrange_of_prefix, lemma_u16s_at_units_bytes,
};
use vstd::prelude::*;

verus! {

broadcast use {
    crate::le::group_le_len,
};

/// Telegram/clipboard message parser sub-config.
#[derive(Clone, Debug)]
pub struct SignalConfig {
    /// Internal version of this sub-record.
    pub ver: i32,
    /// Require keyword match in message text.
    pub use_keywords: bool,
    /// Require token-tag prefix match (e.g. `$BTC`).
    pub use_token_tags: bool,
    /// Max distance (in words) between keyword and token.
    pub buy_key_dist: i32,
    /// Only react if exactly one token is found in the message.
    pub only_1_token: bool,
    /// Buy if a price value is found in the message text.
    pub buy_if_price_found: bool,
    /// Price offset threshold for price-in-message filter.
    pub x_found_price: i32,
    /// Enable blackword filter (cancel signal if any blackword present).
    pub use_black_words: bool,
    /// Maximum total word count in a valid signal message.
    pub words_count: i32,
    /// Enable the word-count filter.
    pub use_words_count: bool,
    /// Parse and use embedded price data from messages.
    pub use_price: bool,
    /// Parse and use stop-loss levels from messages.
    pub use_stops: bool,
    /// Match token names without tag prefixes too.
    pub tokens_no_tags: bool,
    /// Follow links in messages to find token names.
    pub token_links: bool,
    /// Enable "lower price words" filter (defer buy).
    pub use_lower_price_words: bool,
    /// Price offset for lower-price-words filter.
    pub x_lower_price: i32,
    /// Enable special parsing formats for specific channel layouts.
    pub special_formats: bool,
}

/// Wire size of [`SignalConfig`].
pub const SIGNAL_CONFIG_LEN: usize = 32;

/// Wire bytes of fields `ver` to `buy_if_price_found` of a [`SignalConfig`].
pub open spec fn signal_config_part1_bytes(c: SignalConfig) -> Seq<u8> {
    le_u32(c.ver as u32)
        + seq![bool_byte(c.use_keywords)]
        + seq![bool_byte(c.use_token_tags)]
        + le_u32(c.buy_key_dist as u32)
        + seq![bool_byte(c.only_1_token)]
        + seq![bool_byte(c.buy_if_price_found)]
}

/// Whether fields `ver` to `buy_if_price_found` of `c` are stored at `p`.
pub open spec fn signal_config_part1_at(d: Seq<u8>, p: int, c: SignalConfig) -> bool {
    &&& c.ver == i32_at(d, p)
    &&& c.use_keywords == flag_of(d[p + 4])
    &&& c.use_token_tags == flag_of(d[p + 5])
    &&& c.buy_key_dist == i32_at(d, p + 6)
    &&& c.only_1_token == flag_of(d[p + 10])
    &&& c.buy_if_price_found == flag_of(d[p + 11])
}

/// Wire bytes of fields `x_found_price` to `use_stops` of a [`SignalConfig`].
pub open spec fn signal_config_part2_bytes(c: SignalConfig) -> Seq<u8> {
    le_u32(c.x_found_price as u32)
        + seq![bool_byte(c.use_black_words)]
        + le_u32(c.words_count as u32)
        + seq![bool_byte(c.use_words_count)]
        + seq![bool_byte(c.use_price)]
        + seq![bool_byte(c.use_stops)]
}

/// Whether fields `x_found_price` to `use_stops` of `c` are stored at `p`.
pub open spec fn signal_config_part2_at(d: Seq<u8>, p: int, c: SignalConfig) -> bool {
    &&& c.x_found_price == i32_at(d, p)
    &&& c.use_black_words == flag_of(d[p + 4])
    &&& c.words_count == i32_at(d, p + 5)
    &&& c.use_words_count == flag_of(d[p + 9])
    &&& c.use_price == flag_of(d[p + 10])
    &&& c.use_stops == flag_of(d[p + 11])
}

/// Wire bytes of fields `tokens_no_tags` to `special_formats` of a [`SignalConfig`].
pub open spec fn signal_config_part3_bytes(c: SignalConfig) -> Seq<u8> {
    seq![bool_byte(c.tokens_no_tags)]
        + seq![bool_byte(c.token_links)]
        + seq![bool_byte(c.use_lower_price_words)]
        + le_u32(c.x_lower_price as u32)
        + seq![bool_byte(c.special_formats)]
}

/// Whether fields `tokens_no_tags` to `special_formats` of `c` are stored at `p`.
pub open spec fn signal_config_part3_at(d: Seq<u8>, p: int, c: SignalConfig) -> bool {
    &&& c.tokens_no_tags == flag_of(d[p])
    &&& c.token_links == flag_of(d[p + 1])
    &&& c.use_lower_price_words == flag_of(d[p + 2])
    &&& c.x_lower_price == i32_at(d, p + 3)
    &&& c.special_formats == flag_of(d[p + 7])
}

/// Wire bytes of a [`SignalConfig`], field after field.
pub open spec fn signal_config_bytes(c: SignalConfig) -> Seq<u8> {
    signal_config_part1_bytes(c)
        + signal_config_part2_bytes(c)
        + signal_config_part3_bytes(c)
}

/// Whether `c` is the [`SignalConfig`] stored at `p`.
pub open spec fn signal_config_at(d: Seq<u8>, p: int, c: SignalConfig) -> bool {
    &&& signal_config_part1_at(d, p, c)
    &&& signal_config_part2_at(d, p + 12, c)
    &&& signal_config_part3_at(d, p + 24, c)
}

/// Read a [`SignalConfig`].
pub fn read_signal_config(r: &mut ConfigReader) -> (res: Result<SignalConfig, SharedConfigError>)
    ensures
        final(r).bytes() == old(r).bytes(),
        old(r).at() + SIGNAL_CONFIG_LEN <= old(r).bytes().len() ==> (res matches Ok(c) && signal_config_at(
            old(r).bytes(),
            old(r).at(),
            c,
        ) && final(r).at() == old(r).at() + SIGNAL_CONFIG_LEN),
        old(r).at() + SIGNAL_CONFIG_LEN > old(r).bytes().len() ==> (res matches Err(e) && e@ == eof_msg()),
{
    Ok(SignalConfig {
        ver: r.read_i32()?,
        use_keywords: r.read_bool()?,
        use_token_tags: r.read_bool()?,
        buy_key_dist: r.read_i32()?,
        only_1_token: r.read_bool()?,
        buy_if_price_found: r.read_bool()?,
        x_found_price: r.read_i32()?,
        use_black_words: r.read_bool()?,
        words_count: r.read_i32()?,
        use_words_count: r.read_bool()?,
        use_price: r.read_bool()?,
        use_stops: r.read_bool()?,
        tokens_no_tags: r.read_bool()?,
        token_links: r.read_bool()?,
        use_lower_price_words: r.read_bool()?,
        x_lower_price: r.read_i32()?,
        special_formats: r.read_bool()?,
    })
}

/// Write fields `ver` to `buy_if_price_found` of a [`SignalConfig`].
fn write_signal_config_part1(w: &mut ConfigWriter, c: &SignalConfig)
    requires
        old(w).wf(),
    ensures
        final(w).wf(),
        final(w).wrote_all(old(w), true, signal_config_part1_bytes(*c)),
{
    let ghost w0 = *w;
    let ghost wb = *w;
    w.write_i32(c.ver);
    proof { lemma_wrote_all_of_wrote(wb, *w, le_u32(c.ver as u32)); }
    let ghost wb = *w;
    w.write_bool(c.use_keywords);
    proof {
        lemma_wrote_all_of_wrote(wb, *w, seq![bool_byte(c.use_keywords)]);
        lemma_wrote_all_then(w0, wb, *w, true, le_u32(c.ver as u32), true, seq![bool_byte(c.use_keywords)]);
    }
    let ghost wb = *w;
    w.write_bool(c.use_token_tags);
    proof {
        lemma_wrote_all_of_wrote(wb, *w, seq![bool_byte(c.use_token_tags)]);
        lemma_wrote_all_then(w0, wb, *w, true, le_u32(c.ver as u32) + seq![bool_byte(c.use_keywords)], true, seq![bool_byte(c.use_token_tags)]);
    }
    let ghost wb = *w;
    w.write_i32(c.buy_key_dist);
    proof {
        lemma_wrote_all_of_wrote(wb, *w, le_u32(c.buy_key_dist as u32));
        lemma_wrote_all_then(w0, wb, *w, true, le_u32(c.ver as u32) + seq![bool_byte(c.use_keywords)] + seq![bool_byte(c.use_token_tags)], true, le_u32(c.buy_key_dist as u32));
    }
    let ghost wb = *w;
    w.write_bool(c.only_1_token);
    proof {
        lemma_wrote_all_of_wrote(wb, *w, seq![bool_byte(c.only_1_token)]);
        lemma_wrote_all_then(w0, wb, *w, true, le_u32(c.ver as u32) + seq![bool_byte(c.use_keywords)] + seq![bool_byte(c.use_token_tags)] + le_u32(c.buy_key_dist as u32), true, seq![bool_byte(c.only_1_token)]);
    }
    let ghost wb = *w;
    w.write_bool(c.buy_if_price_found);
    proof {
        lemma_wrote_all_of_wrote(wb, *w, seq![bool_byte(c.buy_if_price_found)]);
        lemma_wrote_all_then(w0, wb, *w, true, le_u32(c.ver as u32) + seq![bool_byte(c.use_keywords)] + seq![bool_byte(c.use_token_tags)] + le_u32(c.buy_key_dist as u32) + seq![bool_byte(c.only_1_token)], true, seq![bool_byte(c.buy_if_price_found)]);
    }
}

/// Write fields `x_found_price` to `use_stops` of a [`SignalConfig`].
fn write_signal_config_part2(w: &mut ConfigWriter, c: &SignalConfig)
    requires
        old(w).wf(),
    ensures
        final(w).wf(),
        final(w).wrote_all(old(w), true, signal_config_part2_bytes(*c)),
{
    let ghost w0 = *w;
    let ghost wb = *w;
    w.write_i32(c.x_found_price);
    proof { lemma_wrote_all_of_wrote(wb, *w, le_u32(c.x_found_price as u32)); }
    let ghost wb = *w;
    w.write_bool(c.use_black_words);
    proof {
        lemma_wrote_all_of_wrote(wb, *w, seq![bool_byte(c.use_black_words)]);
        lemma_wrote_all_then(w0, wb, *w, true, le_u32(c.x_found_price as u32), true, seq![bool_byte(c.use_black_words)]);
    }
    let ghost wb = *w;
    w.write_i32(c.words_count);
    proof {
        lemma_wrote_all_of_wrote(wb, *w, le_u32(c.words_count as u32));
        lemma_wrote_all_then(w0, wb, *w, true, le_u32(c.x_found_price as u32) + seq![bool_byte(c.use_black_words)], true, le_u32(c.words_count as u32));
    }
    let ghost wb = *w;
    w.write_bool(c.use_words_count);
    proof {
        lemma_wrote_all_of_wrote(wb, *w, seq![bool_byte(c.use_words_count)]);
        lemma_wrote_all_then(w0, wb, *w, true, le_u32(c.x_found_price as u32) + seq![bool_byte(c.use_black_words)] + le_u32(c.words_count as u32), true, seq![bool_byte(c.use_words_count)]);
    }
    let ghost wb = *w;
    w.write_bool(c.use_price);
    proof {
        lemma_wrote_all_of_wrote(wb, *w, seq![bool_byte(c.use_price)]);
        lemma_wrote_all_then(w0, wb, *w, true, le_u32(c.x_found_price as u32) + seq![bool_byte(c.use_black_words)] + le_u32(c.words_count as u32) + seq![bool_byte(c.use_words_count)], true, seq![bool_byte(c.use_price)]);
    }
    let ghost wb = *w;
    w.write_bool(c.use_stops);
    proof {
        lemma_wrote_all_of_wrote(wb, *w, seq![bool_byte(c.use_stops)]);
        lemma_wrote_all_then(w0, wb, *w, true, le_u32(c.x_found_price as u32) + seq![bool_byte(c.use_black_words)] + le_u32(c.words_count as u32) + seq![bool_byte(c.use_words_count)] + seq![bool_byte(c.use_price)], true, seq![bool_byte(c.use_stops)]);
    }
}

/// Write fields `tokens_no_tags` to `special_formats` of a [`SignalConfig`].
fn write_signal_config_part3(w: &mut ConfigWriter, c: &SignalConfig)
    requires
        old(w).wf(),
    ensures
        final(w).wf(),
        final(w).wrote_all(old(w), true, signal_config_part3_bytes(*c)),
{
    let ghost w0 = *w;
    let ghost wb = *w;
    w.write_bool(c.tokens_no_tags);
    proof { lemma_wrote_all_of_wrote(wb, *w, seq![bool_byte(c.tokens_no_tags)]); }
    let ghost wb = *w;
    w.write_bool(c.token_links);
    proof {
        lemma_wrote_all_of_wrote(wb, *w, seq![bool_byte(c.token_links)]);
        lemma_wrote_all_then(w0, wb, *w, true, seq![bool_byte(c.tokens_no_tags)], true, seq![bool_byte(c.token_links)]);
    }
    let ghost wb = *w;
    w.write_bool(c.use_lower_price_words);
    proof {
        lemma_wrote_all_of_wrote(wb, *w, seq![bool_byte(c.use_lower_price_words)]);
        lemma_wrote_all_then(w0, wb, *w, true, seq![bool_byte(c.tokens_no_tags)] + seq![bool_byte(c.token_links)], true, seq![bool_byte(c.use_lower_price_words)]);
    }
    let ghost wb = *w;
    w.write_i32(c.x_lower_price);
    proof {
        lemma_wrote_all_of_wrote(wb, *w, le_u32(c.x_lower_price as u32));
        lemma_wrote_all_then(w0, wb, *w, true, seq![bool_byte(c.tokens_no_tags)] + seq![bool_byte(c.token_links)] + seq![bool_byte(c.use_lower_price_words)], true, le_u32(c.x_lower_price as u32));
    }
    let ghost wb = *w;
    w.write_bool(c.special_formats);
    proof {
        lemma_wrote_all_of_wrote(wb, *w, seq![bool_byte(c.special_formats)]);
        lemma_wrote_all_then(w0, wb, *w, true, seq![bool_byte(c.tokens_no_tags)] + seq![bool_byte(c.token_links)] + seq![bool_byte(c.use_lower_price_words)] + le_u32(c.x_lower_price as u32), true, seq![bool_byte(c.special_formats)]);
    }
}

/// Write a [`SignalConfig`].
pub fn write_signal_config(w: &mut ConfigWriter, c: &SignalConfig)
    requires
        old(w).wf(),
    ensures
        final(w).wf(),
        final(w).wrote_all(old(w), true, signal_config_bytes(*c)),
{
    let ghost w0 = *w;
    let ghost wb = *w;
    write_signal_config_part1(w, c);
    let ghost wb = *w;
    write_signal_config_part2(w, c);
    proof { lemma_wrote_all_then(w0, wb, *w, true, signal_config_part1_bytes(*c), true, signal_config_part2_bytes(*c)); }
    let ghost wb = *w;
    write_signal_config_part3(w, c);
    proof { lemma_wrote_all_then(w0, wb, *w, true, signal_config_part1_bytes(*c) + signal_config_part2_bytes(*c), true, signal_config_part3_bytes(*c)); }
}

/// Fields `ver` to `buy_if_price_found` read back from their bytes.
pub proof fn lemma_signal_config_part1_at(c: SignalConfig, d: Seq<u8>, o: int)
    requires
        0 <= o,
        o + 12 <= d.len(),
        d.subrange(o, o + 12) == signal_config_part1_bytes(c),
    ensures
        signal_config_part1_bytes(c).len() == 12,
        signal_config_part1_at(d, o, c),
{
    let b0 = le_u32(c.ver as u32);
    let b1 = b0 + seq![bool_byte(c.use_keywords)];
    let b2 = b1 + seq![bool_byte(c.use_token_tags)];
    let b3 = b2 + le_u32(c.buy_key_dist as u32);
    let b4 = b3 + seq![bool_byte(c.only_1_token)];
    let b5 = b4 + seq![bool_byte(c.buy_if_price_found)];
    let e = d.subrange(o, o + 12);
    assert(e == b5);
    lemma_seq_split(b4, seq![bool_byte(c.buy_if_price_found)]);
    lemma_subrange_of_prefix(e, 12, 0, 11);
    lemma_subrange_of_prefix(e, 12, 11, 12);
    lemma_seq_split(b3, seq![bool_byte(c.only_1_token)]);
    lemma_subrange_of_prefix(e, 11, 0, 10);
    lemma_subrange_of_prefix(e, 11, 10, 11);
    lemma_seq_split(b2, le_u32(c.buy_key_dist as u32));
    lemma_subrange_of_prefix(e, 10, 0, 6);
    lemma_subrange_of_prefix(e, 10, 6, 10);
    lemma_seq_split(b1, seq![bool_byte(c.use_token_tags)]);
    lemma_subrange_of_prefix(e, 6, 0, 5);
    lemma_subrange_of_prefix(e, 6, 5, 6);
    lemma_seq_split(b0, seq![bool_byte(c.use_keywords)]);
    lemma_subrange_of_prefix(e, 5, 0, 4);
    lemma_subrange_of_prefix(e, 5, 4, 5);
    assert(e.subrange(0, 4) == le_u32(c.ver as u32));
    lemma_le_i32_roundtrip(c.ver);
    assert(d[o + 0] == e.subrange(0, 4)[0] && d[o + 1] == e.subrange(0, 4)[1] && d[o + 2] == e.subrange(0, 4)[2] && d[o + 3] == e.subrange(0, 4)[3]);
    assert(e.subrange(4, 5) == seq![bool_byte(c.use_keywords)]);
    assert(d[o + 4] == e.subrange(4, 5)[0]);
    lemma_bool_byte(c.use_keywords);
    assert(e.subrange(5, 6) == seq![bool_byte(c.use_token_tags)]);
    assert(d[o + 5] == e.subrange(5, 6)[0]);
    lemma_bool_byte(c.use_token_tags);
    assert(e.subrange(6, 10) == le_u32(c.buy_key_dist as u32));
    lemma_le_i32_roundtrip(c.buy_key_dist);
    assert(d[o + 6] == e.subrange(6, 10)[0] && d[o + 7] == e.subrange(6, 10)[1] && d[o + 8] == e.subrange(6, 10)[2] && d[o + 9] == e.subrange(6, 10)[3]);
    assert(e.subrange(10, 11) == seq![bool_byte(c.only_1_token)]);
    assert(d[o + 10] == e.subrange(10, 11)[0]);
    lemma_bool_byte(c.only_1_token);
    assert(e.subrange(11, 12) == seq![bool_byte(c.buy_if_price_found)]);
    assert(d[o + 11] == e.subrange(11, 12)[0]);
    lemma_bool_byte(c.buy_if_price_found);
}

/// Fields `x_found_price` to `use_stops` read back from their bytes.
pub proof fn lemma_signal_config_part2_at(c: SignalConfig, d: Seq<u8>, o: int)
    requires
        0 <= o,
        o + 12 <= d.len(),
        d.subrange(o, o + 12) == signal_config_part2_bytes(c),
    ensures
        signal_config_part2_bytes(c).len() == 12,
        signal_config_part2_at(d, o, c),
{
    let b0 = le_u32(c.x_found_price as u32);
    let b1 = b0 + seq![bool_byte(c.use_black_words)];
    let b2 = b1 + le_u32(c.words_count as u32);
    let b3 = b2 + seq![bool_byte(c.use_words_count)];
    let b4 = b3 + seq![bool_byte(c.use_price)];
    let b5 = b4 + seq![bool_byte(c.use_stops)];
    let e = d.subrange(o, o + 12);
    assert(e == b5);
    lemma_seq_split(b4, seq![bool_byte(c.use_stops)]);
    lemma_subrange_of_prefix(e, 12, 0, 11);
    lemma_subrange_of_prefix(e, 12, 11, 12);
    lemma_seq_split(b3, seq![bool_byte(c.use_price)]);
    lemma_subrange_of_prefix(e, 11, 0, 10);
    lemma_subrange_of_prefix(e, 11, 10, 11);
    lemma_seq_split(b2, seq![bool_byte(c.use_words_count)]);
    lemma_subrange_of_prefix(e, 10, 0, 9);
    lemma_subrange_of_prefix(e, 10, 9, 10);
    lemma_seq_split(b1, le_u32(c.words_count as u32));
    lemma_subrange_of_prefix(e, 9, 0, 5);
    lemma_subrange_of_prefix(e, 9, 5, 9);
    lemma_seq_split(b0, seq![bool_byte(c.use_black_words)]);
    lemma_subrange_of_prefix(e, 5, 0, 4);
    lemma_subrange_of_prefix(e, 5, 4, 5);
    assert(e.subrange(0, 4) == le_u32(c.x_found_price as u32));
    lemma_le_i32_roundtrip(c.x_found_price);
    assert(d[o + 0] == e.subrange(0, 4)[0] && d[o + 1] == e.subrange(0, 4)[1] && d[o + 2] == e.subrange(0, 4)[2] && d[o + 3] == e.subrange(0, 4)[3]);
    assert(e.subrange(4, 5) == seq![bool_byte(c.use_black_words)]);
    assert(d[o + 4] == e.subrange(4, 5)[0]);
    lemma_bool_byte(c.use_black_words);
    assert(e.subrange(5, 9) == le_u32(c.words_count as u32));
    lemma_le_i32_roundtrip(c.words_count);
    assert(d[o + 5] == e.subrange(5, 9)[0] && d[o + 6] == e.subrange(5, 9)[1] && d[o + 7] == e.subrange(5, 9)[2] && d[o + 8] == e.subrange(5, 9)[3]);
    assert(e.subrange(9, 10) == seq![bool_byte(c.use_words_count)]);
    assert(d[o + 9] == e.subrange(9, 10)[0]);
    lemma_bool_byte(c.use_words_count);
    assert(e.subrange(10, 11) == seq![bool_byte(c.use_price)]);
    assert(d[o + 10] == e.subrange(10, 11)[0]);
    lemma_bool_byte(c.use_price);
    assert(e.subrange(11, 12) == seq![bool_byte(c.use_stops)]);
    assert(d[o + 11] == e.subrange(11, 12)[0]);
    lemma_bool_byte(c.use_stops);
}

/// Fields `tokens_no_tags` to `special_formats` read back from their bytes.
pub proof fn lemma_signal_config_part3_at(c: SignalConfig, d: Seq<u8>, o: int)
    requires
        0 <= o,
        o + 8 <= d.len(),
        d.subrange(o, o + 8) == signal_config_part3_bytes(c),
    ensures
        signal_config_part3_bytes(c).len() == 8,
        signal_config_part3_at(d, o, c),
{
    let b0 = seq![bool_byte(c.tokens_no_tags)];
    let b1 = b0 + seq![bool_byte(c.token_links)];
    let b2 = b1 + seq![bool_byte(c.use_lower_price_words)];
    let b3 = b2 + le_u32(c.x_lower_price as u32);
    let b4 = b3 + seq![bool_byte(c.special_formats)];
    let e = d.subrange(o, o + 8);
    assert(e == b4);
    lemma_seq_split(b3, seq![bool_byte(c.special_formats)]);
    lemma_subrange_of_prefix(e, 8, 0, 7);
    lemma_subrange_of_prefix(e, 8, 7, 8);
    lemma_seq_split(b2, le_u32(c.x_lower_price as u32));
    lemma_subrange_of_prefix(e, 7, 0, 3);
    lemma_subrange_of_prefix(e, 7, 3, 7);
    lemma_seq_split(b1, seq![bool_byte(c.use_lower_price_words)]);
    lemma_subrange_of_prefix(e, 3, 0, 2);
    lemma_subrange_of_prefix(e, 3, 2, 3);
    lemma_seq_split(b0, seq![bool_byte(c.token_links)]);
    lemma_subrange_of_prefix(e, 2, 0, 1);
    lemma_subrange_of_prefix(e, 2, 1, 2);
    assert(e.subrange(0, 1) == seq![bool_byte(c.tokens_no_tags)]);
    assert(d[o + 0] == e.subrange(0, 1)[0]);
    lemma_bool_byte(c.tokens_no_tags);
    assert(e.subrange(1, 2) == seq![bool_byte(c.token_links)]);
    assert(d[o + 1] == e.subrange(1, 2)[0]);
    lemma_bool_byte(c.token_links);
    assert(e.subrange(2, 3) == seq![bool_byte(c.use_lower_price_words)]);
    assert(d[o + 2] == e.subrange(2, 3)[0]);
    lemma_bool_byte(c.use_lower_price_words);
    assert(e.subrange(3, 7) == le_u32(c.x_lower_price as u32));
    lemma_le_i32_roundtrip(c.x_lower_price);
    assert(d[o + 3] == e.subrange(3, 7)[0] && d[o + 4] == e.subrange(3, 7)[1] && d[o + 5] == e.subrange(3, 7)[2] && d[o + 6] == e.subrange(3, 7)[3]);
    assert(e.subrange(7, 8) == seq![bool_byte(c.special_formats)]);
    assert(d[o + 7] == e.subrange(7, 8)[0]);
    lemma_bool_byte(c.special_formats);
}

/// The fields of a [`SignalConfig`] read back from its bytes.
pub proof fn lemma_signal_config_at(c: SignalConfig, d: Seq<u8>, o: int)
    requires
        0 <= o,
        o + 32 <= d.len(),
        d.subrange(o, o + 32) == signal_config_bytes(c),
    ensures
        signal_config_bytes(c).len() == 32,
        signal_config_at(d, o, c),
{
    let g0 = signal_config_part1_bytes(c);
    let g1 = g0 + signal_config_part2_bytes(c);
    let g2 = g1 + signal_config_part3_bytes(c);
    let e = d.subrange(o, o + 32);
    assert(e == g2);
    lemma_seq_split(g1, signal_config_part3_bytes(c));
    lemma_subrange_of_prefix(e, 32, 0, 24);
    lemma_subrange_of_prefix(e, 32, 24, 32);
    assert(d.subrange(o + 24, o + 32) =~= e.subrange(24, 32));
    lemma_signal_config_part3_at(c, d, o + 24);
    lemma_seq_split(g0, signal_config_part2_bytes(c));
    lemma_subrange_of_prefix(e, 24, 0, 12);
    lemma_subrange_of_prefix(e, 24, 12, 24);
    assert(d.subrange(o + 12, o + 24) =~= e.subrange(12, 24));
    lemma_signal_config_part2_at(c, d, o + 12);
    assert(d.subrange(o + 0, o + 12) =~= e.subrange(0, 12));
    lemma_signal_config_part1_at(c, d, o + 0);
}

/// Reading back the bytes of a [`SignalConfig`] gives the same record.
pub proof fn lemma_signal_config_roundtrip(c: SignalConfig, rest: Seq<u8>)
    ensures
        signal_config_bytes(c).len() == SIGNAL_CONFIG_LEN,
        signal_config_at(signal_config_bytes(c) + rest, 0, c),
{
    lemma_seq_split(signal_config_bytes(c), rest);
    lemma_signal_config_at(c, signal_config_bytes(c) + rest, 0);
}

impl SignalConfig {
    /// Whether every field holds the value that [`SignalConfig::default`] gives.
    pub open spec fn is_default(&self) -> bool {
        &&& self.ver == 1
        &&& self.use_keywords == true
        &&& self.use_token_tags == true
        &&& self.buy_key_dist == 1
        &&& self.only_1_token == true
        &&& self.buy_if_price_found == false
        &&& self.x_found_price == -2
        &&& self.use_black_words == true
        &&& self.words_count == 10
        &&& self.use_words_count == false
        &&& self.use_price == true
        &&& self.use_stops == false
        &&& self.tokens_no_tags == false
        &&& self.token_links == true
        &&& self.use_lower_price_words == false
        &&& self.x_lower_price == 0
        &&& self.special_formats == false
    }
}

impl Default for SignalConfig {
    fn default() -> (r: Self)
        ensures
            r.is_default(),
    {
        SignalConfig {
            ver: 1,
            use_keywords: true,
            use_token_tags: true,
            buy_key_dist: 1,
            only_1_token: true,
            buy_if_price_found: false,
            x_found_price: -2,
            use_black_words: true,
            words_count: 10,
            use_words_count: false,
            use_price: true,
            use_stops: false,
            tokens_no_tags: false,
            token_links: true,
            use_lower_price_words: false,
            x_lower_price: 0,
            special_formats: false,
        }
    }
}

/// MoonBot service sub-config (silent mode, margin auto-management).
#[derive(Clone, Debug)]
pub struct MoonBotConfig {
    /// Post only service messages to the user's own Telegram channel;
    /// trade and signal reports are suppressed.
    pub silent: bool,
    /// Auto-borrow margin when needed (margin trading).
    pub auto_margin_borrow: bool,
    /// Auto-transfer between spot and margin wallets.
    pub auto_margin_transfer: bool,
    /// Batching window for outgoing Telegram messages, in ms: messages queued
    /// during the window are merged and sent as one message (1000..5000; with
    /// the shared bot the effective minimum is 3500). Set at runtime with the
    /// `SetGroupDelay` Telegram command.
    pub group_delay: i32,
}

/// Wire size of [`MoonBotConfig`].
pub const MOON_BOT_CONFIG_LEN: usize = 7;

/// Wire bytes of a [`MoonBotConfig`], field after field.
pub open spec fn moon_bot_config_bytes(c: MoonBotConfig) -> Seq<u8> {
    seq![bool_byte(c.silent)]
        + seq![bool_byte(c.auto_margin_borrow)]
        + seq![bool_byte(c.auto_margin_transfer)]
        + le_u32(c.group_delay as u32)
}

/// Whether `c` is the [`MoonBotConfig`] stored at `p`.
pub open spec fn moon_bot_config_at(d: Seq<u8>, p: int, c: MoonBotConfig) -> bool {
    &&& c.silent == flag_of(d[p])
    &&& c.auto_margin_borrow == flag_of(d[p + 1])
    &&& c.auto_margin_transfer == flag_of(d[p + 2])
    &&& c.group_delay == i32_at(d, p + 3)
}

/// Read a [`MoonBotConfig`].
pub fn read_moon_bot_config(r: &mut ConfigReader) -> (res: Result<MoonBotConfig, SharedConfigError>)
    ensures
        final(r).bytes() == old(r).bytes(),
        old(r).at() + MOON_BOT_CONFIG_LEN <= old(r).bytes().len() ==> (res matches Ok(c) && moon_bot_config_at(
            old(r).bytes(),
            old(r).at(),
            c,
        ) && final(r).at() == old(r).at() + MOON_BOT_CONFIG_LEN),
        old(r).at() + MOON_BOT_CONFIG_LEN > old(r).bytes().len() ==> (res matches Err(e) && e@ == eof_msg()),
{
    Ok(MoonBotConfig {
        silent: r.read_bool()?,
        auto_margin_borrow: r.read_bool()?,
        auto_margin_transfer: r.read_bool()?,
        group_delay: r.read_i32()?,
    })
}

/// Write a [`MoonBotConfig`].
pub fn write_moon_bot_config(w: &mut ConfigWriter, c: &MoonBotConfig)
    requires
        old(w).wf(),
    ensures
        final(w).wf(),
        final(w).wrote_all(old(w), true, moon_bot_config_bytes(*c)),
{
    let ghost w0 = *w;
    let ghost wb = *w;
    w.write_bool(c.silent);
    proof { lemma_wrote_all_of_wrote(wb, *w, seq![bool_byte(c.silent)]); }
    let ghost wb = *w;
    w.write_bool(c.auto_margin_borrow);
    proof {
        lemma_wrote_all_of_wrote(wb, *w, seq![bool_byte(c.auto_margin_borrow)]);
        lemma_wrote_all_then(w0, wb, *w, true, seq![bool_byte(c.silent)], true, seq![bool_byte(c.auto_margin_borrow)]);
    }
    let ghost wb = *w;
    w.write_bool(c.auto_margin_transfer);
    proof {
        lemma_wrote_all_of_wrote(wb, *w, seq![bool_byte(c.auto_margin_transfer)]);
        lemma_wrote_all_then(w0, wb, *w, true, seq![bool_byte(c.silent)] + seq![bool_byte(c.auto_margin_borrow)], true, seq![bool_byte(c.auto_margin_transfer)]);
    }
    let ghost wb = *w;
    w.write_i32(c.group_delay);
    proof {
        lemma_wrote_all_of_wrote(wb, *w, le_u32(c.group_delay as u32));
        lemma_wrote_all_then(w0, wb, *w, true, seq![bool_byte(c.silent)] + seq![bool_byte(c.auto_margin_borrow)] + seq![bool_byte(c.auto_margin_transfer)], true, le_u32(c.group_delay as u32));
    }
}

/// The fields of a [`MoonBotConfig`] read back from its bytes.
pub proof fn lemma_moon_bot_config_at(c: MoonBotConfig, d: Seq<u8>, o: int)
    requires
        0 <= o,
        o + 7 <= d.len(),
        d.subrange(o, o + 7) == moon_bot_config_bytes(c),
    ensures
        moon_bot_config_bytes(c).len() == 7,
        moon_bot_config_at(d, o, c),
{
    let b0 = seq![bool_byte(c.silent)];
    let b1 = b0 + seq![bool_byte(c.auto_margin_borrow)];
    let b2 = b1 + seq![bool_byte(c.auto_margin_transfer)];
    let b3 = b2 + le_u32(c.group_delay as u32);
    let e = d.subrange(o, o + 7);
    assert(e == b3);
    lemma_seq_split(b2, le_u32(c.group_delay as u32));
    lemma_subrange_of_prefix(e, 7, 0, 3);
    lemma_subrange_of_prefix(e, 7, 3, 7);
    lemma_seq_split(b1, seq![bool_byte(c.auto_margin_transfer)]);
    lemma_subrange_of_prefix(e, 3, 0, 2);
    lemma_subrange_of_prefix(e, 3, 2, 3);
    lemma_seq_split(b0, seq![bool_byte(c.auto_margin_borrow)]);
    lemma_subrange_of_prefix(e, 2, 0, 1);
    lemma_subrange_of_prefix(e, 2, 1, 2);
    assert(e.subrange(0, 1) == seq![bool_byte(c.silent)]);
    assert(d[o + 0] == e.subrange(0, 1)[0]);
    lemma_bool_byte(c.silent);
    assert(e.subrange(1, 2) == seq![bool_byte(c.auto_margin_borrow)]);
    assert(d[o + 1] == e.subrange(1, 2)[0]);
    lemma_bool_byte(c.auto_margin_borrow);
    assert(e.subrange(2, 3) == seq![bool_byte(c.auto_margin_transfer)]);
    assert(d[o + 2] == e.subrange(2, 3)[0]);
    lemma_bool_byte(c.auto_margin_transfer);
    assert(e.subrange(3, 7) == le_u32(c.group_delay as u32));
    lemma_le_i32_roundtrip(c.group_delay);
    assert(d[o + 3] == e.subrange(3, 7)[0] && d[o + 4] == e.subrange(3, 7)[1] && d[o + 5] == e.subrange(3, 7)[2] && d[o + 6] == e.subrange(3, 7)[3]);
}

/// Reading back the bytes of a [`MoonBotConfig`] gives the same record.
pub proof fn lemma_moon_bot_config_roundtrip(c: MoonBotConfig, rest: Seq<u8>)
    ensures
        moon_bot_config_bytes(c).len() == MOON_BOT_CONFIG_LEN,
        moon_bot_config_at(moon_bot_config_bytes(c) + rest, 0, c),
{
    lemma_seq_split(moon_bot_config_bytes(c), rest);
    lemma_moon_bot_config_at(c, moon_bot_config_bytes(c) + rest, 0);
}

impl MoonBotConfig {
    /// Whether every field holds the value that [`MoonBotConfig::default`] gives.
    pub open spec fn is_default(&self) -> bool {
        &&& self.silent == false
        &&& self.auto_margin_borrow == false
        &&& self.auto_margin_transfer == false
        &&& self.group_delay == 1500
    }
}

impl Default for MoonBotConfig {
    fn default() -> (r: Self)
        ensures
            r.is_default(),
    {
        MoonBotConfig {
            silent: false,
            auto_margin_borrow: false,
            auto_margin_transfer: false,
            group_delay: 1500,
        }
    }
}

/// Report / trade history display configuration.
#[derive(Clone, Debug)]
pub struct ReportConfig {
    /// Column visibility flags (51 columns, index 0..50).
    pub fields_vis: [bool; 51],
    /// Column widths in pixels (51 columns).
    pub fields_width: [u16; 51],
    /// Show only active (open) positions.
    pub only_active: bool,
    /// Date range filter index.
    pub range: i32,
    /// Free-text filter 1 (ShortString, 26 raw bytes: 1 len + 25 chars).
    pub filter1: [u8; 26],
    /// Free-text filter 2 (ShortString, 26 raw bytes).
    pub filter2: [u8; 26],
    /// Free-text filter 3 (ShortString, 26 raw bytes).
    pub filter3: [u8; 26],
    /// Active-type filter (0=all, 1=active only, 2=closed only, 3=custom).
    pub active_type: u8,
    /// Include emulator orders in the report.
    pub rep_emulator_orders: bool,
    /// Stretch table columns to fill available width.
    pub stretch: bool,
    /// Aggregate multi-orders into single lines.
    pub only_2_orders: bool,
    /// Show leverage-adjusted profit numbers.
    pub use_leverage: bool,
    /// Max visible rows in the report table.
    pub max_lines: u16,
    /// Position direction filter (0=all, 1=long, 2=short).
    pub pos_direction: u8,
    /// Store liquidation price in the report.
    pub store_liq: bool,
    /// Store funding rate in the report.
    pub store_fund: bool,
    /// Sort by close date instead of open date.
    pub by_close_date: bool,
}

/// Wire size of [`ReportConfig`].
pub const REPORT_CONFIG_LEN: usize = 247;

/// Wire bytes of fields `fields_vis` to `filter2` of a [`ReportConfig`].
pub open spec fn report_config_part1_bytes(c: ReportConfig) -> Seq<u8> {
    bools_bytes(c.fields_vis@)
        + units_bytes(c.fields_width@)
        + seq![bool_byte(c.only_active)]
        + le_u32(c.range as u32)
        + c.filter1@
        + c.filter2@
}

/// Whether fields `fields_vis` to `filter2` of `c` are stored at `p`.
pub open spec fn report_config_part1_at(d: Seq<u8>, p: int, c: ReportConfig) -> bool {
    &&& c.fields_vis@ == bools_at(d, p, 51)
    &&& c.fields_width@ == u16s_at(d, p + 51, 51)
    &&& c.only_active == flag_of(d[p + 153])
    &&& c.range == i32_at(d, p + 154)
    &&& c.filter1@ == d.subrange(p + 158, p + 158 + 26)
    &&& c.filter2@ == d.subrange(p + 184, p + 184 + 26)
}

/// Wire bytes of fields `filter3` to `use_leverage` of a [`ReportConfig`].
pub open spec fn report_config_part2_bytes(c: ReportConfig) -> Seq<u8> {
    c.filter3@
        + seq![c.active_type]
        + seq![bool_byte(c.rep_emulator_orders)]
        + seq![bool_byte(c.stretch)]
        + seq![bool_byte(c.only_2_orders)]
        + seq![bool_byte(c.use_leverage)]
}

/// Whether fields `filter3` to `use_leverage` of `c` are stored at `p`.
pub open spec fn report_config_part2_at(d: Seq<u8>, p: int, c: ReportConfig) -> bool {
    &&& c.filter3@ == d.subrange(p, p + 26)
    &&& c.active_type == d[p + 26]
    &&& c.rep_emulator_orders == flag_of(d[p + 27])
    &&& c.stretch == flag_of(d[p + 28])
    &&& c.only_2_orders == flag_of(d[p + 29])
    &&& c.use_leverage == flag_of(d[p + 30])
}

/// Wire bytes of fields `max_lines` to `by_close_date` of a [`ReportConfig`].
pub open spec fn report_config_part3_bytes(c: ReportConfig) -> Seq<u8> {
    le_u16(c.max_lines)
        + seq![c.pos_direction]
        + seq![bool_byte(c.store_liq)]
        + seq![bool_byte(c.store_fund)]
        + seq![bool_byte(c.by_close_date)]
}

/// Whether fields `max_lines` to `by_close_date` of `c` are stored at `p`.
pub open spec fn report_config_part3_at(d: Seq<u8>, p: int, c: ReportConfig) -> bool {
    &&& c.max_lines == u16_at(d, p)
    &&& c.pos_direction == d[p + 2]
    &&& c.store_liq == flag_of(d[p + 3])
    &&& c.store_fund == flag_of(d[p + 4])
    &&& c.by_close_date == flag_of(d[p + 5])
}

/// Wire bytes of a [`ReportConfig`], field after field.
pub open spec fn report_config_bytes(c: ReportConfig) -> Seq<u8> {
    report_config_part1_bytes(c)
        + report_config_part2_bytes(c)
        + report_config_part3_bytes(c)
}

/// Whether `c` is the [`ReportConfig`] stored at `p`.
pub open spec fn report_config_at(d: Seq<u8>, p: int, c: ReportConfig) -> bool {
    &&& report_config_part1_at(d, p, c)
    &&& report_config_part2_at(d, p + 210, c)
    &&& report_config_part3_at(d, p + 241, c)
}

/// Read a [`ReportConfig`].
pub fn read_report_config(r: &mut ConfigReader) -> (res: Result<ReportConfig, SharedConfigError>)
    ensures
        final(r).bytes() == old(r).bytes(),
        old(r).at() + REPORT_CONFIG_LEN <= old(r).bytes().len() ==> (res matches Ok(c) && report_config_at(
            old(r).bytes(),
            old(r).at(),
            c,
        ) && final(r).at() == old(r).at() + REPORT_CONFIG_LEN),
        old(r).at() + REPORT_CONFIG_LEN > old(r).bytes().len() ==> (res matches Err(e) && e@ == eof_msg()),
{
    Ok(ReportConfig {
        fields_vis: r.read_bool_array::<51>()?,
        fields_width: r.read_u16_array::<51>()?,
        only_active: r.read_bool()?,
        range: r.read_i32()?,
        filter1: r.read_u8_array::<26>()?,
        filter2: r.read_u8_array::<26>()?,
        filter3: r.read_u8_array::<26>()?,
        active_type: r.read_u8()?,
        rep_emulator_orders: r.read_bool()?,
        stretch: r.read_bool()?,
        only_2_orders: r.read_bool()?,
        use_leverage: r.read_bool()?,
        max_lines: r.read_u16()?,
        pos_direction: r.read_u8()?,
        store_liq: r.read_bool()?,
        store_fund: r.read_bool()?,
        by_close_date: r.read_bool()?,
    })
}

/// Write fields `fields_vis` to `filter2` of a [`ReportConfig`].
fn write_report_config_part1(w: &mut ConfigWriter, c: &ReportConfig)
    requires
        old(w).wf(),
    ensures
        final(w).wf(),
        final(w).wrote_all(old(w), true, report_config_part1_bytes(*c)),
{
    proof { lemma_units_bytes_len(c.fields_width@); }
    let ghost w0 = *w;
    let ghost wb = *w;
    w.write_bool_array(c.fields_vis.as_slice());
    let ghost wb = *w;
    w.write_u16_array(c.fields_width.as_slice());
    proof {
        lemma_wrote_all_then(w0, wb, *w, true, bools_bytes(c.fields_vis@), true, units_bytes(c.fields_width@));
    }
    let ghost wb = *w;
    w.write_bool(c.only_active);
    proof {
        lemma_wrote_all_of_wrote(wb, *w, seq![bool_byte(c.only_active)]);
        lemma_wrote_all_then(w0, wb, *w, true, bools_bytes(c.fields_vis@) + units_bytes(c.fields_width@), true, seq![bool_byte(c.only_active)]);
    }
    let ghost wb = *w;
    w.write_i32(c.range);
    proof {
        lemma_wrote_all_of_wrote(wb, *w, le_u32(c.range as u32));
        lemma_wrote_all_then(w0, wb, *w, true, bools_bytes(c.fields_vis@) + units_bytes(c.fields_width@) + seq![bool_byte(c.only_active)], true, le_u32(c.range as u32));
    }
    let ghost wb = *w;
    w.write_u8_array(c.filter1.as_slice());
    proof {
        lemma_wrote_all_of_wrote(wb, *w, c.filter1@);
        lemma_wrote_all_then(w0, wb, *w, true, bools_bytes(c.fields_vis@) + units_bytes(c.fields_width@) + seq![bool_byte(c.only_active)] + le_u32(c.range as u32), true, c.filter1@);
    }
    let ghost wb = *w;
    w.write_u8_array(c.filter2.as_slice());
    proof {
        lemma_wrote_all_of_wrote(wb, *w, c.filter2@);
        lemma_wrote_all_then(w0, wb, *w, true, bools_bytes(c.fields_vis@) + units_bytes(c.fields_width@) + seq![bool_byte(c.only_active)] + le_u32(c.range as u32) + c.filter1@, true, c.filter2@);
    }
}

/// Write fields `filter3` to `use_leverage` of a [`ReportConfig`].
fn write_report_config_part2(w: &mut ConfigWriter, c: &ReportConfig)
    requires
        old(w).wf(),
    ensures
        final(w).wf(),
        final(w).wrote_all(old(w), true, report_config_part2_bytes(*c)),
{
    let ghost w0 = *w;
    let ghost wb = *w;
    w.write_u8_array(c.filter3.as_slice());
    proof { lemma_wrote_all_of_wrote(wb, *w, c.filter3@); }
    let ghost wb = *w;
    w.write_u8(c.active_type);
    proof {
        lemma_wrote_all_of_wrote(wb, *w, seq![c.active_type]);
        lemma_wrote_all_then(w0, wb, *w, true, c.filter3@, true, seq![c.active_type]);
    }
    let ghost wb = *w;
    w.write_bool(c.rep_emulator_orders);
    proof {
        lemma_wrote_all_of_wrote(wb, *w, seq![bool_byte(c.rep_emulator_orders)]);
        lemma_wrote_all_then(w0, wb, *w, true, c.filter3@ + seq![c.active_type], true, seq![bool_byte(c.rep_emulator_orders)]);
    }
    let ghost wb = *w;
    w.write_bool(c.stretch);
    proof {
        lemma_wrote_all_of_wrote(wb, *w, seq![bool_byte(c.stretch)]);
        lemma_wrote_all_then(w0, wb, *w, true, c.filter3@ + seq![c.active_type] + seq![bool_byte(c.rep_emulator_orders)], true, seq![bool_byte(c.stretch)]);
    }
    let ghost wb = *w;
    w.write_bool(c.only_2_orders);
    proof {
        lemma_wrote_all_of_wrote(wb, *w, seq![bool_byte(c.only_2_orders)]);
        lemma_wrote_all_then(w0, wb, *w, true, c.filter3@ + seq![c.active_type] + seq![bool_byte(c.rep_emulator_orders)] + seq![bool_byte(c.stretch)], true, seq![bool_byte(c.only_2_orders)]);
    }
    let ghost wb = *w;
    w.write_bool(c.use_leverage);
    proof {
        lemma_wrote_all_of_wrote(wb, *w, seq![bool_byte(c.use_leverage)]);
        lemma_wrote_all_then(w0, wb, *w, true, c.filter3@ + seq![c.active_type] + seq![bool_byte(c.rep_emulator_orders)] + seq![bool_byte(c.stretch)] + seq![bool_byte(c.only_2_orders)], true, seq![bool_byte(c.use_leverage)]);
    }
}

/// Write fields `max_lines` to `by_close_date` of a [`ReportConfig`].
fn write_report_config_part3(w: &mut ConfigWriter, c: &ReportConfig)
    requires
        old(w).wf(),
    ensures
        final(w).wf(),
        final(w).wrote_all(old(w), true, report_config_part3_bytes(*c)),
{
    let ghost w0 = *w;
    let ghost wb = *w;
    w.write_u16(c.max_lines);
    proof { lemma_wrote_all_of_wrote(wb, *w, le_u16(c.max_lines)); }
    let ghost wb = *w;
    w.write_u8(c.pos_direction);
    proof {
        lemma_wrote_all_of_wrote(wb, *w, seq![c.pos_direction]);
        lemma_wrote_all_then(w0, wb, *w, true, le_u16(c.max_lines), true, seq![c.pos_direction]);
    }
    let ghost wb = *w;
    w.write_bool(c.store_liq);
    proof {
        lemma_wrote_all_of_wrote(wb, *w, seq![bool_byte(c.store_liq)]);
        lemma_wrote_all_then(w0, wb, *w, true, le_u16(c.max_lines) + seq![c.pos_direction], true, seq![bool_byte(c.store_liq)]);
    }
    let ghost wb = *w;
    w.write_bool(c.store_fund);
    proof {
        lemma_wrote_all_of_wrote(wb, *w, seq![bool_byte(c.store_fund)]);
        lemma_wrote_all_then(w0, wb, *w, true, le_u16(c.max_lines) + seq![c.pos_direction] + seq![bool_byte(c.store_liq)], true, seq![bool_byte(c.store_fund)]);
    }
    let ghost wb = *w;
    w.write_bool(c.by_close_date);
    proof {
        lemma_wrote_all_of_wrote(wb, *w, seq![bool_byte(c.by_close_date)]);
        lemma_wrote_all_then(w0, wb, *w, true, le_u16(c.max_lines) + seq![c.pos_direction] + seq![bool_byte(c.store_liq)] + seq![bool_byte(c.store_fund)], true, seq![bool_byte(c.by_close_date)]);
    }
}

/// Write a [`ReportConfig`].
pub fn write_report_config(w: &mut ConfigWriter, c: &ReportConfig)
    requires
        old(w).wf(),
    ensures
        final(w).wf(),
        final(w).wrote_all(old(w), true, report_config_bytes(*c)),
{
    let ghost w0 = *w;
    let ghost wb = *w;
    write_report_config_part1(w, c);
    let ghost wb = *w;
    write_report_config_part2(w, c);
    proof { lemma_wrote_all_then(w0, wb, *w, true, report_config_part1_bytes(*c), true, report_config_part2_bytes(*c)); }
    let ghost wb = *w;
    write_report_config_part3(w, c);
    proof { lemma_wrote_all_then(w0, wb, *w, true, report_config_part1_bytes(*c) + report_config_part2_bytes(*c), true, report_config_part3_bytes(*c)); }
}

/// Fields `fields_vis` to `filter2` read back from their bytes.
pub proof fn lemma_report_config_part1_at(c: ReportConfig, d: Seq<u8>, o: int)
    requires
        0 <= o,
        o + 210 <= d.len(),
        d.subrange(o, o + 210) == report_config_part1_bytes(c),
    ensures
        report_config_part1_bytes(c).len() == 210,
        report_config_part1_at(d, o, c),
{
    let b0 = bools_bytes(c.fields_vis@);
    let b1 = b0 + units_bytes(c.fields_width@);
    lemma_units_bytes_len(c.fields_width@);
    let b2 = b1 + seq![bool_byte(c.only_active)];
    let b3 = b2 + le_u32(c.range as u32);
    let b4 = b3 + c.filter1@;
    let b5 = b4 + c.filter2@;
    let e = d.subrange(o, o + 210);
    assert(e == b5);
    lemma_seq_split(b4, c.filter2@);
    lemma_subrange_of_prefix(e, 210, 0, 184);
    lemma_subrange_of_prefix(e, 210, 184, 210);
    lemma_seq_split(b3, c.filter1@);
    lemma_subrange_of_prefix(e, 184, 0, 158);
    lemma_subrange_of_prefix(e, 184, 158, 184);
    lemma_seq_split(b2, le_u32(c.range as u32));
    lemma_subrange_of_prefix(e, 158, 0, 154);
    lemma_subrange_of_prefix(e, 158, 154, 158);
    lemma_seq_split(b1, seq![bool_byte(c.only_active)]);
    lemma_subrange_of_prefix(e, 154, 0, 153);
    lemma_subrange_of_prefix(e, 154, 153, 154);
    lemma_seq_split(b0, units_bytes(c.fields_width@));
    lemma_subrange_of_prefix(e, 153, 0, 51);
    lemma_subrange_of_prefix(e, 153, 51, 153);
    assert(e.subrange(0, 51) == bools_bytes(c.fields_vis@));
    assert(d.subrange(o + 0, o + 51) =~= e.subrange(0, 51));
    assert(bools_at(d, o + 0, 51) =~= c.fields_vis@) by {
        assert forall|j: int| 0 <= j < 51 implies flag_of(d[o + 0 + j]) == c.fields_vis@[j] by {
            assert(d[o + 0 + j] == d.subrange(o + 0, o + 51)[j]);
            lemma_bool_byte(c.fields_vis@[j]);
        }
    }
    assert(e.subrange(51, 153) == units_bytes(c.fields_width@));
    assert(d.subrange(o + 51, o + 153) =~= e.subrange(51, 153));
    lemma_u16s_at_units_bytes(c.fields_width@, d, o + 51);
    assert(e.subrange(153, 154) == seq![bool_byte(c.only_active)]);
    assert(d[o + 153] == e.subrange(153, 154)[0]);
    lemma_bool_byte(c.only_active);
    assert(e.subrange(154, 158) == le_u32(c.range as u32));
    lemma_le_i32_roundtrip(c.range);
    assert(d[o + 154] == e.subrange(154, 158)[0] && d[o + 155] == e.subrange(154, 158)[1] && d[o + 156] == e.subrange(154, 158)[2] && d[o + 157] == e.subrange(154, 158)[3]);
    assert(e.subrange(158, 184) == c.filter1@);
    assert(d.subrange(o + 158, o + 184) =~= e.subrange(158, 184));
    assert(e.subrange(184, 210) == c.filter2@);
    assert(d.subrange(o + 184, o + 210) =~= e.subrange(184, 210));
}

/// Fields `filter3` to `use_leverage` read back from their bytes.
pub proof fn lemma_report_config_part2_at(c: ReportConfig, d: Seq<u8>, o: int)
    requires
        0 <= o,
        o + 31 <= d.len(),
        d.subrange(o, o + 31) == report_config_part2_bytes(c),
    ensures
        report_config_part2_bytes(c).len() == 31,
        report_config_part2_at(d, o, c),
{
    let b0 = c.filter3@;
    let b1 = b0 + seq![c.active_type];
    let b2 = b1 + seq![bool_byte(c.rep_emulator_orders)];
    let b3 = b2 + seq![bool_byte(c.stretch)];
    let b4 = b3 + seq![bool_byte(c.only_2_orders)];
    let b5 = b4 + seq![bool_byte(c.use_leverage)];
    let e = d.subrange(o, o + 31);
    assert(e == b5);
    lemma_seq_split(b4, seq![bool_byte(c.use_leverage)]);
    lemma_subrange_of_prefix(e, 31, 0, 30);
    lemma_subrange_of_prefix(e, 31, 30, 31);
    lemma_seq_split(b3, seq![bool_byte(c.only_2_orders)]);
    lemma_subrange_of_prefix(e, 30, 0, 29);
    lemma_subrange_of_prefix(e, 30, 29, 30);
    lemma_seq_split(b2, seq![bool_byte(c.stretch)]);
    lemma_subrange_of_prefix(e, 29, 0, 28);
    lemma_subrange_of_prefix(e, 29, 28, 29);
    lemma_seq_split(b1, seq![bool_byte(c.rep_emulator_orders)]);
    lemma_subrange_of_prefix(e, 28, 0, 27);
    lemma_subrange_of_prefix(e, 28, 27, 28);
    lemma_seq_split(b0, seq![c.active_type]);
    lemma_subrange_of_prefix(e, 27, 0, 26);
    lemma_subrange_of_prefix(e, 27, 26, 27);
    assert(e.subrange(0, 26) == c.filter3@);
    assert(d.subrange(o + 0, o + 26) =~= e.subrange(0, 26));
    assert(e.subrange(26, 27) == seq![c.active_type]);
    assert(d[o + 26] == e.subrange(26, 27)[0]);
    assert(e.subrange(27, 28) == seq![bool_byte(c.rep_emulator_orders)]);
    assert(d[o + 27] == e.subrange(27, 28)[0]);
    lemma_bool_byte(c.rep_emulator_orders);
    assert(e.subrange(28, 29) == seq![bool_byte(c.stretch)]);
    assert(d[o + 28] == e.subrange(28, 29)[0]);
    lemma_bool_byte(c.stretch);
    assert(e.subrange(29, 30) == seq![bool_byte(c.only_2_orders)]);
    assert(d[o + 29] == e.subrange(29, 30)[0]);
    lemma_bool_byte(c.only_2_orders);
    assert(e.subrange(30, 31) == seq![bool_byte(c.use_leverage)]);
    assert(d[o + 30] == e.subrange(30, 31)[0]);
    lemma_bool_byte(c.use_leverage);
}

/// Fields `max_lines` to `by_close_date` read back from their bytes.
pub proof fn lemma_report_config_part3_at(c: ReportConfig, d: Seq<u8>, o: int)
    requires
        0 <= o,
        o + 6 <= d.len(),
        d.subrange(o, o + 6) == report_config_part3_bytes(c),
    ensures
        report_config_part3_bytes(c).len() == 6,
        report_config_part3_at(d, o, c),
{
    let b0 = le_u16(c.max_lines);
    let b1 = b0 + seq![c.pos_direction];
    let b2 = b1 + seq![bool_byte(c.store_liq)];
    let b3 = b2 + seq![bool_byte(c.store_fund)];
    let b4 = b3 + seq![bool_byte(c.by_close_date)];
    let e = d.subrange(o, o + 6);
    assert(e == b4);
    lemma_seq_split(b3, seq![bool_byte(c.by_close_date)]);
    lemma_subrange_of_prefix(e, 6, 0, 5);
    lemma_subrange_of_prefix(e, 6, 5, 6);
    lemma_seq_split(b2, seq![bool_byte(c.store_fund)]);
    lemma_subrange_of_prefix(e, 5, 0, 4);
    lemma_subrange_of_prefix(e, 5, 4, 5);
    lemma_seq_split(b1, seq![bool_byte(c.store_liq)]);
    lemma_subrange_of_prefix(e, 4, 0, 3);
    lemma_subrange_of_prefix(e, 4, 3, 4);
    lemma_seq_split(b0, seq![c.pos_direction]);
    lemma_subrange_of_prefix(e, 3, 0, 2);
    lemma_subrange_of_prefix(e, 3, 2, 3);
    assert(e.subrange(0, 2) == le_u16(c.max_lines));
    lemma_le_u16_roundtrip(c.max_lines);
    assert(d[o + 0] == e.subrange(0, 2)[0] && d[o + 1] == e.subrange(0, 2)[1]);
    assert(e.subrange(2, 3) == seq![c.pos_direction]);
    assert(d[o + 2] == e.subrange(2, 3)[0]);
    assert(e.subrange(3, 4) == seq![bool_byte(c.store_liq)]);
    assert(d[o + 3] == e.subrange(3, 4)[0]);
    lemma_bool_byte(c.store_liq);
    assert(e.subrange(4, 5) == seq![bool_byte(c.store_fund)]);
    assert(d[o + 4] == e.subrange(4, 5)[0]);
    lemma_bool_byte(c.store_fund);
    assert(e.subrange(5, 6) == seq![bool_byte(c.by_close_date)]);
    assert(d[o + 5] == e.subrange(5, 6)[0]);
    lemma_bool_byte(c.by_close_date);
}

/// The fields of a [`ReportConfig`] read back from its bytes.
pub proof fn lemma_report_config_at(c: ReportConfig, d: Seq<u8>, o: int)
    requires
        0 <= o,
        o + 247 <= d.len(),
        d.subrange(o, o + 247) == report_config_bytes(c),
    ensures
        report_config_bytes(c).len() == 247,
        report_config_at(d, o, c),
{
    lemma_units_bytes_len(c.fields_width@);
    let g0 = report_config_part1_bytes(c);
    let g1 = g0 + report_config_part2_bytes(c);
    let g2 = g1 + report_config_part3_bytes(c);
    let e = d.subrange(o, o + 247);
    assert(e == g2);
    lemma_seq_split(g1, report_config_part3_bytes(c));
    lemma_subrange_of_prefix(e, 247, 0, 241);
    lemma_subrange_of_prefix(e, 247, 241, 247);
    assert(d.subrange(o + 241, o + 247) =~= e.subrange(241, 247));
    lemma_report_config_part3_at(c, d, o + 241);
    lemma_seq_split(g0, report_config_part2_bytes(c));
    lemma_subrange_of_prefix(e, 241, 0, 210);
    lemma_subrange_of_prefix(e, 241, 210, 241);
    assert(d.subrange(o + 210, o + 241) =~= e.subrange(210, 241));
    lemma_report_config_part2_at(c, d, o + 210);
    assert(d.subrange(o + 0, o + 210) =~= e.subrange(0, 210));
    lemma_report_config_part1_at(c, d, o + 0);
}

/// Reading back the bytes of a [`ReportConfig`] gives the same record.
pub proof fn lemma_report_config_roundtrip(c: ReportConfig, rest: Seq<u8>)
    ensures
        report_config_bytes(c).len() == REPORT_CONFIG_LEN,
        report_config_at(report_config_bytes(c) + rest, 0, c),
{
    lemma_units_bytes_len(c.fields_width@);
    lemma_seq_split(report_config_bytes(c), rest);
    lemma_report_config_at(c, report_config_bytes(c) + rest, 0);
}

impl ReportConfig {
    /// Whether every field holds the value that [`ReportConfig::default`] gives.
    pub open spec fn is_default(&self) -> bool {
        &&& forall|i: int| 0 <= i < 51 ==> self.fields_vis@[i] == true
        &&& forall|i: int| 0 <= i < 51 ==> self.fields_width@[i] == 0u16
        &&& self.only_active == false
        &&& self.range == 0
        &&& forall|i: int| 0 <= i < 26 ==> self.filter1@[i] == 0u8
        &&& forall|i: int| 0 <= i < 26 ==> self.filter2@[i] == 0u8
        &&& forall|i: int| 0 <= i < 26 ==> self.filter3@[i] == 0u8
        &&& self.active_type == 3
        &&& self.rep_emulator_orders == false
        &&& self.stretch == false
        &&& self.only_2_orders == false
        &&& self.use_leverage == true
        &&& self.max_lines == 250
        &&& self.pos_direction == 0
        &&& self.store_liq == false
        &&& self.store_fund == false
        &&& self.by_close_date == false
    }
}

impl Default for ReportConfig {
    fn default() -> (r: Self)
        ensures
            r.is_default(),
    {
        ReportConfig {
            fields_vis: [true; 51],
            fields_width: [0u16; 51],
            only_active: false,
            range: 0,
            filter1: [0u8; 26],
            filter2: [0u8; 26],
            filter3: [0u8; 26],
            active_type: 3,
            rep_emulator_orders: false,
            stretch: false,
            only_2_orders: false,
            use_leverage: true,
            max_lines: 250,
            pos_direction: 0,
            store_liq: false,
            store_fund: false,
            by_close_date: false,
        }
    }
}

/// Chart price-alert configuration.
#[derive(Clone, Debug)]
pub struct AlertConfig {
    /// Enable price alerts.
    pub enabled: bool,
    /// How long an alert stays visible on screen (seconds).
    pub keep_time: i32,
    /// Alert sound preset index.
    pub sound_kind: i32,
    /// Number of times to repeat the alert sound.
    pub repeat_count: i32,
}

/// Wire size of [`AlertConfig`].
pub const ALERT_CONFIG_LEN: usize = 13;

/// Wire bytes of a [`AlertConfig`], field after field.
pub open spec fn alert_config_bytes(c: AlertConfig) -> Seq<u8> {
    seq![bool_byte(c.enabled)]
        + le_u32(c.keep_time as u32)
        + le_u32(c.sound_kind as u32)
        + le_u32(c.repeat_count as u32)
}

/// Whether `c` is the [`AlertConfig`] stored at `p`.
pub open spec fn alert_config_at(d: Seq<u8>, p: int, c: AlertConfig) -> bool {
    &&& c.enabled == flag_of(d[p])
    &&& c.keep_time == i32_at(d, p + 1)
    &&& c.sound_kind == i32_at(d, p + 5)
    &&& c.repeat_count == i32_at(d, p + 9)
}

/// Read a [`AlertConfig`].
pub fn read_alert_config(r: &mut ConfigReader) -> (res: Result<AlertConfig, SharedConfigError>)
    ensures
        final(r).bytes() == old(r).bytes(),
        old(r).at() + ALERT_CONFIG_LEN <= old(r).bytes().len() ==> (res matches Ok(c) && alert_config_at(
            old(r).bytes(),
            old(r).at(),
            c,
        ) && final(r).at() == old(r).at() + ALERT_CONFIG_LEN),
        old(r).at() + ALERT_CONFIG_LEN > old(r).bytes().len() ==> (res matches Err(e) && e@ == eof_msg()),
{
    Ok(AlertConfig {
        enabled: r.read_bool()?,
        keep_time: r.read_i32()?,
        sound_kind: r.read_i32()?,
        repeat_count: r.read_i32()?,
    })
}

/// Write a [`AlertConfig`].
pub fn write_alert_config(w: &mut ConfigWriter, c: &AlertConfig)
    requires
        old(w).wf(),
    ensures
        final(w).wf(),
        final(w).wrote_all(old(w), true, alert_config_bytes(*c)),
{
    let ghost w0 = *w;
    let ghost wb = *w;
    w.write_bool(c.enabled);
    proof { lemma_wrote_all_of_wrote(wb, *w, seq![bool_byte(c.enabled)]); }
    let ghost wb = *w;
    w.write_i32(c.keep_time);
    proof {
        lemma_wrote_all_of_wrote(wb, *w, le_u32(c.keep_time as u32));
        lemma_wrote_all_then(w0, wb, *w, true, seq![bool_byte(c.enabled)], true, le_u32(c.keep_time as u32));
    }
    let ghost wb = *w;
    w.write_i32(c.sound_kind);
    proof {
        lemma_wrote_all_of_wrote(wb, *w, le_u32(c.sound_kind as u32));
        lemma_wrote_all_then(w0, wb, *w, true, seq![bool_byte(c.enabled)] + le_u32(c.keep_time as u32), true, le_u32(c.sound_kind as u32));
    }
    let ghost wb = *w;
    w.write_i32(c.repeat_count);
    proof {
        lemma_wrote_all_of_wrote(wb, *w, le_u32(c.repeat_count as u32));
        lemma_wrote_all_then(w0, wb, *w, true, seq![bool_byte(c.enabled)] + le_u32(c.keep_time as u32) + le_u32(c.sound_kind as u32), true, le_u32(c.repeat_count as u32));
    }
}

/// The fields of a [`AlertConfig`] read back from its bytes.
pub proof fn lemma_alert_config_at(c: AlertConfig, d: Seq<u8>, o: int)
    requires
        0 <= o,
        o + 13 <= d.len(),
        d.subrange(o, o + 13) == alert_config_bytes(c),
    ensures
        alert_config_bytes(c).len() == 13,
        alert_config_at(d, o, c),
{
    let b0 = seq![bool_byte(c.enabled)];
    let b1 = b0 + le_u32(c.keep_time as u32);
    let b2 = b1 + le_u32(c.sound_kind as u32);
    let b3 = b2 + le_u32(c.repeat_count as u32);
    let e = d.subrange(o, o + 13);
    assert(e == b3);
    lemma_seq_split(b2, le_u32(c.repeat_count as u32));
    lemma_subrange_of_prefix(e, 13, 0, 9);
    lemma_subrange_of_prefix(e, 13, 9, 13);
    lemma_seq_split(b1, le_u32(c.sound_kind as u32));
    lemma_subrange_of_prefix(e, 9, 0, 5);
    lemma_subrange_of_prefix(e, 9, 5, 9);
    lemma_seq_split(b0, le_u32(c.keep_time as u32));
    lemma_subrange_of_prefix(e, 5, 0, 1);
    lemma_subrange_of_prefix(e, 5, 1, 5);
    assert(e.subrange(0, 1) == seq![bool_byte(c.enabled)]);
    assert(d[o + 0] == e.subrange(0, 1)[0]);
    lemma_bool_byte(c.enabled);
    assert(e.subrange(1, 5) == le_u32(c.keep_time as u32));
    lemma_le_i32_roundtrip(c.keep_time);
    assert(d[o + 1] == e.subrange(1, 5)[0] && d[o + 2] == e.subrange(1, 5)[1] && d[o + 3] == e.subrange(1, 5)[2] && d[o + 4] == e.subrange(1, 5)[3]);
    assert(e.subrange(5, 9) == le_u32(c.sound_kind as u32));
    lemma_le_i32_roundtrip(c.sound_kind);
    assert(d[o + 5] == e.subrange(5, 9)[0] && d[o + 6] == e.subrange(5, 9)[1] && d[o + 7] == e.subrange(5, 9)[2] && d[o + 8] == e.subrange(5, 9)[3]);
    assert(e.subrange(9, 13) == le_u32(c.repeat_count as u32));
    lemma_le_i32_roundtrip(c.repeat_count);
    assert(d[o + 9] == e.subrange(9, 13)[0] && d[o + 10] == e.subrange(9, 13)[1] && d[o + 11] == e.subrange(9, 13)[2] && d[o + 12] == e.subrange(9, 13)[3]);
}

/// Reading back the bytes of a [`AlertConfig`] gives the same record.
pub proof fn lemma_alert_config_roundtrip(c: AlertConfig, rest: Seq<u8>)
    ensures
        alert_config_bytes(c).len() == ALERT_CONFIG_LEN,
        alert_config_at(alert_config_bytes(c) + rest, 0, c),
{
    lemma_seq_split(alert_config_bytes(c), rest);
    lemma_alert_config_at(c, alert_config_bytes(c) + rest, 0);
}

impl AlertConfig {
    /// Whether every field holds the value that [`AlertConfig::default`] gives.
    pub open spec fn is_default(&self) -> bool {
        &&& self.enabled == true
        &&& self.keep_time == 30
        &&& self.sound_kind == 2
        &&& self.repeat_count == 2
    }
}

impl Default for AlertConfig {
    fn default() -> (r: Self)
        ensures
            r.is_default(),
    {
        AlertConfig {
            enabled: true,
            keep_time: 30,
            sound_kind: 2,
            repeat_count: 2,
        }
    }
}

/// Cashback / BNB-holder discount tracking.
#[derive(Clone, Debug)]
pub struct CashBackSettings {
    /// Display cashback as a separate line item.
    pub sep: bool,
    /// Aggregate cashback across sub-accounts.
    pub agg_accounts: bool,
    /// Maximum days to look back for cashback history.
    pub max_days: i32,
    /// Use instant BNB conversion for cashback.
    pub instant_bnb: bool,
    /// Hide the info/explanation panel.
    pub hide_info: bool,
}

impl CashBackSettings {
    /// Whether every field holds the value that [`CashBackSettings::default`] gives.
    pub open spec fn is_default(&self) -> bool {
        &&& !self.sep
        &&& !self.agg_accounts
        &&& self.max_days == 0
        &&& !self.instant_bnb
        &&& !self.hide_info
    }
}

impl Default for CashBackSettings {
    fn default() -> (r: Self)
        ensures
            r.is_default(),
    {
        CashBackSettings { sep: false, agg_accounts: false, max_days: 0, instant_bnb: false, hide_info: false }
    }
}

/// Wire size of [`CashBackSettings`].
pub const CASH_BACK_SETTINGS_LEN: usize = 8;

/// Wire bytes of a [`CashBackSettings`], field after field.
pub open spec fn cash_back_settings_bytes(c: CashBackSettings) -> Seq<u8> {
    seq![bool_byte(c.sep)]
        + seq![bool_byte(c.agg_accounts)]
        + le_u32(c.max_days as u32)
        + seq![bool_byte(c.instant_bnb)]
        + seq![bool_byte(c.hide_info)]
}

/// Whether `c` is the [`CashBackSettings`] stored at `p`.
pub open spec fn cash_back_settings_at(d: Seq<u8>, p: int, c: CashBackSettings) -> bool {
    &&& c.sep == flag_of(d[p])
    &&& c.agg_accounts == flag_of(d[p + 1])
    &&& c.max_days == i32_at(d, p + 2)
    &&& c.instant_bnb == flag_of(d[p + 6])
    &&& c.hide_info == flag_of(d[p + 7])
}

/// Read a [`CashBackSettings`].
pub fn read_cash_back_settings(r: &mut ConfigReader) -> (res: Result<CashBackSettings, SharedConfigError>)
    ensures
        final(r).bytes() == old(r).bytes(),
        old(r).at() + CASH_BACK_SETTINGS_LEN <= old(r).bytes().len() ==> (res matches Ok(c) && cash_back_settings_at(
            old(r).bytes(),
            old(r).at(),
            c,
        ) && final(r).at() == old(r).at() + CASH_BACK_SETTINGS_LEN),
        old(r).at() + CASH_BACK_SETTINGS_LEN > old(r).bytes().len() ==> (res matches Err(e) && e@ == eof_msg()),
{
    Ok(CashBackSettings {
        sep: r.read_bool()?,
        agg_accounts: r.read_bool()?,
        max_days: r.read_i32()?,
        instant_bnb: r.read_bool()?,
        hide_info: r.read_bool()?,
    })
}

/// Write a [`CashBackSettings`].
pub fn write_cash_back_settings(w: &mut ConfigWriter, c: &CashBackSettings)
    requires
        old(w).wf(),
    ensures
        final(w).wf(),
        final(w).wrote_all(old(w), true, cash_back_settings_bytes(*c)),
{
    let ghost w0 = *w;
    let ghost wb = *w;
    w.write_bool(c.sep);
    proof { lemma_wrote_all_of_wrote(wb, *w, seq![bool_byte(c.sep)]); }
    let ghost wb = *w;
    w.write_bool(c.agg_accounts);
    proof {
        lemma_wrote_all_of_wrote(wb, *w, seq![bool_byte(c.agg_accounts)]);
        lemma_wrote_all_then(w0, wb, *w, true, seq![bool_byte(c.sep)], true, seq![bool_byte(c.agg_accounts)]);
    }
    let ghost wb = *w;
    w.write_i32(c.max_days);
    proof {
        lemma_wrote_all_of_wrote(wb, *w, le_u32(c.max_days as u32));
        lemma_wrote_all_then(w0, wb, *w, true, seq![bool_byte(c.sep)] + seq![bool_byte(c.agg_accounts)], true, le_u32(c.max_days as u32));
    }
    let ghost wb = *w;
    w.write_bool(c.instant_bnb);
    proof {
        lemma_wrote_all_of_wrote(wb, *w, seq![bool_byte(c.instant_bnb)]);
        lemma_wrote_all_then(w0, wb, *w, true, seq![bool_byte(c.sep)] + seq![bool_byte(c.agg_accounts)] + le_u32(c.max_days as u32), true, seq![bool_byte(c.instant_bnb)]);
    }
    let ghost wb = *w;
    w.write_bool(c.hide_info);
    proof {
        lemma_wrote_all_of_wrote(wb, *w, seq![bool_byte(c.hide_info)]);
        lemma_wrote_all_then(w0, wb, *w, true, seq![bool_byte(c.sep)] + seq![bool_byte(c.agg_accounts)] + le_u32(c.max_days as u32) + seq![bool_byte(c.instant_bnb)], true, seq![bool_byte(c.hide_info)]);
    }
}

/// The fields of a [`CashBackSettings`] read back from its bytes.
pub proof fn lemma_cash_back_settings_at(c: CashBackSettings, d: Seq<u8>, o: int)
    requires
        0 <= o,
        o + 8 <= d.len(),
        d.subrange(o, o + 8) == cash_back_settings_bytes(c),
    ensures
        cash_back_settings_bytes(c).len() == 8,
        cash_back_settings_at(d, o, c),
{
    let b0 = seq![bool_byte(c.sep)];
    let b1 = b0 + seq![bool_byte(c.agg_accounts)];
    let b2 = b1 + le_u32(c.max_days as u32);
    let b3 = b2 + seq![bool_byte(c.instant_bnb)];
    let b4 = b3 + seq![bool_byte(c.hide_info)];
    let e = d.subrange(o, o + 8);
    assert(e == b4);
    lemma_seq_split(b3, seq![bool_byte(c.hide_info)]);
    lemma_subrange_of_prefix(e, 8, 0, 7);
    lemma_subrange_of_prefix(e, 8, 7, 8);
    lemma_seq_split(b2, seq![bool_byte(c.instant_bnb)]);
    lemma_subrange_of_prefix(e, 7, 0, 6);
    lemma_subrange_of_prefix(e, 7, 6, 7);
    lemma_seq_split(b1, le_u32(c.max_days as u32));
    lemma_subrange_of_prefix(e, 6, 0, 2);
    lemma_subrange_of_prefix(e, 6, 2, 6);
    lemma_seq_split(b0, seq![bool_byte(c.agg_accounts)]);
    lemma_subrange_of_prefix(e, 2, 0, 1);
    lemma_subrange_of_prefix(e, 2, 1, 2);
    assert(e.subrange(0, 1) == seq![bool_byte(c.sep)]);
    assert(d[o + 0] == e.subrange(0, 1)[0]);
    lemma_bool_byte(c.sep);
    assert(e.subrange(1, 2) == seq![bool_byte(c.agg_accounts)]);
    assert(d[o + 1] == e.subrange(1, 2)[0]);
    lemma_bool_byte(c.agg_accounts);
    assert(e.subrange(2, 6) == le_u32(c.max_days as u32));
    lemma_le_i32_roundtrip(c.max_days);
    assert(d[o + 2] == e.subrange(2, 6)[0] && d[o + 3] == e.subrange(2, 6)[1] && d[o + 4] == e.subrange(2, 6)[2] && d[o + 5] == e.subrange(2, 6)[3]);
    assert(e.subrange(6, 7) == seq![bool_byte(c.instant_bnb)]);
    assert(d[o + 6] == e.subrange(6, 7)[0]);
    lemma_bool_byte(c.instant_bnb);
    assert(e.subrange(7, 8) == seq![bool_byte(c.hide_info)]);
    assert(d[o + 7] == e.subrange(7, 8)[0]);
    lemma_bool_byte(c.hide_info);
}

/// Reading back the bytes of a [`CashBackSettings`] gives the same record.
pub proof fn lemma_cash_back_settings_roundtrip(c: CashBackSettings, rest: Seq<u8>)
    ensures
        cash_back_settings_bytes(c).len() == CASH_BACK_SETTINGS_LEN,
        cash_back_settings_at(cash_back_settings_bytes(c) + rest, 0, c),
{
    lemma_seq_split(cash_back_settings_bytes(c), rest);
    lemma_cash_back_settings_at(c, cash_back_settings_bytes(c) + rest, 0);
}

/// Asset transfer panel display settings.
#[derive(Clone, Debug)]
pub struct AssetTransferConfig {
    /// Show total balance line.
    pub show_total: bool,
    /// Hide zero-balance assets.
    pub hide_zero: bool,
    /// Show backup/snapshot balances.
    pub show_baks: bool,
}

/// Wire size of [`AssetTransferConfig`].
pub const ASSET_TRANSFER_CONFIG_LEN: usize = 3;

/// Wire bytes of a [`AssetTransferConfig`], field after field.
pub open spec fn asset_transfer_config_bytes(c: AssetTransferConfig) -> Seq<u8> {
    seq![bool_byte(c.show_total)]
        + seq![bool_byte(c.hide_zero)]
        + seq![bool_byte(c.show_baks)]
}

/// Whether `c` is the [`AssetTransferConfig`] stored at `p`.
pub open spec fn asset_transfer_config_at(d: Seq<u8>, p: int, c: AssetTransferConfig) -> bool {
    &&& c.show_total == flag_of(d[p])
    &&& c.hide_zero == flag_of(d[p + 1])
    &&& c.show_baks == flag_of(d[p + 2])
}

/// Read a [`AssetTransferConfig`].
pub fn read_asset_transfer_config(r: &mut ConfigReader) -> (res: Result<AssetTransferConfig, SharedConfigError>)
    ensures
        final(r).bytes() == old(r).bytes(),
        old(r).at() + ASSET_TRANSFER_CONFIG_LEN <= old(r).bytes().len() ==> (res matches Ok(c) && asset_transfer_config_at(
            old(r).bytes(),
            old(r).at(),
            c,
        ) && final(r).at() == old(r).at() + ASSET_TRANSFER_CONFIG_LEN),
        old(r).at() + ASSET_TRANSFER_CONFIG_LEN > old(r).bytes().len() ==> (res matches Err(e) && e@ == eof_msg()),
{
    Ok(AssetTransferConfig {
        show_total: r.read_bool()?,
        hide_zero: r.read_bool()?,
        show_baks: r.read_bool()?,
    })
}

/// Write a [`AssetTransferConfig`].
pub fn write_asset_transfer_config(w: &mut ConfigWriter, c: &AssetTransferConfig)
    requires
        old(w).wf(),
    ensures
        final(w).wf(),
        final(w).wrote_all(old(w), true, asset_transfer_config_bytes(*c)),
{
    let ghost w0 = *w;
    let ghost wb = *w;
    w.write_bool(c.show_total);
    proof { lemma_wrote_all_of_wrote(wb, *w, seq![bool_byte(c.show_total)]); }
    let ghost wb = *w;
    w.write_bool(c.hide_zero);
    proof {
        lemma_wrote_all_of_wrote(wb, *w, seq![bool_byte(c.hide_zero)]);
        lemma_wrote_all_then(w0, wb, *w, true, seq![bool_byte(c.show_total)], true, seq![bool_byte(c.hide_zero)]);
    }
    let ghost wb = *w;
    w.write_bool(c.show_baks);
    proof {
        lemma_wrote_all_of_wrote(wb, *w, seq![bool_byte(c.show_baks)]);
        lemma_wrote_all_then(w0, wb, *w, true, seq![bool_byte(c.show_total)] + seq![bool_byte(c.hide_zero)], true, seq![bool_byte(c.show_baks)]);
    }
}

/// The fields of a [`AssetTransferConfig`] read back from its bytes.
pub proof fn lemma_asset_transfer_config_at(c: AssetTransferConfig, d: Seq<u8>, o: int)
    requires
        0 <= o,
        o + 3 <= d.len(),
        d.subrange(o, o + 3) == asset_transfer_config_bytes(c),
    ensures
        asset_transfer_config_bytes(c).len() == 3,
        asset_transfer_config_at(d, o, c),
{
    let b0 = seq![bool_byte(c.show_total)];
    let b1 = b0 + seq![bool_byte(c.hide_zero)];
    let b2 = b1 + seq![bool_byte(c.show_baks)];
    let e = d.subrange(o, o + 3);
    assert(e == b2);
    lemma_seq_split(b1, seq![bool_byte(c.show_baks)]);
    lemma_subrange_of_prefix(e, 3, 0, 2);
    lemma_subrange_of_prefix(e, 3, 2, 3);
    lemma_seq_split(b0, seq![bool_byte(c.hide_zero)]);
    lemma_subrange_of_prefix(e, 2, 0, 1);
    lemma_subrange_of_prefix(e, 2, 1, 2);
    assert(e.subrange(0, 1) == seq![bool_byte(c.show_total)]);
    assert(d[o + 0] == e.subrange(0, 1)[0]);
    lemma_bool_byte(c.show_total);
    assert(e.subrange(1, 2) == seq![bool_byte(c.hide_zero)]);
    assert(d[o + 1] == e.subrange(1, 2)[0]);
    lemma_bool_byte(c.hide_zero);
    assert(e.subrange(2, 3) == seq![bool_byte(c.show_baks)]);
    assert(d[o + 2] == e.subrange(2, 3)[0]);
    lemma_bool_byte(c.show_baks);
}

/// Reading back the bytes of a [`AssetTransferConfig`] gives the same record.
pub proof fn lemma_asset_transfer_config_roundtrip(c: AssetTransferConfig, rest: Seq<u8>)
    ensures
        asset_transfer_config_bytes(c).len() == ASSET_TRANSFER_CONFIG_LEN,
        asset_transfer_config_at(asset_transfer_config_bytes(c) + rest, 0, c),
{
    lemma_seq_split(asset_transfer_config_bytes(c), rest);
    lemma_asset_transfer_config_at(c, asset_transfer_config_bytes(c) + rest, 0);
}

impl AssetTransferConfig {
    /// Whether every field holds the value that [`AssetTransferConfig::default`] gives.
    pub open spec fn is_default(&self) -> bool {
        &&& self.show_total == true
        &&& self.hide_zero == true
        &&& self.show_baks == false
    }
}

impl Default for AssetTransferConfig {
    fn default() -> (r: Self)
        ensures
            r.is_default(),
    {
        AssetTransferConfig {
            show_total: true,
            hide_zero: true,
            show_baks: false,
        }
    }
}

/// Automatic leverage management.
#[derive(Clone, Debug)]
pub struct AutoManageLevConfig {
    /// Auto-set max order leverage to fit available balance.
    pub auto_max_order: bool,
    /// Auto-increase leverage when exchange allows.
    pub auto_lev_up: bool,
    /// Fixed leverage value (when auto is off).
    pub fix_lev: i32,
    /// Auto-switch to isolated margin mode.
    pub auto_isolated: bool,
    /// Report leverage changes via Telegram.
    pub tlg_report: bool,
    /// Auto-switch to cross margin mode.
    pub auto_cross: bool,
    /// Auto-apply the fixed leverage value.
    pub auto_fix_lev: bool,
}

/// Wire size of [`AutoManageLevConfig`].
pub const AUTO_MANAGE_LEV_CONFIG_LEN: usize = 10;

/// Wire bytes of fields `auto_max_order` to `auto_cross` of a [`AutoManageLevConfig`].
pub open spec fn auto_manage_lev_config_part1_bytes(c: AutoManageLevConfig) -> Seq<u8> {
    seq![bool_byte(c.auto_max_order)]
        + seq![bool_byte(c.auto_lev_up)]
        + le_u32(c.fix_lev as u32)
        + seq![bool_byte(c.auto_isolated)]
        + seq![bool_byte(c.tlg_report)]
        + seq![bool_byte(c.auto_cross)]
}

/// Whether fields `auto_max_order` to `auto_cross` of `c` are stored at `p`.
pub open spec fn auto_manage_lev_config_part1_at(d: Seq<u8>, p: int, c: AutoManageLevConfig) -> bool {
    &&& c.auto_max_order == flag_of(d[p])
    &&& c.auto_lev_up == flag_of(d[p + 1])
    &&& c.fix_lev == i32_at(d, p + 2)
    &&& c.auto_isolated == flag_of(d[p + 6])
    &&& c.tlg_report == flag_of(d[p + 7])
    &&& c.auto_cross == flag_of(d[p + 8])
}

/// Wire bytes of fields `auto_fix_lev` to `auto_fix_lev` of a [`AutoManageLevConfig`].
pub open spec fn auto_manage_lev_config_part2_bytes(c: AutoManageLevConfig) -> Seq<u8> {
    seq![bool_byte(c.auto_fix_lev)]
}

/// Whether fields `auto_fix_lev` to `auto_fix_lev` of `c` are stored at `p`.
pub open spec fn auto_manage_lev_config_part2_at(d: Seq<u8>, p: int, c: AutoManageLevConfig) -> bool {
    &&& c.auto_fix_lev == flag_of(d[p])
}

/// Wire bytes of a [`AutoManageLevConfig`], field after field.
pub open spec fn auto_manage_lev_config_bytes(c: AutoManageLevConfig) -> Seq<u8> {
    auto_manage_lev_config_part1_bytes(c)
        + auto_manage_lev_config_part2_bytes(c)
}

/// Whether `c` is the [`AutoManageLevConfig`] stored at `p`.
pub open spec fn auto_manage_lev_config_at(d: Seq<u8>, p: int, c: AutoManageLevConfig) -> bool {
    &&& auto_manage_lev_config_part1_at(d, p, c)
    &&& auto_manage_lev_config_part2_at(d, p + 9, c)
}

/// Read a [`AutoManageLevConfig`].
pub fn read_auto_manage_lev_config(r: &mut ConfigReader) -> (res: Result<AutoManageLevConfig, SharedConfigError>)
    ensures
        final(r).bytes() == old(r).bytes(),
        old(r).at() + AUTO_MANAGE_LEV_CONFIG_LEN <= old(r).bytes().len() ==> (res matches Ok(c) && auto_manage_lev_config_at(
            old(r).bytes(),
            old(r).at(),
            c,
        ) && final(r).at() == old(r).at() + AUTO_MANAGE_LEV_CONFIG_LEN),
        old(r).at() + AUTO_MANAGE_LEV_CONFIG_LEN > old(r).bytes().len() ==> (res matches Err(e) && e@ == eof_msg()),
{
    Ok(AutoManageLevConfig {
        auto_max_order: r.read_bool()?,
        auto_lev_up: r.read_bool()?,
        fix_lev: r.read_i32()?,
        auto_isolated: r.read_bool()?,
        tlg_report: r.read_bool()?,
        auto_cross: r.read_bool()?,
        auto_fix_lev: r.read_bool()?,
    })
}

/// Write fields `auto_max_order` to `auto_cross` of a [`AutoManageLevConfig`].
fn write_auto_manage_lev_config_part1(w: &mut ConfigWriter, c: &AutoManageLevConfig)
    requires
        old(w).wf(),
    ensures
        final(w).wf(),
        final(w).wrote_all(old(w), true, auto_manage_lev_config_part1_bytes(*c)),
{
    let ghost w0 = *w;
    let ghost wb = *w;
    w.write_bool(c.auto_max_order);
    proof { lemma_wrote_all_of_wrote(wb, *w, seq![bool_byte(c.auto_max_order)]); }
    let ghost wb = *w;
    w.write_bool(c.auto_lev_up);
    proof {
        lemma_wrote_all_of_wrote(wb, *w, seq![bool_byte(c.auto_lev_up)]);
        lemma_wrote_all_then(w0, wb, *w, true, seq![bool_byte(c.auto_max_order)], true, seq![bool_byte(c.auto_lev_up)]);
    }
    let ghost wb = *w;
    w.write_i32(c.fix_lev);
    proof {
        lemma_wrote_all_of_wrote(wb, *w, le_u32(c.fix_lev as u32));
        lemma_wrote_all_then(w0, wb, *w, true, seq![bool_byte(c.auto_max_order)] + seq![bool_byte(c.auto_lev_up)], true, le_u32(c.fix_lev as u32));
    }
    let ghost wb = *w;
    w.write_bool(c.auto_isolated);
    proof {
        lemma_wrote_all_of_wrote(wb, *w, seq![bool_byte(c.auto_isolated)]);
        lemma_wrote_all_then(w0, wb, *w, true, seq![bool_byte(c.auto_max_order)] + seq![bool_byte(c.auto_lev_up)] + le_u32(c.fix_lev as u32), true, seq![bool_byte(c.auto_isolated)]);
    }
    let ghost wb = *w;
    w.write_bool(c.tlg_report);
    proof {
        lemma_wrote_all_of_wrote(wb, *w, seq![bool_byte(c.tlg_report)]);
        lemma_wrote_all_then(w0, wb, *w, true, seq![bool_byte(c.auto_max_order)] + seq![bool_byte(c.auto_lev_up)] + le_u32(c.fix_lev as u32) + seq![bool_byte(c.auto_isolated)], true, seq![bool_byte(c.tlg_report)]);
    }
    let ghost wb = *w;
    w.write_bool(c.auto_cross);
    proof {
        lemma_wrote_all_of_wrote(wb, *w, seq![bool_byte(c.auto_cross)]);
        lemma_wrote_all_then(w0, wb, *w, true, seq![bool_byte(c.auto_max_order)] + seq![bool_byte(c.auto_lev_up)] + le_u32(c.fix_lev as u32) + seq![bool_byte(c.auto_isolated)] + seq![bool_byte(c.tlg_report)], true, seq![bool_byte(c.auto_cross)]);
    }
}

/// Write fields `auto_fix_lev` to `auto_fix_lev` of a [`AutoManageLevConfig`].
fn write_auto_manage_lev_config_part2(w: &mut ConfigWriter, c: &AutoManageLevConfig)
    requires
        old(w).wf(),
    ensures
        final(w).wf(),
        final(w).wrote_all(old(w), true, auto_manage_lev_config_part2_bytes(*c)),
{
    let ghost w0 = *w;
    let ghost wb = *w;
    w.write_bool(c.auto_fix_lev);
    proof { lemma_wrote_all_of_wrote(wb, *w, seq![bool_byte(c.auto_fix_lev)]); }
}

/// Write a [`AutoManageLevConfig`].
pub fn write_auto_manage_lev_config(w: &mut ConfigWriter, c: &AutoManageLevConfig)
    requires
        old(w).wf(),
    ensures
        final(w).wf(),
        final(w).wrote_all(old(w), true, auto_manage_lev_config_bytes(*c)),
{
    let ghost w0 = *w;
    let ghost wb = *w;
    write_auto_manage_lev_config_part1(w, c);
    let ghost wb = *w;
    write_auto_manage_lev_config_part2(w, c);
    proof { lemma_wrote_all_then(w0, wb, *w, true, auto_manage_lev_config_part1_bytes(*c), true, auto_manage_lev_config_part2_bytes(*c)); }
}

/// Fields `auto_max_order` to `auto_cross` read back from their bytes.
pub proof fn lemma_auto_manage_lev_config_part1_at(c: AutoManageLevConfig, d: Seq<u8>, o: int)
    requires
        0 <= o,
        o + 9 <= d.len(),
        d.subrange(o, o + 9) == auto_manage_lev_config_part1_bytes(c),
    ensures
        auto_manage_lev_config_part1_bytes(c).len() == 9,
        auto_manage_lev_config_part1_at(d, o, c),
{
    let b0 = seq![bool_byte(c.auto_max_order)];
    let b1 = b0 + seq![bool_byte(c.auto_lev_up)];
    let b2 = b1 + le_u32(c.fix_lev as u32);
    let b3 = b2 + seq![bool_byte(c.auto_isolated)];
    let b4 = b3 + seq![bool_byte(c.tlg_report)];
    let b5 = b4 + seq![bool_byte(c.auto_cross)];
    let e = d.subrange(o, o + 9);
    assert(e == b5);
    lemma_seq_split(b4, seq![bool_byte(c.auto_cross)]);
    lemma_subrange_of_prefix(e, 9, 0, 8);
    lemma_subrange_of_prefix(e, 9, 8, 9);
    lemma_seq_split(b3, seq![bool_byte(c.tlg_report)]);
    lemma_subrange_of_prefix(e, 8, 0, 7);
    lemma_subrange_of_prefix(e, 8, 7, 8);
    lemma_seq_split(b2, seq![bool_byte(c.auto_isolated)]);
    lemma_subrange_of_prefix(e, 7, 0, 6);
    lemma_subrange_of_prefix(e, 7, 6, 7);
    lemma_seq_split(b1, le_u32(c.fix_lev as u32));
    lemma_subrange_of_prefix(e, 6, 0, 2);
    lemma_subrange_of_prefix(e, 6, 2, 6);
    lemma_seq_split(b0, seq![bool_byte(c.auto_lev_up)]);
    lemma_subrange_of_prefix(e, 2, 0, 1);
    lemma_subrange_of_prefix(e, 2, 1, 2);
    assert(e.subrange(0, 1) == seq![bool_byte(c.auto_max_order)]);
    assert(d[o + 0] == e.subrange(0, 1)[0]);
    lemma_bool_byte(c.auto_max_order);
    assert(e.subrange(1, 2) == seq![bool_byte(c.auto_lev_up)]);
    assert(d[o + 1] == e.subrange(1, 2)[0]);
    lemma_bool_byte(c.auto_lev_up);
    assert(e.subrange(2, 6) == le_u32(c.fix_lev as u32));
    lemma_le_i32_roundtrip(c.fix_lev);
    assert(d[o + 2] == e.subrange(2, 6)[0] && d[o + 3] == e.subrange(2, 6)[1] && d[o + 4] == e.subrange(2, 6)[2] && d[o + 5] == e.subrange(2, 6)[3]);
    assert(e.subrange(6, 7) == seq![bool_byte(c.auto_isolated)]);
    assert(d[o + 6] == e.subrange(6, 7)[0]);
    lemma_bool_byte(c.auto_isolated);
    assert(e.subrange(7, 8) == seq![bool_byte(c.tlg_report)]);
    assert(d[o + 7] == e.subrange(7, 8)[0]);
    lemma_bool_byte(c.tlg_report);
    assert(e.subrange(8, 9) == seq![bool_byte(c.auto_cross)]);
    assert(d[o + 8] == e.subrange(8, 9)[0]);
    lemma_bool_byte(c.auto_cross);
}

/// Fields `auto_fix_lev` to `auto_fix_lev` read back from their bytes.
pub proof fn lemma_auto_manage_lev_config_part2_at(c: AutoManageLevConfig, d: Seq<u8>, o: int)
    requires
        0 <= o,
        o + 1 <= d.len(),
        d.subrange(o, o + 1) == auto_manage_lev_config_part2_bytes(c),
    ensures
        auto_manage_lev_config_part2_bytes(c).len() == 1,
        auto_manage_lev_config_part2_at(d, o, c),
{
    let b0 = seq![bool_byte(c.auto_fix_lev)];
    let e = d.subrange(o, o + 1);
    assert(e == b0);
    assert(e.subrange(0, 1) == seq![bool_byte(c.auto_fix_lev)]);
    assert(d[o + 0] == e.subrange(0, 1)[0]);
    lemma_bool_byte(c.auto_fix_lev);
}

/// The fields of a [`AutoManageLevConfig`] read back from its bytes.
pub proof fn lemma_auto_manage_lev_config_at(c: AutoManageLevConfig, d: Seq<u8>, o: int)
    requires
        0 <= o,
        o + 10 <= d.len(),
        d.subrange(o, o + 10) == auto_manage_lev_config_bytes(c),
    ensures
        auto_manage_lev_config_bytes(c).len() == 10,
        auto_manage_lev_config_at(d, o, c),
{
    let g0 = auto_manage_lev_config_part1_bytes(c);
    let g1 = g0 + auto_manage_lev_config_part2_bytes(c);
    let e = d.subrange(o, o + 10);
    assert(e == g1);
    lemma_seq_split(g0, auto_manage_lev_config_part2_bytes(c));
    lemma_subrange_of_prefix(e, 10, 0, 9);
    lemma_subrange_of_prefix(e, 10, 9, 10);
    assert(d.subrange(o + 9, o + 10) =~= e.subrange(9, 10));
    lemma_auto_manage_lev_config_part2_at(c, d, o + 9);
    assert(d.subrange(o + 0, o + 9) =~= e.subrange(0, 9));
    lemma_auto_manage_lev_config_part1_at(c, d, o + 0);
}

/// Reading back the bytes of a [`AutoManageLevConfig`] gives the same record.
pub proof fn lemma_auto_manage_lev_config_roundtrip(c: AutoManageLevConfig, rest: Seq<u8>)
    ensures
        auto_manage_lev_config_bytes(c).len() == AUTO_MANAGE_LEV_CONFIG_LEN,
        auto_manage_lev_config_at(auto_manage_lev_config_bytes(c) + rest, 0, c),
{
    lemma_seq_split(auto_manage_lev_config_bytes(c), rest);
    lemma_auto_manage_lev_config_at(c, auto_manage_lev_config_bytes(c) + rest, 0);
}

impl AutoManageLevConfig {
    /// Whether every field holds the value that [`AutoManageLevConfig::default`] gives.
    pub open spec fn is_default(&self) -> bool {
        &&& self.auto_max_order == false
        &&& self.auto_lev_up == true
        &&& self.fix_lev == 0
        &&& self.auto_isolated == false
        &&& self.tlg_report == true
        &&& self.auto_cross == false
        &&& self.auto_fix_lev == false
    }
}

impl Default for AutoManageLevConfig {
    fn default() -> (r: Self)
        ensures
            r.is_default(),
    {
        AutoManageLevConfig {
            auto_max_order: false,
            auto_lev_up: true,
            fix_lev: 0,
            auto_isolated: false,
            tlg_report: true,
            auto_cross: false,
            auto_fix_lev: false,
        }
    }
}

/// Telegram screenshot sharing settings.
#[derive(Clone, Debug)]
pub struct SendShotsConfig {
    /// Enable automatic screenshot sharing.
    pub may_send: bool,
    /// Minimum absolute profit to trigger a screenshot.
    pub profit_abs: i32,
    /// Minimum profit percentage to trigger a screenshot.
    pub profit_pers: i32,
    /// Minimum session profit to trigger a screenshot.
    pub profit_session: i32,
    /// Also send screenshots for negative (loss) trades.
    pub send_negative: bool,
    /// Send to the currently open Telegram chat.
    pub send_to_open_chat: bool,
    /// Post screenshots to the public channel.
    pub send_public: bool,
    /// Time scale for the screenshot chart (seconds of history).
    pub time_scale: i32,
    /// Price scale for the screenshot chart.
    pub price_scale: i32,
}

/// Wire size of [`SendShotsConfig`].
pub const SEND_SHOTS_CONFIG_LEN: usize = 24;

/// Wire bytes of fields `may_send` to `send_to_open_chat` of a [`SendShotsConfig`].
pub open spec fn send_shots_config_part1_bytes(c: SendShotsConfig) -> Seq<u8> {
    seq![bool_byte(c.may_send)]
        + le_u32(c.profit_abs as u32)
        + le_u32(c.profit_pers as u32)
        + le_u32(c.profit_session as u32)
        + seq![bool_byte(c.send_negative)]
        + seq![bool_byte(c.send_to_open_chat)]
}

/// Whether fields `may_send` to `send_to_open_chat` of `c` are stored at `p`.
pub open spec fn send_shots_config_part1_at(d: Seq<u8>, p: int, c: SendShotsConfig) -> bool {
    &&& c.may_send == flag_of(d[p])
    &&& c.profit_abs == i32_at(d, p + 1)
    &&& c.profit_pers == i32_at(d, p + 5)
    &&& c.profit_session == i32_at(d, p + 9)
    &&& c.send_negative == flag_of(d[p + 13])
    &&& c.send_to_open_chat == flag_of(d[p + 14])
}

/// Wire bytes of fields `send_public` to `price_scale` of a [`SendShotsConfig`].
pub open spec fn send_shots_config_part2_bytes(c: SendShotsConfig) -> Seq<u8> {
    seq![bool_byte(c.send_public)]
        + le_u32(c.time_scale as u32)
        + le_u32(c.price_scale as u32)
}

/// Whether fields `send_public` to `price_scale` of `c` are stored at `p`.
pub open spec fn send_shots_config_part2_at(d: Seq<u8>, p: int, c: SendShotsConfig) -> bool {
    &&& c.send_public == flag_of(d[p])
    &&& c.time_scale == i32_at(d, p + 1)
    &&& c.price_scale == i32_at(d, p + 5)
}

/// Wire bytes of a [`SendShotsConfig`], field after field.
pub open spec fn send_shots_config_bytes(c: SendShotsConfig) -> Seq<u8> {
    send_shots_config_part1_bytes(c)
        + send_shots_config_part2_bytes(c)
}

/// Whether `c` is the [`SendShotsConfig`] stored at `p`.
pub open spec fn send_shots_config_at(d: Seq<u8>, p: int, c: SendShotsConfig) -> bool {
    &&& send_shots_config_part1_at(d, p, c)
    &&& send_shots_config_part2_at(d, p + 15, c)
}

/// Read a [`SendShotsConfig`].
pub fn read_send_shots_config(r: &mut ConfigReader) -> (res: Result<SendShotsConfig, SharedConfigError>)
    ensures
        final(r).bytes() == old(r).bytes(),
        old(r).at() + SEND_SHOTS_CONFIG_LEN <= old(r).bytes().len() ==> (res matches Ok(c) && send_shots_config_at(
            old(r).bytes(),
            old(r).at(),
            c,
        ) && final(r).at() == old(r).at() + SEND_SHOTS_CONFIG_LEN),
        old(r).at() + SEND_SHOTS_CONFIG_LEN > old(r).bytes().len() ==> (res matches Err(e) && e@ == eof_msg()),
{
    Ok(SendShotsConfig {
        may_send: r.read_bool()?,
        profit_abs: r.read_i32()?,
        profit_pers: r.read_i32()?,
        profit_session: r.read_i32()?,
        send_negative: r.read_bool()?,
        send_to_open_chat: r.read_bool()?,
        send_public: r.read_bool()?,
        time_scale: r.read_i32()?,
        price_scale: r.read_i32()?,
    })
}

/// Write fields `may_send` to `send_to_open_chat` of a [`SendShotsConfig`].
fn write_send_shots_config_part1(w: &mut ConfigWriter, c: &SendShotsConfig)
    requires
        old(w).wf(),
    ensures
        final(w).wf(),
        final(w).wrote_all(old(w), true, send_shots_config_part1_bytes(*c)),
{
    let ghost w0 = *w;
    let ghost wb = *w;
    w.write_bool(c.may_send);
    proof { lemma_wrote_all_of_wrote(wb, *w, seq![bool_byte(c.may_send)]); }
    let ghost wb = *w;
    w.write_i32(c.profit_abs);
    proof {
        lemma_wrote_all_of_wrote(wb, *w, le_u32(c.profit_abs as u32));
        lemma_wrote_all_then(w0, wb, *w, true, seq![bool_byte(c.may_send)], true, le_u32(c.profit_abs as u32));
    }
    let ghost wb = *w;
    w.write_i32(c.profit_pers);
    proof {
        lemma_wrote_all_of_wrote(wb, *w, le_u32(c.profit_pers as u32));
        lemma_wrote_all_then(w0, wb, *w, true, seq![bool_byte(c.may_send)] + le_u32(c.profit_abs as u32), true, le_u32(c.profit_pers as u32));
    }
    let ghost wb = *w;
    w.write_i32(c.profit_session);
    proof {
        lemma_wrote_all_of_wrote(wb, *w, le_u32(c.profit_session as u32));
        lemma_wrote_all_then(w0, wb, *w, true, seq![bool_byte(c.may_send)] + le_u32(c.profit_abs as u32) + le_u32(c.profit_pers as u32), true, le_u32(c.profit_session as u32));
    }
    let ghost wb = *w;
    w.write_bool(c.send_negative);
    proof {
        lemma_wrote_all_of_wrote(wb, *w, seq![bool_byte(c.send_negative)]);
        lemma_wrote_all_then(w0, wb, *w, true, seq![bool_byte(c.may_send)] + le_u32(c.profit_abs as u32) + le_u32(c.profit_pers as u32) + le_u32(c.profit_session as u32), true, seq![bool_byte(c.send_negative)]);
    }
    let ghost wb = *w;
    w.write_bool(c.send_to_open_chat);
    proof {
        lemma_wrote_all_of_wrote(wb, *w, seq![bool_byte(c.send_to_open_chat)]);
        lemma_wrote_all_then(w0, wb, *w, true, seq![bool_byte(c.may_send)] + le_u32(c.profit_abs as u32) + le_u32(c.profit_pers as u32) + le_u32(c.profit_session as u32) + seq![bool_byte(c.send_negative)], true, seq![bool_byte(c.send_to_open_chat)]);
    }
}

/// Write fields `send_public` to `price_scale` of a [`SendShotsConfig`].
fn write_send_shots_config_part2(w: &mut ConfigWriter, c: &SendShotsConfig)
    requires
        old(w).wf(),
    ensures
        final(w).wf(),
        final(w).wrote_all(old(w), true, send_shots_config_part2_bytes(*c)),
{
    let ghost w0 = *w;
    let ghost wb = *w;
    w.write_bool(c.send_public);
    proof { lemma_wrote_all_of_wrote(wb, *w, seq![bool_byte(c.send_public)]); }
    let ghost wb = *w;
    w.write_i32(c.time_scale);
    proof {
        lemma_wrote_all_of_wrote(wb, *w, le_u32(c.time_scale as u32));
        lemma_wrote_all_then(w0, wb, *w, true, seq![bool_byte(c.send_public)], true, le_u32(c.time_scale as u32));
    }
    let ghost wb = *w;
    w.write_i32(c.price_scale);
    proof {
        lemma_wrote_all_of_wrote(wb, *w, le_u32(c.price_scale as u32));
        lemma_wrote_all_then(w0, wb, *w, true, seq![bool_byte(c.send_public)] + le_u32(c.time_scale as u32), true, le_u32(c.price_scale as u32));
    }
}

/// Write a [`SendShotsConfig`].
pub fn write_send_shots_config(w: &mut ConfigWriter, c: &SendShotsConfig)
    requires
        old(w).wf(),
    ensures
        final(w).wf(),
        final(w).wrote_all(old(w), true, send_shots_config_bytes(*c)),
{
    let ghost w0 = *w;
    let ghost wb = *w;
    write_send_shots_config_part1(w, c);
    let ghost wb = *w;
    write_send_shots_config_part2(w, c);
    proof { lemma_wrote_all_then(w0, wb, *w, true, send_shots_config_part1_bytes(*c), true, send_shots_config_part2_bytes(*c)); }
}

/// Fields `may_send` to `send_to_open_chat` read back from their bytes.
pub proof fn lemma_send_shots_config_part1_at(c: SendShotsConfig, d: Seq<u8>, o: int)
    requires
        0 <= o,
        o + 15 <= d.len(),
        d.subrange(o, o + 15) == send_shots_config_part1_bytes(c),
    ensures
        send_shots_config_part1_bytes(c).len() == 15,
        send_shots_config_part1_at(d, o, c),
{
    let b0 = seq![bool_byte(c.may_send)];
    let b1 = b0 + le_u32(c.profit_abs as u32);
    let b2 = b1 + le_u32(c.profit_pers as u32);
    let b3 = b2 + le_u32(c.profit_session as u32);
    let b4 = b3 + seq![bool_byte(c.send_negative)];
    let b5 = b4 + seq![bool_byte(c.send_to_open_chat)];
    let e = d.subrange(o, o + 15);
    assert(e == b5);
    lemma_seq_split(b4, seq![bool_byte(c.send_to_open_chat)]);
    lemma_subrange_of_prefix(e, 15, 0, 14);
    lemma_subrange_of_prefix(e, 15, 14, 15);
    lemma_seq_split(b3, seq![bool_byte(c.send_negative)]);
    lemma_subrange_of_prefix(e, 14, 0, 13);
    lemma_subrange_of_prefix(e, 14, 13, 14);
    lemma_seq_split(b2, le_u32(c.profit_session as u32));
    lemma_subrange_of_prefix(e, 13, 0, 9);
    lemma_subrange_of_prefix(e, 13, 9, 13);
    lemma_seq_split(b1, le_u32(c.profit_pers as u32));
    lemma_subrange_of_prefix(e, 9, 0, 5);
    lemma_subrange_of_prefix(e, 9, 5, 9);
    lemma_seq_split(b0, le_u32(c.profit_abs as u32));
    lemma_subrange_of_prefix(e, 5, 0, 1);
    lemma_subrange_of_prefix(e, 5, 1, 5);
    assert(e.subrange(0, 1) == seq![bool_byte(c.may_send)]);
    assert(d[o + 0] == e.subrange(0, 1)[0]);
    lemma_bool_byte(c.may_send);
    assert(e.subrange(1, 5) == le_u32(c.profit_abs as u32));
    lemma_le_i32_roundtrip(c.profit_abs);
    assert(d[o + 1] == e.subrange(1, 5)[0] && d[o + 2] == e.subrange(1, 5)[1] && d[o + 3] == e.subrange(1, 5)[2] && d[o + 4] == e.subrange(1, 5)[3]);
    assert(e.subrange(5, 9) == le_u32(c.profit_pers as u32));
    lemma_le_i32_roundtrip(c.profit_pers);
    assert(d[o + 5] == e.subrange(5, 9)[0] && d[o + 6] == e.subrange(5, 9)[1] && d[o + 7] == e.subrange(5, 9)[2] && d[o + 8] == e.subrange(5, 9)[3]);
    assert(e.subrange(9, 13) == le_u32(c.profit_session as u32));
    lemma_le_i32_roundtrip(c.profit_session);
    assert(d[o + 9] == e.subrange(9, 13)[0] && d[o + 10] == e.subrange(9, 13)[1] && d[o + 11] == e.subrange(9, 13)[2] && d[o + 12] == e.subrange(9, 13)[3]);
    assert(e.subrange(13, 14) == seq![bool_byte(c.send_negative)]);
    assert(d[o + 13] == e.subrange(13, 14)[0]);
    lemma_bool_byte(c.send_negative);
    assert(e.subrange(14, 15) == seq![bool_byte(c.send_to_open_chat)]);
    assert(d[o + 14] == e.subrange(14, 15)[0]);
    lemma_bool_byte(c.send_to_open_chat);
}

/// Fields `send_public` to `price_scale` read back from their bytes.
pub proof fn lemma_send_shots_config_part2_at(c: SendShotsConfig, d: Seq<u8>, o: int)
    requires
        0 <= o,
        o + 9 <= d.len(),
        d.subrange(o, o + 9) == send_shots_config_part2_bytes(c),
    ensures
        send_shots_config_part2_bytes(c).len() == 9,
        send_shots_config_part2_at(d, o, c),
{
    let b0 = seq![bool_byte(c.send_public)];
    let b1 = b0 + le_u32(c.time_scale as u32);
    let b2 = b1 + le_u32(c.price_scale as u32);
    let e = d.subrange(o, o + 9);
    assert(e == b2);
    lemma_seq_split(b1, le_u32(c.price_scale as u32));
    lemma_subrange_of_prefix(e, 9, 0, 5);
    lemma_subrange_of_prefix(e, 9, 5, 9);
    lemma_seq_split(b0, le_u32(c.time_scale as u32));
    lemma_subrange_of_prefix(e, 5, 0, 1);
    lemma_subrange_of_prefix(e, 5, 1, 5);
    assert(e.subrange(0, 1) == seq![bool_byte(c.send_public)]);
    assert(d[o + 0] == e.subrange(0, 1)[0]);
    lemma_bool_byte(c.send_public);
    assert(e.subrange(1, 5) == le_u32(c.time_scale as u32));
    lemma_le_i32_roundtrip(c.time_scale);
    assert(d[o + 1] == e.subrange(1, 5)[0] && d[o + 2] == e.subrange(1, 5)[1] && d[o + 3] == e.subrange(1, 5)[2] && d[o + 4] == e.subrange(1, 5)[3]);
    assert(e.subrange(5, 9) == le_u32(c.price_scale as u32));
    lemma_le_i32_roundtrip(c.price_scale);
    assert(d[o + 5] == e.subrange(5, 9)[0] && d[o + 6] == e.subrange(5, 9)[1] && d[o + 7] == e.subrange(5, 9)[2] && d[o + 8] == e.subrange(5, 9)[3]);
}

/// The fields of a [`SendShotsConfig`] read back from its bytes.
pub proof fn lemma_send_shots_config_at(c: SendShotsConfig, d: Seq<u8>, o: int)
    requires
        0 <= o,
        o + 24 <= d.len(),
        d.subrange(o, o + 24) == send_shots_config_bytes(c),
    ensures
        send_shots_config_bytes(c).len() == 24,
        send_shots_config_at(d, o, c),
{
    let g0 = send_shots_config_part1_bytes(c);
    let g1 = g0 + send_shots_config_part2_bytes(c);
    let e = d.subrange(o, o + 24);
    assert(e == g1);
    lemma_seq_split(g0, send_shots_config_part2_bytes(c));
    lemma_subrange_of_prefix(e, 24, 0, 15);
    lemma_subrange_of_prefix(e, 24, 15, 24);
    assert(d.subrange(o + 15, o + 24) =~= e.subrange(15, 24));
    lemma_send_shots_config_part2_at(c, d, o + 15);
    assert(d.subrange(o + 0, o + 15) =~= e.subrange(0, 15));
    lemma_send_shots_config_part1_at(c, d, o + 0);
}

/// Reading back the bytes of a [`SendShotsConfig`] gives the same record.
pub proof fn lemma_send_shots_config_roundtrip(c: SendShotsConfig, rest: Seq<u8>)
    ensures
        send_shots_config_bytes(c).len() == SEND_SHOTS_CONFIG_LEN,
        send_shots_config_at(send_shots_config_bytes(c) + rest, 0, c),
{
    lemma_seq_split(send_shots_config_bytes(c), rest);
    lemma_send_shots_config_at(c, send_shots_config_bytes(c) + rest, 0);
}

impl SendShotsConfig {
    /// Whether every field holds the value that [`SendShotsConfig::default`] gives.
    pub open spec fn is_default(&self) -> bool {
        &&& self.may_send == false
        &&& self.profit_abs == 100
        &&& self.profit_pers == 25
        &&& self.profit_session == 500
        &&& self.send_negative == false
        &&& self.send_to_open_chat == true
        &&& self.send_public == true
        &&& self.time_scale == 200
        &&& self.price_scale == 0
    }
}

impl Default for SendShotsConfig {
    fn default() -> (r: Self)
        ensures
            r.is_default(),
    {
        SendShotsConfig {
            may_send: false,
            profit_abs: 100,
            profit_pers: 25,
            profit_session: 500,
            send_negative: false,
            send_to_open_chat: true,
            send_public: true,
            time_scale: 200,
            price_scale: 0,
        }
    }
}

/// Manual strategy buttons and hotkeys.
#[derive(Clone, Debug)]
pub struct ManualStratsConfig {
    /// Show manual strategy quick-buttons on the toolbar.
    pub use_buttons: bool,
    /// Hotkey assignments for manual strategy slots (10 slots, `TShortCut`).
    pub hot_keys: [u16; 10],
    /// Visibility of each strategy button slot.
    pub show_button: [bool; 10],
}

/// Wire size of [`ManualStratsConfig`].
pub const MANUAL_STRATS_CONFIG_LEN: usize = 31;

/// Wire bytes of a [`ManualStratsConfig`], field after field.
pub open spec fn manual_strats_config_bytes(c: ManualStratsConfig) -> Seq<u8> {
    seq![bool_byte(c.use_buttons)]
        + units_bytes(c.hot_keys@)
        + bools_bytes(c.show_button@)
}

/// Whether `c` is the [`ManualStratsConfig`] stored at `p`.
pub open spec fn manual_strats_config_at(d: Seq<u8>, p: int, c: ManualStratsConfig) -> bool {
    &&& c.use_buttons == flag_of(d[p])
    &&& c.hot_keys@ == u16s_at(d, p + 1, 10)
    &&& c.show_button@ == bools_at(d, p + 21, 10)
}

/// Read a [`ManualStratsConfig`].
pub fn read_manual_strats_config(r: &mut ConfigReader) -> (res: Result<ManualStratsConfig, SharedConfigError>)
    ensures
        final(r).bytes() == old(r).bytes(),
        old(r).at() + MANUAL_STRATS_CONFIG_LEN <= old(r).bytes().len() ==> (res matches Ok(c) && manual_strats_config_at(
            old(r).bytes(),
            old(r).at(),
            c,
        ) && final(r).at() == old(r).at() + MANUAL_STRATS_CONFIG_LEN),
        old(r).at() + MANUAL_STRATS_CONFIG_LEN > old(r).bytes().len() ==> (res matches Err(e) && e@ == eof_msg()),
{
    Ok(ManualStratsConfig {
        use_buttons: r.read_bool()?,
        hot_keys: r.read_u16_array::<10>()?,
        show_button: r.read_bool_array::<10>()?,
    })
}

/// Write a [`ManualStratsConfig`].
pub fn write_manual_strats_config(w: &mut ConfigWriter, c: &ManualStratsConfig)
    requires
        old(w).wf(),
    ensures
        final(w).wf(),
        final(w).wrote_all(old(w), true, manual_strats_config_bytes(*c)),
{
    proof { lemma_units_bytes_len(c.hot_keys@); }
    let ghost w0 = *w;
    let ghost wb = *w;
    w.write_bool(c.use_buttons);
    proof { lemma_wrote_all_of_wrote(wb, *w, seq![bool_byte(c.use_buttons)]); }
    let ghost wb = *w;
    w.write_u16_array(c.hot_keys.as_slice());
    proof {
        lemma_wrote_all_then(w0, wb, *w, true, seq![bool_byte(c.use_buttons)], true, units_bytes(c.hot_keys@));
    }
    let ghost wb = *w;
    w.write_bool_array(c.show_button.as_slice());
    proof {
        lemma_wrote_all_then(w0, wb, *w, true, seq![bool_byte(c.use_buttons)] + units_bytes(c.hot_keys@), true, bools_bytes(c.show_button@));
    }
}

/// The fields of a [`ManualStratsConfig`] read back from its bytes.
pub proof fn lemma_manual_strats_config_at(c: ManualStratsConfig, d: Seq<u8>, o: int)
    requires
        0 <= o,
        o + 31 <= d.len(),
        d.subrange(o, o + 31) == manual_strats_config_bytes(c),
    ensures
        manual_strats_config_bytes(c).len() == 31,
        manual_strats_config_at(d, o, c),
{
    let b0 = seq![bool_byte(c.use_buttons)];
    let b1 = b0 + units_bytes(c.hot_keys@);
    lemma_units_bytes_len(c.hot_keys@);
    let b2 = b1 + bools_bytes(c.show_button@);
    let e = d.subrange(o, o + 31);
    assert(e == b2);
    lemma_seq_split(b1, bools_bytes(c.show_button@));
    lemma_subrange_of_prefix(e, 31, 0, 21);
    lemma_subrange_of_prefix(e, 31, 21, 31);
    lemma_seq_split(b0, units_bytes(c.hot_keys@));
    lemma_subrange_of_prefix(e, 21, 0, 1);
    lemma_subrange_of_prefix(e, 21, 1, 21);
    assert(e.subrange(0, 1) == seq![bool_byte(c.use_buttons)]);
    assert(d[o + 0] == e.subrange(0, 1)[0]);
    lemma_bool_byte(c.use_buttons);
    assert(e.subrange(1, 21) == units_bytes(c.hot_keys@));
    assert(d.subrange(o + 1, o + 21) =~= e.subrange(1, 21));
    lemma_u16s_at_units_bytes(c.hot_keys@, d, o + 1);
    assert(e.subrange(21, 31) == bools_bytes(c.show_button@));
    assert(d.subrange(o + 21, o + 31) =~= e.subrange(21, 31));
    assert(bools_at(d, o + 21, 10) =~= c.show_button@) by {
        assert forall|j: int| 0 <= j < 10 implies flag_of(d[o + 21 + j]) == c.show_button@[j] by {
            assert(d[o + 21 + j] == d.subrange(o + 21, o + 31)[j]);
            lemma_bool_byte(c.show_button@[j]);
        }
    }
}

/// Reading back the bytes of a [`ManualStratsConfig`] gives the same record.
pub proof fn lemma_manual_strats_config_roundtrip(c: ManualStratsConfig, rest: Seq<u8>)
    ensures
        manual_strats_config_bytes(c).len() == MANUAL_STRATS_CONFIG_LEN,
        manual_strats_config_at(manual_strats_config_bytes(c) + rest, 0, c),
{
    lemma_units_bytes_len(c.hot_keys@);
    lemma_seq_split(manual_strats_config_bytes(c), rest);
    lemma_manual_strats_config_at(c, manual_strats_config_bytes(c) + rest, 0);
}

impl ManualStratsConfig {
    /// Whether every field holds the value that [`ManualStratsConfig::default`] gives.
    pub open spec fn is_default(&self) -> bool {
        &&& self.use_buttons == true
        &&& forall|i: int| 0 <= i < 10 ==> self.hot_keys@[i] == 0u16
        &&& forall|i: int| 0 <= i < 10 ==> self.show_button@[i] == false
    }
}

impl Default for ManualStratsConfig {
    fn default() -> (r: Self)
        ensures
            r.is_default(),
    {
        ManualStratsConfig {
            use_buttons: true,
            hot_keys: [0u16; 10],
            show_button: [false; 10],
        }
    }
}

/// Order visualization color scheme.
#[derive(Clone, Debug)]
pub struct IntColors {
    /// Buy order color (active, ARGB).
    pub buy_order_color_bu: u32,
    /// Sell color (ARGB).
    pub sell_color_u: u32,
    /// Buy order color (waiting/pending, ARGB).
    pub buy_order_color_wu: u32,
    /// Sell order color (ARGB).
    pub sell_order_color_u: u32,
    /// Completed buy order color (ARGB).
    pub buy_order_done_color_u: u32,
    /// Completed sell order color (ARGB).
    pub sell_order_done_color_u: u32,
    /// Trailing-stop line color (ARGB).
    pub trailing_color_u: u32,
    /// Price line width in pixels.
    pub price_line_width: i32,
}

/// Wire size of [`IntColors`].
pub const INT_COLORS_LEN: usize = 32;

/// Wire bytes of fields `buy_order_color_bu` to `sell_order_done_color_u` of a [`IntColors`].
pub open spec fn int_colors_part1_bytes(c: IntColors) -> Seq<u8> {
    le_u32(c.buy_order_color_bu)
        + le_u32(c.sell_color_u)
        + le_u32(c.buy_order_color_wu)
        + le_u32(c.sell_order_color_u)
        + le_u32(c.buy_order_done_color_u)
        + le_u32(c.sell_order_done_color_u)
}

/// Whether fields `buy_order_color_bu` to `sell_order_done_color_u` of `c` are stored at `p`.
pub open spec fn int_colors_part1_at(d: Seq<u8>, p: int, c: IntColors) -> bool {
    &&& c.buy_order_color_bu == u32_at(d, p)
    &&& c.sell_color_u == u32_at(d, p + 4)
    &&& c.buy_order_color_wu == u32_at(d, p + 8)
    &&& c.sell_order_color_u == u32_at(d, p + 12)
    &&& c.buy_order_done_color_u == u32_at(d, p + 16)
    &&& c.sell_order_done_color_u == u32_at(d, p + 20)
}

/// Wire bytes of fields `trailing_color_u` to `price_line_width` of a [`IntColors`].
pub open spec fn int_colors_part2_bytes(c: IntColors) -> Seq<u8> {
    le_u32(c.trailing_color_u)
        + le_u32(c.price_line_width as u32)
}

/// Whether fields `trailing_color_u` to `price_line_width` of `c` are stored at `p`.
pub open spec fn int_colors_part2_at(d: Seq<u8>, p: int, c: IntColors) -> bool {
    &&& c.trailing_color_u == u32_at(d, p)
    &&& c.price_line_width == i32_at(d, p + 4)
}

/// Wire bytes of a [`IntColors`], field after field.
pub open spec fn int_colors_bytes(c: IntColors) -> Seq<u8> {
    int_colors_part1_bytes(c)
        + int_colors_part2_bytes(c)
}

/// Whether `c` is the [`IntColors`] stored at `p`.
pub open spec fn int_colors_at(d: Seq<u8>, p: int, c: IntColors) -> bool {
    &&& int_colors_part1_at(d, p, c)
    &&& int_colors_part2_at(d, p + 24, c)
}

/// Read a [`IntColors`].
pub fn read_int_colors(r: &mut ConfigReader) -> (res: Result<IntColors, SharedConfigError>)
    ensures
        final(r).bytes() == old(r).bytes(),
        old(r).at() + INT_COLORS_LEN <= old(r).bytes().len() ==> (res matches Ok(c) && int_colors_at(
            old(r).bytes(),
            old(r).at(),
            c,
        ) && final(r).at() == old(r).at() + INT_COLORS_LEN),
        old(r).at() + INT_COLORS_LEN > old(r).bytes().len() ==> (res matches Err(e) && e@ == eof_msg()),
{
    Ok(IntColors {
        buy_order_color_bu: r.read_u32()?,
        sell_color_u: r.read_u32()?,
        buy_order_color_wu: r.read_u32()?,
        sell_order_color_u: r.read_u32()?,
        buy_order_done_color_u: r.read_u32()?,
        sell_order_done_color_u: r.read_u32()?,
        trailing_color_u: r.read_u32()?,
        price_line_width: r.read_i32()?,
    })
}

/// Write fields `buy_order_color_bu` to `sell_order_done_color_u` of a [`IntColors`].
fn write_int_colors_part1(w: &mut ConfigWriter, c: &IntColors)
    requires
        old(w).wf(),
    ensures
        final(w).wf(),
        final(w).wrote_all(old(w), true, int_colors_part1_bytes(*c)),
{
    let ghost w0 = *w;
    let ghost wb = *w;
    w.write_u32(c.buy_order_color_bu);
    proof { lemma_wrote_all_of_wrote(wb, *w, le_u32(c.buy_order_color_bu)); }
    let ghost wb = *w;
    w.write_u32(c.sell_color_u);
    proof {
        lemma_wrote_all_of_wrote(wb, *w, le_u32(c.sell_color_u));
        lemma_wrote_all_then(w0, wb, *w, true, le_u32(c.buy_order_color_bu), true, le_u32(c.sell_color_u));
    }
    let ghost wb = *w;
    w.write_u32(c.buy_order_color_wu);
    proof {
        lemma_wrote_all_of_wrote(wb, *w, le_u32(c.buy_order_color_wu));
        lemma_wrote_all_then(w0, wb, *w, true, le_u32(c.buy_order_color_bu) + le_u32(c.sell_color_u), true, le_u32(c.buy_order_color_wu));
    }
    let ghost wb = *w;
    w.write_u32(c.sell_order_color_u);
    proof {
        lemma_wrote_all_of_wrote(wb, *w, le_u32(c.sell_order_color_u));
        lemma_wrote_all_then(w0, wb, *w, true, le_u32(c.buy_order_color_bu) + le_u32(c.sell_color_u) + le_u32(c.buy_order_color_wu), true, le_u32(c.sell_order_color_u));
    }
    let ghost wb = *w;
    w.write_u32(c.buy_order_done_color_u);
    proof {
        lemma_wrote_all_of_wrote(wb, *w, le_u32(c.buy_order_done_color_u));
        lemma_wrote_all_then(w0, wb, *w, true, le_u32(c.buy_order_color_bu) + le_u32(c.sell_color_u) + le_u32(c.buy_order_color_wu) + le_u32(c.sell_order_color_u), true, le_u32(c.buy_order_done_color_u));
    }
    let ghost wb = *w;
    w.write_u32(c.sell_order_done_color_u);
    proof {
        lemma_wrote_all_of_wrote(wb, *w, le_u32(c.sell_order_done_color_u));
        lemma_wrote_all_then(w0, wb, *w, true, le_u32(c.buy_order_color_bu) + le_u32(c.sell_color_u) + le_u32(c.buy_order_color_wu) + le_u32(c.sell_order_color_u) + le_u32(c.buy_order_done_color_u), true, le_u32(c.sell_order_done_color_u));
    }
}

/// Write fields `trailing_color_u` to `price_line_width` of a [`IntColors`].
fn write_int_colors_part2(w: &mut ConfigWriter, c: &IntColors)
    requires
        old(w).wf(),
    ensures
        final(w).wf(),
        final(w).wrote_all(old(w), true, int_colors_part2_bytes(*c)),
{
    let ghost w0 = *w;
    let ghost wb = *w;
    w.write_u32(c.trailing_color_u);
    proof { lemma_wrote_all_of_wrote(wb, *w, le_u32(c.trailing_color_u)); }
    let ghost wb = *w;
    w.write_i32(c.price_line_width);
    proof {
        lemma_wrote_all_of_wrote(wb, *w, le_u32(c.price_line_width as u32));
        lemma_wrote_all_then(w0, wb, *w, true, le_u32(c.trailing_color_u), true, le_u32(c.price_line_width as u32));
    }
}

/// Write a [`IntColors`].
pub fn write_int_colors(w: &mut ConfigWriter, c: &IntColors)
    requires
        old(w).wf(),
    ensures
        final(w).wf(),
        final(w).wrote_all(old(w), true, int_colors_bytes(*c)),
{
    let ghost w0 = *w;
    let ghost wb = *w;
    write_int_colors_part1(w, c);
    let ghost wb = *w;
    write_int_colors_part2(w, c);
    proof { lemma_wrote_all_then(w0, wb, *w, true, int_colors_part1_bytes(*c), true, int_colors_part2_bytes(*c)); }
}

/// Fields `buy_order_color_bu` to `sell_order_done_color_u` read back from their bytes.
pub proof fn lemma_int_colors_part1_at(c: IntColors, d: Seq<u8>, o: int)
    requires
        0 <= o,
        o + 24 <= d.len(),
        d.subrange(o, o + 24) == int_colors_part1_bytes(c),
    ensures
        int_colors_part1_bytes(c).len() == 24,
        int_colors_part1_at(d, o, c),
{
    let b0 = le_u32(c.buy_order_color_bu);
    let b1 = b0 + le_u32(c.sell_color_u);
    let b2 = b1 + le_u32(c.buy_order_color_wu);
    let b3 = b2 + le_u32(c.sell_order_color_u);
    let b4 = b3 + le_u32(c.buy_order_done_color_u);
    let b5 = b4 + le_u32(c.sell_order_done_color_u);
    let e = d.subrange(o, o + 24);
    assert(e == b5);
    lemma_seq_split(b4, le_u32(c.sell_order_done_color_u));
    lemma_subrange_of_prefix(e, 24, 0, 20);
    lemma_subrange_of_prefix(e, 24, 20, 24);
    lemma_seq_split(b3, le_u32(c.buy_order_done_color_u));
    lemma_subrange_of_prefix(e, 20, 0, 16);
    lemma_subrange_of_prefix(e, 20, 16, 20);
    lemma_seq_split(b2, le_u32(c.sell_order_color_u));
    lemma_subrange_of_prefix(e, 16, 0, 12);
    lemma_subrange_of_prefix(e, 16, 12, 16);
    lemma_seq_split(b1, le_u32(c.buy_order_color_wu));
    lemma_subrange_of_prefix(e, 12, 0, 8);
    lemma_subrange_of_prefix(e, 12, 8, 12);
    lemma_seq_split(b0, le_u32(c.sell_color_u));
    lemma_subrange_of_prefix(e, 8, 0, 4);
    lemma_subrange_of_prefix(e, 8, 4, 8);
    assert(e.subrange(0, 4) == le_u32(c.buy_order_color_bu));
    lemma_le_u32_roundtrip(c.buy_order_color_bu);
    assert(d[o + 0] == e.subrange(0, 4)[0] && d[o + 1] == e.subrange(0, 4)[1] && d[o + 2] == e.subrange(0, 4)[2] && d[o + 3] == e.subrange(0, 4)[3]);
    assert(e.subrange(4, 8) == le_u32(c.sell_color_u));
    lemma_le_u32_roundtrip(c.sell_color_u);
    assert(d[o + 4] == e.subrange(4, 8)[0] && d[o + 5] == e.subrange(4, 8)[1] && d[o + 6] == e.subrange(4, 8)[2] && d[o + 7] == e.subrange(4, 8)[3]);
    assert(e.subrange(8, 12) == le_u32(c.buy_order_color_wu));
    lemma_le_u32_roundtrip(c.buy_order_color_wu);
    assert(d[o + 8] == e.subrange(8, 12)[0] && d[o + 9] == e.subrange(8, 12)[1] && d[o + 10] == e.subrange(8, 12)[2] && d[o + 11] == e.subrange(8, 12)[3]);
    assert(e.subrange(12, 16) == le_u32(c.sell_order_color_u));
    lemma_le_u32_roundtrip(c.sell_order_color_u);
    assert(d[o + 12] == e.subrange(12, 16)[0] && d[o + 13] == e.subrange(12, 16)[1] && d[o + 14] == e.subrange(12, 16)[2] && d[o + 15] == e.subrange(12, 16)[3]);
    assert(e.subrange(16, 20) == le_u32(c.buy_order_done_color_u));
    lemma_le_u32_roundtrip(c.buy_order_done_color_u);
    assert(d[o + 16] == e.subrange(16, 20)[0] && d[o + 17] == e.subrange(16, 20)[1] && d[o + 18] == e.subrange(16, 20)[2] && d[o + 19] == e.subrange(16, 20)[3]);
    assert(e.subrange(20, 24) == le_u32(c.sell_order_done_color_u));
    lemma_le_u32_roundtrip(c.sell_order_done_color_u);
    assert(d[o + 20] == e.subrange(20, 24)[0] && d[o + 21] == e.subrange(20, 24)[1] && d[o + 22] == e.subrange(20, 24)[2] && d[o + 23] == e.subrange(20, 24)[3]);
}

/// Fields `trailing_color_u` to `price_line_width` read back from their bytes.
pub proof fn lemma_int_colors_part2_at(c: IntColors, d: Seq<u8>, o: int)
    requires
        0 <= o,
        o + 8 <= d.len(),
        d.subrange(o, o + 8) == int_colors_part2_bytes(c),
    ensures
        int_colors_part2_bytes(c).len() == 8,
        int_colors_part2_at(d, o, c),
{
    let b0 = le_u32(c.trailing_color_u);
    let b1 = b0 + le_u32(c.price_line_width as u32);
    let e = d.subrange(o, o + 8);
    assert(e == b1);
    lemma_seq_split(b0, le_u32(c.price_line_width as u32));
    lemma_subrange_of_prefix(e, 8, 0, 4);
    lemma_subrange_of_prefix(e, 8, 4, 8);
    assert(e.subrange(0, 4) == le_u32(c.trailing_color_u));
    lemma_le_u32_roundtrip(c.trailing_color_u);
    assert(d[o + 0] == e.subrange(0, 4)[0] && d[o + 1] == e.subrange(0, 4)[1] && d[o + 2] == e.subrange(0, 4)[2] && d[o + 3] == e.subrange(0, 4)[3]);
    assert(e.subrange(4, 8) == le_u32(c.price_line_width as u32));
    lemma_le_i32_roundtrip(c.price_line_width);
    assert(d[o + 4] == e.subrange(4, 8)[0] && d[o + 5] == e.subrange(4, 8)[1] && d[o + 6] == e.subrange(4, 8)[2] && d[o + 7] == e.subrange(4, 8)[3]);
}

/// The fields of a [`IntColors`] read back from its bytes.
pub proof fn lemma_int_colors_at(c: IntColors, d: Seq<u8>, o: int)
    requires
        0 <= o,
        o + 32 <= d.len(),
        d.subrange(o, o + 32) == int_colors_bytes(c),
    ensures
        int_colors_bytes(c).len() == 32,
        int_colors_at(d, o, c),
{
    let g0 = int_colors_part1_bytes(c);
    let g1 = g0 + int_colors_part2_bytes(c);
    let e = d.subrange(o, o + 32);
    assert(e == g1);
    lemma_seq_split(g0, int_colors_part2_bytes(c));
    lemma_subrange_of_prefix(e, 32, 0, 24);
    lemma_subrange_of_prefix(e, 32, 24, 32);
    assert(d.subrange(o + 24, o + 32) =~= e.subrange(24, 32));
    lemma_int_colors_part2_at(c, d, o + 24);
    assert(d.subrange(o + 0, o + 24) =~= e.subrange(0, 24));
    lemma_int_colors_part1_at(c, d, o + 0);
}

/// Reading back the bytes of a [`IntColors`] gives the same record.
pub proof fn lemma_int_colors_roundtrip(c: IntColors, rest: Seq<u8>)
    ensures
        int_colors_bytes(c).len() == INT_COLORS_LEN,
        int_colors_at(int_colors_bytes(c) + rest, 0, c),
{
    lemma_seq_split(int_colors_bytes(c), rest);
    lemma_int_colors_at(c, int_colors_bytes(c) + rest, 0);
}

impl IntColors {
    /// Whether every field holds the value that [`IntColors::default`] gives.
    pub open spec fn is_default(&self) -> bool {
        &&& self.buy_order_color_bu == 0xFF000000
        &&& self.sell_color_u == 0xFF0000FF
        &&& self.buy_order_color_wu == 0xFFD2691E
        &&& self.sell_order_color_u == 0xFF0000FF
        &&& self.buy_order_done_color_u == 0
        &&& self.sell_order_done_color_u == 0
        &&& self.trailing_color_u == 0
        &&& self.price_line_width == 1
    }
}

impl Default for IntColors {
    fn default() -> (r: Self)
        ensures
            r.is_default(),
    {
        IntColors {
            buy_order_color_bu: 0xFF000000,
            sell_color_u: 0xFF0000FF,
            buy_order_color_wu: 0xFFD2691E,
            sell_order_color_u: 0xFF0000FF,
            buy_order_done_color_u: 0,
            sell_order_done_color_u: 0,
            trailing_color_u: 0,
            price_line_width: 1,
        }
    }
}

/// Chart filter-bar visibility flags.
#[derive(Clone, Debug)]
pub struct ShowFilters {
    /// Show the filter bar at all.
    pub need_show: bool,
    /// Show strategy filters.
    pub filters: bool,
    /// Show session filters.
    pub sessions: bool,
    /// Hide zero-profit entries.
    pub hide_zero: bool,
    /// Show MoonShot area indicator.
    pub m_shot_area: bool,
    /// Show scale tool controls.
    pub scale_tool: bool,
    /// Enable scroll-through filters.
    pub scroll_filters: bool,
    /// Show detection events.
    pub show_detects: bool,
}

/// Wire size of [`ShowFilters`].
pub const SHOW_FILTERS_LEN: usize = 8;

/// Wire bytes of fields `need_show` to `scale_tool` of a [`ShowFilters`].
pub open spec fn show_filters_part1_bytes(c: ShowFilters) -> Seq<u8> {
    seq![bool_byte(c.need_show)]
        + seq![bool_byte(c.filters)]
        + seq![bool_byte(c.sessions)]
        + seq![bool_byte(c.hide_zero)]
        + seq![bool_byte(c.m_shot_area)]
        + seq![bool_byte(c.scale_tool)]
}

/// Whether fields `need_show` to `scale_tool` of `c` are stored at `p`.
pub open spec fn show_filters_part1_at(d: Seq<u8>, p: int, c: ShowFilters) -> bool {
    &&& c.need_show == flag_of(d[p])
    &&& c.filters == flag_of(d[p + 1])
    &&& c.sessions == flag_of(d[p + 2])
    &&& c.hide_zero == flag_of(d[p + 3])
    &&& c.m_shot_area == flag_of(d[p + 4])
    &&& c.scale_tool == flag_of(d[p + 5])
}

/// Wire bytes of fields `scroll_filters` to `show_detects` of a [`ShowFilters`].
pub open spec fn show_filters_part2_bytes(c: ShowFilters) -> Seq<u8> {
    seq![bool_byte(c.scroll_filters)]
        + seq![bool_byte(c.show_detects)]
}

/// Whether fields `scroll_filters` to `show_detects` of `c` are stored at `p`.
pub open spec fn show_filters_part2_at(d: Seq<u8>, p: int, c: ShowFilters) -> bool {
    &&& c.scroll_filters == flag_of(d[p])
    &&& c.show_detects == flag_of(d[p + 1])
}

/// Wire bytes of a [`ShowFilters`], field after field.
pub open spec fn show_filters_bytes(c: ShowFilters) -> Seq<u8> {
    show_filters_part1_bytes(c)
        + show_filters_part2_bytes(c)
}

/// Whether `c` is the [`ShowFilters`] stored at `p`.
pub open spec fn show_filters_at(d: Seq<u8>, p: int, c: ShowFilters) -> bool {
    &&& show_filters_part1_at(d, p, c)
    &&& show_filters_part2_at(d, p + 6, c)
}

/// Read a [`ShowFilters`].
pub fn read_show_filters(r: &mut ConfigReader) -> (res: Result<ShowFilters, SharedConfigError>)
    ensures
        final(r).bytes() == old(r).bytes(),
        old(r).at() + SHOW_FILTERS_LEN <= old(r).bytes().len() ==> (res matches Ok(c) && show_filters_at(
            old(r).bytes(),
            old(r).at(),
            c,
        ) && final(r).at() == old(r).at() + SHOW_FILTERS_LEN),
        old(r).at() + SHOW_FILTERS_LEN > old(r).bytes().len() ==> (res matches Err(e) && e@ == eof_msg()),
{
    Ok(ShowFilters {
        need_show: r.read_bool()?,
        filters: r.read_bool()?,
        sessions: r.read_bool()?,
        hide_zero: r.read_bool()?,
        m_shot_area: r.read_bool()?,
        scale_tool: r.read_bool()?,
        scroll_filters: r.read_bool()?,
        show_detects: r.read_bool()?,
    })
}

/// Write fields `need_show` to `scale_tool` of a [`ShowFilters`].
fn write_show_filters_part1(w: &mut ConfigWriter, c: &ShowFilters)
    requires
        old(w).wf(),
    ensures
        final(w).wf(),
        final(w).wrote_all(old(w), true, show_filters_part1_bytes(*c)),
{
    let ghost w0 = *w;
    let ghost wb = *w;
    w.write_bool(c.need_show);
    proof { lemma_wrote_all_of_wrote(wb, *w, seq![bool_byte(c.need_show)]); }
    let ghost wb = *w;
    w.write_bool(c.filters);
    proof {
        lemma_wrote_all_of_wrote(wb, *w, seq![bool_byte(c.filters)]);
        lemma_wrote_all_then(w0, wb, *w, true, seq![bool_byte(c.need_show)], true, seq![bool_byte(c.filters)]);
    }
    let ghost wb = *w;
    w.write_bool(c.sessions);
    proof {
        lemma_wrote_all_of_wrote(wb, *w, seq![bool_byte(c.sessions)]);
        lemma_wrote_all_then(w0, wb, *w, true, seq![bool_byte(c.need_show)] + seq![bool_byte(c.filters)], true, seq![bool_byte(c.sessions)]);
    }
    let ghost wb = *w;
    w.write_bool(c.hide_zero);
    proof {
        lemma_wrote_all_of_wrote(wb, *w, seq![bool_byte(c.hide_zero)]);
        lemma_wrote_all_then(w0, wb, *w, true, seq![bool_byte(c.need_show)] + seq![bool_byte(c.filters)] + seq![bool_byte(c.sessions)], true, seq![bool_byte(c.hide_zero)]);
    }
    let ghost wb = *w;
    w.write_bool(c.m_shot_area);
    proof {
        lemma_wrote_all_of_wrote(wb, *w, seq![bool_byte(c.m_shot_area)]);
        lemma_wrote_all_then(w0, wb, *w, true, seq![bool_byte(c.need_show)] + seq![bool_byte(c.filters)] + seq![bool_byte(c.sessions)] + seq![bool_byte(c.hide_zero)], true, seq![bool_byte(c.m_shot_area)]);
    }
    let ghost wb = *w;
    w.write_bool(c.scale_tool);
    proof {
        lemma_wrote_all_of_wrote(wb, *w, seq![bool_byte(c.scale_tool)]);
        lemma_wrote_all_then(w0, wb, *w, true, seq![bool_byte(c.need_show)] + seq![bool_byte(c.filters)] + seq![bool_byte(c.sessions)] + seq![bool_byte(c.hide_zero)] + seq![bool_byte(c.m_shot_area)], true, seq![bool_byte(c.scale_tool)]);
    }
}

/// Write fields `scroll_filters` to `show_detects` of a [`ShowFilters`].
fn write_show_filters_part2(w: &mut ConfigWriter, c: &ShowFilters)
    requires
        old(w).wf(),
    ensures
        final(w).wf(),
        final(w).wrote_all(old(w), true, show_filters_part2_bytes(*c)),
{
    let ghost w0 = *w;
    let ghost wb = *w;
    w.write_bool(c.scroll_filters);
    proof { lemma_wrote_all_of_wrote(wb, *w, seq![bool_byte(c.scroll_filters)]); }
    let ghost wb = *w;
    w.write_bool(c.show_detects);
    proof {
        lemma_wrote_all_of_wrote(wb, *w, seq![bool_byte(c.show_detects)]);
        lemma_wrote_all_then(w0, wb, *w, true, seq![bool_byte(c.scroll_filters)], true, seq![bool_byte(c.show_detects)]);
    }
}

/// Write a [`ShowFilters`].
pub fn write_show_filters(w: &mut ConfigWriter, c: &ShowFilters)
    requires
        old(w).wf(),
    ensures
        final(w).wf(),
        final(w).wrote_all(old(w), true, show_filters_bytes(*c)),
{
    let ghost w0 = *w;
    let ghost wb = *w;
    write_show_filters_part1(w, c);
    let ghost wb = *w;
    write_show_filters_part2(w, c);
    proof { lemma_wrote_all_then(w0, wb, *w, true, show_filters_part1_bytes(*c), true, show_filters_part2_bytes(*c)); }
}

/// Fields `need_show` to `scale_tool` read back from their bytes.
pub proof fn lemma_show_filters_part1_at(c: ShowFilters, d: Seq<u8>, o: int)
    requires
        0 <= o,
        o + 6 <= d.len(),
        d.subrange(o, o + 6) == show_filters_part1_bytes(c),
    ensures
        show_filters_part1_bytes(c).len() == 6,
        show_filters_part1_at(d, o, c),
{
    let b0 = seq![bool_byte(c.need_show)];
    let b1 = b0 + seq![bool_byte(c.filters)];
    let b2 = b1 + seq![bool_byte(c.sessions)];
    let b3 = b2 + seq![bool_byte(c.hide_zero)];
    let b4 = b3 + seq![bool_byte(c.m_shot_area)];
    let b5 = b4 + seq![bool_byte(c.scale_tool)];
    let e = d.subrange(o, o + 6);
    assert(e == b5);
    lemma_seq_split(b4, seq![bool_byte(c.scale_tool)]);
    lemma_subrange_of_prefix(e, 6, 0, 5);
    lemma_subrange_of_prefix(e, 6, 5, 6);
    lemma_seq_split(b3, seq![bool_byte(c.m_shot_area)]);
    lemma_subrange_of_prefix(e, 5, 0, 4);
    lemma_subrange_of_prefix(e, 5, 4, 5);
    lemma_seq_split(b2, seq![bool_byte(c.hide_zero)]);
    lemma_subrange_of_prefix(e, 4, 0, 3);
    lemma_subrange_of_prefix(e, 4, 3, 4);
    lemma_seq_split(b1, seq![bool_byte(c.sessions)]);
    lemma_subrange_of_prefix(e, 3, 0, 2);
    lemma_subrange_of_prefix(e, 3, 2, 3);
    lemma_seq_split(b0, seq![bool_byte(c.filters)]);
    lemma_subrange_of_prefix(e, 2, 0, 1);
    lemma_subrange_of_prefix(e, 2, 1, 2);
    assert(e.subrange(0, 1) == seq![bool_byte(c.need_show)]);
    assert(d[o + 0] == e.subrange(0, 1)[0]);
    lemma_bool_byte(c.need_show);
    assert(e.subrange(1, 2) == seq![bool_byte(c.filters)]);
    assert(d[o + 1] == e.subrange(1, 2)[0]);
    lemma_bool_byte(c.filters);
    assert(e.subrange(2, 3) == seq![bool_byte(c.sessions)]);
    assert(d[o + 2] == e.subrange(2, 3)[0]);
    lemma_bool_byte(c.sessions);
    assert(e.subrange(3, 4) == seq![bool_byte(c.hide_zero)]);
    assert(d[o + 3] == e.subrange(3, 4)[0]);
    lemma_bool_byte(c.hide_zero);
    assert(e.subrange(4, 5) == seq![bool_byte(c.m_shot_area)]);
    assert(d[o + 4] == e.subrange(4, 5)[0]);
    lemma_bool_byte(c.m_shot_area);
    assert(e.subrange(5, 6) == seq![bool_byte(c.scale_tool)]);
    assert(d[o + 5] == e.subrange(5, 6)[0]);
    lemma_bool_byte(c.scale_tool);
}

/// Fields `scroll_filters` to `show_detects` read back from their bytes.
pub proof fn lemma_show_filters_part2_at(c: ShowFilters, d: Seq<u8>, o: int)
    requires
        0 <= o,
        o + 2 <= d.len(),
        d.subrange(o, o + 2) == show_filters_part2_bytes(c),
    ensures
        show_filters_part2_bytes(c).len() == 2,
        show_filters_part2_at(d, o, c),
{
    let b0 = seq![bool_byte(c.scroll_filters)];
    let b1 = b0 + seq![bool_byte(c.show_detects)];
    let e = d.subrange(o, o + 2);
    assert(e == b1);
    lemma_seq_split(b0, seq![bool_byte(c.show_detects)]);
    lemma_subrange_of_prefix(e, 2, 0, 1);
    lemma_subrange_of_prefix(e, 2, 1, 2);
    assert(e.subrange(0, 1) == seq![bool_byte(c.scroll_filters)]);
    assert(d[o + 0] == e.subrange(0, 1)[0]);
    lemma_bool_byte(c.scroll_filters);
    assert(e.subrange(1, 2) == seq![bool_byte(c.show_detects)]);
    assert(d[o + 1] == e.subrange(1, 2)[0]);
    lemma_bool_byte(c.show_detects);
}

/// The fields of a [`ShowFilters`] read back from its bytes.
pub proof fn lemma_show_filters_at(c: ShowFilters, d: Seq<u8>, o: int)
    requires
        0 <= o,
        o + 8 <= d.len(),
        d.subrange(o, o + 8) == show_filters_bytes(c),
    ensures
        show_filters_bytes(c).len() == 8,
        show_filters_at(d, o, c),
{
    let g0 = show_filters_part1_bytes(c);
    let g1 = g0 + show_filters_part2_bytes(c);
    let e = d.subrange(o, o + 8);
    assert(e == g1);
    lemma_seq_split(g0, show_filters_part2_bytes(c));
    lemma_subrange_of_prefix(e, 8, 0, 6);
    lemma_subrange_of_prefix(e, 8, 6, 8);
    assert(d.subrange(o + 6, o + 8) =~= e.subrange(6, 8));
    lemma_show_filters_part2_at(c, d, o + 6);
    assert(d.subrange(o + 0, o + 6) =~= e.subrange(0, 6));
    lemma_show_filters_part1_at(c, d, o + 0);
}

/// Reading back the bytes of a [`ShowFilters`] gives the same record.
pub proof fn lemma_show_filters_roundtrip(c: ShowFilters, rest: Seq<u8>)
    ensures
        show_filters_bytes(c).len() == SHOW_FILTERS_LEN,
        show_filters_at(show_filters_bytes(c) + rest, 0, c),
{
    lemma_seq_split(show_filters_bytes(c), rest);
    lemma_show_filters_at(c, show_filters_bytes(c) + rest, 0);
}

impl ShowFilters {
    /// Whether every field holds the value that [`ShowFilters::default`] gives.
    pub open spec fn is_default(&self) -> bool {
        &&& self.need_show == true
        &&& self.filters == true
        &&& self.sessions == true
        &&& self.hide_zero == true
        &&& self.m_shot_area == true
        &&& self.scale_tool == true
        &&& self.scroll_filters == false
        &&& self.show_detects == true
    }
}

impl Default for ShowFilters {
    fn default() -> (r: Self)
        ensures
            r.is_default(),
    {
        ShowFilters {
            need_show: true,
            filters: true,
            sessions: true,
            hide_zero: true,
            m_shot_area: true,
            scale_tool: true,
            scroll_filters: false,
            show_detects: true,
        }
    }
}

/// News feed form display settings.
#[derive(Clone, Debug)]
pub struct NewsFormConfig {
    /// Keep the news window on top of other windows.
    pub stay_on_top: bool,
    /// Show exact timestamps (vs. relative "2m ago").
    pub exact_time: bool,
    /// News feed font size.
    pub font_size: u8,
    /// Minimum news strength filter.
    pub strength: u8,
    /// Show news translated into the current UI language instead of the
    /// original text (news form "Translate" checkbox).
    pub update_orig: bool,
    /// Enable sound for news alerts.
    pub sound: u8,
    /// News window theme (0=auto, 1=light, 2=dark).
    pub theme: i32,
    /// CoinCard font size.
    pub coin_card_font_size: i32,
    /// Show full tag list (vs. abbreviated).
    pub full_tags: bool,
    /// Use feed mode (continuous scroll) vs. card mode.
    pub feed_mode: bool,
}

/// Wire size of [`NewsFormConfig`].
pub const NEWS_FORM_CONFIG_LEN: usize = 16;

/// Wire bytes of fields `stay_on_top` to `sound` of a [`NewsFormConfig`].
pub open spec fn news_form_config_part1_bytes(c: NewsFormConfig) -> Seq<u8> {
    seq![bool_byte(c.stay_on_top)]
        + seq![bool_byte(c.exact_time)]
        + seq![c.font_size]
        + seq![c.strength]
        + seq![bool_byte(c.update_orig)]
        + seq![c.sound]
}

/// Whether fields `stay_on_top` to `sound` of `c` are stored at `p`.
pub open spec fn news_form_config_part1_at(d: Seq<u8>, p: int, c: NewsFormConfig) -> bool {
    &&& c.stay_on_top == flag_of(d[p])
    &&& c.exact_time == flag_of(d[p + 1])
    &&& c.font_size == d[p + 2]
    &&& c.strength == d[p + 3]
    &&& c.update_orig == flag_of(d[p + 4])
    &&& c.sound == d[p + 5]
}

/// Wire bytes of fields `theme` to `feed_mode` of a [`NewsFormConfig`].
pub open spec fn news_form_config_part2_bytes(c: NewsFormConfig) -> Seq<u8> {
    le_u32(c.theme as u32)
        + le_u32(c.coin_card_font_size as u32)
        + seq![bool_byte(c.full_tags)]
        + seq![bool_byte(c.feed_mode)]
}

/// Whether fields `theme` to `feed_mode` of `c` are stored at `p`.
pub open spec fn news_form_config_part2_at(d: Seq<u8>, p: int, c: NewsFormConfig) -> bool {
    &&& c.theme == i32_at(d, p)
    &&& c.coin_card_font_size == i32_at(d, p + 4)
    &&& c.full_tags == flag_of(d[p + 8])
    &&& c.feed_mode == flag_of(d[p + 9])
}

/// Wire bytes of a [`NewsFormConfig`], field after field.
pub open spec fn news_form_config_bytes(c: NewsFormConfig) -> Seq<u8> {
    news_form_config_part1_bytes(c)
        + news_form_config_part2_bytes(c)
}

/// Whether `c` is the [`NewsFormConfig`] stored at `p`.
pub open spec fn news_form_config_at(d: Seq<u8>, p: int, c: NewsFormConfig) -> bool {
    &&& news_form_config_part1_at(d, p, c)
    &&& news_form_config_part2_at(d, p + 6, c)
}

/// Read a [`NewsFormConfig`].
pub fn read_news_form_config(r: &mut ConfigReader) -> (res: Result<NewsFormConfig, SharedConfigError>)
    ensures
        final(r).bytes() == old(r).bytes(),
        old(r).at() + NEWS_FORM_CONFIG_LEN <= old(r).bytes().len() ==> (res matches Ok(c) && news_form_config_at(
            old(r).bytes(),
            old(r).at(),
            c,
        ) && final(r).at() == old(r).at() + NEWS_FORM_CONFIG_LEN),
        old(r).at() + NEWS_FORM_CONFIG_LEN > old(r).bytes().len() ==> (res matches Err(e) && e@ == eof_msg()),
{
    Ok(NewsFormConfig {
        stay_on_top: r.read_bool()?,
        exact_time: r.read_bool()?,
        font_size: r.read_u8()?,
        strength: r.read_u8()?,
        update_orig: r.read_bool()?,
        sound: r.read_u8()?,
        theme: r.read_i32()?,
        coin_card_font_size: r.read_i32()?,
        full_tags: r.read_bool()?,
        feed_mode: r.read_bool()?,
    })
}

/// Write fields `stay_on_top` to `sound` of a [`NewsFormConfig`].
fn write_news_form_config_part1(w: &mut ConfigWriter, c: &NewsFormConfig)
    requires
        old(w).wf(),
    ensures
        final(w).wf(),
        final(w).wrote_all(old(w), true, news_form_config_part1_bytes(*c)),
{
    let ghost w0 = *w;
    let ghost wb = *w;
    w.write_bool(c.stay_on_top);
    proof { lemma_wrote_all_of_wrote(wb, *w, seq![bool_byte(c.stay_on_top)]); }
    let ghost wb = *w;
    w.write_bool(c.exact_time);
    proof {
        lemma_wrote_all_of_wrote(wb, *w, seq![bool_byte(c.exact_time)]);
        lemma_wrote_all_then(w0, wb, *w, true, seq![bool_byte(c.stay_on_top)], true, seq![bool_byte(c.exact_time)]);
    }
    let ghost wb = *w;
    w.write_u8(c.font_size);
    proof {
        lemma_wrote_all_of_wrote(wb, *w, seq![c.font_size]);
        lemma_wrote_all_then(w0, wb, *w, true, seq![bool_byte(c.stay_on_top)] + seq![bool_byte(c.exact_time)], true, seq![c.font_size]);
    }
    let ghost wb = *w;
    w.write_u8(c.strength);
    proof {
        lemma_wrote_all_of_wrote(wb, *w, seq![c.strength]);
        lemma_wrote_all_then(w0, wb, *w, true, seq![bool_byte(c.stay_on_top)] + seq![bool_byte(c.exact_time)] + seq![c.font_size], true, seq![c.strength]);
    }
    let ghost wb = *w;
    w.write_bool(c.update_orig);
    proof {
        lemma_wrote_all_of_wrote(wb, *w, seq![bool_byte(c.update_orig)]);
        lemma_wrote_all_then(w0, wb, *w, true, seq![bool_byte(c.stay_on_top)] + seq![bool_byte(c.exact_time)] + seq![c.font_size] + seq![c.strength], true, seq![bool_byte(c.update_orig)]);
    }
    let ghost wb = *w;
    w.write_u8(c.sound);
    proof {
        lemma_wrote_all_of_wrote(wb, *w, seq![c.sound]);
        lemma_wrote_all_then(w0, wb, *w, true, seq![bool_byte(c.stay_on_top)] + seq![bool_byte(c.exact_time)] + seq![c.font_size] + seq![c.strength] + seq![bool_byte(c.update_orig)], true, seq![c.sound]);
    }
}

/// Write fields `theme` to `feed_mode` of a [`NewsFormConfig`].
fn write_news_form_config_part2(w: &mut ConfigWriter, c: &NewsFormConfig)
    requires
        old(w).wf(),
    ensures
        final(w).wf(),
        final(w).wrote_all(old(w), true, news_form_config_part2_bytes(*c)),
{
    let ghost w0 = *w;
    let ghost wb = *w;
    w.write_i32(c.theme);
    proof { lemma_wrote_all_of_wrote(wb, *w, le_u32(c.theme as u32)); }
    let ghost wb = *w;
    w.write_i32(c.coin_card_font_size);
    proof {
        lemma_wrote_all_of_wrote(wb, *w, le_u32(c.coin_card_font_size as u32));
        lemma_wrote_all_then(w0, wb, *w, true, le_u32(c.theme as u32), true, le_u32(c.coin_card_font_size as u32));
    }
    let ghost wb = *w;
    w.write_bool(c.full_tags);
    proof {
        lemma_wrote_all_of_wrote(wb, *w, seq![bool_byte(c.full_tags)]);
        lemma_wrote_all_then(w0, wb, *w, true, le_u32(c.theme as u32) + le_u32(c.coin_card_font_size as u32), true, seq![bool_byte(c.full_tags)]);
    }
    let ghost wb = *w;
    w.write_bool(c.feed_mode);
    proof {
        lemma_wrote_all_of_wrote(wb, *w, seq![bool_byte(c.feed_mode)]);
        lemma_wrote_all_then(w0, wb, *w, true, le_u32(c.theme as u32) + le_u32(c.coin_card_font_size as u32) + seq![bool_byte(c.full_tags)], true, seq![bool_byte(c.feed_mode)]);
    }
}

/// Write a [`NewsFormConfig`].
pub fn write_news_form_config(w: &mut ConfigWriter, c: &NewsFormConfig)
    requires
        old(w).wf(),
    ensures
        final(w).wf(),
        final(w).wrote_all(old(w), true, news_form_config_bytes(*c)),
{
    let ghost w0 = *w;
    let ghost wb = *w;
    write_news_form_config_part1(w, c);
    let ghost wb = *w;
    write_news_form_config_part2(w, c);
    proof { lemma_wrote_all_then(w0, wb, *w, true, news_form_config_part1_bytes(*c), true, news_form_config_part2_bytes(*c)); }
}

/// Fields `stay_on_top` to `sound` read back from their bytes.
pub proof fn lemma_news_form_config_part1_at(c: NewsFormConfig, d: Seq<u8>, o: int)
    requires
        0 <= o,
        o + 6 <= d.len(),
        d.subrange(o, o + 6) == news_form_config_part1_bytes(c),
    ensures
        news_form_config_part1_bytes(c).len() == 6,
        news_form_config_part1_at(d, o, c),
{
    let b0 = seq![bool_byte(c.stay_on_top)];
    let b1 = b0 + seq![bool_byte(c.exact_time)];
    let b2 = b1 + seq![c.font_size];
    let b3 = b2 + seq![c.strength];
    let b4 = b3 + seq![bool_byte(c.update_orig)];
    let b5 = b4 + seq![c.sound];
    let e = d.subrange(o, o + 6);
    assert(e == b5);
    lemma_seq_split(b4, seq![c.sound]);
    lemma_subrange_of_prefix(e, 6, 0, 5);
    lemma_subrange_of_prefix(e, 6, 5, 6);
    lemma_seq_split(b3, seq![bool_byte(c.update_orig)]);
    lemma_subrange_of_prefix(e, 5, 0, 4);
    lemma_subrange_of_prefix(e, 5, 4, 5);
    lemma_seq_split(b2, seq![c.strength]);
    lemma_subrange_of_prefix(e, 4, 0, 3);
    lemma_subrange_of_prefix(e, 4, 3, 4);
    lemma_seq_split(b1, seq![c.font_size]);
    lemma_subrange_of_prefix(e, 3, 0, 2);
    lemma_subrange_of_prefix(e, 3, 2, 3);
    lemma_seq_split(b0, seq![bool_byte(c.exact_time)]);
    lemma_subrange_of_prefix(e, 2, 0, 1);
    lemma_subrange_of_prefix(e, 2, 1, 2);
    assert(e.subrange(0, 1) == seq![bool_byte(c.stay_on_top)]);
    assert(d[o + 0] == e.subrange(0, 1)[0]);
    lemma_bool_byte(c.stay_on_top);
    assert(e.subrange(1, 2) == seq![bool_byte(c.exact_time)]);
    assert(d[o + 1] == e.subrange(1, 2)[0]);
    lemma_bool_byte(c.exact_time);
    assert(e.subrange(2, 3) == seq![c.font_size]);
    assert(d[o + 2] == e.subrange(2, 3)[0]);
    assert(e.subrange(3, 4) == seq![c.strength]);
    assert(d[o + 3] == e.subrange(3, 4)[0]);
    assert(e.subrange(4, 5) == seq![bool_byte(c.update_orig)]);
    assert(d[o + 4] == e.subrange(4, 5)[0]);
    lemma_bool_byte(c.update_orig);
    assert(e.subrange(5, 6) == seq![c.sound]);
    assert(d[o + 5] == e.subrange(5, 6)[0]);
}

/// Fields `theme` to `feed_mode` read back from their bytes.
pub proof fn lemma_news_form_config_part2_at(c: NewsFormConfig, d: Seq<u8>, o: int)
    requires
        0 <= o,
        o + 10 <= d.len(),
        d.subrange(o, o + 10) == news_form_config_part2_bytes(c),
    ensures
        news_form_config_part2_bytes(c).len() == 10,
        news_form_config_part2_at(d, o, c),
{
    let b0 = le_u32(c.theme as u32);
    let b1 = b0 + le_u32(c.coin_card_font_size as u32);
    let b2 = b1 + seq![bool_byte(c.full_tags)];
    let b3 = b2 + seq![bool_byte(c.feed_mode)];
    let e = d.subrange(o, o + 10);
    assert(e == b3);
    lemma_seq_split(b2, seq![bool_byte(c.feed_mode)]);
    lemma_subrange_of_prefix(e, 10, 0, 9);
    lemma_subrange_of_prefix(e, 10, 9, 10);
    lemma_seq_split(b1, seq![bool_byte(c.full_tags)]);
    lemma_subrange_of_prefix(e, 9, 0, 8);
    lemma_subrange_of_prefix(e, 9, 8, 9);
    lemma_seq_split(b0, le_u32(c.coin_card_font_size as u32));
    lemma_subrange_of_prefix(e, 8, 0, 4);
    lemma_subrange_of_prefix(e, 8, 4, 8);
    assert(e.subrange(0, 4) == le_u32(c.theme as u32));
    lemma_le_i32_roundtrip(c.theme);
    assert(d[o + 0] == e.subrange(0, 4)[0] && d[o + 1] == e.subrange(0, 4)[1] && d[o + 2] == e.subrange(0, 4)[2] && d[o + 3] == e.subrange(0, 4)[3]);
    assert(e.subrange(4, 8) == le_u32(c.coin_card_font_size as u32));
    lemma_le_i32_roundtrip(c.coin_card_font_size);
    assert(d[o + 4] == e.subrange(4, 8)[0] && d[o + 5] == e.subrange(4, 8)[1] && d[o + 6] == e.subrange(4, 8)[2] && d[o + 7] == e.subrange(4, 8)[3]);
    assert(e.subrange(8, 9) == seq![bool_byte(c.full_tags)]);
    assert(d[o + 8] == e.subrange(8, 9)[0]);
    lemma_bool_byte(c.full_tags);
    assert(e.subrange(9, 10) == seq![bool_byte(c.feed_mode)]);
    assert(d[o + 9] == e.subrange(9, 10)[0]);
    lemma_bool_byte(c.feed_mode);
}

/// The fields of a [`NewsFormConfig`] read back from its bytes.
pub proof fn lemma_news_form_config_at(c: NewsFormConfig, d: Seq<u8>, o: int)
    requires
        0 <= o,
        o + 16 <= d.len(),
        d.subrange(o, o + 16) == news_form_config_bytes(c),
    ensures
        news_form_config_bytes(c).len() == 16,
        news_form_config_at(d, o, c),
{
    let g0 = news_form_config_part1_bytes(c);
    let g1 = g0 + news_form_config_part2_bytes(c);
    let e = d.subrange(o, o + 16);
    assert(e == g1);
    lemma_seq_split(g0, news_form_config_part2_bytes(c));
    lemma_subrange_of_prefix(e, 16, 0, 6);
    lemma_subrange_of_prefix(e, 16, 6, 16);
    assert(d.subrange(o + 6, o + 16) =~= e.subrange(6, 16));
    lemma_news_form_config_part2_at(c, d, o + 6);
    assert(d.subrange(o + 0, o + 6) =~= e.subrange(0, 6));
    lemma_news_form_config_part1_at(c, d, o + 0);
}

/// Reading back the bytes of a [`NewsFormConfig`] gives the same record.
pub proof fn lemma_news_form_config_roundtrip(c: NewsFormConfig, rest: Seq<u8>)
    ensures
        news_form_config_bytes(c).len() == NEWS_FORM_CONFIG_LEN,
        news_form_config_at(news_form_config_bytes(c) + rest, 0, c),
{
    lemma_seq_split(news_form_config_bytes(c), rest);
    lemma_news_form_config_at(c, news_form_config_bytes(c) + rest, 0);
}

impl NewsFormConfig {
    /// Whether every field holds the value that [`NewsFormConfig::default`] gives.
    pub open spec fn is_default(&self) -> bool {
        &&& self.stay_on_top == true
        &&& self.exact_time == false
        &&& self.font_size == 0
        &&& self.strength == 0
        &&& self.update_orig == false
        &&& self.sound == 0
        &&& self.theme == 0
        &&& self.coin_card_font_size == 0
        &&& self.full_tags == true
        &&& self.feed_mode == false
    }
}

impl Default for NewsFormConfig {
    fn default() -> (r: Self)
        ensures
            r.is_default(),
    {
        NewsFormConfig {
            stay_on_top: true,
            exact_time: false,
            font_size: 0,
            strength: 0,
            update_orig: false,
            sound: 0,
            theme: 0,
            coin_card_font_size: 0,
            full_tags: true,
            feed_mode: false,
        }
    }
}

/// Arbitrage panel display settings.
#[derive(Clone, Debug)]
pub struct ArbViewConfig {
    /// Internal version byte.
    pub ver: u8,
    /// Show absolute spread values.
    pub show_absolute: bool,
    /// Show spread numbers on the arb chart.
    pub show_numbers: bool,
    /// Draw spread lines on the arb chart.
    pub show_lines: bool,
    /// Show spread as percentage.
    pub show_percent: bool,
    /// Place the arb panel on the right side.
    pub show_right: bool,
}

/// Wire size of [`ArbViewConfig`].
pub const ARB_VIEW_CONFIG_LEN: usize = 6;

/// Wire bytes of a [`ArbViewConfig`], field after field.
pub open spec fn arb_view_config_bytes(c: ArbViewConfig) -> Seq<u8> {
    seq![c.ver]
        + seq![bool_byte(c.show_absolute)]
        + seq![bool_byte(c.show_numbers)]
        + seq![bool_byte(c.show_lines)]
        + seq![bool_byte(c.show_percent)]
        + seq![bool_byte(c.show_right)]
}

/// Whether `c` is the [`ArbViewConfig`] stored at `p`.
pub open spec fn arb_view_config_at(d: Seq<u8>, p: int, c: ArbViewConfig) -> bool {
    &&& c.ver == d[p]
    &&& c.show_absolute == flag_of(d[p + 1])
    &&& c.show_numbers == flag_of(d[p + 2])
    &&& c.show_lines == flag_of(d[p + 3])
    &&& c.show_percent == flag_of(d[p + 4])
    &&& c.show_right == flag_of(d[p + 5])
}

/// Read a [`ArbViewConfig`].
pub fn read_arb_view_config(r: &mut ConfigReader) -> (res: Result<ArbViewConfig, SharedConfigError>)
    ensures
        final(r).bytes() == old(r).bytes(),
        old(r).at() + ARB_VIEW_CONFIG_LEN <= old(r).bytes().len() ==> (res matches Ok(c) && arb_view_config_at(
            old(r).bytes(),
            old(r).at(),
            c,
        ) && final(r).at() == old(r).at() + ARB_VIEW_CONFIG_LEN),
        old(r).at() + ARB_VIEW_CONFIG_LEN > old(r).bytes().len() ==> (res matches Err(e) && e@ == eof_msg()),
{
    Ok(ArbViewConfig {
        ver: r.read_u8()?,
        show_absolute: r.read_bool()?,
        show_numbers: r.read_bool()?,
        show_lines: r.read_bool()?,
        show_percent: r.read_bool()?,
        show_right: r.read_bool()?,
    })
}

/// Write a [`ArbViewConfig`].
pub fn write_arb_view_config(w: &mut ConfigWriter, c: &ArbViewConfig)
    requires
        old(w).wf(),
    ensures
        final(w).wf(),
        final(w).wrote_all(old(w), true, arb_view_config_bytes(*c)),
{
    let ghost w0 = *w;
    let ghost wb = *w;
    w.write_u8(c.ver);
    proof { lemma_wrote_all_of_wrote(wb, *w, seq![c.ver]); }
    let ghost wb = *w;
    w.write_bool(c.show_absolute);
    proof {
        lemma_wrote_all_of_wrote(wb, *w, seq![bool_byte(c.show_absolute)]);
        lemma_wrote_all_then(w0, wb, *w, true, seq![c.ver], true, seq![bool_byte(c.show_absolute)]);
    }
    let ghost wb = *w;
    w.write_bool(c.show_numbers);
    proof {
        lemma_wrote_all_of_wrote(wb, *w, seq![bool_byte(c.show_numbers)]);
        lemma_wrote_all_then(w0, wb, *w, true, seq![c.ver] + seq![bool_byte(c.show_absolute)], true, seq![bool_byte(c.show_numbers)]);
    }
    let ghost wb = *w;
    w.write_bool(c.show_lines);
    proof {
        lemma_wrote_all_of_wrote(wb, *w, seq![bool_byte(c.show_lines)]);
        lemma_wrote_all_then(w0, wb, *w, true, seq![c.ver] + seq![bool_byte(c.show_absolute)] + seq![bool_byte(c.show_numbers)], true, seq![bool_byte(c.show_lines)]);
    }
    let ghost wb = *w;
    w.write_bool(c.show_percent);
    proof {
        lemma_wrote_all_of_wrote(wb, *w, seq![bool_byte(c.show_percent)]);
        lemma_wrote_all_then(w0, wb, *w, true, seq![c.ver] + seq![bool_byte(c.show_absolute)] + seq![bool_byte(c.show_numbers)] + seq![bool_byte(c.show_lines)], true, seq![bool_byte(c.show_percent)]);
    }
    let ghost wb = *w;
    w.write_bool(c.show_right);
    proof {
        lemma_wrote_all_of_wrote(wb, *w, seq![bool_byte(c.show_right)]);
        lemma_wrote_all_then(w0, wb, *w, true, seq![c.ver] + seq![bool_byte(c.show_absolute)] + seq![bool_byte(c.show_numbers)] + seq![bool_byte(c.show_lines)] + seq![bool_byte(c.show_percent)], true, seq![bool_byte(c.show_right)]);
    }
}

/// The fields of a [`ArbViewConfig`] read back from its bytes.
pub proof fn lemma_arb_view_config_at(c: ArbViewConfig, d: Seq<u8>, o: int)
    requires
        0 <= o,
        o + 6 <= d.len(),
        d.subrange(o, o + 6) == arb_view_config_bytes(c),
    ensures
        arb_view_config_bytes(c).len() == 6,
        arb_view_config_at(d, o, c),
{
    let b0 = seq![c.ver];
    let b1 = b0 + seq![bool_byte(c.show_absolute)];
    let b2 = b1 + seq![bool_byte(c.show_numbers)];
    let b3 = b2 + seq![bool_byte(c.show_lines)];
    let b4 = b3 + seq![bool_byte(c.show_percent)];
    let b5 = b4 + seq![bool_byte(c.show_right)];
    let e = d.subrange(o, o + 6);
    assert(e == b5);
    lemma_seq_split(b4, seq![bool_byte(c.show_right)]);
    lemma_subrange_of_prefix(e, 6, 0, 5);
    lemma_subrange_of_prefix(e, 6, 5, 6);
    lemma_seq_split(b3, seq![bool_byte(c.show_percent)]);
    lemma_subrange_of_prefix(e, 5, 0, 4);
    lemma_subrange_of_prefix(e, 5, 4, 5);
    lemma_seq_split(b2, seq![bool_byte(c.show_lines)]);
    lemma_subrange_of_prefix(e, 4, 0, 3);
    lemma_subrange_of_prefix(e, 4, 3, 4);
    lemma_seq_split(b1, seq![bool_byte(c.show_numbers)]);
    lemma_subrange_of_prefix(e, 3, 0, 2);
    lemma_subrange_of_prefix(e, 3, 2, 3);
    lemma_seq_split(b0, seq![bool_byte(c.show_absolute)]);
    lemma_subrange_of_prefix(e, 2, 0, 1);
    lemma_subrange_of_prefix(e, 2, 1, 2);
    assert(e.subrange(0, 1) == seq![c.ver]);
    assert(d[o + 0] == e.subrange(0, 1)[0]);
    assert(e.subrange(1, 2) == seq![bool_byte(c.show_absolute)]);
    assert(d[o + 1] == e.subrange(1, 2)[0]);
    lemma_bool_byte(c.show_absolute);
    assert(e.subrange(2, 3) == seq![bool_byte(c.show_numbers)]);
    assert(d[o + 2] == e.subrange(2, 3)[0]);
    lemma_bool_byte(c.show_numbers);
    assert(e.subrange(3, 4) == seq![bool_byte(c.show_lines)]);
    assert(d[o + 3] == e.subrange(3, 4)[0]);
    lemma_bool_byte(c.show_lines);
    assert(e.subrange(4, 5) == seq![bool_byte(c.show_percent)]);
    assert(d[o + 4] == e.subrange(4, 5)[0]);
    lemma_bool_byte(c.show_percent);
    assert(e.subrange(5, 6) == seq![bool_byte(c.show_right)]);
    assert(d[o + 5] == e.subrange(5, 6)[0]);
    lemma_bool_byte(c.show_right);
}

/// Reading back the bytes of a [`ArbViewConfig`] gives the same record.
pub proof fn lemma_arb_view_config_roundtrip(c: ArbViewConfig, rest: Seq<u8>)
    ensures
        arb_view_config_bytes(c).len() == ARB_VIEW_CONFIG_LEN,
        arb_view_config_at(arb_view_config_bytes(c) + rest, 0, c),
{
    lemma_seq_split(arb_view_config_bytes(c), rest);
    lemma_arb_view_config_at(c, arb_view_config_bytes(c) + rest, 0);
}

impl ArbViewConfig {
    /// Whether every field holds the value that [`ArbViewConfig::default`] gives.
    pub open spec fn is_default(&self) -> bool {
        &&& self.ver == 1
        &&& self.show_absolute == false
        &&& self.show_numbers == false
        &&& self.show_lines == true
        &&& self.show_percent == true
        &&& self.show_right == false
    }
}

impl Default for ArbViewConfig {
    fn default() -> (r: Self)
        ensures
            r.is_default(),
    {
        ArbViewConfig {
            ver: 1,
            show_absolute: false,
            show_numbers: false,
            show_lines: true,
            show_percent: true,
            show_right: false,
        }
    }
}

/// Markets table column layout.
#[derive(Clone, Debug)]
pub struct MarketsTableConfig {
    /// Active sort column index (-1 = no sort).
    pub sort_col: i32,
    /// Column visibility flags (41 columns).
    pub col_vis: [bool; 41],
    /// Column position indices (41 columns).
    pub col_pos: [u8; 41],
}

/// Wire size of [`MarketsTableConfig`].
pub const MARKETS_TABLE_CONFIG_LEN: usize = 86;

/// Wire bytes of a [`MarketsTableConfig`], field after field.
pub open spec fn markets_table_config_bytes(c: MarketsTableConfig) -> Seq<u8> {
    le_u32(c.sort_col as u32)
        + bools_bytes(c.col_vis@)
        + c.col_pos@
}

/// Whether `c` is the [`MarketsTableConfig`] stored at `p`.
pub open spec fn markets_table_config_at(d: Seq<u8>, p: int, c: MarketsTableConfig) -> bool {
    &&& c.sort_col == i32_at(d, p)
    &&& c.col_vis@ == bools_at(d, p + 4, 41)
    &&& c.col_pos@ == d.subrange(p + 45, p + 45 + 41)
}

/// Read a [`MarketsTableConfig`].
pub fn read_markets_table_config(r: &mut ConfigReader) -> (res: Result<MarketsTableConfig, SharedConfigError>)
    ensures
        final(r).bytes() == old(r).bytes(),
        old(r).at() + MARKETS_TABLE_CONFIG_LEN <= old(r).bytes().len() ==> (res matches Ok(c) && markets_table_config_at(
            old(r).bytes(),
            old(r).at(),
            c,
        ) && final(r).at() == old(r).at() + MARKETS_TABLE_CONFIG_LEN),
        old(r).at() + MARKETS_TABLE_CONFIG_LEN > old(r).bytes().len() ==> (res matches Err(e) && e@ == eof_msg()),
{
    Ok(MarketsTableConfig {
        sort_col: r.read_i32()?,
        col_vis: r.read_bool_array::<41>()?,
        col_pos: r.read_u8_array::<41>()?,
    })
}

/// Write a [`MarketsTableConfig`].
pub fn write_markets_table_config(w: &mut ConfigWriter, c: &MarketsTableConfig)
    requires
        old(w).wf(),
    ensures
        final(w).wf(),
        final(w).wrote_all(old(w), true, markets_table_config_bytes(*c)),
{
    let ghost w0 = *w;
    let ghost wb = *w;
    w.write_i32(c.sort_col);
    proof { lemma_wrote_all_of_wrote(wb, *w, le_u32(c.sort_col as u32)); }
    let ghost wb = *w;
    w.write_bool_array(c.col_vis.as_slice());
    proof {
        lemma_wrote_all_then(w0, wb, *w, true, le_u32(c.sort_col as u32), true, bools_bytes(c.col_vis@));
    }
    let ghost wb = *w;
    w.write_u8_array(c.col_pos.as_slice());
    proof {
        lemma_wrote_all_of_wrote(wb, *w, c.col_pos@);
        lemma_wrote_all_then(w0, wb, *w, true, le_u32(c.sort_col as u32) + bools_bytes(c.col_vis@), true, c.col_pos@);
    }
}

/// The fields of a [`MarketsTableConfig`] read back from its bytes.
pub proof fn lemma_markets_table_config_at(c: MarketsTableConfig, d: Seq<u8>, o: int)
    requires
        0 <= o,
        o + 86 <= d.len(),
        d.subrange(o, o + 86) == markets_table_config_bytes(c),
    ensures
        markets_table_config_bytes(c).len() == 86,
        markets_table_config_at(d, o, c),
{
    let b0 = le_u32(c.sort_col as u32);
    let b1 = b0 + bools_bytes(c.col_vis@);
    let b2 = b1 + c.col_pos@;
    let e = d.subrange(o, o + 86);
    assert(e == b2);
    lemma_seq_split(b1, c.col_pos@);
    lemma_subrange_of_prefix(e, 86, 0, 45);
    lemma_subrange_of_prefix(e, 86, 45, 86);
    lemma_seq_split(b0, bools_bytes(c.col_vis@));
    lemma_subrange_of_prefix(e, 45, 0, 4);
    lemma_subrange_of_prefix(e, 45, 4, 45);
    assert(e.subrange(0, 4) == le_u32(c.sort_col as u32));
    lemma_le_i32_roundtrip(c.sort_col);
    assert(d[o + 0] == e.subrange(0, 4)[0] && d[o + 1] == e.subrange(0, 4)[1] && d[o + 2] == e.subrange(0, 4)[2] && d[o + 3] == e.subrange(0, 4)[3]);
    assert(e.subrange(4, 45) == bools_bytes(c.col_vis@));
    assert(d.subrange(o + 4, o + 45) =~= e.subrange(4, 45));
    assert(bools_at(d, o + 4, 41) =~= c.col_vis@) by {
        assert forall|j: int| 0 <= j < 41 implies flag_of(d[o + 4 + j]) == c.col_vis@[j] by {
            assert(d[o + 4 + j] == d.subrange(o + 4, o + 45)[j]);
            lemma_bool_byte(c.col_vis@[j]);
        }
    }
    assert(e.subrange(45, 86) == c.col_pos@);
    assert(d.subrange(o + 45, o + 86) =~= e.subrange(45, 86));
}

/// Reading back the bytes of a [`MarketsTableConfig`] gives the same record.
pub proof fn lemma_markets_table_config_roundtrip(c: MarketsTableConfig, rest: Seq<u8>)
    ensures
        markets_table_config_bytes(c).len() == MARKETS_TABLE_CONFIG_LEN,
        markets_table_config_at(markets_table_config_bytes(c) + rest, 0, c),
{
    lemma_seq_split(markets_table_config_bytes(c), rest);
    lemma_markets_table_config_at(c, markets_table_config_bytes(c) + rest, 0);
}

impl MarketsTableConfig {
    /// Whether every field holds the value that [`MarketsTableConfig::default`] gives.
    pub open spec fn is_default(&self) -> bool {
        &&& self.sort_col == -1
        &&& forall|i: int| 0 <= i < 41 ==> self.col_vis@[i] == true
        &&& forall|i: int| 0 <= i < 41 ==> self.col_pos@[i] == 0u8
    }
}

impl Default for MarketsTableConfig {
    fn default() -> (r: Self)
        ensures
            r.is_default(),
    {
        MarketsTableConfig {
            sort_col: -1,
            col_vis: [true; 41],
            col_pos: [0u8; 41],
        }
    }
}

} // verus!
