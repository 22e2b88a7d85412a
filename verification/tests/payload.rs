use moonproto::shared_config::config::{
    from_mbsc_string, from_mbshare_bytes, parse_payload, serialize_payload, to_mbsc_string, to_mbshare_bytes,
    SharedConfig,
};
use moonproto::shared_config::ini::IniSectionData;

// ---------------------------------------------------------------------------
// Constants
// ---------------------------------------------------------------------------

#[test]
fn magic_and_version() {
    let cfg = SharedConfig::default();
    let bytes = serialize_payload(&cfg).unwrap();
    assert_eq!(&bytes[..4], b"MBSP", "magic");
    assert_eq!(bytes[4], 7, "version");
    // config_version = 164 as u16 LE
    assert_eq!(u16::from_le_bytes([bytes[5], bytes[6]]), 164);
}

#[test]
fn section_kinds_present() {
    let cfg = SharedConfig::default();
    let bytes = serialize_payload(&cfg).unwrap();
    // Scan block headers after the 7-byte payload header.
    let mut pos = 7usize;
    let mut kinds = Vec::new();
    while pos + 5 <= bytes.len() {
        let kind = bytes[pos];
        let size = u32::from_le_bytes(bytes[pos + 1..pos + 5].try_into().unwrap());
        kinds.push(kind);
        pos += 5 + size as usize;
    }
    assert_eq!(kinds, vec![1, 2, 3, 4, 5, 6], "all 6 sections in order");
}

#[test]
fn section_internal_versions() {
    let cfg = SharedConfig::default();
    let bytes = serialize_payload(&cfg).unwrap();
    // Find each block and check the first byte of its body.
    let mut pos = 7usize;
    let expected_versions: [(u8, u8); 6] = [
        (1, 2), // Signals: kind=1, ver=2
        (2, 3), // Trading: kind=2, ver=3
        (3, 2), // Visual:  kind=3, ver=2
        (4, 1), // Theme:   kind=4, ver=1
        (5, 1), // Ini:     kind=5, ver=1
        (6, 3), // Ui:      kind=6, ver=3
    ];
    for (expected_kind, expected_ver) in &expected_versions {
        assert!(pos + 5 <= bytes.len(), "block header for kind {expected_kind}");
        let kind = bytes[pos];
        let size = u32::from_le_bytes(bytes[pos + 1..pos + 5].try_into().unwrap());
        assert_eq!(kind, *expected_kind);
        let body_start = pos + 5;
        assert_eq!(bytes[body_start], *expected_ver, "internal version for kind {kind}");
        pos = body_start + size as usize;
    }
}

// ---------------------------------------------------------------------------
// Roundtrip: default
// ---------------------------------------------------------------------------

#[test]
fn roundtrip_default() {
    let original = SharedConfig::default();
    let bytes = serialize_payload(&original).unwrap();
    let parsed = parse_payload(&bytes).expect("parse default payload");

    // Spot-check key fields across all sections.
    assert_eq!(parsed.config_version, 164);
    assert_eq!(parsed.core_config_version(), 164);
    assert!(parsed.signals.full_screen_prevent_signals);
    assert_eq!(parsed.signals.msg_keywords_long, "buy");
    assert_eq!(parsed.trading.x_sell, 5);
    assert_eq!(f32::from_bits(parsed.trading.trailing_drop), -2.0);
    assert_eq!(parsed.trading.auto_start.stop_trades, 50);
    assert_eq!(f32::from_bits(parsed.trading.multi_orders.done_opacity), 0.5);
    assert_eq!(parsed.visual.chart_time_scale, 60);
    assert_eq!(parsed.visual.custom_draw_config.ver, 2);
    assert_eq!(parsed.theme.current_style, 0);
    assert_eq!(
        parsed.ui.hotkeys_config.s_price.map(f32::from_bits),
        [1.0, 3.0, 5.0, 10.0, 25.0, 100.0]
    );
    assert_eq!(parsed.ui.strat_expanded_state, [true; 11]);
}

#[test]
fn roundtrip_byte_exact() {
    let original = SharedConfig::default();
    let bytes1 = serialize_payload(&original).unwrap();
    let parsed = parse_payload(&bytes1).unwrap();
    let bytes2 = serialize_payload(&parsed).unwrap();
    assert_eq!(bytes1, bytes2, "serialize -> parse -> serialize must be identical");
}

// ---------------------------------------------------------------------------
// Roundtrip: modified fields in every section
// ---------------------------------------------------------------------------

#[test]
fn roundtrip_modified_signals() {
    let mut cfg = SharedConfig::default();
    cfg.signals.pump_channel = "test_channel".into();
    cfg.signals.pump_channels = vec!["ch1".into(), "ch2".into()];
    cfg.signals.telegram_auto_buy = true;
    cfg.signals.signal_config.x_found_price = 42;
    cfg.signals.news_tokens_filter = "BTC,ETH".into();

    let bytes = serialize_payload(&cfg).unwrap();
    let parsed = parse_payload(&bytes).unwrap();
    assert_eq!(parsed.signals.pump_channel, "test_channel");
    assert_eq!(parsed.signals.pump_channels.len(), 2);
    assert!(parsed.signals.telegram_auto_buy);
    assert_eq!(parsed.signals.signal_config.x_found_price, 42);
    assert_eq!(parsed.signals.news_tokens_filter, "BTC,ETH");
}

#[test]
fn roundtrip_modified_trading() {
    let mut cfg = SharedConfig::default();
    cfg.trading.trailing_stop = true;
    cfg.trading.g_take_profit = 7.77f64.to_bits();
    cfg.trading.manual_strategy = "MyStrat".into();
    cfg.trading.manual_strats_names[0] = "Strat1".into();
    cfg.trading.deltas_by_trades = true;
    cfg.trading.use_hl_fast_ioc = true;

    let bytes = serialize_payload(&cfg).unwrap();
    let parsed = parse_payload(&bytes).unwrap();
    assert!(parsed.trading.trailing_stop);
    assert!((f64::from_bits(parsed.trading.g_take_profit) - 7.77).abs() < 1e-10);
    assert_eq!(parsed.trading.manual_strategy, "MyStrat");
    assert_eq!(parsed.trading.manual_strats_names[0], "Strat1");
    assert!(parsed.trading.deltas_by_trades);
    assert!(parsed.trading.use_hl_fast_ioc);
}

#[test]
fn roundtrip_modified_visual() {
    let mut cfg = SharedConfig::default();
    cfg.visual.chart_candles_style = 1;
    cfg.visual.candle_colors[0].green = 0xFF00FF00;
    cfg.visual.ai_card_model = "gpt-4".into();
    cfg.visual.custom_draw_config.tools[0].color_w = 0xFFAABBCC;
    cfg.visual.custom_draw_config.tools[0].stroke = 2; // Dot

    let bytes = serialize_payload(&cfg).unwrap();
    let parsed = parse_payload(&bytes).unwrap();
    assert_eq!(parsed.visual.chart_candles_style, 1);
    assert_eq!(parsed.visual.candle_colors[0].green, 0xFF00FF00);
    assert_eq!(parsed.visual.ai_card_model, "gpt-4");
    assert_eq!(parsed.visual.custom_draw_config.tools[0].color_w, 0xFFAABBCC);
    assert_eq!(parsed.visual.custom_draw_config.tools[0].stroke, 2);
}

#[test]
fn roundtrip_modified_theme_ini() {
    let mut cfg = SharedConfig::default();
    cfg.theme.current_style = 1;
    cfg.theme.ini_sections.push(IniSectionData {
        name: "ColorsLight".into(),
        entries: vec![("key1".into(), "val1".into()), ("key2".into(), "val2".into())],
    });
    cfg.ini.ini_sections.push(IniSectionData {
        name: "Charts".into(),
        entries: vec![("ind1".into(), "cfg1".into())],
    });

    let bytes = serialize_payload(&cfg).unwrap();
    let parsed = parse_payload(&bytes).unwrap();
    assert_eq!(parsed.theme.current_style, 1);
    assert_eq!(parsed.theme.ini_sections.len(), 1);
    assert_eq!(parsed.theme.ini_sections[0].name, "ColorsLight");
    assert_eq!(parsed.theme.ini_sections[0].entries.len(), 2);
    assert_eq!(parsed.ini.ini_sections.len(), 1);
    assert_eq!(parsed.ini.ini_sections[0].entries[0], ("ind1".into(), "cfg1".into()));
}

#[test]
fn roundtrip_modified_ui() {
    let mut cfg = SharedConfig::default();
    cfg.ui.coins_sort_order = 3;
    cfg.ui.hotkeys_config.s_price = [2.0f32, 4.0, 6.0, 8.0, 10.0, 50.0].map(f32::to_bits);
    cfg.ui.strat_expanded_state[5] = false;
    cfg.ui.main_button_index_1 = 3; // MBT_Alerts

    let bytes = serialize_payload(&cfg).unwrap();
    let parsed = parse_payload(&bytes).unwrap();
    assert_eq!(parsed.ui.coins_sort_order, 3);
    assert_eq!(f32::from_bits(parsed.ui.hotkeys_config.s_price[0]), 2.0);
    assert!(!parsed.ui.strat_expanded_state[5]);
    assert_eq!(parsed.ui.main_button_index_1, 3);
}

// ---------------------------------------------------------------------------
// Unknown tail preservation
// ---------------------------------------------------------------------------

#[test]
fn unknown_tail_signals() {
    let cfg = SharedConfig::default();
    let mut bytes = serialize_payload(&cfg).unwrap();

    // The signals block starts at offset 7 (after header).
    let block_start = 7;
    let block_size_pos = block_start + 1;
    let old_size = u32::from_le_bytes(bytes[block_size_pos..block_size_pos + 4].try_into().unwrap());
    let body_end = block_start + 5 + old_size as usize;

    // Insert 3 extra bytes at the end of the signals block body.
    let extra = [0xAA, 0xBB, 0xCC];
    bytes.splice(body_end..body_end, extra.iter().copied());
    let new_size = old_size + 3;
    bytes[block_size_pos..block_size_pos + 4].copy_from_slice(&new_size.to_le_bytes());

    let parsed = parse_payload(&bytes).expect("parse with extra tail bytes");
    assert_eq!(parsed.signals.unknown_tail, vec![0xAA, 0xBB, 0xCC]);

    // Re-serialize and verify the extra bytes are preserved.
    let bytes2 = serialize_payload(&parsed).unwrap();
    let parsed2 = parse_payload(&bytes2).unwrap();
    assert_eq!(parsed2.signals.unknown_tail, vec![0xAA, 0xBB, 0xCC]);
}

#[test]
fn unknown_tail_trading() {
    let cfg = SharedConfig::default();
    let mut bytes = serialize_payload(&cfg).unwrap();

    // Skip the signals block to reach the trading block.
    let mut pos = 7;
    let sig_size = u32::from_le_bytes(bytes[pos + 1..pos + 5].try_into().unwrap());
    pos += 5 + sig_size as usize;

    let block_size_pos = pos + 1;
    let old_size = u32::from_le_bytes(bytes[block_size_pos..block_size_pos + 4].try_into().unwrap());
    let body_end = pos + 5 + old_size as usize;

    let extra = [0xDE, 0xAD];
    bytes.splice(body_end..body_end, extra.iter().copied());
    let new_size = old_size + 2;
    bytes[block_size_pos..block_size_pos + 4].copy_from_slice(&new_size.to_le_bytes());

    let parsed = parse_payload(&bytes).expect("parse with trading tail");
    assert_eq!(parsed.trading.unknown_tail, vec![0xDE, 0xAD]);

    let bytes2 = serialize_payload(&parsed).unwrap();
    let parsed2 = parse_payload(&bytes2).unwrap();
    assert_eq!(parsed2.trading.unknown_tail, vec![0xDE, 0xAD]);
}

// ---------------------------------------------------------------------------
// Clipboard: MBSC string roundtrip
// ---------------------------------------------------------------------------

#[test]
fn mbsc_roundtrip() {
    let original = SharedConfig::default();
    let mbsc = to_mbsc_string(&original).unwrap();

    // Verify fence format.
    assert!(mbsc.starts_with("```mbcfg\n"));
    assert!(mbsc.ends_with("\n```"));
    assert!(mbsc.contains("MBSC7:"));

    let parsed = from_mbsc_string(&mbsc).unwrap();
    assert_eq!(parsed.trading.x_sell, original.trading.x_sell);
    assert!(parsed.signals.full_screen_prevent_signals);
}

#[test]
fn mbsc_parse_with_surrounding_text() {
    let cfg = SharedConfig::default();
    let mbsc = to_mbsc_string(&cfg).unwrap();

    // Wrap in chat-like text.
    let messy = format!("Hey check this config:\n{mbsc}\nLet me know!");
    let parsed = from_mbsc_string(&messy).unwrap();
    assert_eq!(parsed.trading.x_sell, cfg.trading.x_sell);
}

#[test]
fn mbsc_parse_with_linebreaks_inside() {
    let cfg = SharedConfig::default();
    let mbsc = to_mbsc_string(&cfg).unwrap();

    // Insert newlines inside the MBSC data (characters up to 32 are ignored).
    let parts: Vec<&str> = mbsc.split("MBSC7:").collect();
    assert_eq!(parts.len(), 2);
    let data_part = parts[1];
    // Insert a newline every 50 chars.
    let with_breaks: String = data_part
        .chars()
        .enumerate()
        .flat_map(|(i, c)| if i > 0 && i % 50 == 0 { vec!['\n', c] } else { vec![c] })
        .collect();
    let rebuilt = format!("{}MBSC7:{}", parts[0], with_breaks);
    let parsed = from_mbsc_string(&rebuilt).unwrap();
    assert_eq!(parsed.trading.x_sell, cfg.trading.x_sell);
}

// ---------------------------------------------------------------------------
// mbshare roundtrip
// ---------------------------------------------------------------------------

#[test]
fn mbshare_roundtrip() {
    let original = SharedConfig::default();
    let bytes = to_mbshare_bytes(&original).unwrap();
    let parsed = from_mbshare_bytes(&bytes).unwrap();
    assert_eq!(parsed.trading.x_sell, original.trading.x_sell);
    assert_eq!(parsed.config_version, 164);
}

// ---------------------------------------------------------------------------
// Absorb
// ---------------------------------------------------------------------------

#[test]
fn absorb_client_settings() {
    let mut cfg = SharedConfig::default();
    cfg.absorb_client_settings_raw(
        10,                                                   // x_sell
        20,                                                   // x_sell_scalp
        true,                                                 // x_tmode
        true,                                                 // fixed_sell_mode
        5.5f64.to_bits(),                                     // fixed_sell_price
        (-3.0f32).to_bits(),                                  // price_drop_level
        (-1.5f32).to_bits(),                                  // trailing_drop
        true,                                                 // trailing_stop
        8.0f64.to_bits(),                                     // g_take_profit
        true,                                                 // use_g_take_profit
        true,                                                 // panic_if_price_drop
        true,                                                 // buy_iceberg
        false,                                                // sell_iceberg
        false,                                                // sign_orders
        "DOGE",                                               // coins_black_list_text
        true,                                                 // use_coins_black_list
        true,                                                 // use_manual_strategy
        true,                                                 // free_position_check
        15,                                                   // vol_drop_level
        true,                                                 // use_stop_market
        &[2.0f32, 4.0, 6.0, 8.0, 10.0, 50.0].map(f32::to_bits), // s_price
        3,                                                    // sb_num
        1,                                                    // join_sell_kind
    );

    assert_eq!(cfg.trading.x_sell, 10);
    assert!(cfg.trading.trailing_stop);
    assert!((f64::from_bits(cfg.trading.g_take_profit) - 8.0).abs() < 1e-10);
    assert_eq!(cfg.trading.coins_black_list_text, "DOGE");
    assert_eq!(f32::from_bits(cfg.ui.hotkeys_config.s_price[0]), 2.0);
    assert_eq!(cfg.ui.hotkeys_config.sb_num, 3);
    // Not part of the client-settings snapshot: absorb must leave the base value.
    assert_eq!(
        cfg.signals.full_screen_prevent_signals,
        SharedConfig::default().signals.full_screen_prevent_signals
    );

    // Verify roundtrip after absorb.
    let bytes = serialize_payload(&cfg).unwrap();
    let parsed = parse_payload(&bytes).unwrap();
    assert_eq!(parsed.trading.x_sell, 10);
    assert!(parsed.trading.trailing_stop);
}

#[test]
fn absorb_lev_manage() {
    let mut cfg = SharedConfig::default();
    cfg.absorb_lev_manage_raw(
        true,             // auto_max_order
        false,            // auto_lev_up
        true,             // auto_isolated
        true,             // auto_cross
        true,             // auto_fix_lev
        20,               // fix_lev
        false,            // tlg_report
        "1k def 5k BTC*", // lev_control
    );

    assert!(cfg.trading.auto_manage_lev.auto_max_order);
    assert_eq!(cfg.trading.auto_manage_lev.fix_lev, 20);
    assert_eq!(cfg.trading.auto_lev_control, "1k def 5k BTC*");
}

#[test]
fn serializer_rejects_a_section_over_the_protocol_bound() {
    let mut cfg = SharedConfig::default();
    cfg.signals.unknown_tail = vec![0; 16777216];
    let err = serialize_payload(&cfg).expect_err("oversized section must be rejected");
    assert!(err.message().contains("block too large"));
}

// ---------------------------------------------------------------------------
// Own checks
// ---------------------------------------------------------------------------

#[test]
fn payload_without_every_section_is_incomplete() {
    let cfg = SharedConfig::default();
    let bytes = serialize_payload(&cfg).unwrap();
    // Keep the header and the signals block only.
    let sig_size = u32::from_le_bytes(bytes[8..12].try_into().unwrap()) as usize;
    let cut = &bytes[..7 + 5 + sig_size];
    assert_eq!(parse_payload(cut).unwrap_err().message(), "incomplete shared config");
}

#[test]
fn payload_header_errors_are_reported() {
    let cfg = SharedConfig::default();
    let mut bytes = serialize_payload(&cfg).unwrap();
    bytes[0] = b'X';
    assert_eq!(parse_payload(&bytes).unwrap_err().message(), "wrong shared config magic");
    assert_eq!(parse_payload(&[0x4D, 0x42]).unwrap_err().message(), "unexpected end of shared config data");
}

#[test]
fn unknown_block_kinds_are_skipped_and_a_later_block_wins() {
    let cfg = SharedConfig::default();
    let mut bytes = serialize_payload(&cfg).unwrap();
    // An unknown block of kind 9 with a two-byte body.
    bytes.extend_from_slice(&[9, 2, 0, 0, 0, 0xAB, 0xCD]);
    // A second trading block with a changed x_sell.
    let mut other = SharedConfig::default();
    other.trading.x_sell = 77;
    let other_bytes = serialize_payload(&other).unwrap();
    let sig_size = u32::from_le_bytes(other_bytes[8..12].try_into().unwrap()) as usize;
    let t = 7 + 5 + sig_size;
    let tr_size = u32::from_le_bytes(other_bytes[t + 1..t + 5].try_into().unwrap()) as usize;
    bytes.extend_from_slice(&other_bytes[t..t + 5 + tr_size]);
    let parsed = parse_payload(&bytes).unwrap();
    assert_eq!(parsed.trading.x_sell, 77);
}

#[test]
fn wrong_trading_version_is_refused() {
    let cfg = SharedConfig::default();
    let mut bytes = serialize_payload(&cfg).unwrap();
    let sig_size = u32::from_le_bytes(bytes[8..12].try_into().unwrap()) as usize;
    let t = 7 + 5 + sig_size;
    bytes[t + 5] = 4;
    assert_eq!(parse_payload(&bytes).unwrap_err().message(), "wrong shared trading version");
}
