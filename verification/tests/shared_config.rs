use moonproto::base16384::{decode_base16384, encode_base16384};
use moonproto::shared_config::clipboard::{
    gzip_compress, gzip_decompress, hex8, mbsc_frame, mbsc_from_payload, mbshare_from_payload,
    payload_from_mbsc, payload_from_mbshare,
};
use moonproto::shared_config::reader::ConfigReader;
use moonproto::shared_config::signals::{parse_signals, write_signals, SignalsSection};
use moonproto::shared_config::writer::ConfigWriter;

// ---------------------------------------------------------------------------
// Base16384
// ---------------------------------------------------------------------------

#[test]
fn base16384_empty() {
    let encoded = encode_base16384(&[]);
    assert!(encoded.is_empty());
    let decoded = decode_base16384(&encoded, 0).unwrap();
    assert!(decoded.is_empty());
}

#[test]
fn base16384_single_byte() {
    let encoded = encode_base16384(&[0x42]);
    let decoded = decode_base16384(&encoded, 1).unwrap();
    assert_eq!(decoded, vec![0x42]);
}

#[test]
fn base16384_7_bytes() {
    let data = [1, 2, 3, 4, 5, 6, 7];
    let encoded = encode_base16384(&data);
    let decoded = decode_base16384(&encoded, 7).unwrap();
    assert_eq!(decoded, data.to_vec());
}

#[test]
fn base16384_175_bytes() {
    let data: Vec<u8> = (0..175).map(|i| (i * 37) as u8).collect();
    let encoded = encode_base16384(&data);
    let decoded = decode_base16384(&encoded, 175).unwrap();
    assert_eq!(decoded, data);
}

#[test]
fn base16384_roundtrip_various_lengths() {
    for len in [0, 1, 2, 7, 14, 15, 100, 175, 256, 1000] {
        let data: Vec<u8> = (0..len).map(|i| (i * 13 + 7) as u8).collect();
        let encoded = encode_base16384(&data);
        let decoded = decode_base16384(&encoded, len).unwrap();
        assert_eq!(decoded, data, "roundtrip failed for len={len}");
    }
}

#[test]
fn base16384_single_byte_is_one_character_above_the_alphabet_start() {
    let encoded = encode_base16384(&[0x42]);
    assert_eq!(encoded.chars().collect::<Vec<_>>(), vec!['\u{4E42}']);
    let encoded = encode_base16384(&[0xFF, 0xFF]);
    assert_eq!(encoded.chars().collect::<Vec<_>>(), vec!['\u{8DFF}', '\u{4E03}']);
}

#[test]
fn base16384_rejects_foreign_characters_short_text_and_padding() {
    assert_eq!(decode_base16384("a", 1).unwrap_err().message(), "wrong shared config text");
    assert_eq!(
        decode_base16384("\u{4E42}", 2).unwrap_err().message(),
        "wrong shared config text length"
    );
    // 0x4E00 + 0x142 carries a set bit above the eight data bits of one byte.
    assert_eq!(
        decode_base16384("\u{4F42}", 1).unwrap_err().message(),
        "wrong shared config text padding"
    );
}

// ---------------------------------------------------------------------------
// CRC32, seen through the clipboard header
// ---------------------------------------------------------------------------

#[test]
fn crc32_known_vector() {
    // CRC-32 of "123456789" with polynomial 0xEDB88320 = 0xCBF43926
    let frame = mbsc_frame(b"123456789");
    let crc = u32::from_str_radix(&frame["```mbcfg\nMBSC7:00000009:".len()..][..8], 16).unwrap();
    assert_eq!(crc, 0xCBF43926, "CRC32 known vector");
}

#[test]
fn crc32_empty() {
    let frame = mbsc_frame(&[]);
    let crc = u32::from_str_radix(&frame["```mbcfg\nMBSC7:00000000:".len()..][..8], 16).unwrap();
    assert_eq!(crc, 0x00000000, "CRC32 of empty input");
}

// ---------------------------------------------------------------------------
// Hex8 and the clipboard frame
// ---------------------------------------------------------------------------

#[test]
fn hex8_is_eight_upper_case_digits() {
    assert_eq!(hex8(0), "00000000");
    assert_eq!(hex8(0xCBF43926), "CBF43926");
    assert_eq!(hex8(0xabc), "00000ABC");
    assert_eq!(hex8(u32::MAX), "FFFFFFFF");
}

#[test]
fn mbsc_frame_has_fence_header_and_data() {
    let frame = mbsc_frame(b"123456789");
    assert!(frame.starts_with("```mbcfg\nMBSC7:00000009:CBF43926:"));
    assert!(frame.ends_with("\n```"));
    let data = &frame["```mbcfg\nMBSC7:00000009:CBF43926:".len()..frame.len() - 4];
    assert_eq!(data, encode_base16384(b"123456789"));
}

fn sample_payload() -> Vec<u8> {
    (0..3000u32).map(|i| (i % 251) as u8).collect()
}

#[test]
fn mbsc_payload_roundtrip() {
    let payload = sample_payload();
    let mbsc = mbsc_from_payload(&payload).unwrap();
    assert!(mbsc.starts_with("```mbcfg\n"));
    assert!(mbsc.ends_with("\n```"));
    assert!(mbsc.contains("MBSC7:"));
    assert_eq!(payload_from_mbsc(&mbsc).unwrap(), payload);
}

#[test]
fn mbsc_payload_with_surrounding_text() {
    let payload = sample_payload();
    let mbsc = mbsc_from_payload(&payload).unwrap();
    let messy = format!("Hey check this config:\n{mbsc}\nLet me know!");
    assert_eq!(payload_from_mbsc(&messy).unwrap(), payload);
}

#[test]
fn mbsc_payload_with_linebreaks_inside() {
    let payload = sample_payload();
    let mbsc = mbsc_from_payload(&payload).unwrap();
    let parts: Vec<&str> = mbsc.split("MBSC7:").collect();
    assert_eq!(parts.len(), 2);
    let with_breaks: String = parts[1]
        .chars()
        .enumerate()
        .flat_map(|(i, c)| if i > 0 && i % 50 == 0 { vec!['\n', c] } else { vec![c] })
        .collect();
    let rebuilt = format!("{}MBSC7:{}", parts[0], with_breaks);
    assert_eq!(payload_from_mbsc(&rebuilt).unwrap(), payload);
}

#[test]
fn mbsc_skips_a_prefix_without_a_usable_header() {
    let payload = sample_payload();
    let mbsc = mbsc_from_payload(&payload).unwrap();
    let text = format!("MBSC7:nothing here {mbsc}");
    assert_eq!(payload_from_mbsc(&text).unwrap(), payload);
}

#[test]
fn mbsc_reports_missing_prefix_and_bad_checksum() {
    assert_eq!(payload_from_mbsc("no config").unwrap_err().message(), "MBSC7 prefix not found");
    let payload = sample_payload();
    let mbsc = mbsc_from_payload(&payload).unwrap();
    let header = "```mbcfg\nMBSC7:";
    let crc_at = header.len() + 9;
    let crc = u32::from_str_radix(&mbsc[crc_at..crc_at + 8], 16).unwrap();
    let broken = format!("{}{}{}", &mbsc[..crc_at], hex8(crc ^ 1), &mbsc[crc_at + 8..]);
    assert_eq!(payload_from_mbsc(&broken).unwrap_err().message(), "CRC32 mismatch");
}

#[test]
fn mbsc_reports_bad_data_characters() {
    let frame = mbsc_frame(b"123456789");
    let header_len = "```mbcfg\nMBSC7:00000009:CBF43926:".len();
    let mut chars: Vec<char> = frame[header_len..].chars().collect();
    chars[0] = 'x';
    let broken = format!("{}{}", &frame[..header_len], chars.into_iter().collect::<String>());
    assert_eq!(payload_from_mbsc(&broken).unwrap_err().message(), "wrong shared config text");
}

#[test]
fn mbshare_payload_roundtrip() {
    let payload = sample_payload();
    let bytes = mbshare_from_payload(&payload).unwrap();
    assert!(bytes.iter().all(|b| b.is_ascii()));
    assert_eq!(payload_from_mbshare(&bytes).unwrap(), payload);
}

#[test]
fn mbshare_reports_bad_encoding_and_base64() {
    assert_eq!(
        payload_from_mbshare(&[0xFF, 0xFE]).unwrap_err().message(),
        "invalid mbshare encoding"
    );
    assert_eq!(payload_from_mbshare(b"!!!!").unwrap_err().message(), "invalid mbshare base64");
}

#[test]
fn gzip_limits_and_roundtrip() {
    assert_eq!(gzip_compress(&[]).unwrap_err().message(), "shared config payload too large");
    assert_eq!(gzip_decompress(&[]).unwrap_err().message(), "shared config gzip too large");
    let zipped = gzip_compress(b"shared config").unwrap();
    assert_eq!(&zipped[..2], &[0x1F, 0x8B]);
    assert_eq!(gzip_decompress(&zipped).unwrap(), b"shared config");
    assert!(gzip_decompress(b"not gzip").is_err());
}

// ---------------------------------------------------------------------------
// Signals section
// ---------------------------------------------------------------------------

fn signals_roundtrip(s: &SignalsSection) -> SignalsSection {
    let mut w = ConfigWriter::new();
    write_signals(&mut w, s);
    let bytes = w.finish().unwrap();
    let mut r = ConfigReader::new(&bytes);
    parse_signals(&mut r, bytes.len()).unwrap()
}

#[test]
fn signals_block_roundtrip() {
    let mut cfg = SignalsSection::default();
    cfg.pump_channel = "test_channel".into();
    cfg.pump_channels = vec!["a".into(), "b".into()];
    cfg.signal_sound = 3;
    let parsed = signals_roundtrip(&cfg);
    assert_eq!(parsed.pump_channel, "test_channel");
    assert_eq!(parsed.pump_channels, vec!["a".to_string(), "b".to_string()]);
    assert_eq!(parsed.signal_sound, 3);
}
