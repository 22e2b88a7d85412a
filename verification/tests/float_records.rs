use moonproto::shared_config::float_records::{
    read_auto_start_config, read_blink_config, read_hotkeys_config, write_auto_start_config, write_blink_config,
    write_hotkeys_config, AutoStartConfig, BlinkConfig, HotkeysConfig, AUTO_START_CONFIG_LEN, BLINK_CONFIG_LEN,
    HOTKEYS_CONFIG_LEN,
};
use moonproto::shared_config::reader::ConfigReader;
use moonproto::shared_config::writer::ConfigWriter;

#[test]
fn auto_start_defaults_carry_the_documented_values() {
    let a = AutoStartConfig::default();
    assert!(a.auto_stop_if_loss);
    assert_eq!(f64::from_bits(a.auto_stop_loss), 0.003);
    assert_eq!(f64::from_bits(a.panic_btc_delta), -5.0);
    assert_eq!(f64::from_bits(a.panic_btc_delta_up), 5.0);
    assert_eq!(a.stop_trades, 50);
    assert_eq!(a.ping_level, 1000);
}

#[test]
fn auto_start_record_roundtrips_through_its_bytes() {
    let mut a = AutoStartConfig::default();
    a.auto_stop_loss = 1.25f64.to_bits();
    a.work_time = true;
    a.restart_err_time = -7;
    let mut w = ConfigWriter::new();
    write_auto_start_config(&mut w, &a);
    let bytes = w.finish().unwrap();
    assert_eq!(bytes.len(), AUTO_START_CONFIG_LEN);
    let mut r = ConfigReader::new(&bytes);
    let back = read_auto_start_config(&mut r).unwrap();
    assert_eq!(r.position(), AUTO_START_CONFIG_LEN);
    assert_eq!(f64::from_bits(back.auto_stop_loss), 1.25);
    assert!(back.work_time);
    assert_eq!(back.restart_err_time, -7);
    assert_eq!(back.work_time_to, a.work_time_to);
}

#[test]
fn blink_record_layout_is_flag_two_doubles_flag_byte() {
    let b = BlinkConfig {
        blink_btc: true,
        blink_btc_delta: 2.5f64.to_bits(),
        blink_btc_delta_up: 0x0102030405060708,
        alarm_btc: false,
        alarm_type: 9,
    };
    let mut w = ConfigWriter::new();
    write_blink_config(&mut w, &b);
    let bytes = w.finish().unwrap();
    assert_eq!(bytes.len(), BLINK_CONFIG_LEN);
    assert_eq!(bytes[0], 1);
    assert_eq!(&bytes[1..9], &2.5f64.to_le_bytes());
    assert_eq!(&bytes[9..17], &[8, 7, 6, 5, 4, 3, 2, 1]);
    assert_eq!(bytes[17], 0);
    assert_eq!(bytes[18], 9);
    let mut r = ConfigReader::new(&bytes);
    let back = read_blink_config(&mut r).unwrap();
    assert_eq!(back.blink_btc_delta_up, 0x0102030405060708);
    assert_eq!(back.alarm_type, 9);
}

#[test]
fn short_input_reports_end_of_data() {
    let bytes = vec![1u8; BLINK_CONFIG_LEN - 1];
    let mut r = ConfigReader::new(&bytes);
    assert!(read_blink_config(&mut r).is_err());
}

#[test]
fn hotkeys_sell_price_presets_roundtrip() {
    let h = HotkeysConfig::default();
    let presets: Vec<f32> = h.s_price.iter().map(|b| f32::from_bits(*b)).collect();
    assert_eq!(presets, vec![1.0, 3.0, 5.0, 10.0, 25.0, 100.0]);
    let mut w = ConfigWriter::new();
    write_hotkeys_config(&mut w, &h);
    let bytes = w.finish().unwrap();
    assert_eq!(bytes.len(), HOTKEYS_CONFIG_LEN);
    let mut r = ConfigReader::new(&bytes);
    let back = read_hotkeys_config(&mut r).unwrap();
    assert_eq!(back.s_price, h.s_price);
    assert_eq!(back.o_size, h.o_size);
}
