use moonproto::engine_api::{
    parse_query_hedge_mode_response, read_i32_zero_tail, read_u64_zero_tail, read_u8_zero_tail, read_zero_tail,
};

#[test]
fn zero_tail_pads_a_short_field_and_stops_at_the_end() {
    let data = [1u8, 2, 3];
    let mut pos = 1;
    assert_eq!(read_zero_tail(&data, &mut pos, 4), vec![2, 3, 0, 0]);
    assert_eq!(pos, 3);
    assert_eq!(read_zero_tail(&data, &mut pos, 2), vec![0, 0]);
    assert_eq!(pos, 3);
}

#[test]
fn zero_tail_integers_read_little_endian() {
    let data = [0x78u8, 0x56, 0x34, 0x12, 0xFF];
    let mut pos = 0;
    assert_eq!(read_i32_zero_tail(&data, &mut pos), 0x1234_5678);
    assert_eq!(pos, 4);
    assert_eq!(read_u8_zero_tail(&data, &mut pos), 0xFF);
    assert_eq!(read_u8_zero_tail(&data, &mut pos), 0);
    let mut pos = 0;
    assert_eq!(read_u64_zero_tail(&data, &mut pos), 0xFF_1234_5678);
    assert_eq!(pos, 5);
    let mut pos = 0;
    assert_eq!(read_i32_zero_tail(&[0xFF, 0xFF, 0xFF, 0xFF], &mut pos), -1);
}

#[test]
fn hedge_mode_answer_is_its_first_byte() {
    assert_eq!(parse_query_hedge_mode_response(&[]), Some(false));
    assert_eq!(parse_query_hedge_mode_response(&[0]), Some(false));
    assert_eq!(parse_query_hedge_mode_response(&[2, 0]), Some(true));
}
