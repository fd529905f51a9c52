use ws2818_rgb_led_spi_driver::encoding::{encode_byte, encode_rgb, encode_rgb_slice};
use ws2818_rgb_led_spi_driver::timings::{ChannelOrder, LedVariant, TimingTable};

const ZERO: [u8; 2] = [0xF8, 0x00];
const ONE: [u8; 2] = [0xFF, 0x80];

fn ws2812() -> TimingTable {
    TimingTable::for_variant(LedVariant::Ws2812)
}

fn expand(bits: &[bool], zero: &[u8], one: &[u8]) -> Vec<u8> {
    let mut v = Vec::new();
    for &b in bits {
        v.extend_from_slice(if b { one } else { zero });
    }
    v
}

#[test]
fn encode_byte_length_for_every_value() {
    let t = ws2812();
    for b in 0..=255u8 {
        assert_eq!(encode_byte(&t, b).len(), 8 * t.bytes_per_data_bit());
    }
}

#[test]
fn encode_byte_distinct_values_distinct_encodings() {
    let t = ws2812();
    let all: Vec<Vec<u8>> = (0..=255u8).map(|b| encode_byte(&t, b)).collect();
    for i in 0..256 {
        for j in (i + 1)..256 {
            assert_ne!(all[i], all[j]);
        }
    }
}

#[test]
fn encode_byte_all_zero_and_all_one() {
    let t = ws2812();
    assert_eq!(encode_byte(&t, 0x00), ZERO.repeat(8));
    assert_eq!(encode_byte(&t, 0xFF), ONE.repeat(8));
}

#[test]
fn encode_byte_msb_first_scenario() {
    let t = ws2812();
    assert_eq!(t.bytes_per_data_bit(), 2);
    assert_eq!(
        encode_byte(&t, 0b1010_0000),
        vec![0xFF, 0x80, 0xF8, 0x00, 0xFF, 0x80, 0xF8, 0x00, 0xF8, 0x00, 0xF8, 0x00, 0xF8, 0x00, 0xF8, 0x00]
    );
}

#[test]
fn encode_byte_follows_every_bit() {
    let t = ws2812();
    for b in 0..=255u8 {
        let bits: Vec<bool> = (0..8).map(|i| (b >> (7 - i)) & 1 == 1).collect();
        assert_eq!(encode_byte(&t, b), expand(&bits, &ZERO, &ONE));
    }
}

#[test]
fn encode_byte_ws2813_patterns() {
    let t = TimingTable::for_variant(LedVariant::Ws2813);
    assert_eq!(encode_byte(&t, 0x01), [[0xF0, 0x00].repeat(7), vec![0xFF, 0xC0]].concat());
}

#[test]
fn encode_rgb_green_red_blue_order() {
    let t = ws2812();
    let res = encode_rgb(&t, 0x01, 0x80, 0xFF);
    assert_eq!(res.len(), 24 * 2);
    let expected = [encode_byte(&t, 0x80), encode_byte(&t, 0x01), encode_byte(&t, 0xFF)].concat();
    assert_eq!(res, expected);
}

#[test]
fn encode_rgb_red_green_blue_order() {
    let t = TimingTable::new(vec![0x80], vec![0xE0], 3, ChannelOrder::Rgb).unwrap();
    let res = encode_rgb(&t, 0x01, 0x80, 0x00);
    assert_eq!(res.len(), 24);
    let expected = [encode_byte(&t, 0x01), encode_byte(&t, 0x80), encode_byte(&t, 0x00)].concat();
    assert_eq!(res, expected);
}

#[test]
fn encode_strip_empty_is_reset_padding() {
    let t = ws2812();
    let frame = encode_rgb_slice(&t, &[]);
    assert_eq!(frame.len() as u64, t.reset_byte_count);
    assert!(frame.iter().all(|&b| b == 0));
}

#[test]
fn encode_strip_two_pixels() {
    let t = ws2812();
    let c1 = (10u8, 200u8, 33u8);
    let c2 = (255u8, 0u8, 128u8);
    let frame = encode_rgb_slice(&t, &[c1, c2]);
    let k = t.bytes_per_data_bit();
    assert_eq!(frame.len(), 24 * 2 * k + t.reset_byte_count as usize);
    assert_eq!(frame[..24 * k].to_vec(), encode_rgb(&t, c1.0, c1.1, c1.2));
    assert_eq!(frame[24 * k..48 * k].to_vec(), encode_rgb(&t, c2.0, c2.1, c2.2));
    assert!(frame[48 * k..].iter().all(|&b| b == 0));
}

#[test]
fn encode_strip_custom_padding() {
    let t = TimingTable::new(vec![0x80], vec![0xE0], 3, ChannelOrder::Rgb).unwrap();
    let frame = encode_rgb_slice(&t, &[(0, 0, 0)]);
    assert_eq!(frame, [vec![0x80; 24], vec![0; 3]].concat());
}
