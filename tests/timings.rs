use ws2818_rgb_led_spi_driver::timings::{
    reset_byte_count, ChannelOrder, LedVariant, TimingTable, PI_SPI_NS_PER_BIT, TRESET_NS,
};

#[test]
fn reset_count_rounds_up_and_adds_margin() {
    assert_eq!(reset_byte_count(TRESET_NS, PI_SPI_NS_PER_BIT), 4689);
    assert_eq!(reset_byte_count(300_000, 64), 4689);
}

#[test]
fn reset_count_exact_division() {
    assert_eq!(reset_byte_count(640, 64), 11);
    assert_eq!(reset_byte_count(0, 64), 1);
    assert_eq!(reset_byte_count(1, 64), 2);
}

#[test]
fn variant_tables() {
    let a = TimingTable::for_variant(LedVariant::Ws2812);
    assert_eq!(a.zero_pattern, vec![0xF8, 0x00]);
    assert_eq!(a.one_pattern, vec![0xFF, 0x80]);
    assert_eq!(a.reset_byte_count, 4689);
    assert_eq!(a.channel_order, ChannelOrder::Grb);
    let b = TimingTable::for_variant(LedVariant::Ws2813);
    assert_eq!(b.zero_pattern, vec![0xF0, 0x00]);
    assert_eq!(b.one_pattern, vec![0xFF, 0xC0]);
    assert_eq!(b.reset_byte_count, 4689);
    assert_eq!(b.bytes_per_data_bit(), 2);
}

#[test]
fn table_new_checks_patterns() {
    assert!(TimingTable::new(vec![], vec![], 5, ChannelOrder::Grb).is_none());
    assert!(TimingTable::new(vec![0xF8], vec![0xFF, 0x80], 5, ChannelOrder::Grb).is_none());
    assert!(TimingTable::new(vec![0xF8, 0x00], vec![0xF8, 0x00], 5, ChannelOrder::Grb).is_none());
    let t = TimingTable::new(vec![0xF8, 0x00], vec![0xFF, 0x80], 5, ChannelOrder::Rgb).unwrap();
    assert_eq!(t.zero_pattern, vec![0xF8, 0x00]);
    assert_eq!(t.one_pattern, vec![0xFF, 0x80]);
    assert_eq!(t.reset_byte_count, 5);
    assert_eq!(t.channel_order, ChannelOrder::Rgb);
}
