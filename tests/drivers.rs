use spi_leds::color_order::{ColorOrder, RGB8};
use spi_leds::drivers::apa102::Apa102;
use spi_leds::drivers::lpd8806::Lpd8806;
use spi_leds::drivers::sk6812::Sk6812;
use spi_leds::drivers::ws2812::Ws2812;
use spi_leds::encoding::RGBW8;
use spi_leds::drivers::{sk6812, ws2812};
use spi_leds::framing::{
    apa102_buffer_len, encode_apa102_frame, encode_lpd8806_frame, fill_zero, lpd8806_buffer_len,
    pulse_buffer_len,
};

const P00: u8 = 0b1000_1000;
const P11: u8 = 0b1110_1110;

fn rgb(r: u8, g: u8, b: u8) -> RGB8 {
    RGB8 { r, g, b }
}

#[test]
fn apa102_scenario_one_led() {
    let mut buf = [0xAAu8; 9];
    let mut d = Apa102::new((), 1, &mut buf);
    let len = d.encode_frame(&[rgb(0x10, 0x20, 0x30)]);
    let (_, frame) = d.bus_and_frame();
    assert_eq!(&frame[..len], &[0, 0, 0, 0, 0xFF, 0x30, 0x20, 0x10, 0x00]);
}

#[test]
fn lpd8806_scenario_one_led() {
    let mut buf = [0xAAu8; 8];
    let mut d = Lpd8806::new((), 1, &mut buf);
    let len = d.encode_frame(&[rgb(0xFF, 0x80, 0x01)]);
    let (_, frame) = d.bus_and_frame();
    assert_eq!(&frame[..len], &[0, 0, 0, 0, 0xC0, 0xFF, 0x80, 0x00]);
}

#[test]
fn apa102_frame_lengths() {
    for (n, expected) in [(0usize, 4usize), (1, 9), (16, 69), (17, 74)] {
        let colors = vec![rgb(1, 2, 3); n];
        let mut data = vec![0xAAu8; expected + 3];
        let len = encode_apa102_frame(&colors, ColorOrder::RGB, &mut data);
        assert_eq!(len, expected);
        assert_eq!(len, 4 + 4 * n + (n + 15) / 16);
        assert_eq!(&data[len..], &[0xAA; 3]);
        assert!(data[len - (n + 15) / 16..len].iter().all(|&b| b == 0));
    }
}

#[test]
fn lpd8806_frame_lengths() {
    for (n, expected) in [(0usize, 4usize), (1, 8), (32, 101), (33, 105)] {
        let colors = vec![rgb(1, 2, 3); n];
        let mut data = vec![0xAAu8; expected + 2];
        let len = encode_lpd8806_frame(&colors, ColorOrder::RGB, &mut data);
        assert_eq!(len, expected);
        assert_eq!(len, 4 + 3 * n + (n + 31) / 32);
        assert_eq!(&data[len..], &[0xAA; 2]);
    }
}

#[test]
fn lpd8806_led_bytes_have_high_bit() {
    let colors = [rgb(0, 0, 0), rgb(0xFF, 0x7F, 0x01), rgb(0x80, 0x00, 0xFE)];
    let mut data = vec![0u8; 14];
    let len = encode_lpd8806_frame(&colors, ColorOrder::GRB, &mut data);
    assert_eq!(len, 14);
    assert!(data[4..13].iter().all(|&b| b & 0x80 == 0x80));
    assert_eq!(&data[4..7], &[0x80, 0x80, 0x80]);
}

#[test]
fn apa102_swapped_order() {
    let mut data = [0u8; 9];
    encode_apa102_frame(&[rgb(0x10, 0x20, 0x30)], ColorOrder::GRB, &mut data);
    assert_eq!(&data[4..8], &[0xFF, 0x30, 0x10, 0x20]);
}

#[test]
fn apa102_truncates_to_capacity() {
    let mut buf = [0xAAu8; 13];
    let mut d = Apa102::new((), 2, &mut buf);
    let len = d.encode_frame(&[rgb(1, 2, 3), rgb(4, 5, 6), rgb(7, 8, 9)]);
    assert_eq!(len, 13);
    let (_, frame) = d.bus_and_frame();
    assert_eq!(frame, &[0, 0, 0, 0, 0xFF, 3, 2, 1, 0xFF, 6, 5, 4, 0]);
}

#[test]
fn apa102_fewer_colors_than_capacity() {
    let mut buf = [0xAAu8; 13];
    let mut d = Apa102::new((), 2, &mut buf);
    let len = d.encode_frame(&[rgb(1, 2, 3)]);
    assert_eq!(len, 9);
    let (_, frame) = d.bus_and_frame();
    assert_eq!(&frame[..9], &[0, 0, 0, 0, 0xFF, 3, 2, 1, 0]);
}

#[test]
fn lpd8806_truncates_to_capacity() {
    let mut buf = [0xAAu8; 8];
    let mut d = Lpd8806::new((), 1, &mut buf);
    let len = d.encode_frame(&[rgb(0xFF, 0x80, 0x01), rgb(2, 2, 2)]);
    assert_eq!(len, 8);
    let (_, frame) = d.bus_and_frame();
    assert_eq!(frame, &[0, 0, 0, 0, 0xC0, 0xFF, 0x80, 0x00]);
}

#[test]
fn ws2812_frame_and_reset() {
    let mut buf = [0xAAu8; 12 + 5 + 1];
    let mut d = Ws2812::new((), 1, &mut buf);
    assert_eq!(d.reset_len(), 5);
    let data_len = d.encode_frame(&[rgb(0x00, 0x00, 0xFF)]);
    assert_eq!(data_len, 12);
    let (_, frame) = d.bus_and_frame();
    assert_eq!(&frame[..8], &[P00; 8]);
    assert_eq!(&frame[8..12], &[P11; 4]);
    assert_eq!(&frame[12..17], &[0u8; 5]);
    assert_eq!(frame[17], 0xAA);
}

#[test]
fn ws2812_color_order_and_truncation() {
    let mut buf = [0xAAu8; 12 + 3];
    let mut d = Ws2812::with_reset_len((), 1, 3, &mut buf);
    d.set_color_order(ColorOrder::GRB);
    let data_len = d.encode_frame(&[rgb(0xFF, 0x00, 0x00), rgb(1, 1, 1)]);
    assert_eq!(data_len, 12);
    let (_, frame) = d.bus_and_frame();
    assert_eq!(&frame[..4], &[P00; 4]);
    assert_eq!(&frame[4..8], &[P11; 4]);
    assert_eq!(&frame[12..], &[0u8; 3]);
}

#[test]
fn sk6812_frame_and_reset() {
    let mut buf = [0xAAu8; 16 * 2 + 10];
    let mut d = Sk6812::new((), 2, &mut buf);
    assert_eq!(d.reset_len(), 10);
    let data_len = d.encode_frame(&[RGBW8::new(0, 0, 0, 0xFF)]);
    assert_eq!(data_len, 16);
    let (_, frame) = d.bus_and_frame();
    assert_eq!(&frame[..12], &[P00; 12]);
    assert_eq!(&frame[12..16], &[P11; 4]);
    assert_eq!(&frame[16..26], &[0u8; 10]);
    assert_eq!(&frame[26..], &[0xAAu8; 16]);
}

#[test]
fn sk6812_truncates_and_swaps() {
    let mut buf = [0xAAu8; 16 + 1];
    let mut d = Sk6812::with_reset_len((), 1, 1, &mut buf);
    d.set_color_order(ColorOrder::GRB);
    let data_len = d.encode_frame(&[RGBW8::new(0xFF, 0, 0, 0), RGBW8::new(9, 9, 9, 9)]);
    assert_eq!(data_len, 16);
    let (_, frame) = d.bus_and_frame();
    assert_eq!(&frame[..4], &[P00; 4]);
    assert_eq!(&frame[4..8], &[P11; 4]);
    assert_eq!(&frame[8..16], &[P00; 8]);
    assert_eq!(frame[16], 0);
}

#[test]
fn bus_handle_is_kept() {
    let mut buf = [0u8; 9];
    let mut d = Apa102::new(7u32, 1, &mut buf);
    d.set_color_order(ColorOrder::GRB);
    let (bus, _) = d.bus_and_frame();
    assert_eq!(*bus, 7);
    *bus = 8;
    let (bus, _) = d.bus_and_frame();
    assert_eq!(*bus, 8);
}

#[test]
fn fill_zero_clears_range() {
    let mut data = [1u8; 5];
    fill_zero(&mut data, 1, 3);
    assert_eq!(data, [1, 0, 0, 1, 1]);
}

#[test]
fn buffer_lengths() {
    assert_eq!(apa102_buffer_len(0), Some(4));
    assert_eq!(apa102_buffer_len(17), Some(74));
    assert_eq!(apa102_buffer_len(usize::MAX / 2), None);
    assert_eq!(lpd8806_buffer_len(33), Some(105));
    assert_eq!(lpd8806_buffer_len(usize::MAX), None);
    assert_eq!(ws2812::buffer_len(2, 5), Some(29));
    assert_eq!(sk6812::buffer_len(2, 10), Some(42));
    assert_eq!(pulse_buffer_len(usize::MAX, 2, 0), None);
    assert_eq!(pulse_buffer_len(usize::MAX / 2, 2, 2), None);
}
