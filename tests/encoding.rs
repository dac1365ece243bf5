use spi_leds::color_order::{permute_rgb, ColorOrder, RGB8};
use spi_leds::encoding::{
    encode_pulse, encode_rgb8_to_spi_data, encode_rgbw8_to_spi_data, permute_rgbw, reset_len_for,
    RGBW8, PATTERNS,
};

const P00: u8 = 0b1000_1000;
const P01: u8 = 0b1000_1110;
const P10: u8 = 0b1110_1000;
const P11: u8 = 0b1110_1110;

fn rgb(r: u8, g: u8, b: u8) -> RGB8 {
    RGB8 { r, g, b }
}

#[test]
fn pulse_table_matches_groups() {
    assert_eq!(PATTERNS, [P00, P01, P10, P11]);
}

#[test]
fn pulse_single_byte_expands_to_four() {
    let mut data = [0xAAu8; 6];
    // 0b00_01_10_11
    encode_pulse(&[0x1B], &mut data, 1);
    assert_eq!(data, [0xAA, P00, P01, P10, P11, 0xAA]);
}

#[test]
fn pulse_rgb_length_is_twelve_per_led() {
    let colors = [rgb(1, 2, 3), rgb(4, 5, 6), rgb(7, 8, 9)];
    let mut data = vec![0x55u8; 40];
    encode_rgb8_to_spi_data(&colors, ColorOrder::RGB, &mut data);
    assert!(data[..36].iter().all(|&b| b != 0x55));
    assert_eq!(&data[36..], &[0x55u8; 4]);
}

#[test]
fn pulse_rgbw_length_is_sixteen_per_led() {
    let colors = [RGBW8::new(1, 2, 3, 4), RGBW8::new(5, 6, 7, 8)];
    let mut data = vec![0x55u8; 34];
    encode_rgbw8_to_spi_data(&colors, ColorOrder::RGB, &mut data);
    assert!(data[..32].iter().all(|&b| b != 0x55));
    assert_eq!(&data[32..], &[0x55u8; 2]);
}

#[test]
fn pulse_rgb_no_colors_writes_nothing() {
    let mut data = vec![0x55u8; 3];
    encode_rgb8_to_spi_data(&[], ColorOrder::GRB, &mut data);
    assert_eq!(data, vec![0x55u8; 3]);
}

#[test]
fn pulse_scenario_blue_only() {
    let mut data = [0u8; 12];
    encode_rgb8_to_spi_data(&[rgb(0x00, 0x00, 0xFF)], ColorOrder::RGB, &mut data);
    assert_eq!(&data[..8], &[P00; 8]);
    assert_eq!(&data[8..], &[P11; 4]);
}

#[test]
fn pulse_scenario_swapped_order() {
    let mut data = [0u8; 12];
    encode_rgb8_to_spi_data(&[rgb(1, 2, 3)], ColorOrder::GRB, &mut data);
    // First source byte is 2, second is 1, third is 3.
    assert_eq!(&data[0..4], &[P00, P00, P00, P10]);
    assert_eq!(&data[4..8], &[P00, P00, P00, P01]);
    assert_eq!(&data[8..12], &[P00, P00, P00, P11]);
}

#[test]
fn pulse_rgbw_white_last_under_swap() {
    let mut data = [0u8; 16];
    encode_rgbw8_to_spi_data(&[RGBW8::new(0x00, 0xFF, 0x00, 0x40)], ColorOrder::GRB, &mut data);
    assert_eq!(&data[0..4], &[P11; 4]);
    assert_eq!(&data[4..8], &[P00; 4]);
    assert_eq!(&data[8..12], &[P00; 4]);
    assert_eq!(&data[12..16], &[P01, P00, P00, P00]);
}

#[test]
fn permute_identity_and_swap() {
    let c = rgb(10, 20, 30);
    assert_eq!(permute_rgb(c, ColorOrder::RGB), [10, 20, 30]);
    assert_eq!(permute_rgb(c, ColorOrder::GRB), [20, 10, 30]);
}

#[test]
fn permute_swap_twice_restores() {
    let c = rgb(10, 20, 30);
    let once = permute_rgb(c, ColorOrder::GRB);
    let twice = permute_rgb(rgb(once[0], once[1], once[2]), ColorOrder::GRB);
    assert_eq!(twice, [10, 20, 30]);
}

#[test]
fn permute_rgbw_keeps_white_last() {
    let c = RGBW8::new(1, 2, 3, 4);
    assert_eq!(permute_rgbw(c, ColorOrder::RGB), [1, 2, 3, 4]);
    assert_eq!(permute_rgbw(c, ColorOrder::GRB), [2, 1, 3, 4]);
}

#[test]
fn rgbw_new_sets_fields() {
    let c = RGBW8::new(1, 2, 3, 4);
    assert_eq!(c, RGBW8 { r: 1, g: 2, b: 3, w: 4 });
}

#[test]
fn reset_len_rounds_up() {
    assert_eq!(reset_len_for(3_200_000, 50), 20);
    assert_eq!(reset_len_for(1_000_000, 50), 7);
    assert_eq!(reset_len_for(1_000_000, 80), 10);
    assert_eq!(reset_len_for(0, 80), 0);
}
