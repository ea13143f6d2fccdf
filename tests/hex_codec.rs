use hsluv_tiny::{bytes_to_hex, hex_to_channels, quantize_channel, thousandths_to_hex};

fn thousandths_of(v: f32) -> i64 {
    (v * 1000.0).round() as i64
}

#[test]
fn bytes_are_written_as_lowercase_hex() {
    assert_eq!(bytes_to_hex(255, 0, 16).as_str(), "#ff0010");
    assert_eq!(bytes_to_hex(0, 0, 0).as_str(), "#000000");
    assert_eq!(bytes_to_hex(171, 205, 239).as_str(), "#abcdef");
    assert_eq!(bytes_to_hex(255, 255, 255).as_str().len(), 7);
}

#[test]
fn thousandths_are_clamped_and_quantized() {
    assert_eq!(thousandths_to_hex(1000, 0, 500).as_str(), "#ff0080");
    assert_eq!(thousandths_to_hex(-5, 2000, 100).as_str(), "#00ff1a");
}

#[test]
fn quantize_rounds_to_nearest_byte() {
    assert_eq!(quantize_channel(0), 0);
    assert_eq!(quantize_channel(1000), 255);
    assert_eq!(quantize_channel(500), 128);
    assert_eq!(quantize_channel(100), 26);
    assert_eq!(quantize_channel(2), 1);
    assert_eq!(quantize_channel(1), 0);
}

#[test]
fn quantize_clamps_out_of_range_channels() {
    assert_eq!(quantize_channel(-1), 0);
    assert_eq!(quantize_channel(1001), 255);
    assert_eq!(quantize_channel(i64::MIN), 0);
    assert_eq!(quantize_channel(i64::MAX), 255);
}

#[test]
fn malformed_hex_reads_as_black() {
    assert_eq!(hex_to_channels("bad"), (0, 0, 0));
    assert_eq!(hex_to_channels(""), (0, 0, 0));
    assert_eq!(hex_to_channels("#"), (0, 0, 0));
    assert_eq!(hex_to_channels("#ff00100"), (0, 0, 0));
    assert_eq!(hex_to_channels("#ff001"), (0, 0, 0));
    assert_eq!(hex_to_channels("##ff0010"), (0, 0, 0));
}

#[test]
fn hex_channels_are_read_by_pairs() {
    assert_eq!(hex_to_channels("#ff0010"), (255, 0, 16));
    assert_eq!(hex_to_channels("ff0010"), (255, 0, 16));
    assert_eq!(hex_to_channels("#FF0A10"), (255, 10, 16));
    assert_eq!(hex_to_channels("#000000"), (0, 0, 0));
}

#[test]
fn hex_fields_that_are_not_numbers_read_as_zero() {
    assert_eq!(hex_to_channels("#zz0010"), (0, 0, 16));
    assert_eq!(hex_to_channels("#-f+f00"), (-15, 15, 0));
    assert_eq!(hex_to_channels("#f-0010"), (0, 0, 16));
    assert_eq!(hex_to_channels("#\u{e9}0010"), (0, 0, 16));
}

#[test]
fn written_bytes_read_back() {
    for (r, g, b) in [(0u8, 0u8, 0u8), (255, 0, 16), (18, 52, 86), (171, 205, 239)] {
        let s = bytes_to_hex(r, g, b);
        assert_eq!(hex_to_channels(s.as_str()), (r as i64, g as i64, b as i64));
    }
}

#[test]
fn every_byte_survives_thousandths() {
    for b in 0..=255u8 {
        let k = thousandths_of(b as f32 / 255.0);
        assert!((0..=1000).contains(&k));
        assert_eq!(quantize_channel(k), b);
    }
}

#[test]
fn lowercase_hex_text_survives_the_float_channel() {
    for s in ["#000000", "#ffffff", "#3a7fc0", "#ff0010", "#0a0b0c"] {
        let (r, g, b) = hex_to_channels(s);
        let (r, g, b) = (r as f32 / 255.0, g as f32 / 255.0, b as f32 / 255.0);
        let hex = thousandths_to_hex(thousandths_of(r), thousandths_of(g), thousandths_of(b));
        assert_eq!(hex.as_str(), s);
    }
}

#[test]
fn quantized_byte_is_within_half_a_step() {
    for k in 0..=1000i64 {
        let byte = quantize_channel(k) as i64;
        let d = 1000 * byte - 255 * k;
        assert!(-500 < d && d <= 500);
    }
}

#[test]
fn written_thousandths_read_back_within_half_a_step() {
    for (r, g, b) in [(0i64, 1000i64, 500i64), (123, 456, 789), (1, 2, 999)] {
        let hex = thousandths_to_hex(r, g, b);
        let (cr, cg, cb) = hex_to_channels(hex.as_str());
        for (c, k) in [(cr, r), (cg, g), (cb, b)] {
            let d = 1000 * c - 255 * k;
            assert!(-500 < d && d <= 500);
        }
    }
}
