use font_generator::alpha::{pack_4bit_alpha, quantize_8_to_4, quantize_bitmap};

fn unpack(bytes: &[u8], pixels: usize) -> Vec<u8> {
    (0..pixels)
        .map(|i| {
            let byte = bytes[i / 2];
            if i % 2 == 0 {
                byte >> 4
            } else {
                byte & 0x0f
            }
        })
        .collect()
}

#[test]
fn quantizes_coverage_with_rounding() {
    assert_eq!(quantize_8_to_4(0), 0, "transparent");
    assert_eq!(quantize_8_to_4(255), 15, "opaque");
    assert_eq!(quantize_8_to_4(128), 8, "half coverage");
}

#[test]
fn packs_two_4bit_alpha_values_per_byte() {
    let packed = pack_4bit_alpha(&[0x0f, 0x03, 0x08, 0x00]);

    assert_eq!(packed, vec![0xf3, 0x80], "packed alpha");
}

#[test]
fn pads_final_low_nibble_for_odd_input() {
    let packed = pack_4bit_alpha(&[0x01, 0x02, 0x03]);

    assert_eq!(packed, vec![0x12, 0x30], "odd packed alpha");
}

#[test]
fn quantization_follows_rounded_formula_everywhere() {
    for coverage in 0..=255u16 {
        let expected = ((coverage * 15 + 127) / 255) as u8;
        assert_eq!(quantize_8_to_4(coverage as u8), expected);
    }
    assert_eq!(quantize_8_to_4(8), 0);
    assert_eq!(quantize_8_to_4(9), 1);
    assert_eq!(quantize_8_to_4(17), 1);
    assert_eq!(quantize_8_to_4(25), 1);
    assert_eq!(quantize_8_to_4(26), 2);
}

#[test]
fn quantizes_each_coverage_value_of_a_bitmap() {
    assert_eq!(quantize_bitmap(&[0, 128, 255, 17]), vec![0, 8, 15, 1]);
    assert_eq!(quantize_bitmap(&[]), Vec::<u8>::new());
}

#[test]
fn packing_an_empty_bitmap_gives_no_bytes() {
    assert_eq!(pack_4bit_alpha(&[]), Vec::<u8>::new());
    assert_eq!(pack_4bit_alpha(&[0x0a]), vec![0xa0]);
}

#[test]
fn unpacking_packed_alpha_gives_it_back() {
    let alpha = vec![1, 15, 0, 7, 9];
    let packed = pack_4bit_alpha(&alpha);
    assert_eq!(packed.len(), 3);
    assert_eq!(unpack(&packed, alpha.len()), alpha);

    let coverage = vec![0u8, 40, 90, 130, 200, 255];
    let quantized = quantize_bitmap(&coverage);
    assert_eq!(unpack(&pack_4bit_alpha(&quantized), coverage.len()), quantized);
}
