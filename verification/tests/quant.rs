use ember::{Quant, QuantBits, QuantMatrix};

#[test]
fn qmax_per_width() {
    assert_eq!(QuantBits::Int8.qmax(), 127);
    assert_eq!(QuantBits::Int4.qmax(), 7);
}

#[test]
fn row_bytes_per_width() {
    assert_eq!(QuantBits::Int8.row_bytes(5), 5);
    assert_eq!(QuantBits::Int4.row_bytes(5), 3);
    assert_eq!(QuantBits::Int4.row_bytes(4), 2);
    assert_eq!(QuantBits::Int4.row_bytes(0), 0);
}

#[test]
fn int4_packs_two_codes_per_byte() {
    let codes: Vec<i8> = vec![1, -1, 7, -8, 0, 3];
    let m = QuantMatrix::from_codes(&codes, vec![0, 0], 2, 3, QuantBits::Int4);
    assert_eq!(m.packed.len(), 4);
    // low nibble 1, high nibble 0xF (-1)
    assert_eq!(m.packed[0] as u8, 0xF1);
    // column 2 alone, high half padded with zero
    assert_eq!(m.packed[1] as u8, 0x07);
    assert_eq!(m.packed[2] as u8, 0x08);
    assert_eq!(m.packed[3] as u8, 0x03);
    assert_eq!(m.row_codes(0), vec![1, -1, 7]);
    assert_eq!(m.row_codes(1), vec![-8, 0, 3]);
}

#[test]
fn int8_keeps_codes() {
    let codes: Vec<i8> = vec![-128, 127, 0, 5];
    let scales = vec![0.5f32.to_bits(), 2.0f32.to_bits()];
    let m = QuantMatrix::from_codes(&codes, scales, 2, 2, QuantBits::Int8);
    assert_eq!(m.packed, codes);
    assert_eq!(m.row_codes(1), vec![0, 5]);
    assert_eq!(f32::from_bits(m.scales[1]), 2.0);
}

#[test]
fn int4_round_trip_all_pairs() {
    let mut codes = Vec::new();
    for a in -8i8..=7 {
        for b in -8i8..=7 {
            codes.push(a);
            codes.push(b);
        }
    }
    let m = QuantMatrix::from_codes(&codes, vec![0], 1, codes.len(), QuantBits::Int4);
    assert_eq!(m.packed.len(), 256);
    assert_eq!(m.row_codes(0), codes);
}

#[test]
fn quant_names() {
    assert_eq!(Quant::parse("none"), Some(Quant::Dense));
    assert_eq!(Quant::parse("int8"), Some(Quant::Int8));
    assert_eq!(Quant::parse("int4"), Some(Quant::Int4));
    assert_eq!(Quant::parse("INT8"), None);
    assert_eq!(Quant::parse(""), None);
    assert_eq!(Quant::Dense.bits(), None);
    assert_eq!(Quant::Int4.bits(), Some(QuantBits::Int4));
}

#[test]
fn odd_rows_pad_with_zero_and_sizes_add_up() {
    let codes: Vec<i8> = vec![-8, -8, -8];
    let m = QuantMatrix::from_codes(&codes, vec![0, 0, 0], 3, 1, QuantBits::Int4);
    assert_eq!(m.packed.iter().map(|&b| b as u8).collect::<Vec<u8>>(), vec![0x08, 0x08, 0x08]);
    assert_eq!(m.byte_size(), 3 + 12);
    let m8 = QuantMatrix::from_codes(&[1, 2, 3, 4], vec![0, 0], 2, 2, QuantBits::Int8);
    assert_eq!(m8.byte_size(), 4 + 8);
}
