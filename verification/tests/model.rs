use procmem::enums::{BufType, BufValue};
use procmem::codec::{decode, encode};

#[test]
fn widths_are_fixed() {
    assert_eq!(BufType::U8.bytes(), 1);
    assert_eq!(BufType::U16.bytes(), 2);
    assert_eq!(BufType::U32.bytes(), 4);
    assert_eq!(BufType::U64.bytes(), 8);
    assert_eq!(BufType::I8.bytes(), 1);
    assert_eq!(BufType::I16.bytes(), 2);
    assert_eq!(BufType::I32.bytes(), 4);
    assert_eq!(BufType::I64.bytes(), 8);
    assert_eq!(BufType::Float.bytes(), 4);
    assert_eq!(BufType::Double.bytes(), 8);
}

#[test]
fn decode_is_little_endian() {
    assert_eq!(decode(&vec![0xABu8], &BufType::U8), BufValue::U8(0xAB));
    assert_eq!(decode(&vec![0x01u8, 0x02], &BufType::U16), BufValue::U16(0x0201));
    assert_eq!(
        decode(&vec![0x01u8, 0x02, 0x03, 0x04], &BufType::U32),
        BufValue::U32(0x0403_0201)
    );
    assert_eq!(
        decode(
            &vec![0x01u8, 0x02, 0x03, 0x04, 0x05, 0x06, 0x07, 0x08],
            &BufType::U64
        ),
        BufValue::U64(0x0807_0605_0403_0201)
    );
}

#[test]
fn decode_signed_is_twos_complement() {
    assert_eq!(decode(&vec![0xFFu8], &BufType::I8), BufValue::I8(-1));
    assert_eq!(decode(&vec![0x7Fu8], &BufType::I8), BufValue::I8(127));
    assert_eq!(decode(&vec![0xFEu8, 0xFF], &BufType::I16), BufValue::I16(-2));
    assert_eq!(
        decode(&vec![0x00u8, 0x00, 0x00, 0x80], &BufType::I32),
        BufValue::I32(i32::MIN)
    );
    assert_eq!(
        decode(
            &vec![0xFFu8, 0xFF, 0xFF, 0xFF, 0xFF, 0xFF, 0xFF, 0xFF],
            &BufType::I64
        ),
        BufValue::I64(-1)
    );
}

#[test]
fn decode_float_keeps_the_bit_pattern() {
    // 0x3F80_0000 is the IEEE 754 single-precision pattern of 1.0.
    let v = decode(&vec![0x00u8, 0x00, 0x80, 0x3F], &BufType::Float);
    assert_eq!(v, BufValue::Float(0x3F80_0000));
    match v {
        BufValue::Float(bits) => assert_eq!(f32::from_bits(bits), 1.0f32),
        _ => panic!("wrong tag"),
    }
    // 0x3FF0_0000_0000_0000 is the double-precision pattern of 1.0.
    let d = decode(
        &vec![0x00u8, 0x00, 0x00, 0x00, 0x00, 0x00, 0xF0, 0x3F],
        &BufType::Double,
    );
    assert_eq!(d, BufValue::Double(0x3FF0_0000_0000_0000));
    match d {
        BufValue::Double(bits) => assert_eq!(f64::from_bits(bits), 1.0f64),
        _ => panic!("wrong tag"),
    }
}

#[test]
fn encode_gives_exact_bytes() {
    assert_eq!(encode(&BufValue::U16(0x0201)), vec![0x01u8, 0x02]);
    assert_eq!(encode(&BufValue::I16(-2)), vec![0xFEu8, 0xFF]);
    assert_eq!(encode(&BufValue::I8(-128)), vec![0x80u8]);
    assert_eq!(
        encode(&BufValue::U64(0x0807_0605_0403_0201)),
        vec![0x01u8, 0x02, 0x03, 0x04, 0x05, 0x06, 0x07, 0x08]
    );
}

#[test]
fn encode_then_decode_round_trips_every_tag() {
    let samples = vec![
        BufValue::U8(0),
        BufValue::U8(255),
        BufValue::U16(0xBEEF),
        BufValue::U32(0xDEAD_BEEF),
        BufValue::U64(u64::MAX),
        BufValue::I8(-1),
        BufValue::I8(i8::MIN),
        BufValue::I16(i16::MIN),
        BufValue::I32(-123_456),
        BufValue::I64(i64::MIN),
        BufValue::I64(i64::MAX),
        BufValue::Float(1.5f32.to_bits()),
        BufValue::Double(2.25f64.to_bits()),
    ];
    for v in samples {
        let bytes = encode(&v);
        assert_eq!(bytes.len(), v.tag().bytes());
        assert_eq!(decode(&bytes, &v.tag()), v);
    }
}

#[test]
fn widening_conversions_succeed_and_preserve_value() {
    assert_eq!(BufValue::U8(200).to_u16(), Some(200));
    assert_eq!(BufValue::U8(200).to_u32(), Some(200));
    assert_eq!(BufValue::U8(200).to_u64(), Some(200));
    assert_eq!(BufValue::U16(60_000).to_u32(), Some(60_000));
    assert_eq!(BufValue::U16(60_000).to_u64(), Some(60_000));
    assert_eq!(BufValue::U32(4_000_000_000).to_u64(), Some(4_000_000_000));
    assert_eq!(BufValue::I8(-5).to_i16(), Some(-5));
    assert_eq!(BufValue::I8(-5).to_i32(), Some(-5));
    assert_eq!(BufValue::I8(-5).to_i64(), Some(-5));
    assert_eq!(BufValue::I16(-300).to_i32(), Some(-300));
    assert_eq!(BufValue::I16(-300).to_i64(), Some(-300));
    assert_eq!(BufValue::I32(-70_000).to_i64(), Some(-70_000));
    assert_eq!(BufValue::U8(200).to_i16(), Some(200));
    assert_eq!(BufValue::U8(200).to_i32(), Some(200));
    assert_eq!(BufValue::U8(200).to_i64(), Some(200));
    assert_eq!(BufValue::U16(60_000).to_i32(), Some(60_000));
    assert_eq!(BufValue::U16(60_000).to_i64(), Some(60_000));
    assert_eq!(BufValue::U32(4_000_000_000).to_i64(), Some(4_000_000_000));
}

#[test]
fn the_eight_bit_pair_reinterprets_across_signedness() {
    assert_eq!(BufValue::I8(-1).to_u8(), Some(255));
    assert_eq!(BufValue::U8(255).to_i8(), Some(-1));
    assert_eq!(BufValue::I8(127).to_u8(), Some(127));
    assert_eq!(BufValue::U8(127).to_i8(), Some(127));
}

#[test]
fn incompatible_conversions_report_absence() {
    assert_eq!(BufValue::U16(1).to_i8(), None);
    assert_eq!(BufValue::U16(1).to_u8(), None);
    assert_eq!(BufValue::U32(1).to_u16(), None);
    assert_eq!(BufValue::U64(1).to_u32(), None);
    assert_eq!(BufValue::I64(1).to_i32(), None);
    // Cross-sign reinterpretation stops at the 8-bit pair.
    assert_eq!(BufValue::I16(-2).to_u16(), None);
    assert_eq!(BufValue::U16(0x8000).to_i16(), None);
    assert_eq!(BufValue::I32(-1).to_u32(), None);
    assert_eq!(BufValue::U32(0x8000_0000).to_i32(), None);
    assert_eq!(BufValue::I64(-1).to_u64(), None);
    assert_eq!(BufValue::I8(-1).to_u64(), None);
    assert_eq!(BufValue::U64(u64::MAX).to_i64(), None);
    assert_eq!(BufValue::Float(0).to_u64(), None);
    assert_eq!(BufValue::Double(0).to_i64(), None);
    assert_eq!(BufValue::Float(0).to_u32(), None);
}
