use chunk_demux::extended::parse_extended_precision_bytes;

fn extended(sign: bool, exponent: u16, mantissa: u64) -> [u8; 10] {
    let mut b = [0u8; 10];
    let head = (if sign { 0x8000u16 } else { 0 }) | (exponent & 0x7fff);
    b[0] = (head >> 8) as u8;
    b[1] = head as u8;
    b[2..10].copy_from_slice(&mantissa.to_be_bytes());
    b
}

fn rate_of(value: u32) -> [u8; 10] {
    // A whole number v with 2^k <= v < 2^(k+1) is stored with exponent
    // 16383 + k and mantissa v << (63 - k).
    assert!(value > 0);
    let k = 31 - value.leading_zeros();
    extended(false, (16383 + k) as u16, (value as u64) << (63 - k))
}

#[test]
fn common_rates_decode_exactly() {
    assert_eq!(parse_extended_precision_bytes(rate_of(44100)), Ok(44100));
    assert_eq!(parse_extended_precision_bytes(rate_of(48000)), Ok(48000));
    assert_eq!(parse_extended_precision_bytes(rate_of(8000)), Ok(8000));
    assert_eq!(parse_extended_precision_bytes(rate_of(96000)), Ok(96000));
    assert_eq!(parse_extended_precision_bytes(rate_of(1)), Ok(1));
}

#[test]
fn the_encoded_44100_bytes_are_the_classic_ones() {
    assert_eq!(
        rate_of(44100),
        [0x40, 0x0e, 0xac, 0x44, 0x00, 0x00, 0x00, 0x00, 0x00, 0x00]
    );
}

#[test]
fn fractional_rates_round_down() {
    // 22050.5 = 44101 * 2^-1: exponent 16383 + 14, mantissa 44101 << 48.
    let b = extended(false, 16383 + 14, 44101u64 << 48);
    assert_eq!(parse_extended_precision_bytes(b), Ok(22050));
}

#[test]
fn zero_and_tiny_values_floor_to_zero() {
    assert_eq!(parse_extended_precision_bytes([0; 10]), Ok(0));
    // A denormal-range value far below one.
    let b = extended(false, 1, u64::MAX);
    assert_eq!(parse_extended_precision_bytes(b), Ok(0));
}

#[test]
fn negative_values_are_refused() {
    let b = extended(true, 16383 + 15, 44100u64 << 48);
    assert_eq!(parse_extended_precision_bytes(b), Err(()));
}

#[test]
fn infinities_and_nans_are_refused() {
    assert_eq!(parse_extended_precision_bytes(extended(false, 0x7fff, 0)), Err(()));
    assert_eq!(parse_extended_precision_bytes(extended(false, 0x7fff, 12345)), Err(()));
}

#[test]
fn values_past_the_32_bit_range_saturate() {
    // 2^32 exactly: exponent 16383 + 32, mantissa 1 << 63.
    let b = extended(false, 16383 + 32, 1u64 << 63);
    assert_eq!(parse_extended_precision_bytes(b), Ok(u32::MAX));
    // An enormous exponent.
    let b = extended(false, 0x7ffe, 1u64 << 63);
    assert_eq!(parse_extended_precision_bytes(b), Ok(u32::MAX));
}

#[test]
fn largest_in_range_value_is_kept() {
    // u32::MAX = (2^32 - 1): exponent 16383 + 31, mantissa 0xffffffff << 32.
    let b = extended(false, 16383 + 31, 0xffff_ffffu64 << 32);
    assert_eq!(parse_extended_precision_bytes(b), Ok(u32::MAX));
}
