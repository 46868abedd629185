use pdu::util::{checksum, read_slice, read_slice_after, read_slice_inclusive, read_u16, read_u32, read_u8, sum};
use pdu::Error;

#[test]
fn read_u8_in_bounds() {
    let buf: &[u8] = &[0x10, 0x20, 0x30];
    assert_eq!(read_u8(buf, 0), Ok(0x10));
    assert_eq!(read_u8(buf, 2), Ok(0x30));
}

#[test]
fn read_u8_out_of_bounds() {
    let buf: &[u8] = &[0x10, 0x20, 0x30];
    assert_eq!(read_u8(buf, 3), Err(Error::OutOfBounds));
}

#[test]
fn read_u16_big_endian() {
    let buf: &[u8] = &[0x12, 0x34, 0x56];
    assert_eq!(read_u16(buf, 0), Ok(0x1234));
    assert_eq!(read_u16(buf, 1), Ok(0x3456));
    assert_eq!(read_u16(buf, 2), Err(Error::OutOfBounds));
}

#[test]
fn read_u32_big_endian() {
    let buf: &[u8] = &[0x12, 0x34, 0x56, 0x78, 0x9a];
    assert_eq!(read_u32(buf, 0), Ok(0x12345678));
    assert_eq!(read_u32(buf, 1), Ok(0x3456789a));
    assert_eq!(read_u32(buf, 2), Err(Error::OutOfBounds));
}

#[test]
fn read_slice_variants() {
    let buf: &[u8] = &[1, 2, 3, 4];
    assert_eq!(read_slice(buf, 1, 3), Ok(&buf[1..3]));
    assert_eq!(read_slice(buf, 1, 5), Err(Error::OutOfBounds));
    assert_eq!(read_slice_inclusive(buf, 1, 3), Ok(&buf[1..=3]));
    assert_eq!(read_slice_inclusive(buf, 1, 4), Err(Error::OutOfBounds));
    assert_eq!(read_slice_after(buf, 2), Ok(&buf[2..]));
    assert_eq!(read_slice_after(buf, 4), Ok(&buf[4..]));
    assert_eq!(read_slice_after(buf, 5), Err(Error::OutOfBounds));
}

#[test]
fn sum_words_and_odd_byte() {
    // 0x0102 + 0x0300, the odd byte padded as the high byte of a final word
    let buf: &[u8] = &[1, 2, 3];
    let empty: &[u8] = &[];
    assert_eq!(sum(buf), 0x0402);
    assert_eq!(sum(empty), 0);
}

#[test]
fn sum_folds_carries() {
    // 0xffff + 0xffff = 0x1fffe; end-around carry folds back to 0xffff
    let buf: &[u8] = &[0xff, 0xff, 0xff, 0xff];
    assert_eq!(sum(buf), 0xffff);
}

#[test]
fn checksum_odd_span_equals_zero_padded_span() {
    let odd: &[u8] = &[1, 2, 3];
    let padded: &[u8] = &[1, 2, 3, 0];
    assert_eq!(checksum(&[odd]), checksum(&[padded]));
    assert_eq!(checksum(&[odd]), 0xffff - 0x0402);
}

#[test]
fn checksum_multiple_spans() {
    // Discontiguous spans accumulate as one stream: 0x0102 + 0x0304 = 0x0406
    let a: &[u8] = &[1, 2];
    let b: &[u8] = &[3, 4];
    assert_eq!(checksum(&[a, b]), 0xffff - 0x0406);
}

#[test]
fn checksum_of_real_ipv4_header_with_zeroed_field_matches_stored() {
    // The IPv4 header of the worked example, checksum field zeroed by
    // skipping it; the result must be the stored value 0xbc43.
    let header: &[u8] = &[
        0x45, 0x00, 0x00, 0x3b, 0x2d, 0xfd, 0x00, 0x00, 0x40, 0x11, 0xbc, 0x43, 0x83, 0xb3, 0xc4,
        0x2e, 0x83, 0xb3, 0xc4, 0xdc,
    ];
    assert_eq!(checksum(&[&header[0..10], &header[12..20]]), 0xbc43);
}
