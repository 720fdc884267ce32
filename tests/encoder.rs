use selene::encoder::{F64Bits, OutputStream, OutputStreamError};

fn u16_at(b: &[u8], i: usize) -> u16 {
    u16::from_le_bytes([b[i], b[i + 1]])
}

fn u64_at(b: &[u8], i: usize) -> u64 {
    let mut a = [0u8; 8];
    a.copy_from_slice(&b[i..i + 8]);
    u64::from_le_bytes(a)
}

#[test]
fn tagged_u64_message_round_trip() {
    let mut s = OutputStream::new();
    s.begin_message(123456789);
    s.write("X").unwrap();
    s.write(7u64).unwrap();
    s.end_message();
    let b = s.flush();
    // decode: time cursor, string value, u64 value, end sentinel
    assert_eq!(u64_at(&b, 0), 123456789);
    assert_eq!(u16_at(&b, 8), 3);
    assert_eq!(u16_at(&b, 10), 1);
    assert_eq!(&b[12..13], b"X");
    assert_eq!(u16_at(&b, 13), 1);
    assert_eq!(u16_at(&b, 15), 0);
    assert_eq!(u64_at(&b, 17), 7);
    assert_eq!(&b[25..29], &[0, 0, 0, 0]);
    assert_eq!(b.len(), 29);
    assert!(s.flush().is_empty());
}

#[test]
fn empty_array_is_rejected() {
    let mut s = OutputStream::new();
    let empty: &[u64] = &[];
    assert!(matches!(s.write(empty), Err(OutputStreamError::EmptyArrayError)));
    assert!(s.flush().is_empty());
}

#[test]
fn string_with_nul_is_rejected() {
    let mut s = OutputStream::new();
    match s.write("a\0b") {
        Err(OutputStreamError::CorruptedStringError(b)) => assert_eq!(b, b"a\0b".to_vec()),
        _ => panic!("expected a corrupted string error"),
    }
    assert!(s.flush().is_empty());
}

#[test]
fn oversize_values_are_rejected() {
    let mut s = OutputStream::new();
    let long = "a".repeat(65536);
    assert!(matches!(s.write(long.as_str()), Err(OutputStreamError::OversizeStringError(65536))));
    let big = vec![0u8; 65536];
    assert!(matches!(s.write(big.as_slice()), Err(OutputStreamError::OversizeArrayError(65536))));
    let ok = vec![1u8; 65535];
    assert!(s.write(ok.as_slice()).is_ok());
    assert_eq!(s.flush().len(), 4 + 65535);
}

#[test]
fn scalar_encodings() {
    let mut s = OutputStream::new();
    s.write(true).unwrap();
    s.write(-2i64).unwrap();
    s.write(0xABu8).unwrap();
    s.write(F64Bits(1.5f64.to_bits())).unwrap();
    let b = s.flush();
    assert_eq!(&b[0..5], &[4, 0, 0, 0, 1]);
    assert_eq!(&b[5..9], &[5, 0, 0, 0]);
    assert_eq!(&b[9..17], &(-2i64).to_le_bytes());
    assert_eq!(&b[17..22], &[0x9c, 0x23, 0, 0, 0xAB]);
    assert_eq!(&b[22..26], &[2, 0, 0, 0]);
    assert_eq!(&b[26..34], &1.5f64.to_le_bytes());
}

#[test]
fn array_encoding() {
    let mut s = OutputStream::new();
    let arr: &[u64] = &[1, 2];
    s.write(arr).unwrap();
    let bools: &[bool] = &[true, false, true];
    s.write(bools).unwrap();
    let b = s.flush();
    assert_eq!(u16_at(&b, 0), 1);
    assert_eq!(u16_at(&b, 2), 2);
    assert_eq!(u64_at(&b, 4), 1);
    assert_eq!(u64_at(&b, 12), 2);
    assert_eq!(&b[20..27], &[4, 0, 3, 0, 1, 0, 1]);
}

#[test]
fn end_of_stream_marker() {
    let mut s = OutputStream::new();
    s.end_of_stream();
    assert_eq!(s.flush(), vec![0xFF; 8]);
}

#[test]
fn end_of_stream_written_once() {
    let mut s = OutputStream::new();
    s.end_of_stream();
    s.end_of_stream();
    assert_eq!(s.flush(), vec![0xFF; 8]);
    s.end_of_stream();
    assert!(s.flush().is_empty());
}
