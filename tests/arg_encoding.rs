use selene::arg_encoding::{
    counts_from_bytes, decode_counts, decode_measurements, encode_counts, encode_measurements,
    pack_measurements, parse_measurement_strings, unpack_measurements, ArgError,
};

#[test]
fn measurements_pack_msb_first() {
    let bits = [true, false, true, true, false, false, false, false, true];
    assert_eq!(pack_measurements(&bits), vec![0xB0, 0x80]);
    assert_eq!(encode_measurements(&bits), "sIA=");
    assert_eq!(pack_measurements(&[]), Vec::<u8>::new());
}

#[test]
fn measurements_round_trip() {
    let bits = [true, false, true, true, false, false, false, false, true];
    let text = encode_measurements(&bits);
    assert_eq!(decode_measurements(&text, 9).unwrap(), bits.to_vec());
    assert_eq!(decode_measurements(&text, 3).unwrap(), vec![true, false, true]);
    assert_eq!(
        decode_measurements(&text, 17),
        Err(ArgError::MeasurementCountMismatch { expected: 17, found: 16 })
    );
    assert_eq!(decode_measurements("not base64!", 1), Err(ArgError::InvalidBase64));
    assert_eq!(unpack_measurements(&[0b1010_0000], 4).unwrap(), vec![true, false, true, false]);
}

#[test]
fn counts_round_trip() {
    assert_eq!(encode_counts(vec![3, 258]), "AwAAAAIBAAA=");
    assert_eq!(decode_counts("AwAAAAIBAAA=").unwrap(), vec![3, 258]);
    assert_eq!(counts_from_bytes(&[1, 2, 3, 4, 5]), vec![0x04030201, 5]);
    assert_eq!(counts_from_bytes(&[]), Vec::<usize>::new());
    assert_eq!(decode_counts("%%"), Err(ArgError::InvalidBase64));
}

#[test]
fn parse_per_shot_measurements() {
    let counts = encode_counts(vec![1, 2]);
    let bits = encode_measurements(&[true, false, true]);
    let shots = parse_measurement_strings(bits, counts).unwrap();
    assert_eq!(shots, vec![vec![true], vec![false, true]]);
    let counts = encode_counts(vec![9]);
    assert_eq!(
        parse_measurement_strings("oA==".to_string(), counts),
        Err(ArgError::MeasurementCountMismatch { expected: 9, found: 8 })
    );
}
