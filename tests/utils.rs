use selene::encoder::F64Bits;
use selene::error_model::{errno_result, BatchResultBuilder, PluginCall, PluginError};
use selene::utils::{check_errno, metric_tag_buffer, read_raw_metric, MetricError, MetricValue};

fn tag_buf(tag: &[u8]) -> Vec<u8> {
    let mut b = vec![0u8; 256];
    b[..tag.len()].copy_from_slice(tag);
    b
}

#[test]
fn errno_zero_is_success() {
    assert_eq!(check_errno(0, || "bad"), Ok(()));
    assert_eq!(check_errno(-1, || "bad"), Err("bad"));
    assert!(errno_result(PluginCall::ShotStart, 0).is_ok());
    assert!(matches!(
        errno_result(PluginCall::ShotStart, 3),
        Err(PluginError::CallFailed { call: PluginCall::ShotStart, errno: 3 })
    ));
}

#[test]
fn metric_decoding() {
    assert!(read_raw_metric(1, &tag_buf(b"x"), 0, 0).unwrap().is_none());
    let m = read_raw_metric(0, &tag_buf(b"flips"), 2, 17).unwrap().unwrap();
    assert_eq!(m.tag, b"flips".to_vec());
    assert_eq!(m.value, MetricValue::U64(17));
    let m = read_raw_metric(0, &tag_buf(b"b"), 0, 5).unwrap().unwrap();
    assert_eq!(m.value, MetricValue::Bool(true));
    let m = read_raw_metric(0, &tag_buf(b"i"), 1, (-3i64) as u64).unwrap().unwrap();
    assert_eq!(m.value, MetricValue::I64(-3));
    let m = read_raw_metric(0, &tag_buf(b"f"), 3, 2.5f64.to_bits()).unwrap().unwrap();
    assert_eq!(m.value, MetricValue::F64(F64Bits(2.5f64.to_bits())));
    assert!(matches!(read_raw_metric(0, &tag_buf(b"f"), 4, 0), Err(MetricError::UnknownDataType(4))));
    assert!(matches!(read_raw_metric(0, &[b'a'; 256], 0, 0), Err(MetricError::TagTooLong)));
    assert!(matches!(read_raw_metric(0, &tag_buf(&[0xff, 0xfe]), 0, 0), Err(MetricError::TagNotUtf8)));
}

#[test]
fn metric_encoding_round_trip() {
    for v in [MetricValue::Bool(false), MetricValue::I64(-9), MetricValue::U64(4), MetricValue::F64(F64Bits(7))] {
        let (t, d) = v.raw_parts();
        let buf = metric_tag_buffer(b"tag").unwrap();
        let m = read_raw_metric(0, &buf, t, d).unwrap().unwrap();
        assert_eq!(m.value, v);
        assert_eq!(m.tag, b"tag".to_vec());
    }
    assert!(metric_tag_buffer(&[b'a'; 256]).is_none());
    assert!(metric_tag_buffer(b"a\0").is_none());
    assert_eq!(metric_tag_buffer(&[b'a'; 255]).unwrap().len(), 256);
}

#[test]
fn batch_result_builder_collects() {
    let mut b = BatchResultBuilder::new();
    b.set_bool_result(3, true);
    b.set_u64_result(4, 2);
    b.set_bool_result(5, false);
    let r = b.finish();
    assert_eq!(r.bool_results.len(), 2);
    assert_eq!((r.bool_results[1].result_id, r.bool_results[1].value), (5, false));
    assert_eq!((r.u64_results[0].result_id, r.u64_results[0].value), (4, 2));
}

#[test]
fn metric_tag_buffer_is_zero_padded() {
    let buf = metric_tag_buffer(b"ab").unwrap();
    let mut expected = vec![0u8; 256];
    expected[0] = b'a';
    expected[1] = b'b';
    assert_eq!(buf, expected);
}
