use vstd::prelude::*;

use crate::encoder::F64Bits;

verus! {

/// The errno convention of the plugin ABI: 0 is success.
pub type Errno = i32;

/// Size of the metric tag buffer: 255 usable bytes and a terminating zero.
pub const METRIC_TAG_BUFFER_LEN: usize = 256;

/// `Ok(())` when `errno` is 0, else the error that `mk_err` makes.
pub fn check_errno<E, F: FnOnce() -> E>(errno: Errno, mk_err: F) -> (r: Result<(), E>)
    requires
        errno != 0 ==> mk_err.requires(()),
    ensures
        errno == 0 <==> r is Ok,
        r matches Err(e) ==> mk_err.ensures((), e),
{
    if errno != 0 {
        Err(mk_err())
    } else {
        Ok(())
    }
}

/// A metric's value; the type discriminants of the ABI are 0 = bool, 1 = i64,
/// 2 = u64, 3 = f64.
#[derive(Debug, Clone, Copy, PartialEq, Eq, Structural)]
pub enum MetricValue {
    Bool(bool),
    I64(i64),
    U64(u64),
    F64(F64Bits),
}

/// A named metric as read across the plugin boundary; the tag is UTF-8.
#[derive(Debug, Clone)]
pub struct Metric {
    pub tag: Vec<u8>,
    pub value: MetricValue,
}

/// Why a metric read across the plugin boundary was refused.
#[derive(Debug, Clone, Copy, PartialEq, Eq, Structural)]
pub enum MetricError {
    /// The tag buffer was not zero-terminated within its 256 bytes.
    TagTooLong,
    /// The tag is not valid UTF-8.
    TagNotUtf8,
    /// The type discriminant is none of 0 to 3.
    UnknownDataType(u8),
}

/// The value that discriminant `data_type` and the 8-byte slot `data` stand for.
pub open spec fn spec_metric_value(data_type: u8, data: u64) -> Option<MetricValue> {
    if data_type == 0 {
        Some(MetricValue::Bool(data != 0))
    } else if data_type == 1 {
        Some(MetricValue::I64(data as i64))
    } else if data_type == 2 {
        Some(MetricValue::U64(data))
    } else if data_type == 3 {
        Some(MetricValue::F64(F64Bits(data)))
    } else {
        None
    }
}

/// The bytes of `buf` before its first zero byte (all of it if there is none).
pub open spec fn until_nul(buf: Seq<u8>) -> Seq<u8> {
    if buf.contains(0u8) {
        buf.take(buf.index_of_first(0u8).unwrap())
    } else {
        buf
    }
}

/// Relies on std::str::from_utf8: it succeeds exactly on valid UTF-8.
#[verifier::external_body]
fn is_utf8(b: &[u8]) -> (r: bool)
    ensures
        r == vstd::utf8::valid_utf8(b@),
{
    std::str::from_utf8(b).is_ok()
}

impl MetricValue {
    /// The type discriminant and the 8-byte slot that carry this value across the
    /// plugin boundary.
    pub fn raw_parts(&self) -> (r: (u8, u64))
        ensures
            spec_metric_value(r.0, r.1) == Some(*self),
            r.0 <= 3,
    {
        match self {
            MetricValue::Bool(b) => (0, if *b { 1 } else { 0 }),
            MetricValue::I64(i) => {
                let d = #[verifier::truncate] (*i as u64);
                let ii = *i;
                assert((#[verifier::truncate] (d as i64)) == ii) by (bit_vector)
                    requires
                        d == #[verifier::truncate] (ii as u64),
                ;
                (1, d)
            },
            MetricValue::U64(u) => (2, *u),
            MetricValue::F64(f) => (3, f.0),
        }
    }
}

/// Decodes what a metric entry point reported. A nonzero `errno` means the plugin
/// has no more metrics; otherwise `tag` is the 256-byte tag buffer, which must be
/// zero-terminated and UTF-8, and `data_type` and `data` the value.
pub fn read_raw_metric(errno: Errno, tag: &[u8], data_type: u8, data: u64) -> (r: Result<
    Option<Metric>,
    MetricError,
>)
    requires
        tag@.len() == METRIC_TAG_BUFFER_LEN,
    ensures
        errno != 0 ==> r == Ok::<Option<Metric>, MetricError>(None),
        errno == 0 && tag@[255] != 0 ==> r == Err::<Option<Metric>, _>(MetricError::TagTooLong),
        errno == 0 && tag@[255] == 0 && !vstd::utf8::valid_utf8(until_nul(tag@)) ==> r == Err::<
            Option<Metric>,
            _,
        >(MetricError::TagNotUtf8),
        errno == 0 && tag@[255] == 0 && vstd::utf8::valid_utf8(until_nul(tag@)) && spec_metric_value(
            data_type,
            data,
        ) is None ==> r == Err::<Option<Metric>, _>(MetricError::UnknownDataType(data_type)),
        errno == 0 && tag@[255] == 0 && vstd::utf8::valid_utf8(until_nul(tag@)) && spec_metric_value(
            data_type,
            data,
        ) is Some ==> (r matches Ok(Some(m)) && m.tag@ == until_nul(tag@) && Some(m.value)
            == spec_metric_value(data_type, data)),
{
    if errno != 0 {
        return Ok(None);
    }
    if tag[255] != 0 {
        return Err(MetricError::TagTooLong);
    }
    let mut n: usize = 0;
    while tag[n] != 0
        invariant
            tag@.len() == 256,
            tag@[255] == 0,
            n <= 255,
            forall|k: int| 0 <= k < n ==> tag@[k] != 0u8,
        decreases 255 - n,
    {
        n += 1;
    }
    let mut bytes: Vec<u8> = Vec::new();
    let mut i: usize = 0;
    while i < n
        invariant
            tag@.len() == 256,
            i <= n <= 255,
            bytes@ == tag@.take(i as int),
        decreases n - i,
    {
        bytes.push(tag[i]);
        i += 1;
        assert(bytes@ =~= tag@.take(i as int));
    }
    proof {
        assert(tag@.contains(0u8));
        let first = tag@.index_of_first(0u8);
        tag@.index_of_first_ensures(0u8);
        assert(first == Some(n as int));
        assert(bytes@ =~= until_nul(tag@));
    }
    if !is_utf8(bytes.as_slice()) {
        return Err(MetricError::TagNotUtf8);
    }
    let value = match data_type {
        0 => MetricValue::Bool(data != 0),
        1 => MetricValue::I64(#[verifier::truncate] (data as i64)),
        2 => MetricValue::U64(data),
        3 => MetricValue::F64(F64Bits(data)),
        _ => return Err(MetricError::UnknownDataType(data_type)),
    };
    Ok(Some(Metric { tag: bytes, value }))
}

/// Fills a 256-byte tag buffer with `tag` and a terminating zero; `None` where the
/// tag is longer than 255 bytes or holds a zero byte.
pub fn metric_tag_buffer(tag: &[u8]) -> (r: Option<Vec<u8>>)
    ensures
        (tag@.len() > 255 || tag@.contains(0u8)) ==> r is None,
        !(tag@.len() > 255 || tag@.contains(0u8)) ==> (r matches Some(buf) && buf@ == tag@
            + Seq::new((256 - tag@.len()) as nat, |_i: int| 0u8) && until_nul(buf@) == tag@),
{
    let n = tag.len();
    if n > 255 {
        return None;
    }
    let mut buf: Vec<u8> = Vec::new();
    let mut i: usize = 0;
    while i < n
        invariant
            n == tag@.len(),
            n <= 255,
            i <= n,
            buf@ == tag@.take(i as int),
            forall|k: int| 0 <= k < i ==> tag@[k] != 0u8,
        decreases n - i,
    {
        if tag[i] == 0 {
            return None;
        }
        buf.push(tag[i]);
        i += 1;
        assert(buf@ =~= tag@.take(i as int));
    }
    assert(tag@.take(n as int) =~= tag@);
    assert(!tag@.contains(0u8)) by {
        if tag@.contains(0u8) {
            let k = choose|k: int| 0 <= k < tag@.len() && tag@[k] == 0u8;
            assert(buf@[k] == 0u8);
        }
    }
    while buf.len() < 256
        invariant
            n <= buf@.len() <= 256,
            buf@.take(n as int) == tag@,
            forall|k: int| n <= k < buf@.len() ==> buf@[k] == 0u8,
        decreases 256 - buf@.len(),
    {
        buf.push(0);
        assert(buf@.take(n as int) =~= tag@);
    }
    proof {
        assert(buf@ =~= tag@ + Seq::new((256 - tag@.len()) as nat, |_i: int| 0u8));
        assert(buf@[n as int] == 0u8);
        assert(buf@.contains(0u8));
        buf@.index_of_first_ensures(0u8);
        let first = buf@.index_of_first(0u8).unwrap();
        assert(first == n) by {
            if first < n {
                assert(buf@[first] == tag@[first]);
            }
        }
    }
    Some(buf)
}

} // verus!
