use vstd::prelude::*;

use crate::bytes::{le_bytes, pow256, push_le};

verus! {

#[verifier::external_type_specification]
#[verifier::external_body]
pub struct ExDecodeError(base64::DecodeError);

/// The standard, padded base64 text of some bytes.
pub uninterp spec fn base64_encoding(b: Seq<u8>) -> Seq<char>;

/// The bytes that a standard, padded base64 text stands for, if it is well formed.
pub uninterp spec fn base64_decoding(s: Seq<char>) -> Option<Seq<u8>>;

/// Relies on base64's `Engine::encode` with the STANDARD engine.
#[verifier::external_body]
fn base64_encode(b: &[u8]) -> (r: String)
    ensures
        r@ == base64_encoding(b@),
{
    base64::Engine::encode(&base64::prelude::BASE64_STANDARD, b)
}

/// Relies on base64's `Engine::decode` with the STANDARD engine: it fails exactly
/// on malformed text.
#[verifier::external_body]
fn base64_decode(s: &str) -> (r: Result<Vec<u8>, base64::DecodeError>)
    ensures
        match r {
            Ok(v) => base64_decoding(s@) == Some(v@),
            Err(_) => base64_decoding(s@) is None,
        },
{
    base64::Engine::decode(&base64::prelude::BASE64_STANDARD, s)
}

/// Why an encoded argument could not be read.
#[derive(Debug, Clone, Copy, PartialEq, Eq, Structural)]
pub enum ArgError {
    /// The text is not valid base64.
    InvalidBase64,
    /// Fewer measurements were encoded than expected: `expected`, then `found`.
    MeasurementCountMismatch { expected: usize, found: usize },
    /// The counts add up to more than a `usize` holds.
    CountOverflow,
}

/// Bit `m` of a byte, counting from the most significant one.
pub open spec fn byte_bit(b: u8, m: int) -> bool {
    ((b >> ((7 - m) as u8)) & 1u8) == 1u8
}

/// Bit `i` of a byte string, most significant bit of each byte first.
pub open spec fn bit_at(bytes: Seq<u8>, i: int) -> bool {
    byte_bit(bytes[i / 8], i % 8)
}

/// `bytes` packs `bits`, eight to a byte, most significant bit first, with the
/// last byte padded with zero bits.
pub open spec fn packs(bytes: Seq<u8>, bits: Seq<bool>) -> bool {
    &&& bytes.len() == (bits.len() + 7) / 8
    &&& forall|i: int| 0 <= i < 8 * bytes.len() ==> bit_at(bytes, i) == (i < bits.len() && bits[i])
}

/// The first `count` bits of `bytes`.
pub open spec fn bits_of(bytes: Seq<u8>, count: nat) -> Seq<bool> {
    Seq::new(count, |i: int| bit_at(bytes, i))
}

/// The little-endian value of the first `i` bytes of `s`.
pub open spec fn le_prefix(s: Seq<u8>, i: nat) -> nat
    decreases i,
{
    if i == 0 {
        0
    } else {
        le_prefix(s, (i - 1) as nat) + s[i - 1] as nat * pow256((i - 1) as nat)
    }
}

/// The counts that a byte string holds: one per 4-byte little-endian chunk, the
/// last chunk possibly shorter.
pub open spec fn counts_of(bytes: Seq<u8>) -> Seq<nat> {
    Seq::new(
        ((bytes.len() + 3) / 4) as nat,
        |j: int|
            le_prefix(
                bytes.subrange(4 * j, vstd::math::min(4 * j + 4, bytes.len() as int)),
                (vstd::math::min(4 * j + 4, bytes.len() as int) - 4 * j) as nat,
            ),
    )
}

/// The bytes that encode `counts`: four little-endian bytes each.
pub open spec fn count_bytes(counts: Seq<usize>) -> Seq<u8>
    decreases counts.len(),
{
    if counts.len() == 0 {
        Seq::empty()
    } else {
        count_bytes(counts.drop_last()) + le_bytes(counts.last() as nat, 4)
    }
}

/// The sum of the first `j` counts.
pub open spec fn prefix_sum(counts: Seq<usize>, j: nat) -> nat
    decreases j,
{
    if j == 0 {
        0
    } else {
        prefix_sum(counts, (j - 1) as nat) + counts[j - 1] as nat
    }
}

proof fn lemma_set_bit(b: u8, s: u8, t: u8)
    requires
        s < 8,
        t < 8,
    ensures
        (((b | (1u8 << s)) >> t) & 1u8 == 1u8) == (s == t || ((b >> t) & 1u8) == 1u8),
{
    assert((((b | (1u8 << s)) >> t) & 1u8 == 1u8) == (s == t || ((b >> t) & 1u8) == 1u8))
        by (bit_vector)
        requires
            s < 8,
            t < 8,
    ;
}

proof fn lemma_zero_bits(t: u8)
    requires
        t < 8,
    ensures
        ((0u8 >> t) & 1u8) != 1u8,
{
    assert(((0u8 >> t) & 1u8) != 1u8) by (bit_vector);
}

/// The byte packing `bits[start..start + 8]`, zero bits past the end.
fn pack_byte(bits: &[bool], start: usize) -> (r: u8)
    requires
        start < bits@.len(),
    ensures
        forall|m: int|
            0 <= m < 8 ==> #[trigger] byte_bit(r, m) == (start + m < bits@.len() && bits@[start
                + m]),
{
    let n = bits.len();
    let mut byte: u8 = 0;
    let mut k: usize = 0;
    proof {
        assert forall|m: int| 0 <= m < 8 implies !byte_bit(byte, m) by {
            lemma_zero_bits((7 - m) as u8);
        }
    }
    while k < 8
        invariant
            n == bits@.len(),
            start < n,
            k <= 8,
            forall|m: int|
                0 <= m < 8 ==> #[trigger] byte_bit(byte, m) == (m < k && start + m < n
                    && bits@[start + m]),
        decreases 8 - k,
    {
        if k < n - start && bits[start + k] {
            let ghost old_byte = byte;
            byte = byte | (1u8 << ((7 - k) as u8));
            proof {
                assert forall|m: int| 0 <= m < 8 implies #[trigger] byte_bit(byte, m) == (m < k + 1
                    && start + m < n && bits@[start + m]) by {
                    lemma_set_bit(old_byte, (7 - k) as u8, (7 - m) as u8);
                    assert(byte_bit(old_byte, m) == (m < k && start + m < n && bits@[start + m]));
                }
            }
        }
        k += 1;
    }
    byte
}

/// Packs measurement bits into bytes, most significant bit first.
pub fn pack_measurements(bits: &[bool]) -> (r: Vec<u8>)
    ensures
        packs(r@, bits@),
{
    let n = bits.len();
    let nbytes = n / 8 + if n % 8 == 0 { 0 } else { 1 };
    let mut out: Vec<u8> = Vec::new();
    let mut j: usize = 0;
    while j < nbytes
        invariant
            n == bits@.len(),
            nbytes == (n + 7) / 8,
            j <= nbytes,
            out@.len() == j,
            forall|i: int| 0 <= i < 8 * j ==> bit_at(out@, i) == (i < n && bits@[i]),
        decreases nbytes - j,
    {
        let b = pack_byte(bits, 8 * j);
        out.push(b);
        proof {
            assert forall|i: int| 0 <= i < 8 * (j + 1) implies bit_at(out@, i) == (i < n
                && bits@[i]) by {
                if i >= 8 * j {
                    let m = i - 8 * j;
                    assert(i / 8 == j && i % 8 == m);
                } else {
                    assert(i / 8 < j);
                }
            }
        }
        j += 1;
    }
    out
}

/// The base64 text of the packed measurement bits.
pub fn encode_measurements(measurements: &[bool]) -> (r: String)
    ensures
        exists|b: Seq<u8>| packs(b, measurements@) && r@ == base64_encoding(b),
{
    let bytes = pack_measurements(measurements);
    base64_encode(bytes.as_slice())
}

/// The first `count` bits of `bytes`; an error where fewer bits are there.
pub fn unpack_measurements(bytes: &[u8], count: usize) -> (r: Result<Vec<bool>, ArgError>)
    ensures
        8 * bytes@.len() < count ==> r == Err::<Vec<bool>, _>(
            ArgError::MeasurementCountMismatch { expected: count, found: (8 * bytes@.len()) as usize },
        ),
        8 * bytes@.len() >= count ==> (r matches Ok(v) && v@ == bits_of(bytes@, count as nat)),
{
    let needed = count / 8 + if count % 8 == 0 { 0 } else { 1 };
    if needed > bytes.len() {
        return Err(ArgError::MeasurementCountMismatch { expected: count, found: 8 * bytes.len() });
    }
    let mut out: Vec<bool> = Vec::new();
    let mut i: usize = 0;
    while i < count
        invariant
            8 * bytes@.len() >= count,
            i <= count,
            out@ == bits_of(bytes@, i as nat),
        decreases count - i,
    {
        let byte = bytes[i / 8];
        let bit = ((byte >> ((7 - i % 8) as u8)) & 1u8) == 1u8;
        out.push(bit);
        i += 1;
        assert(out@ =~= bits_of(bytes@, i as nat));
    }
    Ok(out)
}

/// Decodes base64 text holding `measurement_count` packed measurement bits.
pub fn decode_measurements(encoded: &str, measurement_count: usize) -> (r: Result<
    Vec<bool>,
    ArgError,
>)
    ensures
        base64_decoding(encoded@) is None ==> r == Err::<Vec<bool>, _>(ArgError::InvalidBase64),
        base64_decoding(encoded@) matches Some(b) ==> (8 * b.len() < measurement_count ==> r
            == Err::<Vec<bool>, _>(
            ArgError::MeasurementCountMismatch {
                expected: measurement_count,
                found: (8 * b.len()) as usize,
            },
        )) && (8 * b.len() >= measurement_count ==> (r matches Ok(v) && v@ == bits_of(
            b,
            measurement_count as nat,
        ))),
{
    let bytes = match base64_decode(encoded) {
        Ok(b) => b,
        Err(_) => return Err(ArgError::InvalidBase64),
    };
    unpack_measurements(bytes.as_slice(), measurement_count)
}

proof fn lemma_le_prefix_bound(s: Seq<u8>, i: nat)
    requires
        i <= s.len(),
    ensures
        le_prefix(s, i) < pow256(i),
    decreases i,
{
    if i > 0 {
        lemma_le_prefix_bound(s, (i - 1) as nat);
        let p = pow256((i - 1) as nat);
        let a = le_prefix(s, (i - 1) as nat);
        let b = s[i - 1] as nat;
        assert(b <= 255);
        assert(a + b * p < 256 * p) by (nonlinear_arith)
            requires
                a < p,
                b <= 255,
        ;
    }
}

/// The counts held by `bytes`, one per 4-byte little-endian chunk.
pub fn counts_from_bytes(bytes: &[u8]) -> (r: Vec<usize>)
    ensures
        r@.len() == counts_of(bytes@).len(),
        forall|j: int| 0 <= j < r@.len() ==> r@[j] as nat == counts_of(bytes@)[j],
{
    let n = bytes.len();
    let mut out: Vec<usize> = Vec::new();
    let mut start: usize = 0;
    let ghost spec_counts = counts_of(bytes@);
    while start < n
        invariant
            n == bytes@.len(),
            spec_counts == counts_of(bytes@),
            start <= n,
            start % 4 == 0 || start == n,
            out@.len() == (start + 3) / 4,
            forall|j: int| 0 <= j < out@.len() ==> out@[j] as nat == spec_counts[j],
        decreases n - start,
    {
        let end: usize = if n - start < 4 { n } else { start + 4 };
        let ghost chunk = bytes@.subrange(start as int, end as int);
        let mut value: u64 = 0;
        let mut mult: u64 = 1;
        let mut i: usize = 0;
        while i < end - start
            invariant
                n == bytes@.len(),
                start < end <= n,
                end - start <= 4,
                chunk == bytes@.subrange(start as int, end as int),
                i <= end - start,
                value as nat == le_prefix(chunk, i as nat),
                i <= 3 ==> mult as nat == pow256(i as nat),
                mult <= 0x100_0000,
            decreases end - start - i,
        {
            proof {
                lemma_le_prefix_bound(chunk, (i + 1) as nat);
                reveal_with_fuel(pow256, 5);
            }
            value = value + (bytes[start + i] as u64) * mult;
            if i < 3 {
                mult = mult * 256;
            }
            i += 1;
        }
        proof {
            lemma_le_prefix_bound(chunk, (end - start) as nat);
            reveal_with_fuel(pow256, 5);
            assert(start % 4 == 0);
            assert(start / 4 < spec_counts.len());
            assert(4 * (start / 4) == start);
            assert(out@.len() == start / 4);
        }
        out.push(value as usize);
        start = end;
    }
    out
}

/// Decodes base64 text holding 4-byte little-endian counts.
pub fn decode_counts(encoded: &str) -> (r: Result<Vec<usize>, ArgError>)
    ensures
        base64_decoding(encoded@) is None ==> r == Err::<Vec<usize>, _>(ArgError::InvalidBase64),
        base64_decoding(encoded@) matches Some(b) ==> (r matches Ok(v) && v@.len() == counts_of(
            b,
        ).len() && forall|j: int| 0 <= j < v@.len() ==> v@[j] as nat == counts_of(b)[j]),
{
    let bytes = match base64_decode(encoded) {
        Ok(b) => b,
        Err(_) => return Err(ArgError::InvalidBase64),
    };
    Ok(counts_from_bytes(bytes.as_slice()))
}

/// Each count as four little-endian bytes (counts above 32 bits keep their low bits).
pub fn counts_to_bytes(counts: &[usize]) -> (r: Vec<u8>)
    ensures
        r@ == count_bytes(counts@),
{
    let mut out: Vec<u8> = Vec::new();
    let mut j: usize = 0;
    while j < counts.len()
        invariant
            j <= counts@.len(),
            out@ == count_bytes(counts@.take(j as int)),
        decreases counts@.len() - j,
    {
        push_le(&mut out, counts[j] as u64, 4);
        assert(counts@.take(j + 1).drop_last() =~= counts@.take(j as int));
        j += 1;
    }
    assert(counts@.take(counts@.len() as int) =~= counts@);
    out
}

/// The base64 text of the counts, four little-endian bytes each.
pub fn encode_counts(counts: Vec<usize>) -> (r: String)
    ensures
        r@ == base64_encoding(count_bytes(counts@)),
{
    let bytes = counts_to_bytes(counts.as_slice());
    base64_encode(bytes.as_slice())
}

/// Splits `all` into consecutive runs of the given lengths.
pub fn split_measurements(counts: &[usize], all: &[bool]) -> (r: Vec<Vec<bool>>)
    requires
        prefix_sum(counts@, counts@.len()) == all@.len(),
    ensures
        r@.len() == counts@.len(),
        forall|j: int|
            0 <= j < r@.len() ==> r@[j]@ == all@.subrange(
                prefix_sum(counts@, j as nat) as int,
                prefix_sum(counts@, (j + 1) as nat) as int,
            ),
{
    let total_len = all.len();
    let mut out: Vec<Vec<bool>> = Vec::new();
    let mut pos: usize = 0;
    let mut j: usize = 0;
    while j < counts.len()
        invariant
            j <= counts@.len(),
            prefix_sum(counts@, counts@.len()) == all@.len(),
            all@.len() == total_len,
            pos as nat == prefix_sum(counts@, j as nat),
            pos <= all@.len(),
            out@.len() == j,
            forall|k: int|
                0 <= k < j ==> out@[k]@ == all@.subrange(
                    prefix_sum(counts@, k as nat) as int,
                    prefix_sum(counts@, (k + 1) as nat) as int,
                ),
        decreases counts@.len() - j,
    {
        proof {
            lemma_prefix_sum_mono(counts@, (j + 1) as nat, counts@.len());
        }
        assert(prefix_sum(counts@, (j + 1) as nat) == prefix_sum(counts@, j as nat)
            + counts@[j as int]);
        let end = pos + counts[j];
        let mut run: Vec<bool> = Vec::new();
        let mut i: usize = pos;
        while i < end
            invariant
                pos <= i <= end,
                end <= all@.len(),
                run@ == all@.subrange(pos as int, i as int),
            decreases end - i,
        {
            run.push(all[i]);
            i += 1;
            assert(run@ =~= all@.subrange(pos as int, i as int));
        }
        out.push(run);
        pos = end;
        j += 1;
    }
    out
}

proof fn lemma_prefix_sum_mono(counts: Seq<usize>, a: nat, b: nat)
    requires
        a <= b <= counts.len(),
    ensures
        prefix_sum(counts, a) <= prefix_sum(counts, b),
    decreases b - a,
{
    if a < b {
        lemma_prefix_sum_mono(counts, a, (b - 1) as nat);
    }
}

/// The sum of the counts, or `None` where it exceeds `usize`.
pub fn checked_total(counts: &[usize]) -> (r: Option<usize>)
    ensures
        prefix_sum(counts@, counts@.len()) <= usize::MAX ==> r == Some(
            prefix_sum(counts@, counts@.len()) as usize,
        ),
        prefix_sum(counts@, counts@.len()) > usize::MAX ==> r is None,
{
    let mut total: usize = 0;
    let mut j: usize = 0;
    while j < counts.len()
        invariant
            j <= counts@.len(),
            total as nat == prefix_sum(counts@, j as nat),
        decreases counts@.len() - j,
    {
        match total.checked_add(counts[j]) {
            Some(t) => total = t,
            None => {
                proof {
                    lemma_prefix_sum_mono(counts@, (j + 1) as nat, counts@.len());
                }
                return None;
            },
        }
        j += 1;
    }
    Some(total)
}

/// Reads the per-shot measurement records: `counts_str` holds how many
/// measurements each shot made, `measurements_str` all of them packed in order.
pub fn parse_measurement_strings(measurements_str: String, counts_str: String) -> (r: Result<
    Vec<Vec<bool>>,
    ArgError,
>)
    ensures
        base64_decoding(counts_str@) is None ==> r == Err::<Vec<Vec<bool>>, _>(
            ArgError::InvalidBase64,
        ),
        r matches Ok(v) ==> exists|counts: Seq<usize>, bits: Seq<u8>|
            {
                &&& base64_decoding(counts_str@) matches Some(cb)
                &&& counts.len() == counts_of(cb).len()
                &&& (forall|j: int| 0 <= j < counts.len() ==> counts[j] as nat == counts_of(cb)[j])
                &&& base64_decoding(measurements_str@) == Some(bits)
                &&& v@.len() == counts.len()
                &&& #[trigger] bits_of(bits, prefix_sum(counts, counts.len())) == bits_of(
                    bits,
                    prefix_sum(counts, counts.len()),
                )
                &&& forall|j: int|
                    0 <= j < v@.len() ==> v@[j]@ == bits_of(
                        bits,
                        prefix_sum(counts, counts.len()),
                    ).subrange(
                        prefix_sum(counts, j as nat) as int,
                        prefix_sum(counts, (j + 1) as nat) as int,
                    )
            },
{
    let counts = match decode_counts(counts_str.as_str()) {
        Ok(c) => c,
        Err(e) => return Err(e),
    };
    let total = match checked_total(counts.as_slice()) {
        Some(t) => t,
        None => return Err(ArgError::CountOverflow),
    };
    let all = match decode_measurements(measurements_str.as_str(), total) {
        Ok(a) => a,
        Err(e) => return Err(e),
    };
    let result = split_measurements(counts.as_slice(), all.as_slice());
    proof {
        let cb = base64_decoding(counts_str@)->Some_0;
        let bits = base64_decoding(measurements_str@)->Some_0;
        assert(all@ == bits_of(bits, prefix_sum(counts@, counts@.len())));
    }
    Ok(result)
}

} // verus!
