use vstd::prelude::*;

use vstd::string::StringSliceAdditionalSpecFns;

use crate::bytes::{le_bytes, push_le};

verus! {

/// Why a value could not be written to the output stream.
#[derive(Debug, Clone)]
pub enum OutputStreamError {
    /// A zero-length array of primitive values.
    EmptyArrayError,
    /// An array longer than a 16-bit length field can state; holds its length.
    OversizeArrayError(usize),
    /// A string longer than a 16-bit length field can state; holds its length in bytes.
    OversizeStringError(usize),
    /// A tag was missing.
    NullTagError,
    /// A string holding a zero byte; holds the string's bytes.
    CorruptedStringError(Vec<u8>),
    /// Any other failure, described in words.
    OtherError(String),
}

/// The kinds of encoding failure, as the contracts speak of them.
pub enum EncodeFailure {
    EmptyArray,
    OversizeArray(nat),
    OversizeString(nat),
    CorruptedString(Seq<u8>),
}

/// Whether the error value `e` reports the failure `f`.
pub open spec fn reports(e: OutputStreamError, f: EncodeFailure) -> bool {
    match f {
        EncodeFailure::EmptyArray => e is EmptyArrayError,
        EncodeFailure::OversizeArray(n) => e == OutputStreamError::OversizeArrayError(n as usize),
        EncodeFailure::OversizeString(n) => e == OutputStreamError::OversizeStringError(n as usize),
        EncodeFailure::CorruptedString(b) => e matches OutputStreamError::CorruptedStringError(v)
            && v@ == b,
    }
}

/// A tagged value on the wire: 16-bit type code, 16-bit length (0 for a single
/// scalar), then the payload; both integers little-endian.
pub open spec fn tagged(type_repr: u16, length: nat, payload: Seq<u8>) -> Seq<u8> {
    le_bytes(type_repr as nat, 2) + le_bytes(length, 2) + payload
}

/// The 8-byte little-endian time cursor that opens a message.
pub open spec fn message_start(time_cursor: u64) -> Seq<u8> {
    le_bytes(time_cursor as nat, 8)
}

/// The four zero bytes (type 0, length 0) that close a message.
pub open spec fn message_end() -> Seq<u8> {
    Seq::new(4, |_i: int| 0u8)
}

/// The eight 0xFF bytes that close the stream.
pub open spec fn stream_end() -> Seq<u8> {
    Seq::new(8, |_i: int| 0xFFu8)
}

/// A value that can be written to the stream as one tagged value.
pub trait StreamWritable {
    /// The type code written before the value.
    spec fn spec_type_repr() -> u16;

    /// The tagged value's bytes, or why it cannot be written.
    spec fn spec_encode(&self) -> Result<Seq<u8>, EncodeFailure>;

    fn type_repr() -> (r: u16)
        ensures
            r == Self::spec_type_repr(),
    ;

    /// Appends the tagged value to `out`; on failure `out` is left as it was.
    fn write(&self, out: &mut Vec<u8>) -> (r: Result<(), OutputStreamError>)
        ensures
            match self.spec_encode() {
                Ok(bytes) => r is Ok && final(out)@ == old(out)@ + bytes,
                Err(f) => (r matches Err(e) && reports(e, f)) && final(out)@ == old(out)@,
            },
    ;
}

/// A fixed-size scalar, which can stand alone or in an array.
pub trait StreamWritableSingle {
    spec fn spec_type_repr() -> u16;

    /// The scalar's payload bytes.
    spec fn spec_bytes(&self) -> Seq<u8>;

    fn type_repr() -> (r: u16)
        ensures
            r == Self::spec_type_repr(),
    ;

    fn write_impl(&self, out: &mut Vec<u8>)
        ensures
            final(out)@ == old(out)@ + self.spec_bytes(),
    ;
}

/// The payloads of `items`, one after another.
pub open spec fn concat_bytes<T: StreamWritableSingle>(items: Seq<T>) -> Seq<u8>
    decreases items.len(),
{
    if items.len() == 0 {
        Seq::empty()
    } else {
        concat_bytes(items.drop_last()) + items.last().spec_bytes()
    }
}

impl StreamWritableSingle for bool {
    open spec fn spec_type_repr() -> u16 {
        4
    }

    open spec fn spec_bytes(&self) -> Seq<u8> {
        seq![if *self { 1u8 } else { 0u8 }]
    }

    fn type_repr() -> (r: u16) {
        4
    }

    fn write_impl(&self, out: &mut Vec<u8>) {
        out.push(if *self { 1u8 } else { 0u8 });
    }
}

impl StreamWritableSingle for u64 {
    open spec fn spec_type_repr() -> u16 {
        1
    }

    open spec fn spec_bytes(&self) -> Seq<u8> {
        le_bytes(*self as nat, 8)
    }

    fn type_repr() -> (r: u16) {
        1
    }

    fn write_impl(&self, out: &mut Vec<u8>) {
        push_le(out, *self, 8);
    }
}

impl StreamWritableSingle for i64 {
    open spec fn spec_type_repr() -> u16 {
        5
    }

    /// Two's complement, little-endian.
    open spec fn spec_bytes(&self) -> Seq<u8> {
        le_bytes((*self as u64) as nat, 8)
    }

    fn type_repr() -> (r: u16) {
        5
    }

    fn write_impl(&self, out: &mut Vec<u8>) {
        push_le(out, *self as u64, 8);
    }
}

impl StreamWritableSingle for u8 {
    open spec fn spec_type_repr() -> u16 {
        9116
    }

    open spec fn spec_bytes(&self) -> Seq<u8> {
        seq![*self]
    }

    fn type_repr() -> (r: u16) {
        9116
    }

    fn write_impl(&self, out: &mut Vec<u8>) {
        out.push(*self);
    }
}

/// A 64-bit float, held as its IEEE-754 bit pattern.
#[derive(Debug, Clone, Copy, PartialEq, Eq, Structural)]
pub struct F64Bits(pub u64);

impl StreamWritableSingle for F64Bits {
    open spec fn spec_type_repr() -> u16 {
        2
    }

    open spec fn spec_bytes(&self) -> Seq<u8> {
        le_bytes(self.0 as nat, 8)
    }

    fn type_repr() -> (r: u16) {
        2
    }

    fn write_impl(&self, out: &mut Vec<u8>) {
        push_le(out, self.0, 8);
    }
}

impl<T: StreamWritableSingle> StreamWritable for T {
    open spec fn spec_type_repr() -> u16 {
        <T as StreamWritableSingle>::spec_type_repr()
    }

    /// A single scalar has length field 0.
    open spec fn spec_encode(&self) -> Result<Seq<u8>, EncodeFailure> {
        Ok(tagged(<T as StreamWritableSingle>::spec_type_repr(), 0, self.spec_bytes()))
    }

    fn type_repr() -> (r: u16) {
        <T as StreamWritableSingle>::type_repr()
    }

    fn write(&self, out: &mut Vec<u8>) -> (r: Result<(), OutputStreamError>) {
        let ghost start = out@;
        push_le(out, <T as StreamWritableSingle>::type_repr() as u64, 2);
        push_le(out, 0, 2);
        self.write_impl(out);
        assert(out@ =~= start + tagged(
            <T as StreamWritableSingle>::spec_type_repr(),
            0,
            self.spec_bytes(),
        ));
        Ok(())
    }
}

impl<'a, T: StreamWritableSingle> StreamWritable for &'a [T] {
    open spec fn spec_type_repr() -> u16 {
        <T as StreamWritableSingle>::spec_type_repr()
    }

    /// An array: its length, then its scalars packed under one type code.
    open spec fn spec_encode(&self) -> Result<Seq<u8>, EncodeFailure> {
        if self@.len() == 0 {
            Err(EncodeFailure::EmptyArray)
        } else if self@.len() > u16::MAX {
            Err(EncodeFailure::OversizeArray(self@.len()))
        } else {
            Ok(
                tagged(
                    <T as StreamWritableSingle>::spec_type_repr(),
                    self@.len(),
                    concat_bytes(self@),
                ),
            )
        }
    }

    fn type_repr() -> (r: u16) {
        <T as StreamWritableSingle>::type_repr()
    }

    fn write(&self, out: &mut Vec<u8>) -> (r: Result<(), OutputStreamError>) {
        let n = self.len();
        if n == 0 {
            return Err(OutputStreamError::EmptyArrayError);
        }
        if n > 65535 {
            return Err(OutputStreamError::OversizeArrayError(n));
        }
        let ghost start = out@;
        push_le(out, <T as StreamWritableSingle>::type_repr() as u64, 2);
        push_le(out, n as u64, 2);
        let ghost header = out@;
        let mut i: usize = 0;
        assert(self@.take(0) =~= Seq::<T>::empty());
        assert(header =~= header + concat_bytes(self@.take(0)));
        while i < n
            invariant
                n == self@.len(),
                i <= n,
                out@ == header + concat_bytes(self@.take(i as int)),
            decreases n - i,
        {
            self[i].write_impl(out);
            assert(self@.take(i + 1).drop_last() =~= self@.take(i as int));
            i += 1;
            assert(out@ =~= header + concat_bytes(self@.take(i as int)));
        }
        assert(self@.take(n as int) =~= self@);
        assert(out@ =~= start + tagged(
            <T as StreamWritableSingle>::spec_type_repr(),
            self@.len(),
            concat_bytes(self@),
        ));
        Ok(())
    }
}

impl<'a> StreamWritable for &'a str {
    open spec fn spec_type_repr() -> u16 {
        3
    }

    /// A string: its UTF-8 bytes, which may not hold a zero byte.
    open spec fn spec_encode(&self) -> Result<Seq<u8>, EncodeFailure> {
        let b = (**self).spec_bytes();
        if b.len() > u16::MAX {
            Err(EncodeFailure::OversizeString(b.len()))
        } else if b.contains(0u8) {
            Err(EncodeFailure::CorruptedString(b))
        } else {
            Ok(tagged(3, b.len(), b))
        }
    }

    fn type_repr() -> (r: u16) {
        3
    }

    fn write(&self, out: &mut Vec<u8>) -> (r: Result<(), OutputStreamError>) {
        write_string_bytes(self.as_bytes(), out)
    }
}

/// Appends a string value given by its UTF-8 bytes.
pub fn write_string_bytes(b: &[u8], out: &mut Vec<u8>) -> (r: Result<(), OutputStreamError>)
    ensures
        b@.len() > u16::MAX ==> r == Err::<(), _>(OutputStreamError::OversizeStringError(
            b@.len() as usize,
        )) && final(out)@ == old(out)@,
        b@.len() <= u16::MAX && b@.contains(0u8) ==> (r matches Err(
            OutputStreamError::CorruptedStringError(v),
        ) && v@ == b@) && final(out)@ == old(out)@,
        b@.len() <= u16::MAX && !b@.contains(0u8) ==> r is Ok && final(out)@ == old(out)@ + tagged(
            3,
            b@.len(),
            b@,
        ),
{
    let n = b.len();
    if n > 65535 {
        return Err(OutputStreamError::OversizeStringError(n));
    }
    let mut j: usize = 0;
    while j < n
        invariant
            n == b@.len(),
            n <= 65535,
            j <= n,
            forall|k: int| 0 <= k < j ==> b@[k] != 0u8,
        decreases n - j,
    {
        if b[j] == 0 {
            return Err(OutputStreamError::CorruptedStringError(vstd::slice::slice_to_vec(b)));
        }
        j += 1;
    }
    let ghost start = out@;
    push_le(out, 3, 2);
    push_le(out, n as u64, 2);
    let mut i: usize = 0;
    let ghost header = out@;
    while i < n
        invariant
            n == b@.len(),
            i <= n,
            out@ == header + b@.take(i as int),
        decreases n - i,
    {
        out.push(b[i]);
        i += 1;
        assert(out@ =~= header + b@.take(i as int));
    }
    assert(b@.take(n as int) =~= b@);
    assert(out@ =~= start + tagged(3, b@.len(), b@));
    Ok(())
}

/// Appends `count` copies of `byte` to `out`.
fn push_repeated(out: &mut Vec<u8>, byte: u8, count: usize)
    ensures
        final(out)@ == old(out)@ + Seq::new(count as nat, |_i: int| byte),
{
    let mut i: usize = 0;
    while i < count
        invariant
            i <= count,
            out@ == old(out)@ + Seq::new(i as nat, |_i: int| byte),
        decreases count - i,
    {
        out.push(byte);
        i += 1;
        assert(out@ =~= old(out)@ + Seq::new(i as nat, |_i: int| byte));
    }
}

/// The append-only output stream. Messages are encoded into a pending buffer;
/// `flush` hands the pending bytes to whoever writes them out.
pub struct OutputStream {
    pending: Vec<u8>,
    ended: bool,
}

impl View for OutputStream {
    type V = Seq<u8>;

    /// The bytes encoded and not yet flushed.
    closed spec fn view(&self) -> Seq<u8> {
        self.pending@
    }
}

impl OutputStream {
    /// Whether the end-of-stream marker has been written.
    pub closed spec fn is_ended(&self) -> bool {
        self.ended
    }

    /// An empty stream.
    pub fn new() -> (r: Self)
        ensures
            r@ == Seq::<u8>::empty(),
            !r.is_ended(),
    {
        OutputStream { pending: Vec::new(), ended: false }
    }

    /// Takes the pending bytes, leaving none.
    pub fn flush(&mut self) -> (r: Vec<u8>)
        ensures
            r@ == old(self)@,
            final(self)@ == Seq::<u8>::empty(),
            final(self).is_ended() == old(self).is_ended(),
    {
        let mut taken: Vec<u8> = Vec::new();
        std::mem::swap(&mut taken, &mut self.pending);
        taken
    }

    /// Opens a message stamped with `time_cursor`.
    pub fn begin_message(&mut self, time_cursor: u64)
        ensures
            final(self)@ == old(self)@ + message_start(time_cursor),
            final(self).is_ended() == old(self).is_ended(),
    {
        push_le(&mut self.pending, time_cursor, 8);
    }

    /// Closes the current message.
    pub fn end_message(&mut self)
        ensures
            final(self)@ == old(self)@ + message_end(),
            final(self).is_ended() == old(self).is_ended(),
    {
        push_repeated(&mut self.pending, 0, 4);
    }

    /// Writes the end-of-stream marker, unless it has been written already.
    pub fn end_of_stream(&mut self)
        ensures
            !old(self).is_ended() ==> final(self)@ == old(self)@ + stream_end(),
            old(self).is_ended() ==> final(self)@ == old(self)@,
            final(self).is_ended(),
    {
        if !self.ended {
            push_repeated(&mut self.pending, 0xFF, 8);
            self.ended = true;
        }
    }

    /// Writes one tagged value; a value that cannot be encoded leaves the stream unchanged.
    pub fn write<T: StreamWritable>(&mut self, value: T) -> (r: Result<(), OutputStreamError>)
        ensures
            match value.spec_encode() {
                Ok(bytes) => r is Ok && final(self)@ == old(self)@ + bytes,
                Err(f) => (r matches Err(e) && reports(e, f)) && final(self)@ == old(self)@,
            },
            final(self).is_ended() == old(self).is_ended(),
    {
        value.write(&mut self.pending)
    }

    /// Writes one string value given by its UTF-8 bytes.
    pub fn write_str_bytes(&mut self, b: &[u8]) -> (r: Result<(), OutputStreamError>)
        ensures
            b@.len() > u16::MAX ==> r == Err::<(), _>(OutputStreamError::OversizeStringError(
                b@.len() as usize,
            )) && final(self)@ == old(self)@,
            b@.len() <= u16::MAX && b@.contains(0u8) ==> (r matches Err(
                OutputStreamError::CorruptedStringError(v),
            ) && v@ == b@) && final(self)@ == old(self)@,
            b@.len() <= u16::MAX && !b@.contains(0u8) ==> r is Ok && final(self)@ == old(self)@
                + tagged(3, b@.len(), b@),
            final(self).is_ended() == old(self).is_ended(),
    {
        write_string_bytes(b, &mut self.pending)
    }
}

} // verus!
