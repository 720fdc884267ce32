use vstd::prelude::*;

use vstd::string::{StrSliceExecFns, StringSliceAdditionalSpecFns};

use crate::emulator::{Emulator, EmulatorError, EventHook};
use crate::encoder::{
    message_end, message_start, tagged, OutputStream, OutputStreamError, StreamWritable,
};
use crate::error_model::{ErrorModelInterface, PluginError};
use crate::runtime::fresh;
use crate::utils::{Metric, MetricValue};

verus! {

#[verifier::external_type_specification]
#[verifier::external_body]
pub struct ExPcg32(rand_pcg::Lcg64Xsh32);

/// Relies on rand_pcg::Lcg64Xsh32::new: a PCG32 stream from a state and a stream selector.
#[verifier::external_body]
fn pcg32_new(state: u64, stream: u64) -> rand_pcg::Lcg64Xsh32 {
    rand_pcg::Lcg64Xsh32::new(state, stream)
}

/// Relies on rand_pcg::Lcg64Xsh32::advance: moves the stream `delta` steps on
/// (cyclic in u64, so a large delta rewinds).
#[verifier::external_body]
fn pcg32_advance(rng: &mut rand_pcg::Lcg64Xsh32, delta: u64) {
    rng.advance(delta)
}

/// Relies on rand::Rng::random for u32 on a PCG32 stream: the next 32-bit output.
#[verifier::external_body]
fn pcg32_next_u32(rng: &mut rand_pcg::Lcg64Xsh32) -> u32 {
    rand::Rng::random::<u32>(rng)
}

/// What a session is configured with, besides the plugins themselves.
#[derive(Debug, Clone, Copy, PartialEq, Eq, Structural)]
pub struct InstanceConfig {
    pub n_qubits: u64,
    pub shot_offset: u64,
    pub shot_increment: u64,
    pub runtime_seed: u64,
    pub error_model_seed: u64,
    pub simulator_seed: u64,
    pub provide_metrics: bool,
}

/// Why a session call failed.
#[derive(Debug, Clone)]
pub enum InstanceError {
    Emulator(EmulatorError),
    Plugin(PluginError),
    Output(OutputStreamError),
    /// The host-side random stream was used before it was seeded.
    PrngNotSeeded,
    /// A bounded draw was asked for with bound 0.
    ZeroBound,
    /// Every draw of a bounded sample was rejected.
    SamplingExhausted,
}

/// The prefix of every exit and panic tag.
pub open spec fn exit_prefix() -> Seq<u8> {
    "EXIT:INT:".spec_bytes()
}

/// The tag written for an exit or panic with `message`: the message itself where
/// it already carries the exit prefix, else the prefix and the message.
pub open spec fn exit_tag(message: Seq<u8>) -> Seq<u8> {
    if message.len() >= exit_prefix().len() && message.take(exit_prefix().len() as int)
        == exit_prefix() {
        message
    } else {
        exit_prefix() + message
    }
}

/// The name of a metric value's type in a metric tag.
pub open spec fn metric_type_name(v: MetricValue) -> Seq<u8> {
    match v {
        MetricValue::Bool(_) => "BOOL".spec_bytes(),
        MetricValue::I64(_) => "INT".spec_bytes(),
        MetricValue::U64(_) => "INT".spec_bytes(),
        MetricValue::F64(_) => "FLOAT".spec_bytes(),
    }
}

/// `METRICS:<TYPE>:<category>:<tag>`.
pub open spec fn metric_tag(v: MetricValue, category: Seq<u8>, tag: Seq<u8>) -> Seq<u8> {
    "METRICS:".spec_bytes() + metric_type_name(v) + ":".spec_bytes() + category + ":".spec_bytes()
        + tag
}

/// The encoded value of a metric.
pub open spec fn metric_value_bytes(v: MetricValue) -> Seq<u8> {
    match v {
        MetricValue::Bool(b) => b.spec_encode()->Ok_0,
        MetricValue::I64(i) => i.spec_encode()->Ok_0,
        MetricValue::U64(u) => u.spec_encode()->Ok_0,
        MetricValue::F64(f) => f.spec_encode()->Ok_0,
    }
}

/// Whether a character is kept in a file name slug.
pub open spec fn slug_keeps(c: char) -> bool {
    ('a' <= c && c <= 'z') || ('A' <= c && c <= 'Z') || ('0' <= c && c <= '9')
}

/// `message` with every character other than an ASCII letter or digit replaced by `_`.
pub open spec fn slug_chars(message: Seq<char>) -> Seq<u8> {
    Seq::new(message.len(), |i: int| if slug_keeps(message[i]) { message[i] as u8 } else { 95u8 })
}

/// The accepted draw of a bounded sample: `r mod bound`, unless `r` falls below
/// `2^32 mod bound`, where it is rejected so that every residue is equally likely.
pub open spec fn spec_bounded_sample(r: u32, bound: u32) -> Option<u32> {
    let threshold = ((0x1_0000_0000 - bound as int) % bound as int);
    if r >= threshold {
        Some((r % bound) as u32)
    } else {
        None
    }
}

/// One step of bounded sampling by rejection: `Some(r % bound)` where `r` is at
/// or above `2^32 mod bound`, else `None` (draw again).
pub fn bounded_sample(r: u32, bound: u32) -> (s: Option<u32>)
    requires
        bound > 0,
    ensures
        s == spec_bounded_sample(r, bound),
        s matches Some(x) ==> x < bound,
{
    let threshold = ((u32::MAX - bound) + 1) % bound;
    if r >= threshold {
        Some(r % bound)
    } else {
        None
    }
}

/// The tag for an exit or panic with the UTF-8 `message`.
pub fn exit_tag_bytes(message: &[u8]) -> (r: Vec<u8>)
    ensures
        r@ == exit_tag(message@),
{
    let prefix = "EXIT:INT:".as_bytes();
    let n = prefix.len();
    let mut starts = message.len() >= n;
    let mut i: usize = 0;
    while starts && i < n
        invariant
            n == prefix@.len(),
            prefix@ == exit_prefix(),
            i <= n,
            starts ==> message@.len() >= n,
            starts ==> forall|k: int| 0 <= k < i ==> message@[k] == prefix@[k],
            !starts ==> !(message@.len() >= n && message@.take(n as int) == prefix@),
        decreases n - i,
    {
        if message[i] != prefix[i] {
            starts = false;
            assert(message@.take(n as int)[i as int] != prefix@[i as int]);
        }
        i += 1;
    }
    if starts {
        assert(message@.take(n as int) =~= prefix@);
        vstd::slice::slice_to_vec(message)
    } else {
        let mut out = vstd::slice::slice_to_vec(prefix);
        let mut j: usize = 0;
        while j < message.len()
            invariant
                j <= message@.len(),
                out@ == prefix@ + message@.take(j as int),
            decreases message@.len() - j,
        {
            out.push(message[j]);
            j += 1;
            assert(out@ =~= prefix@ + message@.take(j as int));
        }
        assert(message@.take(message@.len() as int) =~= message@);
        out
    }
}

/// The slug of `message` for naming a state file: ASCII letters and digits kept,
/// every other character made `_`, and leading and trailing `_` removed.
pub fn filename_slug(message: &str) -> (r: Vec<u8>)
    ensures
        exists|lo: int, hi: int|
            0 <= lo <= hi <= message@.len() && r@ == slug_chars(message@).subrange(lo, hi) && (
            forall|k: int| 0 <= k < lo ==> slug_chars(message@)[k] == 95u8) && (forall|k: int|
                hi <= k < message@.len() ==> slug_chars(message@)[k] == 95u8) && (r@.len() > 0
                ==> r@[0] != 95u8 && r@.last() != 95u8),
{
    let n = message.unicode_len();
    let mut full: Vec<u8> = Vec::new();
    let mut i: usize = 0;
    while i < n
        invariant
            n == message@.len(),
            i <= n,
            full@ == slug_chars(message@).take(i as int),
        decreases n - i,
    {
        let c = message.get_char(i);
        let keep = ('a' <= c && c <= 'z') || ('A' <= c && c <= 'Z') || ('0' <= c && c <= '9');
        full.push(if keep { c as u8 } else { 95u8 });
        i += 1;
        assert(full@ =~= slug_chars(message@).take(i as int));
    }
    assert(full@ =~= slug_chars(message@));
    let mut lo: usize = 0;
    while lo < n && full[lo] == 95
        invariant
            n == full@.len(),
            lo <= n,
            forall|k: int| 0 <= k < lo ==> full@[k] == 95u8,
        decreases n - lo,
    {
        lo += 1;
    }
    let mut hi: usize = n;
    while hi > lo && full[hi - 1] == 95
        invariant
            n == full@.len(),
            lo <= hi <= n,
            forall|k: int| hi <= k < n ==> full@[k] == 95u8,
        decreases hi,
    {
        hi -= 1;
    }
    let mut out: Vec<u8> = Vec::new();
    let mut k: usize = lo;
    while k < hi
        invariant
            n == full@.len(),
            lo <= k <= hi <= n,
            out@ == full@.subrange(lo as int, k as int),
        decreases hi - k,
    {
        out.push(full[k]);
        k += 1;
        assert(out@ =~= full@.subrange(lo as int, k as int));
    }
    out
}

/// One metric message: `METRICS:<TYPE>:<category>:<tag>`, then the value.
pub open spec fn metric_message_of(
    t: u64,
    category: Seq<u8>,
    tag: Seq<u8>,
    value: MetricValue,
) -> Seq<u8> {
    let full = metric_tag(value, category, tag);
    message_start(t) + tagged(3, full.len(), full) + metric_value_bytes(value) + message_end()
}

/// One metric message per metric of `ms`, in order.
pub open spec fn metric_messages(t: u64, category: Seq<u8>, ms: Seq<Metric>) -> Seq<u8>
    decreases ms.len(),
{
    if ms.len() == 0 {
        Seq::empty()
    } else {
        metric_messages(t, category, ms.drop_last()) + metric_message_of(
            t,
            category,
            ms.last().tag@,
            ms.last().value,
        )
    }
}

/// The message reporting the shot number.
pub open spec fn shot_number_message(t: u64, shot_number: u64) -> Seq<u8> {
    metric_message_of(
        t,
        "emulator".spec_bytes(),
        "shot_number".spec_bytes(),
        MetricValue::U64(shot_number),
    )
}

proof fn lemma_ascii_literals()
    ensures
        "METRICS:".spec_bytes() == seq![77u8, 69, 84, 82, 73, 67, 83, 58],
        "INT".spec_bytes() == seq![73u8, 78, 84],
        ":".spec_bytes() == seq![58u8],
        "emulator".spec_bytes() == seq![101u8, 109, 117, 108, 97, 116, 111, 114],
        "shot_number".spec_bytes() == seq![115u8, 104, 111, 116, 95, 110, 117, 109, 98, 101, 114],
{
    reveal_strlit("METRICS:");
    reveal_strlit("INT");
    reveal_strlit(":");
    reveal_strlit("emulator");
    reveal_strlit("shot_number");
    assert(vstd::utf8::is_ascii_chars("METRICS:"@));
    assert(vstd::utf8::is_ascii_chars("INT"@));
    assert(vstd::utf8::is_ascii_chars(":"@));
    assert(vstd::utf8::is_ascii_chars("emulator"@));
    assert(vstd::utf8::is_ascii_chars("shot_number"@));
    vstd::utf8::is_ascii_chars_encode_utf8("METRICS:"@);
    vstd::utf8::is_ascii_chars_encode_utf8("INT"@);
    vstd::utf8::is_ascii_chars_encode_utf8(":"@);
    vstd::utf8::is_ascii_chars_encode_utf8("emulator"@);
    vstd::utf8::is_ascii_chars_encode_utf8("shot_number"@);
    assert("METRICS:".spec_bytes() =~= seq![77u8, 69, 84, 82, 73, 67, 83, 58]);
    assert("INT".spec_bytes() =~= seq![73u8, 78, 84]);
    assert(":".spec_bytes() =~= seq![58u8]);
    assert("emulator".spec_bytes() =~= seq![101u8, 109, 117, 108, 97, 116, 111, 114]);
    assert("shot_number".spec_bytes() =~= seq![
        115u8,
        104,
        111,
        116,
        95,
        110,
        117,
        109,
        98,
        101,
        114,
    ]);
}

/// The shot number tag is short and holds no zero byte, so its message cannot fail.
proof fn lemma_shot_tag_encodes(n: u64)
    ensures
        ({
            let full = metric_tag(
                MetricValue::U64(n),
                "emulator".spec_bytes(),
                "shot_number".spec_bytes(),
            );
            full.len() <= u16::MAX && !full.contains(0u8)
        }),
{
    lemma_ascii_literals();
    let full = metric_tag(MetricValue::U64(n), "emulator".spec_bytes(), "shot_number".spec_bytes());
    let lit = seq![77u8, 69, 84, 82, 73, 67, 83, 58] + seq![73u8, 78, 84] + seq![58u8] + seq![
        101u8,
        109,
        117,
        108,
        97,
        116,
        111,
        114,
    ] + seq![58u8] + seq![115u8, 104, 111, 116, 95, 110, 117, 109, 98, 101, 114];
    assert(full == lit);
    assert forall|i: int| 0 <= i < lit.len() implies lit[i] != 0u8 by {}
}

/// One emulation session: the emulator, the output stream, shot and time
/// bookkeeping, and a host-side random stream.
pub struct SeleneInstance<E, H> {
    pub config: InstanceConfig,
    pub emulator: Emulator<E, H>,
    pub out_encoder: OutputStream,
    pub time_cursor: u64,
    pub shot_number: u64,
    pub prng: Option<rand_pcg::Lcg64Xsh32>,
}

/// The shot id of the `shot_index`-th shot under `config`.
pub open spec fn shot_id_of(config: InstanceConfig, shot_index: u64) -> int {
    config.shot_offset + config.shot_increment * shot_index
}

/// The shot ids and seeds of the `shot_index`-th shot all fit in 64 bits.
pub open spec fn shot_fits(config: InstanceConfig, shot_index: u64) -> bool {
    let id = shot_id_of(config, shot_index);
    &&& id <= u64::MAX
    &&& config.runtime_seed + id <= u64::MAX
    &&& config.error_model_seed + id <= u64::MAX
    &&& config.simulator_seed + id <= u64::MAX
}

impl<E: ErrorModelInterface, H: EventHook> SeleneInstance<E, H> {
    pub open spec fn wf(&self) -> bool {
        self.emulator.wf()
    }

    /// A session around `emulator`, with time cursor 0, shot number at the
    /// configured offset and an unseeded random stream.
    pub fn new(config: InstanceConfig, emulator: Emulator<E, H>) -> (r: Self)
        ensures
            r.config == config,
            r.time_cursor == 0,
            r.shot_number == config.shot_offset,
            r.prng is None,
            r.out_encoder@ == Seq::<u8>::empty(),
            r.emulator.runtime@ == emulator.runtime@,
    {
        SeleneInstance {
            config,
            emulator,
            out_encoder: OutputStream::new(),
            time_cursor: 0,
            shot_number: config.shot_offset,
            prng: None,
        }
    }

    /// Closes the output stream with its end marker, written once however often
    /// this is called.
    pub fn exit(&mut self)
        ensures
            !old(self).out_encoder.is_ended() ==> final(self).out_encoder@ == old(
                self,
            ).out_encoder@ + crate::encoder::stream_end(),
            old(self).out_encoder.is_ended() ==> final(self).out_encoder@ == old(self).out_encoder@,
            final(self).out_encoder.is_ended(),
    {
        self.out_encoder.end_of_stream();
    }

    /// Starts the `shot_index`-th shot: shot id `offset + increment * shot_index`,
    /// each component seeded with its configured seed plus the shot id.
    pub fn shot_start(&mut self, shot_index: u64) -> (r: Result<(), InstanceError>)
        requires
            old(self).wf(),
            shot_fits(old(self).config, shot_index),
        ensures
            final(self).wf(),
            final(self).shot_number == shot_id_of(old(self).config, shot_index),
            final(self).config == old(self).config,
            final(self).emulator.runtime@ == fresh(
                old(self).emulator.runtime@.qubits.len(),
                old(self).emulator.runtime@.start,
            ),
            r matches Err(e) ==> e is Plugin,
    {
        let shot_id = self.config.shot_offset + self.config.shot_increment * shot_index;
        let runtime_seed = self.config.runtime_seed + shot_id;
        let error_model_seed = self.config.error_model_seed + shot_id;
        let simulator_seed = self.config.simulator_seed + shot_id;
        self.shot_number = shot_id;
        self.emulator.runtime.shot_start(shot_id, runtime_seed);
        self.emulator.event_hooks.on_shot_start(shot_id);
        if let Err(e) = self.emulator.error_model.shot_start(
            shot_id,
            error_model_seed,
            simulator_seed,
        ) {
            return Err(InstanceError::Plugin(e));
        }
        let ghost fresh_view = self.emulator.runtime@;
        match self.emulator.poke() {
            Ok(()) => {
                assert(self.emulator.runtime@ =~= fresh_view) by {
                    assert(self.emulator.runtime@.queue =~= fresh_view.queue);
                    assert(self.emulator.runtime@.results =~= fresh_view.results);
                }
                Ok(())
            },
            Err(e) => Err(InstanceError::Emulator(e)),
        }
    }

    /// Ends the shot: hook data, metrics if configured and the shot boundary go to
    /// the stream, then every component ends its shot.
    pub fn shot_end(&mut self) -> (r: Result<(), InstanceError>)
        requires
            old(self).wf(),
        ensures
            final(self).wf(),
            r is Ok ==> final(self).emulator.runtime@ == fresh(
                old(self).emulator.runtime@.qubits.len(),
                old(self).emulator.runtime@.start,
            ),
    {
        if let Err(e) = self.write_metadata() {
            return Err(e);
        }
        if self.config.provide_metrics {
            if let Err(e) = self.write_metrics() {
                return Err(e);
            }
        }
        if let Err(e) = self.print_shot_boundary() {
            return Err(InstanceError::Output(e));
        }
        self.emulator.event_hooks.on_shot_end();
        self.emulator.runtime.shot_end();
        if let Err(e) = self.emulator.error_model.shot_end() {
            return Err(InstanceError::Plugin(e));
        }
        let ghost fresh_view = self.emulator.runtime@;
        match self.emulator.poke() {
            Ok(()) => {
                assert(self.emulator.runtime@ =~= fresh_view) by {
                    assert(self.emulator.runtime@.queue =~= fresh_view.queue);
                    assert(self.emulator.runtime@.results =~= fresh_view.results);
                }
                Ok(())
            },
            Err(e) => Err(InstanceError::Emulator(e)),
        }
    }

    /// Writes one metric as a message: tag `METRICS:<TYPE>:<category>:<tag>`, then the value.
    pub fn write_metric(&mut self, category: &[u8], tag: &[u8], value: MetricValue) -> (r: Result<
        (),
        OutputStreamError,
    >)
        ensures
            final(self).emulator == old(self).emulator,
            final(self).time_cursor == old(self).time_cursor,
            final(self).shot_number == old(self).shot_number,
            final(self).config == old(self).config,
            final(self).out_encoder@.len() >= old(self).out_encoder@.len(),
            final(self).out_encoder@.take(old(self).out_encoder@.len() as int) == old(
                self,
            ).out_encoder@,
            ({
                let full = metric_tag(value, category@, tag@);
                &&& r is Ok <==> (full.len() <= u16::MAX && !full.contains(0u8))
                &&& r is Ok ==> final(self).out_encoder@ == old(self).out_encoder@ + message_start(
                    old(self).time_cursor,
                ) + tagged(3, full.len(), full) + metric_value_bytes(value) + message_end()
            }),
    {
        let type_str: &str = match value {
            MetricValue::Bool(_) => "BOOL",
            MetricValue::I64(_) => "INT",
            MetricValue::U64(_) => "INT",
            MetricValue::F64(_) => "FLOAT",
        };
        let mut full = vstd::slice::slice_to_vec("METRICS:".as_bytes());
        append_bytes(&mut full, type_str.as_bytes());
        append_bytes(&mut full, ":".as_bytes());
        append_bytes(&mut full, category);
        append_bytes(&mut full, ":".as_bytes());
        append_bytes(&mut full, tag);
        assert(full@ =~= metric_tag(value, category@, tag@));
        self.out_encoder.begin_message(self.time_cursor);
        if let Err(e) = self.out_encoder.write_str_bytes(full.as_slice()) {
            return Err(e);
        }
        let written = match value {
            MetricValue::Bool(v) => self.out_encoder.write(v),
            MetricValue::I64(v) => self.out_encoder.write(v),
            MetricValue::U64(v) => self.out_encoder.write(v),
            MetricValue::F64(v) => self.out_encoder.write(v),
        };
        if let Err(e) = written {
            return Err(e);
        }
        self.out_encoder.end_message();
        Ok(())
    }

    /// Writes the shot number, then every metric of the error model and of the
    /// simulator, each list ending at the first index with no metric (or at 255).
    /// The shot number message is always written; a metric whose tag cannot be
    /// encoded, or a failing plugin, stops the rest.
    pub fn write_metrics(&mut self) -> (r: Result<(), InstanceError>)
        requires
            old(self).wf(),
        ensures
            final(self).wf(),
            final(self).emulator.runtime@ == old(self).emulator.runtime@,
            ({
                let head = old(self).out_encoder@ + shot_number_message(
                    old(self).time_cursor,
                    old(self).shot_number,
                );
                &&& final(self).out_encoder@.len() >= head.len()
                &&& final(self).out_encoder@.take(head.len() as int) == head
                &&& r is Ok ==> exists|em: Seq<Metric>, sm: Seq<Metric>|
                    em.len() <= 255 && sm.len() <= 255 && final(self).out_encoder@ == head
                        + #[trigger] metric_messages(
                        old(self).time_cursor,
                        "error_model".spec_bytes(),
                        em,
                    ) + #[trigger] metric_messages(
                        old(self).time_cursor,
                        "simulator".spec_bytes(),
                        sm,
                    )
            }),
            r matches Err(e) ==> e is Plugin || e is Output,
    {
        let ghost t = self.time_cursor;
        let ghost start = self.out_encoder@;
        proof {
            lemma_shot_tag_encodes(self.shot_number);
        }
        if let Err(e) = self.write_metric(
            "emulator".as_bytes(),
            "shot_number".as_bytes(),
            MetricValue::U64(self.shot_number),
        ) {
            return Err(InstanceError::Output(e));
        }
        let ghost head = self.out_encoder@;
        let ghost mut em: Seq<Metric> = Seq::empty();
        let ghost em_cat = "error_model".spec_bytes();
        let ghost sm_cat = "simulator".spec_bytes();
        assert(head =~= head + metric_messages(t, em_cat, em));
        let mut nth: u8 = 0;
        while nth < 255
            invariant
                self.wf(),
                self.emulator.runtime@ == old(self).emulator.runtime@,
                self.time_cursor == t,
                t == old(self).time_cursor,
                start == old(self).out_encoder@,
                em_cat == "error_model".spec_bytes(),
                sm_cat == "simulator".spec_bytes(),
                head == start + shot_number_message(t, old(self).shot_number),
                em.len() == nth,
                self.out_encoder@ == head + metric_messages(t, em_cat, em),
            decreases 255 - nth,
        {
            let metric: Metric = match self.emulator.error_model.get_metric(nth) {
                Err(e) => {
                    proof {
                        assert(self.out_encoder@.take(head.len() as int) =~= head);
                    }
                    return Err(InstanceError::Plugin(e));
                },
                Ok(None) => break,
                Ok(Some(m)) => m,
            };
            let ghost before = self.out_encoder@;
            if let Err(e) = self.write_metric(
                "error_model".as_bytes(),
                metric.tag.as_slice(),
                metric.value,
            ) {
                proof {
                    assert(self.out_encoder@.take(head.len() as int) =~= head) by {
                        assert(self.out_encoder@.take(before.len() as int) == before);
                        assert(before.take(head.len() as int) =~= head);
                    }
                }
                return Err(InstanceError::Output(e));
            }
            proof {
                let old_em = em;
                em = em.push(metric);
                assert(em.drop_last() =~= old_em);
            }
            nth += 1;
        }
        let ghost mid = self.out_encoder@;
        let ghost mut sm: Seq<Metric> = Seq::empty();
        assert(mid =~= mid + metric_messages(t, sm_cat, sm));
        let mut nth: u8 = 0;
        while nth < 255
            invariant
                self.wf(),
                self.emulator.runtime@ == old(self).emulator.runtime@,
                self.time_cursor == t,
                t == old(self).time_cursor,
                start == old(self).out_encoder@,
                em_cat == "error_model".spec_bytes(),
                sm_cat == "simulator".spec_bytes(),
                head == start + shot_number_message(t, old(self).shot_number),
                em.len() <= 255,
                mid == head + metric_messages(t, em_cat, em),
                sm.len() == nth,
                self.out_encoder@ == mid + metric_messages(t, sm_cat, sm),
            decreases 255 - nth,
        {
            let metric: Metric = match self.emulator.error_model.get_simulator_metric(nth) {
                Err(e) => {
                    proof {
                        assert(self.out_encoder@.take(head.len() as int) =~= head);
                    }
                    return Err(InstanceError::Plugin(e));
                },
                Ok(None) => break,
                Ok(Some(m)) => m,
            };
            let ghost before = self.out_encoder@;
            if let Err(e) = self.write_metric(
                "simulator".as_bytes(),
                metric.tag.as_slice(),
                metric.value,
            ) {
                proof {
                    assert(self.out_encoder@.take(head.len() as int) =~= head) by {
                        assert(self.out_encoder@.take(before.len() as int) == before);
                        assert(before.take(head.len() as int) =~= head);
                    }
                }
                return Err(InstanceError::Output(e));
            }
            proof {
                let old_sm = sm;
                sm = sm.push(metric);
                assert(sm.drop_last() =~= old_sm);
            }
            nth += 1;
        }
        proof {
            assert(self.out_encoder@.take(head.len() as int) =~= head);
            assert(self.out_encoder@ =~= head + metric_messages(t, em_cat, em) + metric_messages(
                t,
                sm_cat,
                sm,
            ));
        }
        Ok(())
    }

    /// Lets the event hooks write what they gathered.
    pub fn write_metadata(&mut self) -> (r: Result<(), InstanceError>)
        requires
            old(self).wf(),
        ensures
            final(self).wf(),
            final(self).emulator.runtime@ == old(self).emulator.runtime@,
    {
        match self.emulator.event_hooks.write(self.time_cursor, &mut self.out_encoder) {
            Ok(()) => Ok(()),
            Err(e) => Err(InstanceError::Output(e)),
        }
    }

    /// Writes a message holding the string `tag` and then `value`.
    pub fn print<T: StreamWritable>(&mut self, tag: &str, value: T) -> (r: Result<
        (),
        OutputStreamError,
    >)
        ensures
            final(self).emulator == old(self).emulator,
            r is Ok <==> (tag.spec_encode() is Ok && value.spec_encode() is Ok),
            r is Ok ==> final(self).out_encoder@ == old(self).out_encoder@ + message_start(
                old(self).time_cursor,
            ) + tag.spec_encode()->Ok_0 + value.spec_encode()->Ok_0 + message_end(),
    {
        self.out_encoder.begin_message(self.time_cursor);
        if let Err(e) = self.out_encoder.write(tag) {
            return Err(e);
        }
        if let Err(e) = self.out_encoder.write(value) {
            return Err(e);
        }
        self.out_encoder.end_message();
        Ok(())
    }

    fn print_exit_tag(&mut self, message: &str, error_code: u32) -> (r: Result<
        (),
        OutputStreamError,
    >)
        ensures
            final(self).emulator == old(self).emulator,
            ({
                let t = exit_tag(message.spec_bytes());
                &&& r is Ok <==> (t.len() <= u16::MAX && !t.contains(0u8))
                &&& r is Ok ==> final(self).out_encoder@ == old(self).out_encoder@ + message_start(
                    old(self).time_cursor,
                ) + tagged(3, t.len(), t) + (error_code as u64).spec_encode()->Ok_0
                    + message_end()
            }),
    {
        let tag = exit_tag_bytes(message.as_bytes());
        self.out_encoder.begin_message(self.time_cursor);
        if let Err(e) = self.out_encoder.write_str_bytes(tag.as_slice()) {
            return Err(e);
        }
        if let Err(e) = self.out_encoder.write(error_code as u64) {
            return Err(e);
        }
        self.out_encoder.end_message();
        Ok(())
    }

    /// Reports a panic of the user program: tag `EXIT:INT:<message>` (the message
    /// as is where it already starts so) and the error code.
    pub fn print_panic(&mut self, message: &str, error_code: u32) -> (r: Result<
        (),
        OutputStreamError,
    >)
        ensures
            final(self).emulator == old(self).emulator,
            ({
                let t = exit_tag(message.spec_bytes());
                &&& r is Ok <==> (t.len() <= u16::MAX && !t.contains(0u8))
                &&& r is Ok ==> final(self).out_encoder@ == old(self).out_encoder@ + message_start(
                    old(self).time_cursor,
                ) + tagged(3, t.len(), t) + (error_code as u64).spec_encode()->Ok_0
                    + message_end()
            }),
    {
        self.print_exit_tag(message, error_code)
    }

    /// Reports an exit of the user program, in the same form as a panic.
    pub fn print_exit(&mut self, message: &str, error_code: u32) -> (r: Result<
        (),
        OutputStreamError,
    >)
        ensures
            final(self).emulator == old(self).emulator,
            ({
                let t = exit_tag(message.spec_bytes());
                &&& r is Ok <==> (t.len() <= u16::MAX && !t.contains(0u8))
                &&& r is Ok ==> final(self).out_encoder@ == old(self).out_encoder@ + message_start(
                    old(self).time_cursor,
                ) + tagged(3, t.len(), t) + (error_code as u64).spec_encode()->Ok_0
                    + message_end()
            }),
    {
        self.print_exit_tag(message, error_code)
    }

    /// Writes the shot boundary marker `USER:__SHOT_BOUNDARY__` with value 0.
    pub fn print_shot_boundary(&mut self) -> (r: Result<(), OutputStreamError>)
        ensures
            final(self).emulator == old(self).emulator,
            r is Ok ==> final(self).out_encoder@ == old(self).out_encoder@ + message_start(
                old(self).time_cursor,
            ) + "USER:__SHOT_BOUNDARY__".spec_encode()->Ok_0 + 0u64.spec_encode()->Ok_0
                + message_end(),
    {
        self.print("USER:__SHOT_BOUNDARY__", 0u64)
    }

    /// Seeds the host-side random stream (PCG32, state 42, stream `seed`).
    pub fn random_seed(&mut self, seed: u64)
        ensures
            final(self).prng is Some,
            final(self).emulator == old(self).emulator,
    {
        self.prng = Some(pcg32_new(42, seed));
    }

    /// Moves the random stream `delta` steps on.
    pub fn random_advance(&mut self, delta: u64) -> (r: Result<(), InstanceError>)
        ensures
            old(self).prng is None <==> r is Err,
            r matches Err(e) ==> e is PrngNotSeeded,
            final(self).prng is Some == old(self).prng is Some,
    {
        match &mut self.prng {
            None => Err(InstanceError::PrngNotSeeded),
            Some(rng) => {
                pcg32_advance(rng, delta);
                Ok(())
            },
        }
    }

    /// The next 32-bit output of the random stream.
    pub fn random_u32(&mut self) -> (r: Result<u32, InstanceError>)
        ensures
            old(self).prng is None <==> r is Err,
            r matches Err(e) ==> e is PrngNotSeeded,
            final(self).prng is Some == old(self).prng is Some,
    {
        match &mut self.prng {
            None => Err(InstanceError::PrngNotSeeded),
            Some(rng) => Ok(pcg32_next_u32(rng)),
        }
    }

    /// A draw below `bound`, by rejection sampling on the random stream; draws
    /// stop (with `SamplingExhausted`) only after 2^64 - 1 rejections.
    pub fn random_u32_bounded(&mut self, bound: u32) -> (r: Result<u32, InstanceError>)
        ensures
            old(self).prng is None ==> (r matches Err(e) && e is PrngNotSeeded),
            old(self).prng is Some && bound == 0 ==> (r matches Err(e) && e is ZeroBound),
            r matches Ok(x) ==> x < bound,
    {
        let rng = match &mut self.prng {
            None => return Err(InstanceError::PrngNotSeeded),
            Some(rng) => rng,
        };
        if bound == 0 {
            return Err(InstanceError::ZeroBound);
        }
        let mut attempts: u64 = 0;
        while attempts < u64::MAX
            invariant
                bound > 0,
                old(self).prng is Some,
            decreases u64::MAX - attempts,
        {
            let r = pcg32_next_u32(rng);
            if let Some(x) = bounded_sample(r, bound) {
                return Ok(x);
            }
            attempts += 1;
        }
        Err(InstanceError::SamplingExhausted)
    }

    /// Records a dumped state: the emulator drains and has the simulator write its
    /// state for `qubits` to `path`, then a message holding `message` and `path`
    /// goes to the stream.
    pub fn dump_state(&mut self, message: &str, path: &str, qubits: &[u64]) -> (r: Result<
        (),
        InstanceError,
    >)
        requires
            old(self).wf(),
        ensures
            final(self).wf(),
            r matches Err(InstanceError::Output(_)) ==> !(message.spec_encode() is Ok
                && path.spec_encode() is Ok),
            r matches Err(InstanceError::Emulator(_)) ==> final(self).out_encoder@ == old(
                self,
            ).out_encoder@,
            r matches Err(e) ==> e is Output || e is Emulator,
            r is Ok ==> final(self).emulator.runtime@.queue.len() == 0
                && final(self).out_encoder@ == old(self).out_encoder@ + message_start(
                old(self).time_cursor,
            ) + message.spec_encode()->Ok_0 + path.spec_encode()->Ok_0 + message_end(),
    {
        if let Err(e) = self.emulator.dump_quantum_state(path, qubits) {
            return Err(InstanceError::Emulator(e));
        }
        self.out_encoder.begin_message(self.time_cursor);
        if let Err(e) = self.out_encoder.write(message) {
            return Err(InstanceError::Output(e));
        }
        if let Err(e) = self.out_encoder.write(path) {
            return Err(InstanceError::Output(e));
        }
        self.out_encoder.end_message();
        Ok(())
    }
}

/// Appends `b` to `out`.
fn append_bytes(out: &mut Vec<u8>, b: &[u8])
    ensures
        final(out)@ == old(out)@ + b@,
{
    let mut i: usize = 0;
    while i < b.len()
        invariant
            i <= b@.len(),
            out@ == old(out)@ + b@.take(i as int),
        decreases b@.len() - i,
    {
        out.push(b[i]);
        i += 1;
        assert(out@ =~= old(out)@ + b@.take(i as int));
    }
    assert(b@.take(b@.len() as int) =~= b@);
}

} // verus!
