//! Sound: from captured sample bytes to packets of companded samples.

use crate::signal::SignalError;
use std::collections::VecDeque;
use vstd::prelude::*;

verus! {

/// The sampling rate of the sound that viewers are sent, in hertz.
pub const AUDIO_CLOCK_RATE: u32 = 8000;

/// The number of samples in a packet.
pub const SAMPLES_PER_PACKET: usize = 160;

/// The number of captured chunks that are kept until they are asked for.
pub const QUEUED_CHUNKS: usize = 64;

/// For how many milliseconds to wait for samples where there are too few for a packet.
pub const DRAIN_PAUSE: u64 = 10;

/// The magnitude of a sample, limited to the range that can be companded, and biased.
pub open spec fn biased_magnitude(sample: int) -> int {
    let magnitude = if sample < 0 {
        -sample
    } else {
        sample
    };
    (if magnitude > 32635 {
        32635
    } else {
        magnitude
    }) + 132
}

/// The segment of the companding curve that a biased magnitude lies in. Segment `e` runs from
/// `2^(e + 7)` to `2^(e + 8)`.
pub open spec fn segment(biased: int) -> int {
    if biased >= 16384 {
        7
    } else if biased >= 8192 {
        6
    } else if biased >= 4096 {
        5
    } else if biased >= 2048 {
        4
    } else if biased >= 1024 {
        3
    } else if biased >= 512 {
        2
    } else if biased >= 256 {
        1
    } else {
        0
    }
}

/// The width of the steps that a segment is cut into, which are sixteen.
pub open spec fn step_width(segment: int) -> int {
    if segment == 7 {
        1024
    } else if segment == 6 {
        512
    } else if segment == 5 {
        256
    } else if segment == 4 {
        128
    } else if segment == 3 {
        64
    } else if segment == 2 {
        32
    } else if segment == 1 {
        16
    } else {
        8
    }
}

/// The step of its segment that a biased magnitude lies in.
pub open spec fn step_of(biased: int) -> int {
    (biased / step_width(segment(biased))) % 16
}

/// The mu-law code of a sample: sign, segment and step, with every bit inverted.
pub open spec fn mulaw(sample: int) -> int {
    let biased = biased_magnitude(sample);
    255 - ((if sample < 0 {
        128int
    } else {
        0
    }) + segment(biased) * 16 + step_of(biased))
}

/// The mu-law code of a sample.
pub fn linear_to_mulaw(sample: i16) -> (code: u8)
    ensures
        code == mulaw(sample as int),
{
    let mut value: i32 = sample as i32;
    let mut sign: i32 = 0;
    if value < 0 {
        value = -value;
        sign = 128;
    }
    if value > 32635 {
        value = 32635;
    }
    value = value + 132;
    let mut exponent: i32 = 7;
    let mut floor: i32 = 16384;
    while exponent > 0 && value < floor
        invariant
            value == biased_magnitude(sample as int),
            132 <= value < 2 * floor,
            0 <= exponent <= 7,
            floor == 16 * step_width(exponent as int),
        decreases exponent,
    {
        exponent = exponent - 1;
        floor = floor / 2;
    }
    assert(exponent == segment(value as int));
    let mantissa: i32 = (value / (floor / 16)) % 16;
    (255 - (sign + exponent * 16 + mantissa)) as u8
}

/// Silence aside, a sample and its negative have codes that differ in the highest bit alone.
pub proof fn mulaw_is_symmetric(sample: int)
    requires
        -32768 <= sample <= 32767,
        sample != 0,
    ensures
        (mulaw(sample) as u8) ^ 0x80 == mulaw(-sample) as u8,
{
    let biased = biased_magnitude(sample);
    assert(0 <= segment(biased) * 16 + step_of(biased) <= 127);
    let high = mulaw(if sample < 0 {
        -sample
    } else {
        sample
    });
    let low = mulaw(if sample < 0 {
        sample
    } else {
        -sample
    });
    assert(high == low + 128 && 0 <= low <= 127);
    let a = high as u8;
    let b = low as u8;
    assert(a ^ 0x80 == b && b ^ 0x80 == a) by (bit_vector)
        requires
            a == b + 128,
            b <= 127,
    ;
}

/// Louder samples of one sign never have a greater code, so codes order samples by loudness.
pub proof fn mulaw_orders_loudness(quiet: int, loud: int)
    requires
        0 <= quiet <= loud <= 32767,
    ensures
        mulaw(loud) <= mulaw(quiet),
        0 < quiet ==> mulaw(-loud) <= mulaw(-quiet),
{
    let a = biased_magnitude(quiet);
    let b = biased_magnitude(loud);
    assert(segment(a) <= segment(b));
    if segment(a) == segment(b) {
        let w = step_width(segment(a));
        assert(16 <= a / w <= b / w < 32) by (nonlinear_arith)
            requires
                0 < w,
                16 * w <= a <= b < 32 * w,
        ;
    }
}

/// A packet of companded samples.
pub struct AudioPacket {
    pub bytes: Vec<u8>,
}

/// Samples that wait to be sent.
pub struct AudioCapturer {
    pub pending: VecDeque<i16>,
}

/// What came of starting to listen to what the machine plays.
pub enum LoopbackStart {
    /// The program was built without sound.
    NotCompiled,
    /// Listening could not be started, for this reason.
    Failed(String),
    /// Sound is being captured.
    Started,
}

/// The samples of several chunks, one chunk after the other.
pub open spec fn joined(chunks: Seq<Vec<i16>>) -> Seq<i16>
    decreases chunks.len(),
{
    if chunks.len() == 0 {
        Seq::empty()
    } else {
        joined(chunks.drop_last()) + chunks.last()@
    }
}

impl AudioCapturer {
    /// A capturer without samples yet, if there is sound to capture.
    pub fn try_new(start: LoopbackStart) -> (result: Result<Self, SignalError>)
        ensures
            match start {
                LoopbackStart::Started => result matches Ok(capturer) && capturer.pending@
                    == Seq::<i16>::empty(),
                LoopbackStart::Failed(source) => {
                    &&& result matches Err(error)
                    &&& error.status is None
                    &&& error.text() == "start audio loopback: "@ + source@
                },
                LoopbackStart::NotCompiled => {
                    &&& result matches Err(error)
                    &&& error.status is None
                    &&& error.text()
                        == "audio capture not compiled in (rebuild with --features audio)"@
                },
            },
    {
        match start {
            LoopbackStart::Started => Ok(AudioCapturer { pending: VecDeque::new() }),
            LoopbackStart::Failed(source) => {
                let mut detail = "start audio loopback: ".to_owned();
                detail.append(source.as_str());
                Err(SignalError::failed(detail))
            },
            LoopbackStart::NotCompiled => Err(
                SignalError::failed(
                    "audio capture not compiled in (rebuild with --features audio)".to_owned(),
                ),
            ),
        }
    }

    /// Whether there are too few samples for a packet.
    pub fn lacks_samples(&self) -> (b: bool)
        ensures
            b == (self.pending@.len() < SAMPLES_PER_PACKET),
    {
        self.pending.len() < SAMPLES_PER_PACKET
    }

    /// Takes in captured chunks, in the order in which they were captured.
    pub fn drain_stream(&mut self, chunks: &Vec<Vec<i16>>)
        ensures
            final(self).pending@ == old(self).pending@ + joined(chunks@),
    {
        let mut c: usize = 0;
        assert(self.pending@ =~= old(self).pending@ + joined(chunks@.take(0)));
        while c < chunks.len()
            invariant
                c <= chunks@.len(),
                self.pending@ == old(self).pending@ + joined(chunks@.take(c as int)),
            decreases chunks@.len() - c,
        {
            let chunk = &chunks[c];
            let ghost before = self.pending@;
            let mut i: usize = 0;
            while i < chunk.len()
                invariant
                    i <= chunk@.len(),
                    self.pending@ == before + chunk@.take(i as int),
                decreases chunk@.len() - i,
            {
                self.pending.push_back(chunk[i]);
                i = i + 1;
                assert(self.pending@ =~= before + chunk@.take(i as int));
            }
            assert(chunk@.take(i as int) =~= chunk@);
            c = c + 1;
            assert(chunks@.take(c as int).drop_last() =~= chunks@.take(c - 1));
            assert(self.pending@ =~= old(self).pending@ + joined(chunks@.take(c as int)));
        }
        assert(chunks@.take(c as int) =~= chunks@);
    }

    /// The next packet, if there are enough samples for one: the codes of the samples that have
    /// waited longest, which then wait no more.
    pub fn next_packet(&mut self) -> (result: Result<Option<AudioPacket>, SignalError>)
        ensures
            result is Ok,
            old(self).pending@.len() < SAMPLES_PER_PACKET ==> {
                &&& result->Ok_0 is None
                &&& final(self).pending@ == old(self).pending@
            },
            old(self).pending@.len() >= SAMPLES_PER_PACKET ==> {
                &&& result->Ok_0 matches Some(packet)
                &&& packet.bytes@.len() == SAMPLES_PER_PACKET
                &&& forall|i: int|
                    0 <= i < SAMPLES_PER_PACKET ==> (#[trigger] packet.bytes@[i]) == mulaw(
                        old(self).pending@[i] as int,
                    )
                &&& final(self).pending@ == old(self).pending@.skip(SAMPLES_PER_PACKET as int)
            },
    {
        if self.pending.len() < SAMPLES_PER_PACKET {
            return Ok(None);
        }
        let mut payload: Vec<u8> = Vec::with_capacity(SAMPLES_PER_PACKET);
        let mut taken: usize = 0;
        assert(old(self).pending@.skip(0) =~= old(self).pending@);
        while taken < SAMPLES_PER_PACKET
            invariant
                taken <= SAMPLES_PER_PACKET,
                SAMPLES_PER_PACKET <= old(self).pending@.len(),
                self.pending@ == old(self).pending@.skip(taken as int),
                payload@.len() == taken,
                forall|i: int|
                    0 <= i < taken ==> (#[trigger] payload@[i]) == mulaw(
                        old(self).pending@[i] as int,
                    ),
            decreases SAMPLES_PER_PACKET - taken,
        {
            if let Some(sample) = self.pending.pop_front() {
                payload.push(linear_to_mulaw(sample));
            }
            taken = taken + 1;
            assert(self.pending@ =~= old(self).pending@.skip(taken as int));
        }
        Ok(Some(AudioPacket { bytes: payload }))
    }
}

/// The newest chunks of all that were captured, as many as are kept.
pub open spec fn newest<T>(captured: Seq<T>) -> Seq<T> {
    if captured.len() <= QUEUED_CHUNKS {
        captured
    } else {
        captured.skip(captured.len() - QUEUED_CHUNKS)
    }
}

/// Chunks of captured sound that nobody has asked for yet. Where more are captured than are
/// kept, the oldest go.
pub struct LoopbackStream<T> {
    pub queue: VecDeque<T>,
}

impl<T> LoopbackStream<T> {
    /// A stream without chunks yet, if there is a thread to capture them; otherwise the reason
    /// that there is none.
    pub fn start(spawned: Result<(), String>) -> (result: Result<Self, String>)
        ensures
            match spawned {
                Ok(_) => result matches Ok(stream) && stream.queue@ == Seq::<T>::empty(),
                Err(source) => result matches Err(text) && text@ == "spawn audio thread: "@
                    + source@,
            },
    {
        match spawned {
            Ok(_) => Ok(LoopbackStream { queue: VecDeque::new() }),
            Err(source) => {
                let mut text = "spawn audio thread: ".to_owned();
                text.append(source.as_str());
                Err(text)
            },
        }
    }

    /// Takes in a captured chunk that holds `samples` samples. One without samples is dropped.
    pub fn capture(&mut self, chunk: T, samples: usize)
        ensures
            samples == 0 ==> final(self).queue@ == old(self).queue@,
            samples > 0 ==> final(self).queue@ == newest(old(self).queue@.push(chunk)),
    {
        if samples == 0 {
            return;
        }
        self.queue.push_back(chunk);
        let ghost all = self.queue@;
        assert(all.skip(0) =~= all);
        while self.queue.len() > QUEUED_CHUNKS
            invariant
                self.queue@.len() <= all.len(),
                self.queue@ == all.skip(all.len() - self.queue@.len()),
                all.len() > QUEUED_CHUNKS ==> self.queue@.len() >= QUEUED_CHUNKS,
                all.len() <= QUEUED_CHUNKS ==> self.queue@.len() == all.len(),
            decreases self.queue@.len(),
        {
            let _ = self.queue.pop_front();
            assert(self.queue@ =~= all.skip(all.len() - self.queue@.len()));
        }
        assert(self.queue@ =~= newest(all));
    }

    /// Hands out the chunks, oldest first, and keeps none.
    pub fn drain(&mut self) -> (chunks: Vec<T>)
        ensures
            chunks@ == old(self).queue@,
            final(self).queue@ == Seq::<T>::empty(),
    {
        let mut chunks: Vec<T> = Vec::new();
        assert(old(self).queue@.skip(0) =~= old(self).queue@);
        assert(old(self).queue@.take(0) =~= chunks@);
        while self.queue.len() > 0
            invariant
                chunks@.len() + self.queue@.len() == old(self).queue@.len(),
                chunks@ == old(self).queue@.take(chunks@.len() as int),
                self.queue@ == old(self).queue@.skip(chunks@.len() as int),
            decreases self.queue@.len(),
        {
            if let Some(chunk) = self.queue.pop_front() {
                chunks.push(chunk);
            }
            assert(chunks@ =~= old(self).queue@.take(chunks@.len() as int));
            assert(self.queue@ =~= old(self).queue@.skip(chunks@.len() as int));
        }
        assert(chunks@ =~= old(self).queue@);
        assert(self.queue@ =~= Seq::<T>::empty());
        chunks
    }
}

/// However many chunks are captured one by one, what is kept is the newest of them all.
pub proof fn capture_keeps_the_newest<T>(captured: Seq<T>, chunk: T)
    ensures
        newest(newest(captured).push(chunk)) == newest(captured.push(chunk)),
        newest(captured).len() <= QUEUED_CHUNKS,
{
    assert(newest(newest(captured).push(chunk)) =~= newest(captured.push(chunk)));
}

/// A step of the work of the capturing thread.
#[derive(Debug, Clone, Copy, PartialEq, Eq, Structural)]
pub enum LoopbackStep {
    InitCom,
    OpenEnumerator,
    FindDevice,
    OpenClient,
    ReadMixFormat,
    ReadSampleFormat,
    InitClient,
    OpenCapture,
    StartStream,
    ReadDevice,
}

/// What the capturing thread does next.
pub enum LoopbackAction {
    /// Perform this step.
    Perform(LoopbackStep),
    /// Ask for the size of the next packet.
    Poll,
    /// Wait for so many milliseconds, then ask again.
    Pause(u64),
    /// Stop, for this reason.
    Stop(String),
}

impl LoopbackStep {
    /// The name that a failure of the step is reported under.
    pub open spec fn name(self) -> Seq<char> {
        match self {
            LoopbackStep::InitCom => "init com"@,
            LoopbackStep::OpenEnumerator => "enumerator"@,
            LoopbackStep::FindDevice => "default render device"@,
            LoopbackStep::OpenClient => "audio client"@,
            LoopbackStep::ReadMixFormat => "mix format"@,
            LoopbackStep::ReadSampleFormat => "sample format"@,
            LoopbackStep::InitClient => "init loopback"@,
            LoopbackStep::OpenCapture => "capture client"@,
            LoopbackStep::StartStream => "start stream"@,
            LoopbackStep::ReadDevice => "read device"@,
        }
    }

    fn label(self) -> (text: &'static str)
        ensures
            text@ == self.name(),
    {
        match self {
            LoopbackStep::InitCom => "init com",
            LoopbackStep::OpenEnumerator => "enumerator",
            LoopbackStep::FindDevice => "default render device",
            LoopbackStep::OpenClient => "audio client",
            LoopbackStep::ReadMixFormat => "mix format",
            LoopbackStep::ReadSampleFormat => "sample format",
            LoopbackStep::InitClient => "init loopback",
            LoopbackStep::OpenCapture => "capture client",
            LoopbackStep::StartStream => "start stream",
            LoopbackStep::ReadDevice => "read device",
        }
    }

    /// The step that follows, if it is not to ask for a packet.
    pub open spec fn successor(self) -> Option<LoopbackStep> {
        match self {
            LoopbackStep::InitCom => Some(LoopbackStep::OpenEnumerator),
            LoopbackStep::OpenEnumerator => Some(LoopbackStep::FindDevice),
            LoopbackStep::FindDevice => Some(LoopbackStep::OpenClient),
            LoopbackStep::OpenClient => Some(LoopbackStep::ReadMixFormat),
            LoopbackStep::ReadMixFormat => Some(LoopbackStep::ReadSampleFormat),
            LoopbackStep::ReadSampleFormat => Some(LoopbackStep::InitClient),
            LoopbackStep::InitClient => Some(LoopbackStep::OpenCapture),
            LoopbackStep::OpenCapture => Some(LoopbackStep::StartStream),
            LoopbackStep::StartStream => None,
            LoopbackStep::ReadDevice => None,
        }
    }

    /// What to do once the step was performed: the steps that set the capture up follow each
    /// other, then packets are asked for, and a step that failed ends the capture.
    pub fn performed(self, outcome: Result<(), String>) -> (action: LoopbackAction)
        ensures
            match outcome {
                Err(source) => action matches LoopbackAction::Stop(text) && text@ == self.name()
                    + ": "@ + source@,
                Ok(_) => match self.successor() {
                    Some(step) => action == LoopbackAction::Perform(step),
                    None => action == LoopbackAction::Poll,
                },
            },
    {
        match outcome {
            Err(source) => {
                let mut text = self.label().to_owned();
                text.append(": ");
                text.append(source.as_str());
                LoopbackAction::Stop(text)
            },
            Ok(_) => match self {
                LoopbackStep::InitCom => LoopbackAction::Perform(LoopbackStep::OpenEnumerator),
                LoopbackStep::OpenEnumerator => LoopbackAction::Perform(LoopbackStep::FindDevice),
                LoopbackStep::FindDevice => LoopbackAction::Perform(LoopbackStep::OpenClient),
                LoopbackStep::OpenClient => LoopbackAction::Perform(LoopbackStep::ReadMixFormat),
                LoopbackStep::ReadMixFormat => LoopbackAction::Perform(
                    LoopbackStep::ReadSampleFormat,
                ),
                LoopbackStep::ReadSampleFormat => LoopbackAction::Perform(LoopbackStep::InitClient),
                LoopbackStep::InitClient => LoopbackAction::Perform(LoopbackStep::OpenCapture),
                LoopbackStep::OpenCapture => LoopbackAction::Perform(LoopbackStep::StartStream),
                LoopbackStep::StartStream => LoopbackAction::Poll,
                LoopbackStep::ReadDevice => LoopbackAction::Poll,
            },
        }
    }
}

/// What to do once the size of the next packet was asked for: read a packet that has frames,
/// and otherwise ask again after a pause.
pub fn loopback_polled(size: Result<Option<u32>, String>) -> (action: LoopbackAction)
    ensures
        match size {
            Err(source) => action matches LoopbackAction::Stop(text) && text@ == "packet size: "@
                + source@,
            Ok(Some(frames)) if frames > 0 => action == LoopbackAction::Perform(
                LoopbackStep::ReadDevice,
            ),
            Ok(_) => action == LoopbackAction::Pause(5),
        },
{
    match size {
        Err(source) => {
            let mut text = "packet size: ".to_owned();
            text.append(source.as_str());
            LoopbackAction::Stop(text)
        },
        Ok(frames) => {
            if frames.unwrap_or(0) == 0 {
                LoopbackAction::Pause(5)
            } else {
                LoopbackAction::Perform(LoopbackStep::ReadDevice)
            }
        },
    }
}

/// The line that tells that the capturing thread stopped, and why.
pub fn loopback_stopped(source: &str) -> (line: String)
    ensures
        line@ == "[WARN] audio loopback stopped: "@ + source@,
{
    let mut line = "[WARN] audio loopback stopped: ".to_owned();
    line.append(source);
    line
}

/// How captured samples are represented.
#[derive(Debug, Clone, Copy, PartialEq, Eq, Structural)]
pub enum SampleKind {
    Float,
    Int,
}

/// Captured samples as the numbers that they are represented by. A floating-point sample is
/// represented by its bits.
pub enum RawSamples {
    Float32(Vec<u32>),
    Int16(Vec<i16>),
    Int32(Vec<i32>),
    /// The representation is not known.
    Unsupported,
}

/// The number that four bytes stand for, lowest byte first.
pub open spec fn word(raw: Seq<u8>, at: int) -> int {
    raw[at] + 256 * raw[at + 1] + 65536 * raw[at + 2] + 16777216 * raw[at + 3]
}

/// The number that two bytes stand for, lowest byte first.
pub open spec fn half_word(raw: Seq<u8>, at: int) -> int {
    raw[at] + 256 * raw[at + 1]
}

/// The signed number that the unsigned `n` is the two's complement of, out of `modulus`.
pub open spec fn signed(n: int, modulus: int) -> int {
    if 2 * n < modulus {
        n
    } else {
        n - modulus
    }
}

fn read_word(raw: &[u8], at: usize) -> (n: u32)
    requires
        at + 4 <= raw@.len(),
    ensures
        n == word(raw@, at as int),
{
    raw[at] as u32 + 256 * raw[at + 1] as u32 + 65536 * raw[at + 2] as u32 + 16777216
        * raw[at + 3] as u32
}

fn read_half_word(raw: &[u8], at: usize) -> (n: u16)
    requires
        at + 2 <= raw@.len(),
    ensures
        n == half_word(raw@, at as int),
{
    raw[at] as u16 + 256 * raw[at + 1] as u16
}

/// The samples in captured bytes. Bytes at the end that make no whole sample are left out.
pub fn raw_samples(raw: &[u8], kind: SampleKind, bits: u16) -> (samples: RawSamples)
    ensures
        match (kind, bits) {
            (SampleKind::Float, 32) => {
                &&& samples matches RawSamples::Float32(words)
                &&& words@.len() == raw@.len() / 4
                &&& forall|i: int|
                    0 <= i < words@.len() ==> (#[trigger] words@[i]) == word(raw@, 4 * i)
            },
            (SampleKind::Int, 16) => {
                &&& samples matches RawSamples::Int16(words)
                &&& words@.len() == raw@.len() / 2
                &&& forall|i: int|
                    0 <= i < words@.len() ==> (#[trigger] words@[i]) == signed(
                        half_word(raw@, 2 * i),
                        65536,
                    )
            },
            (SampleKind::Int, 32) => {
                &&& samples matches RawSamples::Int32(words)
                &&& words@.len() == raw@.len() / 4
                &&& forall|i: int|
                    0 <= i < words@.len() ==> (#[trigger] words@[i]) == signed(
                        word(raw@, 4 * i),
                        4294967296,
                    )
            },
            _ => samples is Unsupported,
        },
{
    if bits == 32 && kind == SampleKind::Float {
        let size: usize = raw.len();
        let count: usize = size / 4;
        let mut words: Vec<u32> = Vec::new();
        while words.len() < count
            invariant
                words@.len() <= count,
                size == raw@.len(),
                count == size / 4,
                forall|i: int|
                    0 <= i < words@.len() ==> (#[trigger] words@[i]) == word(raw@, 4 * i),
            decreases count - words@.len(),
        {
            let n: u32 = read_word(raw, 4 * words.len());
            words.push(n);
        }
        return RawSamples::Float32(words);
    }
    if bits == 16 && kind == SampleKind::Int {
        let size: usize = raw.len();
        let count: usize = size / 2;
        let mut words: Vec<i16> = Vec::new();
        while words.len() < count
            invariant
                words@.len() <= count,
                size == raw@.len(),
                count == size / 2,
                forall|i: int|
                    0 <= i < words@.len() ==> (#[trigger] words@[i]) == signed(
                        half_word(raw@, 2 * i),
                        65536,
                    ),
            decreases count - words@.len(),
        {
            let n: i32 = read_half_word(raw, 2 * words.len()) as i32;
            words.push(
                if n < 32768 {
                    n as i16
                } else {
                    (n - 65536) as i16
                },
            );
        }
        return RawSamples::Int16(words);
    }
    if bits == 32 && kind == SampleKind::Int {
        let size: usize = raw.len();
        let count: usize = size / 4;
        let mut words: Vec<i32> = Vec::new();
        while words.len() < count
            invariant
                words@.len() <= count,
                size == raw@.len(),
                count == size / 4,
                forall|i: int|
                    0 <= i < words@.len() ==> (#[trigger] words@[i]) == signed(
                        word(raw@, 4 * i),
                        4294967296,
                    ),
            decreases count - words@.len(),
        {
            let n: i64 = read_word(raw, 4 * words.len()) as i64;
            words.push(
                if n < 2147483648 {
                    n as i32
                } else {
                    (n - 4294967296) as i32
                },
            );
        }
        return RawSamples::Int32(words);
    }
    RawSamples::Unsupported
}

/// The number of frames, each one sample per channel, between two that are kept when sound of
/// `rate` is thinned out.
pub open spec fn decimation(rate: u32) -> int {
    if rate / AUDIO_CLOCK_RATE < 1 {
        1
    } else {
        (rate / AUDIO_CLOCK_RATE) as int
    }
}

/// How many of `frames` frames are kept if the first is, and every `step`th after it.
pub open spec fn kept_frames(frames: int, step: int) -> int {
    if frames == 0 {
        0
    } else {
        (frames - 1) / step + 1
    }
}

/// Where in a run of interleaved samples the frames begin that are kept when it is thinned out
/// to the rate that viewers are sent. Each frame kept lies within the run.
pub fn downsample_plan(samples: usize, channels: u32, rate: u32) -> (starts: Vec<usize>)
    ensures
        channels == 0 || rate == 0 ==> starts@.len() == 0,
        channels > 0 && rate > 0 ==> {
            &&& starts@.len() == kept_frames(samples as int / channels as int, decimation(rate))
            &&& forall|i: int|
                0 <= i < starts@.len() ==> {
                    &&& (#[trigger] starts@[i]) == i * decimation(rate) * channels
                    &&& starts@[i] + channels <= samples
                }
        },
{
    let mut starts: Vec<usize> = Vec::new();
    if samples == 0 || channels == 0 || rate == 0 {
        assert(channels > 0 ==> 0int / channels as int == 0);
        return starts;
    }
    let width: usize = channels as usize;
    let frames: usize = samples / width;
    if frames == 0 {
        return starts;
    }
    let mut step: usize = (rate / AUDIO_CLOCK_RATE) as usize;
    if step < 1 {
        step = 1;
    }
    let last: usize = (frames - 1) / step;
    let mut kept: usize = 0;
    assert(last <= frames - 1) by (nonlinear_arith)
        requires
            last == (frames - 1) / step as int,
            step >= 1,
            frames >= 1,
    ;
    while kept <= last
        invariant
            width == channels > 0,
            rate > 0,
            1 <= frames,
            frames == samples as int / width as int,
            step == decimation(rate) >= 1,
            last == (frames - 1) / step as int,
            last <= frames - 1,
            kept <= last + 1,
            kept == starts@.len(),
            forall|i: int|
                0 <= i < starts@.len() ==> {
                    &&& (#[trigger] starts@[i]) == i * decimation(rate) * channels
                    &&& starts@[i] + channels <= samples
                },
        decreases last + 1 - kept,
    {
        assert(0 <= kept * step <= frames - 1) by (nonlinear_arith)
            requires
                0 <= kept <= (frames - 1) / step as int,
                step >= 1,
        ;
        assert(0 <= kept * step * width && kept * step * width + width <= samples) by (nonlinear_arith)
            requires
                0 <= kept * step <= samples as int / width as int - 1,
                width > 0,
        ;
        starts.push(kept * step * width);
        kept = kept + 1;
    }
    starts
}

/// The loudness that a mu-law code stands for, before the sign: the middle of its step, without
/// the bias. The segment tells by how many powers of two the steps are widened.
pub open spec fn expanded(code: int) -> int {
    let inverted = 255 - code;
    (8 * (inverted % 16) + 132) * vstd::arithmetic::power2::pow2((inverted / 16 % 8) as nat) - 132
}

/// The code of a sample stands for the sample, up to half a step: it tells the sign, and how loud
/// the sample is differs from what the code expands to by at most half the width of a step in its
/// segment. Samples that are too loud for a code have that of the loudest that is not.
pub proof fn codes_stand_for_samples(sample: int)
    requires
        -32768 <= sample <= 32767,
    ensures
        0 <= mulaw(sample) <= 255,
        sample < 0 <==> mulaw(sample) < 128,
        -32635 <= sample <= 32635 ==> {
            let loudness = if sample < 0 {
                -sample
            } else {
                sample
            };
            let half = 4 * vstd::arithmetic::power2::pow2(
                ((255 - mulaw(sample)) / 16 % 8) as nat,
            );
            expanded(mulaw(sample)) - half <= loudness < expanded(mulaw(sample)) + half
        },
        sample > 32635 ==> mulaw(sample) == mulaw(32635),
        sample < -32635 ==> mulaw(sample) == mulaw(-32635),
{
    let biased = biased_magnitude(sample);
    let e = segment(biased);
    let w = step_width(e);
    let m = step_of(biased);
    vstd::arithmetic::power2::lemma2_to64();
    let scale = vstd::arithmetic::power2::pow2(e as nat);
    assert(w == 8 * scale);
    assert(16 * w <= biased < 32 * w);
    let q = biased / w;
    assert(16 <= q < 32 && q * w <= biased < (q + 1) * w) by (nonlinear_arith)
        requires
            0 < w,
            16 * w <= biased < 32 * w,
            q == biased / w,
    ;
    assert(m == q - 16);
    let inverted = 255 - mulaw(sample);
    assert(inverted / 16 % 8 == e && inverted % 16 == m);
    assert((8 * m + 132) * scale == q * w + 4 * scale) by (nonlinear_arith)
        requires
            w == 8 * scale,
            m == q - 16,
    ;
    assert((q + 1) * w == q * w + w) by (nonlinear_arith);
}

/// The samples of some chunks and then of others are those of all of them in a row, and those of
/// one chunk are what it holds.
pub proof fn chunks_are_joined_in_a_row(first: Seq<Vec<i16>>, second: Seq<Vec<i16>>, one: Vec<i16>)
    ensures
        joined(first + second) == joined(first) + joined(second),
        joined(seq![one]) == one@,
    decreases second.len(),
{
    let alone = seq![one];
    assert(alone.drop_last() =~= Seq::empty());
    assert(joined(alone.drop_last()) =~= Seq::empty());
    assert(joined(alone) =~= one@);
    if second.len() == 0 {
        assert(first + second =~= first);
        assert(joined(first) + joined(second) =~= joined(first));
    } else {
        chunks_are_joined_in_a_row(first, second.drop_last(), one);
        assert((first + second).drop_last() =~= first + second.drop_last());
        assert(joined(first + second) =~= joined(first) + joined(second));
    }
}

/// What is kept of captured chunks is what came last of them, sixty-four of them or all.
pub proof fn the_newest_come_last<T>(captured: Seq<T>) -> (gone: Seq<T>)
    ensures
        captured == gone + newest(captured),
        captured.len() >= 64 ==> newest(captured).len() == 64,
        captured.len() <= 64 ==> newest(captured) == captured,
{
    let gone = captured.take(captured.len() - newest(captured).len());
    assert(captured =~= gone + newest(captured));
    if captured.len() == 64 {
        assert(newest(captured) =~= captured);
    }
    gone
}

/// The bytes of a number can be told from it again: the lowest comes first.
pub proof fn numbers_keep_their_bytes(raw: Seq<u8>, at: int)
    ensures
        word(raw, at) % 256 == raw[at],
        word(raw, at) / 256 % 256 == raw[at + 1],
        word(raw, at) / 65536 % 256 == raw[at + 2],
        word(raw, at) / 16777216 == raw[at + 3],
        half_word(raw, at) % 256 == raw[at],
        half_word(raw, at) / 256 == raw[at + 1],
{
}

/// A signed number differs from the one that it is the two's complement of by nothing or by the
/// modulus, and lies as far below zero as above.
pub proof fn signs_wrap_around(n: int, modulus: int)
    requires
        0 <= n < modulus,
    ensures
        signed(n, modulus) == n || signed(n, modulus) == n - modulus,
        -modulus <= 2 * signed(n, modulus) < modulus,
{
}

/// Thinned out, sound has no lower a rate than viewers are sent, unless it had before, and would
/// have if one frame more was left out each time.
pub proof fn thinning_comes_close_to_the_rate(rate: u32)
    ensures
        decimation(rate) >= 1,
        rate >= 8000 ==> 8000 * decimation(rate) <= rate < 8000 * (decimation(rate) + 1),
        rate < 8000 ==> decimation(rate) == 1,
{
}

/// Of frames that lie `step` apart, as many are kept as begin within the run: the last of them
/// does, and one more would not.
pub proof fn thinning_reaches_the_end(frames: int, step: int)
    requires
        frames >= 0,
        step >= 1,
    ensures
        kept_frames(frames, step) * step >= frames,
        frames > 0 ==> 0 <= (kept_frames(frames, step) - 1) * step < frames,
        frames == 0 ==> kept_frames(frames, step) == 0,
{
    if frames > 0 {
        let last = (frames - 1) / step;
        vstd::arithmetic::div_mod::lemma_fundamental_div_mod(frames - 1, step);
        vstd::arithmetic::div_mod::lemma_div_pos_is_pos(frames - 1, step);
        assert(last * step == step * last) by (nonlinear_arith);
        assert((last + 1) * step == step * last + step) by (nonlinear_arith);
        assert(0 <= last * step) by (nonlinear_arith)
            requires
                last >= 0,
                step >= 1,
        ;
    } else {
        assert(0 * step == 0);
    }
}

/// The capture is set up from the outside in: what plays sound is found before it is opened, asked
/// how it represents sound before that is set up, and started last. After that, packets are asked
/// for.
pub proof fn the_capture_is_set_up_in_order()
    ensures
        LoopbackStep::InitCom.successor() == Some(LoopbackStep::OpenEnumerator),
        LoopbackStep::OpenEnumerator.successor() == Some(LoopbackStep::FindDevice),
        LoopbackStep::FindDevice.successor() == Some(LoopbackStep::OpenClient),
        LoopbackStep::OpenClient.successor() == Some(LoopbackStep::ReadMixFormat),
        LoopbackStep::ReadMixFormat.successor() == Some(LoopbackStep::ReadSampleFormat),
        LoopbackStep::ReadSampleFormat.successor() == Some(LoopbackStep::InitClient),
        LoopbackStep::InitClient.successor() == Some(LoopbackStep::OpenCapture),
        LoopbackStep::OpenCapture.successor() == Some(LoopbackStep::StartStream),
        LoopbackStep::StartStream.successor() is None,
        LoopbackStep::ReadDevice.successor() is None,
{
}

} // verus!
