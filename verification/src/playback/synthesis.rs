//! Bounds and collection of synthesized speech.
use super::error::PlaybackError;
use crate::text::{join, same_text};
use vstd::prelude::*;

verus! {

/// Bounds memory committed to synthesized audio: 256 MiB.
pub const MAX_SYNTHESIZED_AUDIO_BYTES: u64 = 268_435_456;

pub const WAV_HEADER_BYTES: usize = 44;

pub const MAX_SYNTHESIS_SECONDS: u64 = 120;

pub const MAX_SYNTHESIS_CHANNELS: usize = 32;

/// Check the length of a synthesized stream before memory is allocated for it.
pub fn checked_stream_length(byte_length: u64) -> (length: Result<u32, PlaybackError>)
    ensures
        if byte_length > u32::MAX {
            length matches Err(error) && error.is_backend(
                "system TTS produced an audio stream larger than 4 GiB"@,
            )
        } else if byte_length > MAX_SYNTHESIZED_AUDIO_BYTES {
            length matches Err(error) && error.is_backend(
                "system TTS produced an audio stream larger than the 256 MiB internal safety limit"@,
            )
        } else {
            length == Ok::<u32, PlaybackError>(byte_length as u32)
        },
{
    if byte_length > u32::MAX as u64 {
        return Err(
            PlaybackError::Backend(
                "system TTS produced an audio stream larger than 4 GiB".to_string(),
            ),
        );
    }
    if byte_length > MAX_SYNTHESIZED_AUDIO_BYTES {
        return Err(
            PlaybackError::Backend(
                "system TTS produced an audio stream larger than the 256 MiB internal safety limit".to_string(),
            ),
        );
    }
    Ok(byte_length as u32)
}

/// How long synthesis may take: a quarter minute and a tenth of a second for
/// each character, at most two minutes.
pub fn synthesis_timeout_seconds(text_characters: u64) -> (seconds: u64)
    ensures
        seconds == if 15 + text_characters / 10 < MAX_SYNTHESIS_SECONDS {
            15 + text_characters / 10
        } else {
            MAX_SYNTHESIS_SECONDS as int
        },
{
    let wanted: u64 = 15 + text_characters / 10;
    if wanted < MAX_SYNTHESIS_SECONDS {
        wanted
    } else {
        MAX_SYNTHESIS_SECONDS
    }
}

/// Find the requested voice among the installed ones. An absent or empty
/// request selects none.
pub fn select_voice(requested: Option<String>, installed: &Vec<String>) -> (voice: Result<
    Option<usize>,
    PlaybackError,
>)
    ensures
        match requested {
            None => voice == Ok::<Option<usize>, PlaybackError>(None),
            Some(id) => if id@.len() == 0 {
                voice == Ok::<Option<usize>, PlaybackError>(None)
            } else {
                match voice {
                    Ok(Some(i)) => i < installed@.len() && installed@[i as int]@ == id@
                        && forall|j: int| 0 <= j < i ==> (#[trigger] installed@[j])@ != id@,
                    Ok(None) => false,
                    Err(error) => error.is_backend(
                        "configured system TTS voice was not found: "@ + id@,
                    ) && forall|j: int|
                        0 <= j < installed@.len() ==> (#[trigger] installed@[j])@ != id@,
                }
            },
        },
{
    match requested {
        None => Ok(None),
        Some(id) => {
            if same_text(id.as_str(), "") {
                proof {
                    reveal_strlit("");
                }
                return Ok(None);
            }
            proof {
                reveal_strlit("");
                if id@.len() == 0 {
                    assert(id@ =~= ""@);
                }
            }
            let mut i: usize = 0;
            while i < installed.len()
                invariant
                    i <= installed@.len(),
                    requested == Some(id),
                    id@.len() > 0,
                    forall|j: int| 0 <= j < i ==> (#[trigger] installed@[j])@ != id@,
                decreases installed@.len() - i,
            {
                if same_text(installed[i].as_str(), id.as_str()) {
                    return Ok(Some(i));
                }
                i += 1;
            }
            Err(
                PlaybackError::Backend(
                    join("configured system TTS voice was not found: ", id.as_str()),
                ),
            )
        },
    }
}

/// How a synthesis ended.
#[derive(Debug)]
pub enum SynthesisEvent {
    Audio(Vec<u8>),
    Failed(PlaybackError),
    TimedOut,
    Disconnected,
}

/// A speech service that is not used again after an incomplete synthesis.
pub struct SynthesisGate {
    healthy: bool,
}

impl SynthesisGate {
    pub closed spec fn is_healthy(&self) -> bool {
        self.healthy
    }

    pub fn new() -> (gate: Self)
        ensures
            gate.is_healthy(),
    {
        SynthesisGate { healthy: true }
    }

    /// Whether a synthesis may begin.
    pub fn begin(&self) -> (result: Result<(), PlaybackError>)
        ensures
            match result {
                Ok(()) => self.is_healthy(),
                Err(error) => !self.is_healthy() && error.is_backend(
                    "macOS system TTS is unavailable after an incomplete synthesis"@,
                ),
            },
    {
        if self.healthy {
            Ok(())
        } else {
            Err(
                PlaybackError::Backend(
                    "macOS system TTS is unavailable after an incomplete synthesis".to_string(),
                ),
            )
        }
    }

    /// Take the outcome of a synthesis. After anything but audio there is no other.
    pub fn settle(&mut self, event: SynthesisEvent) -> (audio: Result<Vec<u8>, PlaybackError>)
        ensures
            final(self).is_healthy() == (old(self).is_healthy() && event is Audio),
            match event {
                SynthesisEvent::Audio(wav) => audio == Ok::<Vec<u8>, PlaybackError>(wav),
                SynthesisEvent::Failed(error) => audio == Err::<Vec<u8>, PlaybackError>(error),
                SynthesisEvent::TimedOut => audio matches Err(error) && error.is_backend(
                    "macOS system TTS synthesis timed out"@,
                ),
                SynthesisEvent::Disconnected => audio matches Err(error) && error.is_backend(
                    "macOS system TTS ended without an audio result"@,
                ),
            },
    {
        match event {
            SynthesisEvent::Audio(wav) => Ok(wav),
            SynthesisEvent::Failed(error) => {
                self.healthy = false;
                Err(error)
            },
            SynthesisEvent::TimedOut => {
                self.healthy = false;
                Err(PlaybackError::Backend("macOS system TTS synthesis timed out".to_string()))
            },
            SynthesisEvent::Disconnected => {
                self.healthy = false;
                Err(
                    PlaybackError::Backend(
                        "macOS system TTS ended without an audio result".to_string(),
                    ),
                )
            },
        }
    }
}

#[derive(Clone, Copy, Debug, PartialEq, Eq, Structural)]
pub enum PcmEncoding {
    Float32,
    Int16,
    Int32,
}

#[derive(Clone, Copy, Debug, PartialEq, Eq, Structural)]
pub struct PcmFormat {
    pub sample_rate: u32,
    pub channels: u16,
    pub encoding: PcmEncoding,
    pub interleaved: bool,
}

/// The sample blocks of a buffer, one for each channel pointer.
#[derive(Debug)]
pub enum PcmSamples {
    /// Floating-point samples, already scaled and rounded to 16 bits.
    Float32(Vec<Vec<i16>>),
    Int16(Vec<Vec<i16>>),
    Int32(Vec<Vec<i32>>),
    /// A sample format that is not known.
    Unsupported,
}

/// One buffer of synthesized speech.
#[derive(Debug)]
pub struct PcmBuffer {
    /// The buffer holds PCM audio.
    pub is_pcm: bool,
    pub frame_length: usize,
    /// The rounded sample rate, where it is a positive number that fits.
    pub sample_rate: Option<u32>,
    pub channels: usize,
    pub interleaved: bool,
    /// Distance between two frames of a block, in samples.
    pub stride: usize,
    pub samples: PcmSamples,
}

/// The two bytes of a number, low byte first.
pub open spec fn le16(value: u16) -> Seq<u8> {
    seq![(value % 256) as u8, (value / 256) as u8]
}

/// The four bytes of a number, low byte first.
pub open spec fn le32(value: u32) -> Seq<u8> {
    seq![
        (value % 256) as u8,
        (value / 256 % 256) as u8,
        (value / 65536 % 256) as u8,
        (value / 16777216) as u8,
    ]
}

/// The two bytes of a sample in two's complement, low byte first.
pub open spec fn sample_bytes(value: i16) -> Seq<u8> {
    le16(
        if value < 0 {
            (value + 65536) as u16
        } else {
            value as u16
        },
    )
}

/// The top 16 bits of a 32-bit sample.
pub open spec fn top_half(value: i32) -> i16 {
    (value as int / 65536) as i16
}

impl PcmBuffer {
    /// The sample of a channel in a frame, where the buffer has it.
    pub open spec fn sample(&self, frame: int, channel: int) -> Option<i16> {
        let block = if self.interleaved {
            0
        } else {
            channel
        };
        let offset = frame * self.stride + if self.interleaved {
            channel
        } else {
            0
        };
        match self.samples {
            PcmSamples::Float32(blocks) => if block < blocks@.len() && offset
                < blocks@[block]@.len() {
                Some(blocks@[block]@[offset])
            } else {
                None
            },
            PcmSamples::Int16(blocks) => if block < blocks@.len() && offset
                < blocks@[block]@.len() {
                Some(blocks@[block]@[offset])
            } else {
                None
            },
            PcmSamples::Int32(blocks) => if block < blocks@.len() && offset
                < blocks@[block]@.len() {
                Some(top_half(blocks@[block]@[offset]))
            } else {
                None
            },
            PcmSamples::Unsupported => None,
        }
    }

    /// The sample encoding, where it is known.
    pub open spec fn encoding(&self) -> Option<PcmEncoding> {
        match self.samples {
            PcmSamples::Float32(_) => Some(PcmEncoding::Float32),
            PcmSamples::Int16(_) => Some(PcmEncoding::Int16),
            PcmSamples::Int32(_) => Some(PcmEncoding::Int32),
            PcmSamples::Unsupported => None,
        }
    }

    /// Every declared sample is there.
    pub open spec fn complete(&self) -> bool {
        forall|frame: int, channel: int|
            0 <= frame < self.frame_length && 0 <= channel < self.channels
                ==> #[trigger] self.sample(frame, channel) is Some
    }

    /// The first channels of a frame as bytes.
    pub open spec fn frame_bytes(&self, frame: int, channels: nat) -> Seq<u8>
        decreases channels,
    {
        if channels == 0 {
            Seq::empty()
        } else {
            self.frame_bytes(frame, (channels - 1) as nat) + sample_bytes(
                self.sample(frame, channels - 1).unwrap(),
            )
        }
    }

    /// The first frames as bytes.
    pub open spec fn bytes(&self, frames: nat) -> Seq<u8>
        decreases frames,
    {
        if frames == 0 {
            Seq::empty()
        } else {
            self.bytes((frames - 1) as nat) + self.frame_bytes(
                frames - 1,
                self.channels as nat,
            )
        }
    }

    /// No block reaches past the largest machine integer.
    proof fn lemma_no_sample_beyond(&self, frame: int, channel: int)
        requires
            0 <= channel,
            frame * self.stride + (if self.interleaved {
                channel
            } else {
                0
            }) > usize::MAX,
        ensures
            self.sample(frame, channel) is None,
    {
        let block = if self.interleaved {
            0
        } else {
            channel
        };
        match self.samples {
            PcmSamples::Float32(blocks) => {
                assert(blocks@[block]@.len() == blocks@[block].len());
            },
            PcmSamples::Int16(blocks) => {
                assert(blocks@[block]@.len() == blocks@[block].len());
            },
            PcmSamples::Int32(blocks) => {
                assert(blocks@[block]@.len() == blocks@[block].len());
            },
            PcmSamples::Unsupported => {},
        }
    }

    fn encoding_of(&self) -> (encoding: Option<PcmEncoding>)
        ensures
            encoding == self.encoding(),
    {
        match &self.samples {
            PcmSamples::Float32(_) => Some(PcmEncoding::Float32),
            PcmSamples::Int16(_) => Some(PcmEncoding::Int16),
            PcmSamples::Int32(_) => Some(PcmEncoding::Int32),
            PcmSamples::Unsupported => None,
        }
    }

    fn pcm_sample(&self, frame: usize, channel: usize) -> (sample: Option<i16>)
        ensures
            sample == self.sample(frame as int, channel as int),
    {
        let block: usize = if self.interleaved {
            0
        } else {
            channel
        };
        let trailing: usize = if self.interleaved {
            channel
        } else {
            0
        };
        let offset: usize = match frame.checked_mul(self.stride) {
            None => {
                proof {
                    self.lemma_no_sample_beyond(frame as int, channel as int);
                }
                return None;
            },
            Some(start) => match start.checked_add(trailing) {
                None => {
                    proof {
                        self.lemma_no_sample_beyond(frame as int, channel as int);
                    }
                    return None;
                },
                Some(offset) => offset,
            },
        };
        match &self.samples {
            PcmSamples::Float32(blocks) => if block < blocks.len() && offset < blocks[block].len() {
                Some(blocks[block][offset])
            } else {
                None
            },
            PcmSamples::Int16(blocks) => if block < blocks.len() && offset < blocks[block].len() {
                Some(blocks[block][offset])
            } else {
                None
            },
            PcmSamples::Int32(blocks) => if block < blocks.len() && offset < blocks[block].len() {
                Some(upper_half(blocks[block][offset]))
            } else {
                None
            },
            PcmSamples::Unsupported => None,
        }
    }
}

fn upper_half(value: i32) -> (half: i16)
    ensures
        half == top_half(value),
{
    let wide: i64 = value as i64;
    if wide >= 0 {
        (wide / 65536) as i16
    } else {
        // Round towards negative infinity, as an arithmetic shift does.
        let negated: i64 = -wide;
        (-((negated + 65535) / 65536)) as i16
    }
}

/// Collects synthesized speech as 16-bit PCM behind room for a WAV header.
#[derive(Debug)]
pub struct WavCollector {
    pub bytes: Vec<u8>,
    pub format: Option<PcmFormat>,
    pub finished: bool,
}

/// `fmt ` with its trailing space.
pub open spec fn fmt_mark() -> Seq<u8> {
    seq![0x66u8, 0x6d, 0x74, 0x20]
}

/// `data`
pub open spec fn data_mark() -> Seq<u8> {
    seq![0x64u8, 0x61, 0x74, 0x61]
}

/// The header of a 16-bit PCM WAV file with this many bytes of samples.
pub open spec fn wav_header(sample_rate: u32, channels: u16, data_length: u32) -> Seq<u8> {
    let block_align = (channels * 2) as u16;
    super::audio::riff_mark() + le32((data_length + 36) as u32) + super::audio::wave_mark()
        + fmt_mark() + le32(16) + le16(1) + le16(channels) + le32(sample_rate) + le32(
        (sample_rate * block_align) as u32,
    ) + le16(block_align) + le16(16) + data_mark() + le32(data_length)
}

/// A buffer that was refused before any of its samples was read, and why. The
/// checks are made in this order.
pub open spec fn early_refusal(
    buffer: &PcmBuffer,
    current: Option<PcmFormat>,
    collected: nat,
) -> Option<Seq<char>> {
    let samples = buffer.frame_length * buffer.channels;
    let last_offset = (buffer.frame_length - 1) * buffer.stride + if buffer.interleaved {
        buffer.channels - 1
    } else {
        0
    };
    if !buffer.is_pcm {
        Some("macOS system TTS produced a non-PCM audio buffer"@)
    } else if buffer.frame_length == 0 {
        None
    } else if buffer.encoding() is None {
        Some("macOS system TTS produced an unsupported PCM sample format"@)
    } else if buffer.sample_rate is None {
        Some("macOS system TTS produced an invalid sample rate"@)
    } else if buffer.channels == 0 || buffer.channels > MAX_SYNTHESIS_CHANNELS {
        Some("macOS system TTS produced an invalid channel count"@)
    } else if current matches Some(format) && format != buffer_format(buffer) {
        Some("macOS system TTS changed audio format during synthesis"@)
    } else if samples * 2 > usize::MAX {
        Some("macOS system TTS produced an oversized audio buffer"@)
    } else if collected + samples * 2 > MAX_SYNTHESIZED_AUDIO_BYTES {
        Some("macOS system TTS exceeded the 256 MiB internal audio limit"@)
    } else if buffer.stride == 0 || (buffer.interleaved && buffer.stride < buffer.channels)
        || last_offset > usize::MAX {
        Some("macOS system TTS produced an invalid sample stride"@)
    } else {
        None
    }
}

/// A buffer that was refused, and why: a sample that is missing comes last.
pub open spec fn refusal(
    buffer: &PcmBuffer,
    current: Option<PcmFormat>,
    collected: nat,
) -> Option<Seq<char>> {
    let early = early_refusal(buffer, current, collected);
    if early is Some {
        early
    } else if buffer.frame_length > 0 && !buffer.complete() {
        Some("macOS system TTS returned no data for its declared PCM format"@)
    } else {
        None
    }
}

/// Nothing is wrong with the format of a buffer, which thus becomes the format
/// of the collected speech.
pub open spec fn format_taken(buffer: &PcmBuffer, current: Option<PcmFormat>) -> bool {
    &&& buffer.is_pcm
    &&& buffer.frame_length > 0
    &&& buffer.encoding() is Some
    &&& buffer.sample_rate is Some
    &&& 0 < buffer.channels <= MAX_SYNTHESIS_CHANNELS
    &&& current matches Some(format) ==> format == buffer_format(buffer)
}

/// The samples of a buffer were collected up to the first one that is missing.
pub open spec fn collected_up_to(
    buffer: &PcmBuffer,
    before: Seq<u8>,
    after: Seq<u8>,
    frame: nat,
    channel: nat,
) -> bool {
    &&& frame < buffer.frame_length
    &&& channel < buffer.channels
    &&& buffer.sample(frame as int, channel as int) is None
    &&& forall|f: int, c: int|
        0 <= f < frame && 0 <= c < buffer.channels ==> #[trigger] buffer.sample(f, c) is Some
    &&& forall|c: int| 0 <= c < channel ==> #[trigger] buffer.sample(frame as int, c) is Some
    &&& after == before + buffer.bytes(frame) + buffer.frame_bytes(frame as int, channel)
}

/// What a refused buffer leaves behind: its format where that was in order, and
/// the samples before the first one that is missing.
pub open spec fn refused_leaves(
    buffer: &PcmBuffer,
    before: WavCollector,
    after: WavCollector,
) -> bool {
    &&& after.format == if format_taken(buffer, before.format) {
        Some(buffer_format(buffer))
    } else {
        before.format
    }
    &&& before.bytes@.is_prefix_of(after.bytes@)
    &&& if early_refusal(buffer, before.format, before.bytes@.len()) is Some {
        after.bytes@ == before.bytes@
    } else {
        exists|frame: nat, channel: nat| #[trigger]
            collected_up_to(buffer, before.bytes@, after.bytes@, frame, channel)
    }
}

/// The format of a buffer with a known encoding and sample rate.
pub open spec fn buffer_format(buffer: &PcmBuffer) -> PcmFormat {
    PcmFormat {
        sample_rate: buffer.sample_rate.unwrap(),
        channels: buffer.channels as u16,
        encoding: buffer.encoding().unwrap(),
        interleaved: buffer.interleaved,
    }
}

/// What the collected speech becomes.
pub open spec fn finalized(
    bytes: Seq<u8>,
    format: Option<PcmFormat>,
    result: Result<Vec<u8>, PlaybackError>,
) -> bool {
    let data_length = bytes.len() - WAV_HEADER_BYTES;
    match format {
        None => result matches Err(error) && error.is_backend(
            "macOS system TTS produced no audio samples"@,
        ),
        Some(format) => if data_length + 36 > u32::MAX {
            result matches Err(error) && error.is_backend("macOS system TTS WAV data is too large"@)
        } else if format.channels * 2 > u16::MAX || format.sample_rate * (format.channels * 2)
            > u32::MAX {
            result matches Err(error) && error.is_backend("macOS system TTS WAV format is invalid"@)
        } else {
            result matches Ok(wav) && wav@ == wav_header(
                format.sample_rate,
                format.channels,
                data_length as u32,
            ) + bytes.skip(WAV_HEADER_BYTES as int)
        },
    }
}

/// The bytes that stay behind: none once they were handed over.
pub open spec fn left_over(
    bytes: Seq<u8>,
    result: Result<Vec<u8>, PlaybackError>,
) -> Seq<u8> {
    match result {
        Ok(_) => Seq::empty(),
        Err(_) => bytes,
    }
}

/// What becomes of one buffer.
pub open spec fn consumed(
    before: WavCollector,
    buffer: &PcmBuffer,
    terminal: Option<Result<Vec<u8>, PlaybackError>>,
    after: WavCollector,
) -> bool {
    if before.finished {
        terminal is None && after == before
    } else {
        match refusal(buffer, before.format, before.bytes@.len()) {
            Some(message) => {
                &&& after.finished
                &&& terminal matches Some(Err(error)) && error.is_backend(message)
                &&& refused_leaves(buffer, before, after)
            },
            None => if buffer.frame_length == 0 {
                &&& after.finished
                &&& terminal matches Some(result) && finalized(
                    before.bytes@,
                    before.format,
                    result,
                ) && after.bytes@ == left_over(before.bytes@, result)
                &&& after.format == before.format
            } else {
                &&& terminal is None
                &&& !after.finished
                &&& after.format == Some(buffer_format(buffer))
                &&& after.bytes@ == before.bytes@ + buffer.bytes(
                    buffer.frame_length as nat,
                )
            },
        }
    }
}

fn push16(bytes: &mut Vec<u8>, value: u16)
    ensures
        final(bytes)@ == old(bytes)@ + le16(value),
{
    bytes.push((value % 256) as u8);
    bytes.push((value / 256) as u8);
    assert(bytes@ =~= old(bytes)@ + le16(value));
}

fn push32(bytes: &mut Vec<u8>, value: u32)
    ensures
        final(bytes)@ == old(bytes)@ + le32(value),
{
    bytes.push((value % 256) as u8);
    bytes.push((value / 256 % 256) as u8);
    bytes.push((value / 65536 % 256) as u8);
    bytes.push((value / 16777216) as u8);
    assert(bytes@ =~= old(bytes)@ + le32(value));
}

fn push_mark(bytes: &mut Vec<u8>, a: u8, b: u8, c: u8, d: u8)
    ensures
        final(bytes)@ == old(bytes)@ + seq![a, b, c, d],
{
    bytes.push(a);
    bytes.push(b);
    bytes.push(c);
    bytes.push(d);
    assert(bytes@ =~= old(bytes)@ + seq![a, b, c, d]);
}

impl WavCollector {
    pub fn new() -> (collector: Self)
        ensures
            collector.bytes@ == Seq::new(WAV_HEADER_BYTES as nat, |i: int| 0u8),
            collector.format is None,
            !collector.finished,
    {
        let mut bytes: Vec<u8> = Vec::new();
        while bytes.len() < WAV_HEADER_BYTES
            invariant
                bytes@.len() <= WAV_HEADER_BYTES,
                bytes@ == Seq::new(bytes@.len(), |i: int| 0u8),
            decreases WAV_HEADER_BYTES - bytes@.len(),
        {
            bytes.push(0);
            assert(bytes@ =~= Seq::new(bytes@.len(), |i: int| 0u8));
        }
        WavCollector { bytes, format: None, finished: false }
    }

    pub fn finish(&mut self)
        ensures
            final(self).finished,
            final(self).bytes == old(self).bytes,
            final(self).format == old(self).format,
    {
        self.finished = true;
    }

    /// Copy one buffer and return a terminal result when the zero-frame
    /// sentinel arrives or validation fails.
    pub fn consume(&mut self, buffer: &PcmBuffer) -> (terminal: Option<
        Result<Vec<u8>, PlaybackError>,
    >)
        requires
            old(self).bytes@.len() >= WAV_HEADER_BYTES || old(self).finished,
        ensures
            consumed(*old(self), buffer, terminal, *final(self)),
            !final(self).finished ==> final(self).bytes@.len() >= WAV_HEADER_BYTES,
    {
        if self.finished {
            return None;
        }
        if !buffer.is_pcm {
            return self.fail("macOS system TTS produced a non-PCM audio buffer");
        }
        let frame_length: usize = buffer.frame_length;
        if frame_length == 0 {
            self.finished = true;
            return Some(self.finalize());
        }
        let channels: usize = buffer.channels;
        let encoding = match buffer.encoding_of() {
            Some(encoding) => encoding,
            None => {
                return self.fail("macOS system TTS produced an unsupported PCM sample format");
            },
        };
        let sample_rate: u32 = match buffer.sample_rate {
            Some(sample_rate) => sample_rate,
            None => {
                return self.fail("macOS system TTS produced an invalid sample rate");
            },
        };
        if channels == 0 || channels > MAX_SYNTHESIS_CHANNELS {
            return self.fail("macOS system TTS produced an invalid channel count");
        }
        let format = PcmFormat {
            sample_rate,
            channels: channels as u16,
            encoding,
            interleaved: buffer.interleaved,
        };
        if let Some(current) = self.format {
            if current != format {
                return self.fail("macOS system TTS changed audio format during synthesis");
            }
        }
        self.format = Some(format);
        let samples: usize = match frame_length.checked_mul(channels) {
            Some(samples) => samples,
            None => {
                return self.fail("macOS system TTS produced an oversized audio buffer");
            },
        };
        let additional_bytes: usize = match samples.checked_mul(2) {
            Some(additional) => additional,
            None => {
                return self.fail("macOS system TTS produced an oversized audio buffer");
            },
        };
        if self.bytes.len().saturating_add(additional_bytes) as u64 > MAX_SYNTHESIZED_AUDIO_BYTES {
            return self.fail("macOS system TTS exceeded the 256 MiB internal audio limit");
        }
        let trailing_channel: usize = if buffer.interleaved {
            channels - 1
        } else {
            0
        };
        let last_offset: Option<usize> = match (frame_length - 1).checked_mul(buffer.stride) {
            Some(offset) => offset.checked_add(trailing_channel),
            None => None,
        };
        if buffer.stride == 0 || (buffer.interleaved && buffer.stride < channels)
            || last_offset.is_none() {
            return self.fail("macOS system TTS produced an invalid sample stride");
        }
        let ghost before = self.bytes@;
        let mut frame: usize = 0;
        while frame < frame_length
            invariant
                frame <= frame_length,
                frame_length == buffer.frame_length,
                channels == buffer.channels,
                !self.finished,
                self.format == Some(format),
                self.bytes@ == before + buffer.bytes(frame as nat),
                forall|f: int, c: int|
                    0 <= f < frame && 0 <= c < channels ==> #[trigger] buffer.sample(f, c) is Some,
                !old(self).finished,
                old(self).bytes@ == before,
                format == buffer_format(buffer),
                format_taken(buffer, old(self).format),
                early_refusal(buffer, old(self).format, before.len()) is None,
                refusal(buffer, old(self).format, before.len()) == if buffer.complete() {
                    None::<Seq<char>>
                } else {
                    Some("macOS system TTS returned no data for its declared PCM format"@)
                },
            decreases frame_length - frame,
        {
            let ghost frames = self.bytes@;
            let mut channel: usize = 0;
            assert(frames + buffer.frame_bytes(frame as int, 0) =~= frames);
            while channel < channels
                invariant
                    frame < frame_length,
                    channel <= channels,
                    frame_length == buffer.frame_length,
                    channels == buffer.channels,
                    !self.finished,
                    self.format == Some(format),
                    self.bytes@ == frames + buffer.frame_bytes(frame as int, channel as nat),
                    forall|c: int|
                        0 <= c < channel ==> #[trigger] buffer.sample(frame as int, c) is Some,
                    !old(self).finished,
                    old(self).bytes@ == before,
                    frames == before + buffer.bytes(frame as nat),
                    forall|f: int, c: int|
                        0 <= f < frame && 0 <= c < channels ==> #[trigger] buffer.sample(f, c)
                            is Some,
                    format == buffer_format(buffer),
                    format_taken(buffer, old(self).format),
                    early_refusal(buffer, old(self).format, before.len()) is None,
                    refusal(buffer, old(self).format, before.len()) == if buffer.complete() {
                        None::<Seq<char>>
                    } else {
                        Some("macOS system TTS returned no data for its declared PCM format"@)
                    },
                decreases channels - channel,
            {
                match buffer.pcm_sample(frame, channel) {
                    Some(sample) => {
                        let value: u16 = if sample < 0 {
                            (sample as i32 + 65536) as u16
                        } else {
                            sample as u16
                        };
                        push16(&mut self.bytes, value);
                        assert(self.bytes@ =~= frames + buffer.frame_bytes(
                            frame as int,
                            (channel + 1) as nat,
                        ));
                    },
                    None => {
                        assert(!buffer.complete());
                        assert(collected_up_to(
                            buffer,
                            before,
                            self.bytes@,
                            frame as nat,
                            channel as nat,
                        ));
                        return self.fail(
                            "macOS system TTS returned no data for its declared PCM format",
                        );
                    },
                }
                channel += 1;
            }
            assert(self.bytes@ =~= before + buffer.bytes((frame + 1) as nat));
            frame += 1;
        }
        assert(buffer.complete());
        None
    }

    pub fn fail(&mut self, message: &str) -> (terminal: Option<Result<Vec<u8>, PlaybackError>>)
        ensures
            final(self).finished,
            final(self).bytes == old(self).bytes,
            final(self).format == old(self).format,
            terminal matches Some(Err(error)) && error.is_backend(message@),
    {
        self.finished = true;
        Some(Err(PlaybackError::Backend(message.to_string())))
    }

    /// Write the header over its room and hand the file over.
    pub fn finalize(&mut self) -> (result: Result<Vec<u8>, PlaybackError>)
        requires
            old(self).bytes@.len() >= WAV_HEADER_BYTES,
        ensures
            finalized(old(self).bytes@, old(self).format, result),
            final(self).bytes@ == left_over(old(self).bytes@, result),
            final(self).finished == old(self).finished,
            final(self).format == old(self).format,
    {
        let format = match self.format {
            Some(format) => format,
            None => {
                return Err(
                    PlaybackError::Backend("macOS system TTS produced no audio samples".to_string()),
                );
            },
        };
        let data_length: usize = self.bytes.len() - WAV_HEADER_BYTES;
        if data_length as u64 > 0xffff_ffff - 36 {
            return Err(
                PlaybackError::Backend("macOS system TTS WAV data is too large".to_string()),
            );
        }
        let block_align: u16 = match format.channels.checked_mul(2) {
            Some(block_align) => block_align,
            None => {
                return Err(
                    PlaybackError::Backend("macOS system TTS WAV format is invalid".to_string()),
                );
            },
        };
        let byte_rate: u32 = match format.sample_rate.checked_mul(block_align as u32) {
            Some(byte_rate) => byte_rate,
            None => {
                return Err(
                    PlaybackError::Backend("macOS system TTS WAV format is invalid".to_string()),
                );
            },
        };
        let mut header: Vec<u8> = Vec::new();
        push_mark(&mut header, 0x52, 0x49, 0x46, 0x46);
        push32(&mut header, data_length as u32 + 36);
        push_mark(&mut header, 0x57, 0x41, 0x56, 0x45);
        push_mark(&mut header, 0x66, 0x6d, 0x74, 0x20);
        push32(&mut header, 16);
        push16(&mut header, 1);
        push16(&mut header, format.channels);
        push32(&mut header, format.sample_rate);
        push32(&mut header, byte_rate);
        push16(&mut header, block_align);
        push16(&mut header, 16);
        push_mark(&mut header, 0x64, 0x61, 0x74, 0x61);
        push32(&mut header, data_length as u32);
        let ghost expected = wav_header(format.sample_rate, format.channels, data_length as u32);
        assert(header@ =~= expected);
        let ghost before = self.bytes@;
        let mut i: usize = 0;
        while i < WAV_HEADER_BYTES
            invariant
                i <= WAV_HEADER_BYTES,
                header@.len() == WAV_HEADER_BYTES,
                self.bytes@.len() == before.len(),
                before.len() >= WAV_HEADER_BYTES,
                self.bytes@ == header@.take(i as int) + before.skip(i as int),
                self.format == old(self).format,
                self.finished == old(self).finished,
            decreases WAV_HEADER_BYTES - i,
        {
            self.bytes[i] = header[i];
            i += 1;
            assert(self.bytes@ =~= header@.take(i as int) + before.skip(i as int));
        }
        assert(header@.take(i as int) =~= expected);
        let mut wav: Vec<u8> = Vec::new();
        std::mem::swap(&mut wav, &mut self.bytes);
        Ok(wav)
    }
}

/// Collected speech is recognized as a WAV file, whatever was said.
pub proof fn law_collected_speech_is_wav(
    sample_rate: u32,
    channels: u16,
    data_length: u32,
    data: Seq<u8>,
)
    ensures
        super::audio::sniffed(wav_header(sample_rate, channels, data_length) + data) == Some(
            super::audio::AudioFormat::Wav,
        ),
        wav_header(sample_rate, channels, data_length).len() == WAV_HEADER_BYTES,
{
    let file = wav_header(sample_rate, channels, data_length) + data;
    assert(file.subrange(0, 4) =~= super::audio::riff_mark());
    assert(file.subrange(8, 12) =~= super::audio::wave_mark());
}

} // verus!
