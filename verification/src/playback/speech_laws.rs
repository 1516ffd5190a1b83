//! What collected speech holds, byte by byte.
use super::error::PlaybackError;
use super::synthesis;
use super::synthesis::{PcmBuffer, PcmEncoding, PcmFormat, PcmSamples, WavCollector};
use vstd::prelude::*;

verus! {

/// Two bytes as a number, low byte first.
pub open spec fn word_at(bytes: Seq<u8>, at: int) -> int {
    bytes[at] + 256 * bytes[at + 1]
}

/// Two bytes as a signed number, low byte first.
pub open spec fn sample_at(bytes: Seq<u8>, at: int) -> int {
    if word_at(bytes, at) < 32768 {
        word_at(bytes, at)
    } else {
        word_at(bytes, at) - 65536
    }
}

/// Four bytes as a number, low byte first.
pub open spec fn long_at(bytes: Seq<u8>, at: int) -> int {
    word_at(bytes, at) + 65536 * word_at(bytes, at + 2)
}

/// A 16-bit number is what a buffer holds for a channel of a frame: the sample
/// itself, or the upper half of a 32-bit one. The samples of a frame stand side by
/// side in one block, or each in the block of its channel.
pub open spec fn holds(buffer: &PcmBuffer, frame: int, channel: int, value: int) -> bool {
    let block = if buffer.interleaved {
        0
    } else {
        channel
    };
    let offset = if buffer.interleaved {
        frame * buffer.stride + channel
    } else {
        frame * buffer.stride
    };
    match buffer.samples {
        PcmSamples::Float32(blocks) => 0 <= block < blocks@.len() && 0 <= offset
            < blocks@[block]@.len() && value == blocks@[block]@[offset],
        PcmSamples::Int16(blocks) => 0 <= block < blocks@.len() && 0 <= offset
            < blocks@[block]@.len() && value == blocks@[block]@[offset],
        PcmSamples::Int32(blocks) => 0 <= block < blocks@.len() && 0 <= offset
            < blocks@[block]@.len() && value * 65536 <= blocks@[block]@[offset] < (value + 1)
            * 65536,
        PcmSamples::Unsupported => false,
    }
}

/// A sample that a buffer has is the one that it holds there.
proof fn lemma_held(buffer: &PcmBuffer, frame: int, channel: int)
    requires
        0 <= frame,
        0 <= channel,
        buffer.sample(frame, channel) is Some,
    ensures
        holds(buffer, frame, channel, buffer.sample(frame, channel).unwrap() as int),
{
    assert(0 <= frame * buffer.stride) by (nonlinear_arith)
        requires
            0 <= frame,
            0 <= buffer.stride,
    ;
}

/// The bytes of a frame are its samples, one behind the other.
proof fn lemma_frame(buffer: &PcmBuffer, frame: int, channels: nat)
    requires
        forall|c: int| 0 <= c < channels ==> #[trigger] buffer.sample(frame, c) is Some,
    ensures
        buffer.frame_bytes(frame, channels).len() == 2 * channels,
        forall|c: int|
            0 <= c < channels ==> sample_at(buffer.frame_bytes(frame, channels), 2 * c)
                == (#[trigger] buffer.sample(frame, c)).unwrap(),
    decreases channels,
{
    if channels > 0 {
        let fewer = (channels - 1) as nat;
        lemma_frame(buffer, frame, fewer);
        let rest = buffer.frame_bytes(frame, fewer);
        let whole = buffer.frame_bytes(frame, channels);
        let last = buffer.sample(frame, channels - 1).unwrap();
        assert(buffer.sample(frame, channels - 1) is Some);
        assert(whole[2 * (channels - 1)] == synthesis::sample_bytes(last)[0]);
        assert(whole[2 * (channels - 1) + 1] == synthesis::sample_bytes(last)[1]);
        assert forall|c: int| 0 <= c < channels implies sample_at(whole, 2 * c)
            == (#[trigger] buffer.sample(frame, c)).unwrap() by {
            if c < fewer {
                assert(whole[2 * c] == rest[2 * c]);
                assert(whole[2 * c + 1] == rest[2 * c + 1]);
            }
        }
    }
}

/// A buffer declares a sample for a channel of a frame.
pub open spec fn declares(buffer: &PcmBuffer, frame: int, channel: int) -> bool {
    0 <= frame < buffer.frame_length && 0 <= channel < buffer.channels
}

/// Where a sample stands among the bytes of a buffer.
pub open spec fn place(buffer: &PcmBuffer, frame: int, channel: int) -> int {
    2 * (frame * buffer.channels + channel)
}

/// The bytes of a buffer are its samples, frame by frame.
proof fn lemma_frames(buffer: &PcmBuffer, frames: nat)
    requires
        buffer.complete(),
        frames <= buffer.frame_length,
    ensures
        buffer.bytes(frames).len() == 2 * (frames * buffer.channels),
        forall|f: int, c: int|
            0 <= f < frames && 0 <= c < buffer.channels ==> sample_at(
                buffer.bytes(frames),
                place(buffer, f, c),
            ) == (#[trigger] buffer.sample(f, c)).unwrap(),
    decreases frames,
{
    if frames > 0 {
        let fewer = (frames - 1) as nat;
        let channels = buffer.channels as int;
        lemma_frames(buffer, fewer);
        lemma_frame(buffer, fewer as int, channels as nat);
        let rest = buffer.bytes(fewer);
        let last = buffer.frame_bytes(fewer as int, channels as nat);
        let whole = buffer.bytes(frames);
        assert(whole == rest + last);
        assert(frames * channels == fewer * channels + channels) by (nonlinear_arith)
            requires
                frames == fewer + 1,
        ;
        assert forall|f: int, c: int| 0 <= f < frames && 0 <= c < channels implies sample_at(
            whole,
            place(buffer, f, c),
        ) == (#[trigger] buffer.sample(f, c)).unwrap() by {
            let at = place(buffer, f, c);
            if f < fewer {
                assert(0 <= f * channels && f * channels + channels <= fewer * channels)
                    by (nonlinear_arith)
                    requires
                        0 <= f,
                        f + 1 <= fewer,
                        0 <= channels,
                ;
                assert(whole[at] == rest[at]);
                assert(whole[at + 1] == rest[at + 1]);
            } else {
                assert(f == fewer);
                assert(at == rest.len() + 2 * c);
                assert(whole[at] == last[2 * c]);
                assert(whole[at + 1] == last[2 * c + 1]);
            }
        }
    } else {
        assert(0 * buffer.channels == 0);
    }
}

/// A buffer that is taken adds its samples behind what was collected: two bytes
/// for each channel of each frame, in order, and each holds the sample that the
/// buffer has there. What was collected before stays.
pub proof fn law_every_sample_is_collected(
    before: WavCollector,
    buffer: &PcmBuffer,
    after: WavCollector,
)
    requires
        synthesis::consumed(before, buffer, None, after),
        !before.finished,
    ensures
        buffer.frame_length > 0,
        after.bytes@.len() == before.bytes@.len() + 2 * (buffer.frame_length * buffer.channels),
        before.bytes@.is_prefix_of(after.bytes@),
        forall|f: int, c: int| #[trigger]
            declares(buffer, f, c) ==> holds(
                buffer,
                f,
                c,
                sample_at(after.bytes@, before.bytes@.len() + place(buffer, f, c)),
            ),
{
    let frames = buffer.frame_length as nat;
    let channels = buffer.channels as int;
    let start = before.bytes@.len() as int;
    let added = buffer.bytes(frames);
    assert(buffer.complete());
    lemma_frames(buffer, frames);
    assert(before.bytes@ =~= after.bytes@.take(start));
    assert forall|f: int, c: int| #[trigger] declares(buffer, f, c) implies holds(
        buffer,
        f,
        c,
        sample_at(after.bytes@, start + place(buffer, f, c)),
    ) by {
        let at = place(buffer, f, c);
        assert(buffer.sample(f, c) is Some);
        lemma_held(buffer, f, c);
        assert(0 <= f * channels && f * channels + channels <= frames * channels)
            by (nonlinear_arith)
            requires
                0 <= f,
                f + 1 <= frames,
                0 <= channels,
        ;
        assert(after.bytes@[start + at] == added[at]);
        assert(after.bytes@[start + at + 1] == added[at + 1]);
    }
}

/// The empty buffer that ends the speech turns what was collected into a WAV
/// file: a header that says how many bytes, channels and samples per second there
/// are, and behind it every byte that was collected.
pub proof fn law_speech_becomes_a_wav_file(
    before: WavCollector,
    buffer: &PcmBuffer,
    wav: Vec<u8>,
    after: WavCollector,
)
    requires
        synthesis::consumed(before, buffer, Some(Ok(wav)), after),
        before.bytes@.len() >= 44,
    ensures
        before.format is Some,
        buffer.frame_length == 0,
        wav@.len() == before.bytes@.len(),
        wav@.skip(44) == before.bytes@.skip(44),
        wav@.subrange(0, 4) == seq![0x52u8, 0x49, 0x46, 0x46],
        long_at(wav@, 4) == wav@.len() - 8,
        wav@.subrange(8, 12) == seq![0x57u8, 0x41, 0x56, 0x45],
        wav@.subrange(12, 16) == seq![0x66u8, 0x6d, 0x74, 0x20],
        long_at(wav@, 16) == 16,
        word_at(wav@, 20) == 1,
        word_at(wav@, 22) == before.format.unwrap().channels,
        long_at(wav@, 24) == before.format.unwrap().sample_rate,
        long_at(wav@, 28) == before.format.unwrap().sample_rate * (
        before.format.unwrap().channels * 2),
        word_at(wav@, 32) == before.format.unwrap().channels * 2,
        word_at(wav@, 34) == 16,
        wav@.subrange(36, 40) == seq![0x64u8, 0x61, 0x74, 0x61],
        long_at(wav@, 40) == wav@.len() - 44,
{
    let format = before.format.unwrap();
    let length = (before.bytes@.len() - 44) as u32;
    let header = synthesis::wav_header(format.sample_rate, format.channels, length);
    assert(synthesis::finalized(before.bytes@, before.format, Ok(wav)));
    assert(header.len() == 44);
    assert(wav@ == header + before.bytes@.skip(44));
    assert(wav@.skip(44) =~= before.bytes@.skip(44));
    assert(wav@.subrange(0, 4) =~= seq![0x52u8, 0x49, 0x46, 0x46]);
    assert(wav@.subrange(8, 12) =~= seq![0x57u8, 0x41, 0x56, 0x45]);
    assert(wav@.subrange(12, 16) =~= seq![0x66u8, 0x6d, 0x74, 0x20]);
    assert(wav@.subrange(36, 40) =~= seq![0x64u8, 0x61, 0x74, 0x61]);
    let block_align = (format.channels * 2) as u16;
    let byte_rate = (format.sample_rate * block_align) as u32;
    lemma_long((length + 36) as u32);
    lemma_long(16);
    lemma_long(format.sample_rate);
    lemma_long(byte_rate);
    lemma_long(length);
    assert(forall|i: int| 0 <= i < 44 ==> #[trigger] wav@[i] == header[i]);
    assert(0 <= format.sample_rate * (format.channels * 2)) by (nonlinear_arith)
        requires
            0 <= format.sample_rate,
            0 <= format.channels,
    ;
}

/// Four bytes of a number give it back.
proof fn lemma_long(value: u32)
    ensures
        long_at(synthesis::le32(value), 0) == value,
{
    assert(value / 256 / 256 == value / 65536) by (nonlinear_arith);
    assert(value / 65536 / 256 == value / 16777216) by (nonlinear_arith);
}

/// The format that a buffer has.
pub open spec fn has_format(buffer: &PcmBuffer, format: PcmFormat) -> bool {
    &&& buffer.sample_rate == Some(format.sample_rate)
    &&& buffer.channels == format.channels
    &&& buffer.interleaved == format.interleaved
    &&& match format.encoding {
        PcmEncoding::Float32 => buffer.samples is Float32,
        PcmEncoding::Int16 => buffer.samples is Int16,
        PcmEncoding::Int32 => buffer.samples is Int32,
    }
}

/// Every sample that a buffer declares is there.
pub open spec fn holds_all(buffer: &PcmBuffer) -> bool {
    forall|f: int, c: int| #[trigger]
        declares(buffer, f, c) ==> exists|value: int| holds(buffer, f, c, value)
}

/// A buffer is complete where it holds every sample that it declares.
proof fn lemma_all_held(buffer: &PcmBuffer)
    ensures
        holds_all(buffer) <==> buffer.complete(),
{
    if buffer.complete() {
        assert forall|f: int, c: int| #[trigger] declares(buffer, f, c) implies exists|value: int|
            holds(buffer, f, c, value) by {
            assert(buffer.sample(f, c) is Some);
            lemma_held(buffer, f, c);
        }
    }
    if holds_all(buffer) {
        assert forall|f: int, c: int|
            0 <= f < buffer.frame_length && 0 <= c
                < buffer.channels implies #[trigger] buffer.sample(f, c) is Some by {
            assert(declares(buffer, f, c));
            let value = choose|value: int| holds(buffer, f, c, value);
            assert(holds(buffer, f, c, value));
        }
    }
}

/// A buffer is taken exactly where it is PCM audio with frames, in a known
/// encoding, at a known rate, with one to thirty-two channels, in the format of the
/// buffers before it, within 256 MiB in all, with frames that do not overlap, and
/// with every sample that it declares. Its format is then that of the speech.
pub proof fn law_sound_buffers_are_taken(
    before: WavCollector,
    buffer: &PcmBuffer,
    terminal: Option<Result<Vec<u8>, PlaybackError>>,
    after: WavCollector,
)
    requires
        synthesis::consumed(before, buffer, terminal, after),
        !before.finished,
    ensures
        terminal is None <==> {
            &&& buffer.is_pcm
            &&& buffer.frame_length > 0
            &&& !(buffer.samples is Unsupported)
            &&& buffer.sample_rate is Some
            &&& 1 <= buffer.channels <= 32
            &&& before.format matches Some(format) ==> has_format(buffer, format)
            &&& buffer.frame_length * buffer.channels * 2 <= usize::MAX
            &&& before.bytes@.len() + buffer.frame_length * buffer.channels * 2 <= 268_435_456
            &&& buffer.stride > 0
            &&& buffer.interleaved ==> buffer.stride >= buffer.channels
            &&& (buffer.frame_length - 1) * buffer.stride + (if buffer.interleaved {
                buffer.channels - 1
            } else {
                0
            }) <= usize::MAX
            &&& holds_all(buffer)
        },
        terminal is None ==> !after.finished && (after.format matches Some(format) && has_format(
            buffer,
            format,
        )),
        terminal is Some ==> after.finished,
        !buffer.is_pcm ==> (terminal matches Some(Err(error)) && error.is_backend(
            "macOS system TTS produced a non-PCM audio buffer"@,
        )),
        buffer.is_pcm && buffer.frame_length == 0 && before.format is None ==> (
        terminal matches Some(Err(error)) && error.is_backend(
            "macOS system TTS produced no audio samples"@,
        )),
{
    lemma_all_held(buffer);
    if buffer.encoding() is Some && buffer.sample_rate is Some && buffer.channels <= 32 {
        let own = synthesis::buffer_format(buffer);
        assert(has_format(buffer, own));
        if let Some(format) = before.format {
            assert(has_format(buffer, format) <==> format == own);
        }
    }
}

/// A buffer that is refused ends the speech with the first thing that is wrong with
/// it: what it is, its encoding, its rate, its channels, another format than
/// before, its size, the size of all, its frames, and a sample that is missing.
pub proof fn law_refused_buffers_say_why(
    before: WavCollector,
    buffer: &PcmBuffer,
    terminal: Option<Result<Vec<u8>, PlaybackError>>,
    after: WavCollector,
)
    requires
        synthesis::consumed(before, buffer, terminal, after),
        !before.finished,
        terminal is Some,
        buffer.frame_length > 0 || !buffer.is_pcm,
    ensures
        terminal matches Some(Err(PlaybackError::Backend(reason))) && reason@
            == if !buffer.is_pcm {
            "macOS system TTS produced a non-PCM audio buffer"@
        } else if buffer.samples is Unsupported {
            "macOS system TTS produced an unsupported PCM sample format"@
        } else if buffer.sample_rate is None {
            "macOS system TTS produced an invalid sample rate"@
        } else if !(1 <= buffer.channels <= 32) {
            "macOS system TTS produced an invalid channel count"@
        } else if before.format is Some && !has_format(buffer, before.format.unwrap()) {
            "macOS system TTS changed audio format during synthesis"@
        } else if buffer.frame_length * buffer.channels * 2 > usize::MAX {
            "macOS system TTS produced an oversized audio buffer"@
        } else if before.bytes@.len() + buffer.frame_length * buffer.channels * 2 > 268_435_456 {
            "macOS system TTS exceeded the 256 MiB internal audio limit"@
        } else if buffer.stride == 0 || (buffer.interleaved && buffer.stride < buffer.channels)
            || (buffer.frame_length - 1) * buffer.stride + (if buffer.interleaved {
            buffer.channels - 1
        } else {
            0
        }) > usize::MAX {
            "macOS system TTS produced an invalid sample stride"@
        } else {
            "macOS system TTS returned no data for its declared PCM format"@
        },
{
    lemma_all_held(buffer);
    if buffer.encoding() is Some && buffer.sample_rate is Some && buffer.channels <= 32 {
        let own = synthesis::buffer_format(buffer);
        assert(has_format(buffer, own));
        if let Some(format) = before.format {
            assert(has_format(buffer, format) <==> format == own);
        }
    }
}

/// Once the speech has ended, nothing more is taken and nothing more is told. A
/// refused buffer takes nothing back of what was collected.
pub proof fn law_ended_speech_stays_as_it_is(
    before: WavCollector,
    buffer: &PcmBuffer,
    terminal: Option<Result<Vec<u8>, PlaybackError>>,
    after: WavCollector,
)
    requires
        synthesis::consumed(before, buffer, terminal, after),
    ensures
        before.finished ==> terminal is None && after == before,
        !before.finished && terminal is Some && (buffer.frame_length > 0 || !buffer.is_pcm) ==> {
            &&& before.bytes@.is_prefix_of(after.bytes@)
            &&& !buffer.is_pcm || buffer.samples is Unsupported || buffer.sample_rate is None
                || !(1 <= buffer.channels <= 32) ==> after.bytes@ == before.bytes@ && after.format
                == before.format
        },
        !before.finished && buffer.frame_length == 0 && buffer.is_pcm ==> {
            &&& after.finished
            &&& after.format == before.format
            &&& terminal matches Some(Ok(_)) ==> after.bytes@.len() == 0
            &&& terminal matches Some(Err(_)) ==> after.bytes@ == before.bytes@
        },
{
}

/// Speech that ends without a sample, with more data than a WAV file can name or
/// with a format that it cannot name is refused, and other speech is not.
pub proof fn law_speech_that_fits_becomes_a_file(
    before: WavCollector,
    buffer: &PcmBuffer,
    terminal: Option<Result<Vec<u8>, PlaybackError>>,
    after: WavCollector,
)
    requires
        synthesis::consumed(before, buffer, terminal, after),
        !before.finished,
        buffer.is_pcm,
        buffer.frame_length == 0,
        before.bytes@.len() >= 44,
    ensures
        ({
            let too_large = before.bytes@.len() - 8 > u32::MAX;
            let strange = before.format matches Some(format) && (format.channels * 2 > u16::MAX
                || format.sample_rate * (format.channels * 2) > u32::MAX);
            &&& (terminal is Some && terminal.unwrap() is Ok) <==> before.format is Some
                && !too_large && !strange
            &&& before.format is None ==> (terminal matches Some(
                Err(PlaybackError::Backend(reason)),
            ) && reason@ == "macOS system TTS produced no audio samples"@)
            &&& before.format is Some && too_large ==> (terminal matches Some(
                Err(PlaybackError::Backend(reason)),
            ) && reason@ == "macOS system TTS WAV data is too large"@)
            &&& before.format is Some && !too_large && strange ==> (terminal matches Some(
                Err(PlaybackError::Backend(reason)),
            ) && reason@ == "macOS system TTS WAV format is invalid"@)
        }),
{
}

/// What a refused buffer leaves behind. Where nothing is wrong with its format, that
/// is the format of the speech. Where all that is wrong is a missing sample, the
/// samples in front of it were collected, and nothing else.
pub proof fn law_refused_buffers_leave_what_was_sound(
    before: WavCollector,
    buffer: &PcmBuffer,
    terminal: Option<Result<Vec<u8>, PlaybackError>>,
    after: WavCollector,
)
    requires
        synthesis::consumed(before, buffer, terminal, after),
        !before.finished,
        terminal is Some,
        buffer.is_pcm,
        buffer.frame_length > 0,
    ensures
        ({
            let in_order = !(buffer.samples is Unsupported) && buffer.sample_rate is Some && 1
                <= buffer.channels <= 32 && (before.format is Some ==> has_format(
                buffer,
                before.format.unwrap(),
            ));
            let fits = buffer.frame_length * buffer.channels * 2 <= usize::MAX
                && before.bytes@.len() + buffer.frame_length * buffer.channels * 2 <= 268_435_456
                && buffer.stride > 0 && (buffer.interleaved ==> buffer.stride >= buffer.channels)
                && (buffer.frame_length - 1) * buffer.stride + (if buffer.interleaved {
                buffer.channels - 1
            } else {
                0
            }) <= usize::MAX;
            &&& in_order ==> after.format is Some && has_format(buffer, after.format.unwrap())
            &&& !in_order ==> after.format == before.format
            &&& !in_order || !fits ==> after.bytes@ == before.bytes@
            &&& in_order && fits ==> exists|frame: int, channel: int| #[trigger]
                stops_at(buffer, before.bytes@, after.bytes@, frame, channel)
        }),
{
    lemma_all_held(buffer);
    if buffer.encoding() is Some && buffer.sample_rate is Some && buffer.channels <= 32 {
        let own = synthesis::buffer_format(buffer);
        assert(has_format(buffer, own));
        if let Some(format) = before.format {
            assert(has_format(buffer, format) <==> format == own);
        }
    }
    if synthesis::early_refusal(buffer, before.format, before.bytes@.len()) is None {
        let (frame, channel) = choose|frame: nat, channel: nat| #[trigger]
            synthesis::collected_up_to(buffer, before.bytes@, after.bytes@, frame, channel);
        lemma_stops(buffer, before.bytes@, after.bytes@, frame, channel);
    }
}

/// Everything in front of a place was collected: what is there is missing, and what
/// stands in front of it is not.
pub open spec fn stops_at(
    buffer: &PcmBuffer,
    before: Seq<u8>,
    after: Seq<u8>,
    frame: int,
    channel: int,
) -> bool {
    &&& declares(buffer, frame, channel)
    &&& forall|value: int| !(#[trigger] holds(buffer, frame, channel, value))
    &&& forall|f: int, c: int| #[trigger]
        declares(buffer, f, c) && (f < frame || (f == frame && c < channel)) ==> exists|
            value: int,
        |
            holds(buffer, f, c, value)
    &&& before.is_prefix_of(after)
    &&& after.len() == before.len() + place(buffer, frame, channel)
}

proof fn lemma_stops(
    buffer: &PcmBuffer,
    before: Seq<u8>,
    after: Seq<u8>,
    frame: nat,
    channel: nat,
)
    requires
        synthesis::collected_up_to(buffer, before, after, frame, channel),
    ensures
        stops_at(buffer, before, after, frame as int, channel as int),
{
    assert forall|f: int, c: int| #[trigger]
        declares(buffer, f, c) && (f < frame || (f == frame && c < channel)) implies exists|
        value: int,
    |
        holds(buffer, f, c, value) by {
        assert(buffer.sample(f, c) is Some);
        lemma_held(buffer, f, c);
    }
    assert forall|value: int| !(#[trigger] holds(
        buffer,
        frame as int,
        channel as int,
        value,
    )) by {
        assert(buffer.sample(frame as int, channel as int) is None);
    }
    lemma_bytes_so_far(buffer, frame);
    lemma_frame(buffer, frame as int, channel);
    assert(before =~= after.take(before.len() as int));
}

proof fn lemma_bytes_so_far(buffer: &PcmBuffer, frames: nat)
    requires
        forall|f: int, c: int|
            0 <= f < frames && 0 <= c < buffer.channels ==> #[trigger] buffer.sample(f, c) is Some,
    ensures
        buffer.bytes(frames).len() == 2 * (frames * buffer.channels),
    decreases frames,
{
    if frames > 0 {
        let fewer = (frames - 1) as nat;
        lemma_bytes_so_far(buffer, fewer);
        lemma_frame(buffer, fewer as int, buffer.channels as nat);
        assert(frames * buffer.channels == fewer * buffer.channels + buffer.channels)
            by (nonlinear_arith)
            requires
                frames == fewer + 1,
        ;
    } else {
        assert(0 * buffer.channels == 0);
    }
}

} // verus!
