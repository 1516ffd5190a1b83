use super::error::PlaybackError;
use crate::order::{sort_by_key, TextKeyed};
use crate::text::{join, same_text};
use vstd::prelude::*;

verus! {

/// How much of a source is read to recognize its format.
pub const SNIFF_BYTES: usize = 65536;

#[derive(Clone, Copy, Debug, PartialEq, Eq, Structural)]
pub enum AudioFormat {
    Wav,
    Mp3,
    Flac,
    OggVorbis,
}

/// What decoder preflight learned of an audio source.
#[derive(Clone, Copy, Debug, PartialEq, Eq, Structural)]
pub struct AudioInfo {
    pub format: AudioFormat,
    pub byte_length: u64,
    /// Playing time in nanoseconds.
    pub duration: u128,
}

/// A concrete output-routing request passed to a playback adapter.
///
/// Device IDs are stable, serializable identifiers. Display names are
/// intentionally not accepted because they are neither unique nor stable.
#[derive(Debug, PartialEq, Eq)]
pub enum OutputTarget {
    /// Resolve the current system default immediately before playback starts.
    SystemDefault,
    /// Open exactly this output device, without falling back to another.
    DeviceId(String),
}

impl Clone for OutputTarget {
    fn clone(&self) -> (copy: Self)
        ensures
            copy == *self,
    {
        match self {
            OutputTarget::SystemDefault => OutputTarget::SystemDefault,
            OutputTarget::DeviceId(id) => OutputTarget::DeviceId(id.clone()),
        }
    }
}

/// Read-only metadata for an available output device.
#[derive(Clone, Debug, PartialEq, Eq)]
pub struct OutputDevice {
    /// Stable, serializable identity suitable for configuration.
    pub device_id: String,
    /// Display-only name; never use this field to select a device.
    pub name: String,
    /// Whether this device was the system default during enumeration.
    pub is_default: bool,
}

impl TextKeyed for OutputDevice {
    open spec fn key(&self) -> Seq<Seq<char>> {
        seq![self.name@, self.device_id@]
    }

    fn key_texts(&self) -> (texts: Vec<String>) {
        let mut texts: Vec<String> = Vec::new();
        texts.push(self.name.clone());
        texts.push(self.device_id.clone());
        assert(texts@.map_values(|text: String| text@) =~= self.key());
        texts
    }
}

/// An output device as the audio host reports it. An error stands for an
/// identity that the host could not give.
#[derive(Debug)]
pub struct FoundDevice {
    pub device_id: Result<String, String>,
    /// A richer name than the generic device class, where the host has one.
    pub extended_name: Option<String>,
    pub name: Option<String>,
}

/// The name to show for a device.
pub open spec fn shown_name(found: FoundDevice) -> Seq<char> {
    match (found.extended_name, found.name) {
        (Some(name), _) => name@,
        (None, Some(name)) => name@,
        (None, None) => "<name unavailable>"@,
    }
}

/// What is listed of a found device, which is marked when it is the default one.
pub open spec fn describes(
    output: OutputDevice,
    found: FoundDevice,
    default_id: Option<String>,
) -> bool {
    &&& found.device_id matches Ok(id) && id@ == output.device_id@
    &&& output.name@ == shown_name(found)
    &&& output.is_default == (default_id matches Some(id) && id@ == output.device_id@)
}

/// The error of the first device without an identity.
pub open spec fn identity_fault(found: Seq<FoundDevice>) -> Option<Seq<char>>
    decreases found.len(),
{
    if found.len() == 0 {
        None
    } else {
        match found[0].device_id {
            Err(detail) => Some(
                "an output device identity is unavailable: "@ + detail@,
            ),
            Ok(_) => identity_fault(found.skip(1)),
        }
    }
}

/// The outputs are those found, in the order of their names and identities.
pub open spec fn outputs_listed(
    outputs: Seq<OutputDevice>,
    found: Seq<FoundDevice>,
    default_id: Option<String>,
) -> bool {
    exists|described: Seq<OutputDevice>| #[trigger]
        crate::order::sorted_from(outputs, described) && described.len() == found.len()
            && forall|i: int|
            0 <= i < found.len() ==> describes(#[trigger] described[i], found[i], default_id)
}

/// An output that cannot be used, with this detail.
pub open spec fn output_unavailable(error: PlaybackError, detail: Seq<char>) -> bool {
    error matches PlaybackError::OutputUnavailable(text) && text@ == detail
}

/// List found devices by name, then by identity, and mark the default one. An
/// error stands for an enumeration that failed.
pub fn list_output_devices(
    found: Result<Vec<FoundDevice>, String>,
    default_id: Option<String>,
) -> (result: Result<Vec<OutputDevice>, PlaybackError>)
    ensures
        match found {
            Err(detail) => result matches Err(error) && output_unavailable(
                error,
                "output devices could not be enumerated: "@ + detail@,
            ),
            Ok(found) => match identity_fault(found@) {
                Some(fault) => result matches Err(error) && output_unavailable(error, fault),
                None => result matches Ok(outputs) && outputs_listed(
                    outputs@,
                    found@,
                    default_id,
                ),
            },
        },
{
    let devices = match found {
        Err(detail) => {
            return Err(
                PlaybackError::OutputUnavailable(
                    join("output devices could not be enumerated: ", detail.as_str()),
                ),
            );
        },
        Ok(devices) => devices,
    };
    let mut outputs: Vec<OutputDevice> = Vec::new();
    let mut i: usize = 0;
    assert(devices@.skip(0) =~= devices@);
    while i < devices.len()
        invariant
            i <= devices@.len(),
            outputs@.len() == i,
            found == Ok::<Vec<FoundDevice>, String>(devices),
            identity_fault(devices@) == identity_fault(devices@.skip(i as int)),
            forall|j: int|
                0 <= j < i ==> describes(#[trigger] outputs@[j], devices@[j], default_id),
        decreases devices@.len() - i,
    {
        let device = &devices[i];
        assert(devices@.skip(i as int)[0] == devices@[i as int]);
        assert(devices@.skip(i as int).skip(1) =~= devices@.skip(i + 1));
        let device_id = match &device.device_id {
            Ok(id) => id.clone(),
            Err(detail) => {
                return Err(
                    PlaybackError::OutputUnavailable(
                        join("an output device identity is unavailable: ", detail.as_str()),
                    ),
                );
            },
        };
        let name = match (&device.extended_name, &device.name) {
            (Some(name), _) => name.clone(),
            (None, Some(name)) => name.clone(),
            (None, None) => "<name unavailable>".to_string(),
        };
        let is_default = match &default_id {
            Some(id) => same_text(id.as_str(), device_id.as_str()),
            None => false,
        };
        outputs.push(OutputDevice { device_id, name, is_default });
        i += 1;
    }
    let ghost described = outputs@;
    let sorted = sort_by_key(outputs);
    assert(crate::order::sorted_from(sorted@, described));
    Ok(sorted)
}

/// The bytes stand at the given place.
pub open spec fn has_bytes(bytes: Seq<u8>, at: int, expected: Seq<u8>) -> bool {
    0 <= at && at + expected.len() <= bytes.len() && bytes.subrange(at, at + expected.len())
        == expected
}

/// `RIFF`
pub open spec fn riff_mark() -> Seq<u8> {
    seq![0x52u8, 0x49, 0x46, 0x46]
}

/// `WAVE`
pub open spec fn wave_mark() -> Seq<u8> {
    seq![0x57u8, 0x41, 0x56, 0x45]
}

/// `fLaC`
pub open spec fn flac_mark() -> Seq<u8> {
    seq![0x66u8, 0x4c, 0x61, 0x43]
}

/// `OggS`
pub open spec fn ogg_mark() -> Seq<u8> {
    seq![0x4fu8, 0x67, 0x67, 0x53]
}

/// The start of a Vorbis identification header: one, then `vorbis`.
pub open spec fn vorbis_mark() -> Seq<u8> {
    seq![0x01u8, 0x76, 0x6f, 0x72, 0x62, 0x69, 0x73]
}

/// `ID3`
pub open spec fn id3_mark() -> Seq<u8> {
    seq![0x49u8, 0x44, 0x33]
}

/// Eleven set bits open an MPEG audio frame.
pub open spec fn has_frame_sync(header: Seq<u8>) -> bool {
    header.len() >= 2 && header[0] == 0xff && header[1] >= 0xe0
}

/// The format that the first bytes of a source announce.
pub open spec fn sniffed(header: Seq<u8>) -> Option<AudioFormat> {
    if has_bytes(header, 0, riff_mark()) && has_bytes(header, 8, wave_mark()) {
        Some(AudioFormat::Wav)
    } else if has_bytes(header, 0, flac_mark()) {
        Some(AudioFormat::Flac)
    } else if has_bytes(header, 0, ogg_mark()) && exists|at: int|
        has_bytes(header, at, vorbis_mark()) {
        Some(AudioFormat::OggVorbis)
    } else if has_bytes(header, 0, id3_mark()) || has_frame_sync(header) {
        Some(AudioFormat::Mp3)
    } else {
        None
    }
}

fn bytes_stand_at(bytes: &[u8], at: usize, expected: &Vec<u8>) -> (found: bool)
    ensures
        found == has_bytes(bytes@, at as int, expected@),
{
    if at > bytes.len() || expected.len() > bytes.len() - at {
        return false;
    }
    let mut i: usize = 0;
    while i < expected.len()
        invariant
            i <= expected@.len(),
            at + expected@.len() <= bytes@.len() <= usize::MAX,
            forall|j: int| 0 <= j < i ==> bytes@[at + j] == #[trigger] expected@[j],
        decreases expected@.len() - i,
    {
        if bytes[at + i] != expected[i] {
            assert(bytes@.subrange(at as int, at + expected@.len())[i as int] != expected@[i as int]);
            return false;
        }
        i += 1;
    }
    assert(bytes@.subrange(at as int, at + expected@.len()) =~= expected@);
    true
}

fn bytes_stand_anywhere(bytes: &[u8], expected: &Vec<u8>) -> (found: bool)
    ensures
        found == exists|at: int| has_bytes(bytes@, at, expected@),
{
    let mut at: usize = 0;
    while at < bytes.len()
        invariant
            at <= bytes@.len(),
            forall|before: int| 0 <= before < at ==> !has_bytes(bytes@, before, expected@),
        decreases bytes@.len() - at,
    {
        if bytes_stand_at(bytes, at, expected) {
            return true;
        }
        at += 1;
    }
    bytes_stand_at(bytes, at, expected)
}

/// Recognize a container by the first bytes of its source.
pub fn sniff_format(header: &[u8]) -> (format: Result<AudioFormat, PlaybackError>)
    ensures
        format == match sniffed(header@) {
            Some(format) => Ok::<AudioFormat, PlaybackError>(format),
            None => Err(PlaybackError::UnsupportedAudio),
        },
{
    let riff: Vec<u8> = vec![0x52, 0x49, 0x46, 0x46];
    let wave: Vec<u8> = vec![0x57, 0x41, 0x56, 0x45];
    let flac: Vec<u8> = vec![0x66, 0x4c, 0x61, 0x43];
    let ogg: Vec<u8> = vec![0x4f, 0x67, 0x67, 0x53];
    let vorbis: Vec<u8> = vec![0x01, 0x76, 0x6f, 0x72, 0x62, 0x69, 0x73];
    let id3: Vec<u8> = vec![0x49, 0x44, 0x33];
    proof {
        assert(riff@ =~= riff_mark());
        assert(wave@ =~= wave_mark());
        assert(flac@ =~= flac_mark());
        assert(ogg@ =~= ogg_mark());
        assert(vorbis@ =~= vorbis_mark());
        assert(id3@ =~= id3_mark());
    }
    if bytes_stand_at(header, 0, &riff) && bytes_stand_at(header, 8, &wave) {
        return Ok(AudioFormat::Wav);
    }
    if bytes_stand_at(header, 0, &flac) {
        return Ok(AudioFormat::Flac);
    }
    if bytes_stand_at(header, 0, &ogg) && bytes_stand_anywhere(header, &vorbis) {
        return Ok(AudioFormat::OggVorbis);
    }
    if bytes_stand_at(header, 0, &id3) || (header.len() >= 2 && header[0] == 0xff && header[1]
        >= 0xe0) {
        return Ok(AudioFormat::Mp3);
    }
    Err(PlaybackError::UnsupportedAudio)
}

/// What a decoder made of a source.
#[derive(Clone, Copy, Debug, PartialEq, Eq, Structural)]
pub enum DecoderReport {
    /// The decoder refused the source, or failed on it.
    Refused,
    /// The source decodes, but its playing time is not known.
    UnknownDuration,
    /// The source decodes and plays this many nanoseconds.
    Duration(u128),
}

/// Where prepared audio is read from. `F` is an opened file.
#[derive(Debug)]
pub enum PreparedAudioSource<F> {
    File(F),
    Memory(Vec<u8>),
}

/// A decoder-preflighted source, ready to move to the actor.
#[derive(Debug)]
pub struct PreparedAudio<F> {
    source: PreparedAudioSource<F>,
    info: AudioInfo,
    runtime_limit: Option<u128>,
}

/// The error of a preflight, or what it learned.
pub open spec fn preflighted(
    header: Seq<u8>,
    byte_length: u64,
    decoded: DecoderReport,
    maximum_duration: Option<u128>,
) -> Result<AudioInfo, PlaybackError> {
    match sniffed(header) {
        None => Err(PlaybackError::UnsupportedAudio),
        Some(format) => match decoded {
            DecoderReport::Refused => Err(PlaybackError::UnsupportedAudio),
            DecoderReport::UnknownDuration => Err(PlaybackError::DurationUnknown),
            DecoderReport::Duration(duration) => if maximum_duration matches Some(limit) && duration
                > limit {
                Err(PlaybackError::AudioTooLong)
            } else {
                Ok(AudioInfo { format, byte_length, duration })
            },
        },
    }
}

fn preflight(
    header: &[u8],
    byte_length: u64,
    decoded: DecoderReport,
    maximum_duration: Option<u128>,
) -> (info: Result<AudioInfo, PlaybackError>)
    ensures
        info == preflighted(header@, byte_length, decoded, maximum_duration),
{
    match sniff_format(header) {
        Err(error) => Err(error),
        Ok(format) => match decoded {
            DecoderReport::Refused => Err(PlaybackError::UnsupportedAudio),
            DecoderReport::UnknownDuration => Err(PlaybackError::DurationUnknown),
            DecoderReport::Duration(duration) => {
                if let Some(limit) = maximum_duration {
                    if duration > limit {
                        return Err(PlaybackError::AudioTooLong);
                    }
                }
                Ok(AudioInfo { format, byte_length, duration })
            },
        },
    }
}

impl<F> PreparedAudio<F> {
    pub closed spec fn source_view(self) -> PreparedAudioSource<F> {
        self.source
    }

    pub closed spec fn info_view(self) -> AudioInfo {
        self.info
    }

    pub closed spec fn limit_view(self) -> Option<u128> {
        self.runtime_limit
    }

    /// Preflight an already-opened file and retain that exact handle for
    /// playback. `header` holds the first bytes of the file.
    pub fn from_file(
        file: F,
        is_regular: bool,
        byte_length: u64,
        header: &[u8],
        decoded: DecoderReport,
        maximum_duration: Option<u128>,
    ) -> (prepared: Result<Self, PlaybackError>)
        ensures
            if !is_regular {
                prepared == Err::<Self, PlaybackError>(PlaybackError::NotRegularFile)
            } else {
                match preflighted(header@, byte_length, decoded, maximum_duration) {
                    Err(error) => prepared == Err::<Self, PlaybackError>(error),
                    Ok(info) => {
                        &&& prepared matches Ok(audio)
                        &&& audio.source_view() == PreparedAudioSource::File(file)
                        &&& audio.info_view() == info
                        &&& audio.limit_view() == maximum_duration
                    },
                }
            },
    {
        if !is_regular {
            return Err(PlaybackError::NotRegularFile);
        }
        match preflight(header, byte_length, decoded, maximum_duration) {
            Err(error) => Err(error),
            Ok(info) => Ok(
                PreparedAudio {
                    source: PreparedAudioSource::File(file),
                    info,
                    runtime_limit: maximum_duration,
                },
            ),
        }
    }

    /// Decoder-preflight synthesized audio held entirely in memory.
    pub fn from_memory(bytes: Vec<u8>, decoded: DecoderReport) -> (prepared: Result<
        Self,
        PlaybackError,
    >)
        ensures
            match preflighted(sniffed_part(bytes@), bytes@.len() as u64, decoded, None) {
                Err(error) => prepared == Err::<Self, PlaybackError>(error),
                Ok(info) => {
                    &&& prepared matches Ok(audio)
                    &&& audio.source_view() == PreparedAudioSource::<F>::Memory(bytes)
                    &&& audio.info_view() == info
                    &&& audio.limit_view() == Some(info.duration)
                },
            },
    {
        let byte_length: u64 = bytes.len() as u64;
        let read: usize = if bytes.len() < SNIFF_BYTES {
            bytes.len()
        } else {
            SNIFF_BYTES
        };
        assert(bytes@.subrange(0, read as int) =~= sniffed_part(bytes@));
        let info = preflight(
            vstd::slice::slice_subrange(bytes.as_slice(), 0, read),
            byte_length,
            decoded,
            None,
        );
        match info {
            Err(error) => Err(error),
            Ok(info) => Ok(
                PreparedAudio {
                    source: PreparedAudioSource::Memory(bytes),
                    info,
                    runtime_limit: Some(info.duration),
                },
            ),
        }
    }

    pub fn info(&self) -> (info: AudioInfo)
        ensures
            info == self.info_view(),
    {
        self.info
    }

    /// The source and the longest time that it may play.
    pub fn into_parts(self) -> (parts: (PreparedAudioSource<F>, Option<u128>))
        ensures
            parts == (self.source_view(), self.limit_view()),
    {
        (self.source, self.runtime_limit)
    }
}

/// The part of a source that is read to recognize its format.
pub open spec fn sniffed_part(bytes: Seq<u8>) -> Seq<u8> {
    if bytes.len() < SNIFF_BYTES {
        bytes
    } else {
        bytes.take(SNIFF_BYTES as int)
    }
}

} // verus!
