//! What is recognized, admitted, listed and routed, said of the inputs alone.
use super::audio;
use super::audio::{
    AudioFormat, AudioInfo, DecoderReport, FoundDevice, OutputDevice, OutputTarget,
};
use super::engine;
use super::engine::{DeviceLookup, OpeningOutcome};
use super::error::PlaybackError;
use super::job::PlaybackId;
use super::routes;
use super::routes::{OutputRoutes, Route};
use super::tts;
use super::tts::{SystemVoice, VoiceSource};
use crate::gain::Gain;
use crate::order;
use crate::order::TextKeyed;
use vstd::prelude::*;

verus! {

/// Bytes stand at a place where each of them does.
proof fn lemma_bytes(bytes: Seq<u8>, at: int, expected: Seq<u8>)
    ensures
        audio::has_bytes(bytes, at, expected) <==> 0 <= at && at + expected.len() <= bytes.len()
            && forall|i: int| 0 <= i < expected.len() ==> bytes[at + i] == #[trigger] expected[i],
{
    if 0 <= at && at + expected.len() <= bytes.len() {
        let part = bytes.subrange(at, at + expected.len());
        if audio::has_bytes(bytes, at, expected) {
            assert forall|i: int| 0 <= i < expected.len() implies bytes[at + i]
                == #[trigger] expected[i] by {
                assert(part[i] == bytes[at + i]);
            }
        }
        if forall|i: int| 0 <= i < expected.len() ==> bytes[at + i] == #[trigger] expected[i] {
            assert(part =~= expected);
        }
    }
}

/// The bytes of a Vorbis identification header stand at a place.
pub open spec fn vorbis_at(header: Seq<u8>, at: int) -> bool {
    &&& 0 <= at && at + 7 <= header.len()
    &&& header[at] == 0x01 && header[at + 1] == 0x76 && header[at + 2] == 0x6f
    &&& header[at + 3] == 0x72 && header[at + 4] == 0x62 && header[at + 5] == 0x69
    &&& header[at + 6] == 0x73
}

/// A format is recognized by its first bytes: `RIFF` with `WAVE` behind its length,
/// `fLaC`, `OggS` with a Vorbis header in it, and `ID3` or eleven set bits.
pub proof fn law_formats_are_recognized_by_their_marks(header: Seq<u8>)
    ensures
        audio::sniffed(header) == Some(AudioFormat::Wav) <==> {
            &&& header.len() >= 12
            &&& header[0] == 0x52 && header[1] == 0x49 && header[2] == 0x46 && header[3] == 0x46
            &&& header[8] == 0x57 && header[9] == 0x41 && header[10] == 0x56 && header[11] == 0x45
        },
        audio::sniffed(header) == Some(AudioFormat::Flac) <==> {
            &&& header.len() >= 4
            &&& header[0] == 0x66 && header[1] == 0x4c && header[2] == 0x61 && header[3] == 0x43
        },
        audio::sniffed(header) == Some(AudioFormat::OggVorbis) <==> {
            &&& header.len() >= 4
            &&& header[0] == 0x4f && header[1] == 0x67 && header[2] == 0x67 && header[3] == 0x53
            &&& exists|at: int| #[trigger] vorbis_at(header, at)
        },
        audio::sniffed(header) == Some(AudioFormat::Mp3) <==> {
            ||| header.len() >= 3 && header[0] == 0x49 && header[1] == 0x44 && header[2] == 0x33
            ||| header.len() >= 2 && header[0] == 0xff && header[1] >= 0xe0
        },
{
    lemma_bytes(header, 0, audio::riff_mark());
    lemma_bytes(header, 8, audio::wave_mark());
    lemma_bytes(header, 0, audio::flac_mark());
    lemma_bytes(header, 0, audio::ogg_mark());
    lemma_bytes(header, 0, audio::id3_mark());
    assert(audio::riff_mark()[0] == 0x52 && audio::riff_mark()[1] == 0x49 && audio::riff_mark()[2]
        == 0x46 && audio::riff_mark()[3] == 0x46);
    assert(audio::wave_mark()[0] == 0x57 && audio::wave_mark()[1] == 0x41 && audio::wave_mark()[2]
        == 0x56 && audio::wave_mark()[3] == 0x45);
    assert(audio::flac_mark()[0] == 0x66 && audio::flac_mark()[1] == 0x4c && audio::flac_mark()[2]
        == 0x61 && audio::flac_mark()[3] == 0x43);
    assert(audio::ogg_mark()[0] == 0x4f && audio::ogg_mark()[1] == 0x67 && audio::ogg_mark()[2]
        == 0x67 && audio::ogg_mark()[3] == 0x53);
    assert(audio::id3_mark()[0] == 0x49 && audio::id3_mark()[1] == 0x44 && audio::id3_mark()[2]
        == 0x33);
    assert forall|at: int| #[trigger] vorbis_at(header, at) <==> audio::has_bytes(
        header,
        at,
        audio::vorbis_mark(),
    ) by {
        let mark = audio::vorbis_mark();
        lemma_bytes(header, at, mark);
        assert(mark[0] == 0x01 && mark[1] == 0x76 && mark[2] == 0x6f && mark[3] == 0x72 && mark[4]
            == 0x62 && mark[5] == 0x69 && mark[6] == 0x73);
        if audio::has_bytes(header, at, mark) {
            assert(header[at + 0] == mark[0]);
            assert(header[at + 1] == mark[1]);
            assert(header[at + 2] == mark[2]);
            assert(header[at + 3] == mark[3]);
            assert(header[at + 4] == mark[4]);
            assert(header[at + 5] == mark[5]);
            assert(header[at + 6] == mark[6]);
        }
    }
    if exists|at: int| audio::has_bytes(header, at, audio::vorbis_mark()) {
        let at = choose|at: int| audio::has_bytes(header, at, audio::vorbis_mark());
        assert(vorbis_at(header, at));
    }
}

/// Audio is admitted exactly where its format is known, it decodes, its playing
/// time is known and no longer than the limit, if there is one. What is then known
/// of it is what was found.
pub proof fn law_admitted_audio_is_known_and_short(
    header: Seq<u8>,
    byte_length: u64,
    decoded: DecoderReport,
    maximum: Option<u128>,
)
    ensures
        audio::preflighted(header, byte_length, decoded, maximum) is Ok <==> {
            &&& audio::sniffed(header) is Some
            &&& decoded matches DecoderReport::Duration(duration)
            &&& maximum is Some ==> duration <= maximum.unwrap()
        },
        audio::preflighted(header, byte_length, decoded, maximum) matches Ok(info) ==> {
            &&& Some(info.format) == audio::sniffed(header)
            &&& info.byte_length == byte_length
            &&& decoded == DecoderReport::Duration(info.duration)
        },
        audio::sniffed(header) is None ==> audio::preflighted(
            header,
            byte_length,
            decoded,
            maximum,
        ) == Err::<AudioInfo, PlaybackError>(PlaybackError::UnsupportedAudio),
        decoded is Refused ==> audio::preflighted(header, byte_length, decoded, maximum) == Err::<
            AudioInfo,
            PlaybackError,
        >(PlaybackError::UnsupportedAudio),
        audio::sniffed(header) is Some && decoded is UnknownDuration ==> audio::preflighted(
            header,
            byte_length,
            decoded,
            maximum,
        ) == Err::<AudioInfo, PlaybackError>(PlaybackError::DurationUnknown),
        audio::sniffed(header) is Some && (decoded matches DecoderReport::Duration(duration)
            && maximum is Some && duration > maximum.unwrap()) ==> audio::preflighted(
            header,
            byte_length,
            decoded,
            maximum,
        ) == Err::<AudioInfo, PlaybackError>(PlaybackError::AudioTooLong),
{
}

/// A format is looked for in the first 64 KiB.
pub proof fn law_only_the_start_is_sniffed(bytes: Seq<u8>)
    ensures
        audio::sniffed_part(bytes).is_prefix_of(bytes),
        bytes.len() <= 65536 ==> audio::sniffed_part(bytes) == bytes,
        bytes.len() > 65536 ==> audio::sniffed_part(bytes).len() == 65536,
{
    assert(audio::sniffed_part(bytes) =~= bytes.take(audio::sniffed_part(bytes).len() as int));
    if bytes.len() == 65536 {
        assert(bytes.take(65536) =~= bytes);
    }
}

/// A listed output is a found device.
pub open spec fn lists(output: OutputDevice, found: FoundDevice, default_id: Option<String>) -> bool {
    &&& found.device_id is Ok
    &&& output.device_id@ == found.device_id.unwrap()@
    &&& found.extended_name is Some ==> output.name@ == found.extended_name.unwrap()@
    &&& found.extended_name is None && found.name is Some ==> output.name@ == found.name.unwrap()@
    &&& found.extended_name is None && found.name is None ==> output.name@
        == "<name unavailable>"@
    &&& output.is_default <==> default_id is Some && default_id.unwrap()@
        == found.device_id.unwrap()@
}

/// Every found device is listed, under its identity and its best name, and the
/// default one is marked. Nothing else is listed. The outputs are ordered by name,
/// and by identity where names are equal.
pub proof fn law_every_device_is_listed(
    outputs: Seq<OutputDevice>,
    found: Seq<FoundDevice>,
    default_id: Option<String>,
)
    requires
        audio::outputs_listed(outputs, found, default_id),
    ensures
        outputs.len() == found.len(),
        forall|device: FoundDevice| #[trigger]
            found.contains(device) ==> exists|output: OutputDevice| #[trigger]
                outputs.contains(output) && lists(output, device, default_id),
        forall|output: OutputDevice| #[trigger]
            outputs.contains(output) ==> exists|device: FoundDevice| #[trigger]
                found.contains(device) && lists(output, device, default_id),
        forall|i: int, j: int|
            0 <= i < j < outputs.len() ==> {
                let first = #[trigger] outputs[i];
                let second = #[trigger] outputs[j];
                &&& first.name@ != second.name@ ==> order::text_at_most(first.name@, second.name@)
                &&& first.name@ == second.name@ && first.device_id@ != second.device_id@
                    ==> order::text_at_most(first.device_id@, second.device_id@)
            },
{
    let described = choose|described: Seq<OutputDevice>| #[trigger]
        order::sorted_from(outputs, described) && described.len() == found.len()
            && forall|i: int|
            0 <= i < found.len() ==> audio::describes(
                #[trigger] described[i],
                found[i],
                default_id,
            );
    crate::vocabulary_laws::law_sorting_loses_nothing(outputs, described);
    assert forall|device: FoundDevice| #[trigger] found.contains(device) implies exists|
        output: OutputDevice,
    | #[trigger] outputs.contains(output) && lists(output, device, default_id) by {
        let i = choose|i: int| 0 <= i < found.len() && found[i] == device;
        assert(audio::describes(described[i], found[i], default_id));
        assert(described.contains(described[i]));
        assert(outputs.contains(described[i]) && lists(described[i], device, default_id));
    }
    assert forall|output: OutputDevice| #[trigger] outputs.contains(output) implies exists|
        device: FoundDevice,
    | #[trigger] found.contains(device) && lists(output, device, default_id) by {
        assert(described.contains(output));
        let i = choose|i: int| 0 <= i < described.len() && described[i] == output;
        assert(audio::describes(described[i], found[i], default_id));
        assert(found.contains(found[i]) && lists(output, found[i], default_id));
    }
    assert forall|i: int, j: int| 0 <= i < j < outputs.len() implies {
        let first = #[trigger] outputs[i];
        let second = #[trigger] outputs[j];
        &&& first.name@ != second.name@ ==> order::text_at_most(first.name@, second.name@)
        &&& first.name@ == second.name@ && first.device_id@ != second.device_id@
            ==> order::text_at_most(first.device_id@, second.device_id@)
    } by {
        assert(order::key_at_most(outputs[i].key(), outputs[j].key()));
        crate::vocabulary_laws::law_pairs_are_ordered_by_the_first_text(
            outputs[i].name@,
            outputs[i].device_id@,
            outputs[j].name@,
            outputs[j].device_id@,
        );
    }
}

/// The devices cannot be listed exactly where one has no identity; the first such
/// one is told of.
pub proof fn law_a_device_without_identity_is_told_of(found: Seq<FoundDevice>)
    ensures
        audio::identity_fault(found) is None <==> forall|i: int|
            0 <= i < found.len() ==> (#[trigger] found[i]).device_id is Ok,
        audio::identity_fault(found) matches Some(fault) ==> exists|i: int|
            {
                &&& 0 <= i < found.len()
                &&& (#[trigger] found[i]).device_id matches Err(detail)
                &&& fault == "an output device identity is unavailable: "@ + detail@
                &&& forall|j: int| 0 <= j < i ==> (#[trigger] found[j]).device_id is Ok
            },
    decreases found.len(),
{
    if found.len() > 0 {
        match found[0].device_id {
            Err(_) => {
                assert(found[0].device_id is Err);
            },
            Ok(_) => {
                let rest = found.skip(1);
                law_a_device_without_identity_is_told_of(rest);
                if audio::identity_fault(rest) is None {
                    assert forall|i: int| 0 <= i < found.len() implies (
                    #[trigger] found[i]).device_id is Ok by {
                        if i > 0 {
                            assert(rest[i - 1] == found[i]);
                        }
                    }
                } else {
                    let i = choose|i: int|
                        {
                            &&& 0 <= i < rest.len()
                            &&& (#[trigger] rest[i]).device_id matches Err(detail)
                            &&& audio::identity_fault(rest).unwrap()
                                == "an output device identity is unavailable: "@ + detail@
                            &&& forall|j: int| 0 <= j < i ==> (#[trigger] rest[j]).device_id is Ok
                        };
                    assert(found[i + 1] == rest[i]);
                    assert forall|j: int| 0 <= j < i + 1 implies (
                    #[trigger] found[j]).device_id is Ok by {
                        if j > 0 {
                            assert(rest[j - 1] == found[j]);
                        }
                    }
                }
            },
        }
    }
}

/// A listed voice is an installed one; it is marked exactly where it is the default.
pub open spec fn shows(
    listed: SystemVoice,
    installed: SystemVoice,
    default_id: Option<String>,
) -> bool {
    &&& listed.id == installed.id
    &&& listed.display_name == installed.display_name
    &&& listed.language == installed.language
    &&& listed.description == installed.description
    &&& listed.gender == installed.gender
    &&& listed.is_default <==> default_id is Some && default_id.unwrap()@ == installed.id@
}

/// Every voice of a native service is listed, and nothing else. The voices are
/// ordered by language, then by name, then by identity. Linux has no native voices.
pub proof fn law_every_voice_is_listed(
    source: VoiceSource,
    voices: Result<Vec<SystemVoice>, PlaybackError>,
)
    requires
        tts::voices_listed(source, voices),
    ensures
        voices is Ok <==> source is Native,
        source matches VoiceSource::Native { installed, default_id } ==> {
            let listed = voices.unwrap()@;
            &&& listed.len() == installed@.len()
            &&& forall|voice: SystemVoice| #[trigger]
                installed@.contains(voice) ==> exists|shown: SystemVoice| #[trigger]
                    listed.contains(shown) && shows(shown, voice, default_id)
            &&& forall|shown: SystemVoice| #[trigger]
                listed.contains(shown) ==> exists|voice: SystemVoice| #[trigger]
                    installed@.contains(voice) && shows(shown, voice, default_id)
            &&& forall|i: int, j: int|
                0 <= i < j < listed.len() ==> {
                    let first = #[trigger] listed[i];
                    let second = #[trigger] listed[j];
                    &&& first.language@ != second.language@ ==> order::text_at_most(
                        first.language@,
                        second.language@,
                    )
                    &&& first.language@ == second.language@ && first.display_name@
                        != second.display_name@ ==> order::text_at_most(
                        first.display_name@,
                        second.display_name@,
                    )
                    &&& first.language@ == second.language@ && first.display_name@
                        == second.display_name@ && first.id@ != second.id@ ==> order::text_at_most(
                        first.id@,
                        second.id@,
                    )
                }
        },
{
    if let VoiceSource::Native { installed, default_id } = source {
        let listed = voices.unwrap()@;
        let marked = installed@.map_values(|voice: SystemVoice| tts::marked(voice, default_id));
        crate::vocabulary_laws::law_sorting_loses_nothing(listed, marked);
        assert forall|voice: SystemVoice| #[trigger] installed@.contains(voice) implies exists|
            shown: SystemVoice,
        | #[trigger] listed.contains(shown) && shows(shown, voice, default_id) by {
            let i = choose|i: int| 0 <= i < installed@.len() && installed@[i] == voice;
            assert(marked.contains(marked[i]));
            assert(listed.contains(marked[i]) && shows(marked[i], voice, default_id));
        }
        assert forall|shown: SystemVoice| #[trigger] listed.contains(shown) implies exists|
            voice: SystemVoice,
        | #[trigger] installed@.contains(voice) && shows(shown, voice, default_id) by {
            assert(marked.contains(shown));
            let i = choose|i: int| 0 <= i < marked.len() && marked[i] == shown;
            assert(installed@.contains(installed@[i]) && shows(shown, installed@[i], default_id));
        }
        assert forall|i: int, j: int| 0 <= i < j < listed.len() implies {
            let first = #[trigger] listed[i];
            let second = #[trigger] listed[j];
            &&& first.language@ != second.language@ ==> order::text_at_most(
                first.language@,
                second.language@,
            )
            &&& first.language@ == second.language@ && first.display_name@ != second.display_name@
                ==> order::text_at_most(first.display_name@, second.display_name@)
            &&& first.language@ == second.language@ && first.display_name@ == second.display_name@
                && first.id@ != second.id@ ==> order::text_at_most(first.id@, second.id@)
        } by {
            let a = listed[i].key();
            let b = listed[j].key();
            assert(order::key_at_most(a, b));
            assert(a.skip(1) =~= seq![listed[i].display_name@, listed[i].id@]);
            assert(b.skip(1) =~= seq![listed[j].display_name@, listed[j].id@]);
            crate::vocabulary_laws::law_pairs_are_ordered_by_the_first_text(
                listed[i].display_name@,
                listed[i].id@,
                listed[j].display_name@,
                listed[j].id@,
            );
        }
    }
}

/// An incremental stream has 8 000 to 96 000 samples a second and one or two
/// channels. A chunk of it is a positive number of whole frames, of two bytes for
/// each channel. A sample is two bytes, low byte first, in two's complement.
pub proof fn law_streams_are_plain_pcm(
    sample_rate_hz: u32,
    channels: u16,
    frames: nat,
    byte_length: nat,
    low: u8,
    high: u8,
)
    ensures
        routes::stream_supported(sample_rate_hz, channels) <==> 8_000 <= sample_rate_hz <= 96_000
            && (channels == 1 || channels == 2),
        channels > 0 && frames > 0 && byte_length == frames * (2 * channels as nat)
            ==> routes::whole_frames(byte_length, channels),
        routes::whole_frames(byte_length, channels) ==> channels > 0 && byte_length > 0
            && byte_length % (2 * channels as nat) == 0,
        -32768 <= routes::sample_value(low, high) <= 32767,
        (routes::sample_value(low, high) - low) % 256 == 0,
        high < 128 ==> routes::sample_value(low, high) == low + 256 * high,
        high >= 128 ==> routes::sample_value(low, high) == low + 256 * high - 65536,
{
    if channels > 0 && frames > 0 && byte_length == frames * (2 * channels as nat) {
        let size = 2 * channels as int;
        vstd::arithmetic::div_mod::lemma_mod_multiples_basic(frames as int, size);
        assert(frames * size > 0) by (nonlinear_arith)
            requires
                frames > 0,
                size > 0,
        ;
    }
}

/// A list with one more item holds that item and what it held.
proof fn lemma_one_longer<T>(items: Seq<T>, last: T, item: T)
    ensures
        items.push(last).contains(item) <==> items.contains(item) || item == last,
{
    let more = items.push(last);
    assert(more[items.len() as int] == last);
    if items.contains(item) {
        let i = choose|i: int| 0 <= i < items.len() && items[i] == item;
        assert(more[i] == item);
    }
    if more.contains(item) && item != last {
        let i = choose|i: int| 0 <= i < more.len() && more[i] == item;
        assert(items[i] == item);
    }
}

/// Leaving out an item leaves the routes of all others, and none of its own.
pub proof fn law_only_the_item_leaves(all: Seq<Route>, id: PlaybackId, route: Route)
    ensures
        routes::routes_without(all, id).contains(route) <==> all.contains(route) && route.playback_id != id,
    decreases all.len(),
{
    reveal(Seq::filter);
    if all.len() > 0 {
        let rest = all.drop_last();
        let last = all.last();
        law_only_the_item_leaves(rest, id, route);
        lemma_one_longer(rest, last, route);
        assert(all =~= rest.push(last));
        lemma_one_longer(routes::routes_without(rest, id), last, route);
    }
}

/// The routes to a device are all those to that device, and no other.
pub proof fn law_routes_to_a_device(all: Seq<Route>, device_id: Seq<char>, route: Route)
    ensures
        routes::routes_on(all, device_id).contains(route) <==> all.contains(route) && route.device_id@ == device_id,
    decreases all.len(),
{
    reveal(Seq::filter);
    if all.len() > 0 {
        let rest = all.drop_last();
        let last = all.last();
        law_routes_to_a_device(rest, device_id, route);
        lemma_one_longer(rest, last, route);
        assert(all =~= rest.push(last));
        lemma_one_longer(routes::routes_on(rest, device_id), last, route);
    }
}

/// Closing an output leaves all others open.
pub proof fn law_only_the_output_closes(open: Seq<String>, device_id: Seq<char>, other: String)
    ensures
        engine::devices_without(open, device_id).contains(other) <==> open.contains(other) && other@ != device_id,
    decreases open.len(),
{
    reveal(Seq::filter);
    if open.len() > 0 {
        let rest = open.drop_last();
        let last = open.last();
        law_only_the_output_closes(rest, device_id, other);
        lemma_one_longer(rest, last, other);
        assert(open =~= rest.push(last));
        lemma_one_longer(engine::devices_without(rest, device_id), last, other);
    }
}

/// An item that no longer waits leaves all others waiting.
pub proof fn law_only_the_ended_item_leaves(
    waiting: Seq<PlaybackId>,
    id: PlaybackId,
    other: PlaybackId,
)
    ensures
        engine::ids_without(waiting, id).contains(other) <==> waiting.contains(other) && other != id,
    decreases waiting.len(),
{
    reveal(Seq::filter);
    if waiting.len() > 0 {
        let rest = waiting.drop_last();
        let last = waiting.last();
        law_only_the_ended_item_leaves(rest, id, other);
        lemma_one_longer(rest, last, other);
        assert(waiting =~= rest.push(last));
        lemma_one_longer(engine::ids_without(rest, id), last, other);
    }
}

/// The items that share a device are exactly those that play on it, each with the
/// gain that it asked for.
pub proof fn law_sharing_items_play_on_the_device(
    all: OutputRoutes,
    device_id: Seq<char>,
    id: PlaybackId,
    gain: Gain,
)
    ensures
        all.shared_on(device_id).contains((id, gain)) <==> exists|route: Route| #[trigger]
            all.routes().contains(route) && route.device_id@ == device_id && route.playback_id == id
                && route.requested_gain == gain,
{
    let held = routes::routes_on(all.routes(), device_id);
    let shared = all.shared_on(device_id);
    if shared.contains((id, gain)) {
        let k = choose|k: int| 0 <= k < shared.len() && shared[k] == (id, gain);
        let route = held[k];
        assert(held.contains(route));
        law_routes_to_a_device(all.routes(), device_id, route);
        assert(all.routes().contains(route));
    }
    if exists|route: Route| #[trigger]
        all.routes().contains(route) && route.device_id@ == device_id && route.playback_id == id
            && route.requested_gain == gain {
        let route = choose|route: Route| #[trigger]
            all.routes().contains(route) && route.device_id@ == device_id && route.playback_id == id
                && route.requested_gain == gain;
        law_routes_to_a_device(all.routes(), device_id, route);
        let k = choose|k: int| 0 <= k < held.len() && held[k] == route;
        assert(shared[k] == (id, gain));
    }
}

/// A requested device is used exactly where the host finds it, under the identity
/// that the host gives; otherwise the output is unavailable, and a device that is
/// asked for by its identity is named.
pub proof fn law_found_devices_are_used(
    target: OutputTarget,
    lookup: DeviceLookup,
    result: Result<String, PlaybackError>,
)
    requires
        engine::lookup_outcome(target, lookup, result),
    ensures
        result is Ok <==> lookup is Found,
        lookup matches DeviceLookup::Found(id) ==> result == Ok::<String, PlaybackError>(id),
        result matches Err(error) ==> error is OutputUnavailable,
        lookup is Missing ==> (target matches OutputTarget::DeviceId(id) ==> (
        result matches Err(PlaybackError::OutputUnavailable(text)) && text@
            == "configured output device `"@ + id@ + "` is unavailable"@)),
        lookup is InvalidId ==> (target matches OutputTarget::DeviceId(id) ==> (
        result matches Err(PlaybackError::OutputUnavailable(text)) && text@
            == "invalid output device id `"@ + id@ + "`"@)),
        lookup is NoDefault ==> (result matches Err(PlaybackError::OutputUnavailable(text)) && text@
            == "no default output device is available"@),
        lookup is NoOutput ==> (result matches Err(PlaybackError::OutputUnavailable(text)) && text@
            == "selected device does not support audio output"@),
        lookup matches DeviceLookup::Unidentified(detail) ==> (result matches Err(
            PlaybackError::OutputUnavailable(text),
        ) && text@ == "selected output device identity is unavailable: "@ + detail@),
{
}

/// An output is opened exactly where it was configured, was opened and had not
/// failed by then.
pub proof fn law_sound_outputs_are_opened(device_id: Seq<char>, outcome: OpeningOutcome)
    ensures
        engine::opening_fault(device_id, outcome) is None <==> (
        outcome matches OpeningOutcome::Opened { failed } && !failed),
        outcome matches OpeningOutcome::NotOpened(detail) ==> engine::opening_fault(
            device_id,
            outcome,
        ) == Some("selected output device `"@ + device_id + "` could not be opened: "@ + detail@),
        outcome matches OpeningOutcome::NotConfigured(detail) ==> engine::opening_fault(
            device_id,
            outcome,
        ) == Some(
            "selected output device `"@ + device_id + "` could not be configured: "@ + detail@,
        ),
        outcome matches OpeningOutcome::Opened { failed } ==> failed ==> engine::opening_fault(
            device_id,
            outcome,
        ) == Some("selected output device `"@ + device_id + "` failed while opening"@),
{
}

/// The sentence about an error names its kind, and its detail where it has one.
pub proof fn law_errors_are_told_with_their_detail(detail: String)
    ensures
        PlaybackError::Backend(detail).message_text() == "playback backend error: "@ + detail@,
        PlaybackError::OutputUnavailable(detail).message_text()
            == "output target is unavailable: "@ + detail@,
        PlaybackError::OpenFile(detail).message_text() == "audio file could not be opened: "@
            + detail@,
        PlaybackError::QueueFull.message_text() == "the playback queue is full"@,
        PlaybackError::ActorBusy.message_text() == "the playback actor command channel is busy"@,
        PlaybackError::ActorClosed.message_text() == "the playback actor is not available"@,
        PlaybackError::NotRegularFile.message_text() == "audio source is not a regular file"@,
        PlaybackError::UnsupportedAudio.message_text() == "audio format is not supported"@,
        PlaybackError::DurationUnknown.message_text() == "audio duration could not be determined"@,
        PlaybackError::AudioTooLong.message_text() == "audio duration exceeds the built-in maximum"@,
{
}

/// An error with a detail is told by its kind and that detail, and by no other.
pub proof fn law_details_are_those_given(error: PlaybackError, detail: Seq<char>)
    ensures
        error.is_backend(detail) <==> error is Backend && error->Backend_0@ == detail,
        audio::output_unavailable(error, detail) <==> error is OutputUnavailable
            && error->OutputUnavailable_0@ == detail,
{
}

/// Where a platform has no native voices, why is told.
pub proof fn law_platforms_without_voices_say_so(
    source: VoiceSource,
    voices: Result<Vec<SystemVoice>, PlaybackError>,
)
    requires
        tts::voices_listed(source, voices),
    ensures
        source is Linux ==> (voices matches Err(PlaybackError::Backend(reason)) && reason@
            == "Linux has no supported native system TTS; use a configured UtterPipe provider such as utterpipe-espeak-ng"@),
        source is Other ==> (voices matches Err(PlaybackError::Backend(reason)) && reason@
            == "system TTS voice discovery is not implemented on this platform"@),
{
}

/// What stays keeps its order: one more at the end is there at the end, unless it
/// is the one that leaves.
pub proof fn law_what_stays_keeps_its_order(
    all: Seq<Route>,
    route: Route,
    open: Seq<String>,
    device: String,
    waiting: Seq<PlaybackId>,
    item: PlaybackId,
    id: PlaybackId,
    device_id: Seq<char>,
)
    ensures
        routes::routes_without(Seq::empty(), id).len() == 0,
        routes::routes_on(Seq::empty(), device_id).len() == 0,
        engine::devices_without(Seq::empty(), device_id).len() == 0,
        engine::ids_without(Seq::empty(), id).len() == 0,
        route.playback_id != id ==> routes::routes_without(all.push(route), id)
            == routes::routes_without(all, id).push(route),
        route.playback_id == id ==> routes::routes_without(all.push(route), id)
            == routes::routes_without(all, id),
        route.device_id@ == device_id ==> routes::routes_on(all.push(route), device_id)
            == routes::routes_on(all, device_id).push(route),
        route.device_id@ != device_id ==> routes::routes_on(all.push(route), device_id)
            == routes::routes_on(all, device_id),
        device@ != device_id ==> engine::devices_without(open.push(device), device_id)
            == engine::devices_without(open, device_id).push(device),
        device@ == device_id ==> engine::devices_without(open.push(device), device_id)
            == engine::devices_without(open, device_id),
        item != id ==> engine::ids_without(waiting.push(item), id) == engine::ids_without(
            waiting,
            id,
        ).push(item),
        item == id ==> engine::ids_without(waiting.push(item), id) == engine::ids_without(
            waiting,
            id,
        ),
{
    reveal(Seq::filter);
    assert(all.push(route).drop_last() =~= all);
    assert(open.push(device).drop_last() =~= open);
    assert(waiting.push(item).drop_last() =~= waiting);
}

/// The items on a device stand in the order of their routes, each with the gain
/// that it asked for. An output is open where it is among those opened.
pub proof fn law_shared_items_are_listed_in_order(
    all: OutputRoutes,
    device_id: Seq<char>,
    open: Seq<String>,
    id: PlaybackId,
)
    ensures
        all.shared_on(device_id).len() == routes::routes_on(all.routes(), device_id).len(),
        forall|i: int|
            0 <= i < all.shared_on(device_id).len() ==> {
                let route = routes::routes_on(all.routes(), device_id)[i];
                #[trigger] all.shared_on(device_id)[i] == (route.playback_id, route.requested_gain)
            },
        engine::is_open(open, device_id) <==> exists|device: String| #[trigger]
            open.contains(device) && device@ == device_id,
        all.plays(id) <==> exists|route: Route| #[trigger]
            all.routes().contains(route) && route.playback_id == id,
        forall|device: String| #[trigger]
            all.plays_on(id, device) ==> exists|route: Route| #[trigger]
                all.routes().contains(route) && route.playback_id == id && route.device_id
                    == device,
{
    assert forall|device: String| #[trigger] all.plays_on(id, device) implies exists|route: Route|
        #[trigger] all.routes().contains(route) && route.playback_id == id && route.device_id
            == device by {
        let i = choose|i: int|
            0 <= i < all.routes().len() && (#[trigger] all.routes()[i]).playback_id == id
                && all.routes()[i].device_id == device;
        assert(all.routes().contains(all.routes()[i]));
    }
    if engine::is_open(open, device_id) {
        let i = choose|i: int| 0 <= i < open.len() && (#[trigger] open[i])@ == device_id;
        assert(open.contains(open[i]));
    }
    if all.plays(id) {
        let i = choose|i: int|
            0 <= i < all.routes().len() && #[trigger] all.routes()[i].playback_id == id;
        assert(all.routes().contains(all.routes()[i]));
    }
    if exists|device: String| #[trigger] open.contains(device) && device@ == device_id {
        let device = choose|device: String| #[trigger]
            open.contains(device) && device@ == device_id;
        let i = choose|i: int| 0 <= i < open.len() && open[i] == device;
        assert(open[i]@ == device_id);
    }
    if exists|route: Route| #[trigger]
        all.routes().contains(route) && route.playback_id == id {
        let route = choose|route: Route| #[trigger]
            all.routes().contains(route) && route.playback_id == id;
        let i = choose|i: int| 0 <= i < all.routes().len() && all.routes()[i] == route;
        assert(all.routes()[i].playback_id == id);
    }
}

} // verus!
