//! What the command line shows and generates.
use super::aliases;
use super::args::{CliProviderError, DevicesError, InitError, ServeArgs};
use super::listings;
use super::listings::{ProviderCapabilities, ProviderInfo};
use super::report;
use super::starter;
use crate::config::load::{Platform, QuickProfileOverrides};
use crate::config::model::{
    ConcurrencyMode, LogLevel, OutputCategory, OutputsConfig, ProfileConfig,
};
use crate::config::source_laws;
use crate::paths::PathStyle;
use crate::playback::audio::OutputDevice;
use crate::playback::tts::SystemVoice;
use vstd::prelude::*;

verus! {

// Names of devices.

/// An ASCII letter or digit.
pub open spec fn named(c: char) -> bool {
    'a' <= c <= 'z' || 'A' <= c <= 'Z' || '0' <= c <= '9'
}

/// A small ASCII letter or a digit.
pub open spec fn small(c: char) -> bool {
    'a' <= c <= 'z' || '0' <= c <= '9'
}

/// One letter in small: the same place in the alphabet.
pub open spec fn in_small(c: char, s: char) -> bool {
    if 'A' <= c <= 'Z' {
        'a' <= s <= 'z' && s as int - 'a' as int == c as int - 'A' as int
    } else {
        s == c
    }
}

/// Capital letters become small ones, and nothing else changes.
pub proof fn law_letters_become_small(c: char)
    ensures
        in_small(c, aliases::lowered(c)),
        named(c) ==> small(aliases::lowered(c)),
{
}

/// The letters and digits of a text, without what stands between them.
pub open spec fn letters_of(name: Seq<char>) -> Seq<char>
    decreases name.len(),
{
    if name.len() == 0 {
        Seq::empty()
    } else if named(name.last()) {
        letters_of(name.drop_last()).push(name.last())
    } else {
        letters_of(name.drop_last())
    }
}

/// A name keeps its letters and digits, in order and in small. Hyphens stand only
/// between them, never at an end and never side by side.
pub proof fn law_names_keep_their_letters(name: Seq<char>)
    ensures
        ({
            let alias = aliases::hyphenated_name(name);
            &&& letters_of(alias).len() == letters_of(name).len()
            &&& forall|i: int|
                0 <= i < letters_of(name).len() ==> in_small(
                    #[trigger] letters_of(name)[i],
                    letters_of(alias)[i],
                )
            &&& forall|i: int| 0 <= i < alias.len() ==> small(#[trigger] alias[i]) || alias[i] == '-'
            &&& alias.len() > 0 ==> alias[0] != '-' && alias.last() != '-'
            &&& forall|i: int|
                0 < i < alias.len() && #[trigger] alias[i] == '-' ==> alias[i - 1] != '-'
            &&& alias.len() == 0 <==> letters_of(name).len() == 0
        }),
    decreases name.len(),
{
    if name.len() > 0 {
        let fewer = name.drop_last();
        law_names_keep_their_letters(fewer);
        let before = aliases::hyphenated_name(fewer);
        let alias = aliases::hyphenated_name(name);
        let c = name.last();
        law_letters_become_small(c);
        if named(c) {
            let s = aliases::lowered(c);
            let joined = before.push('-');
            assert(joined.drop_last() =~= before);
            assert(joined.push(s).drop_last() =~= joined);
            assert(before.push(s).drop_last() =~= before);
            assert(letters_of(joined) == letters_of(before));
            assert(letters_of(joined.push(s)) == letters_of(before).push(s));
            assert(letters_of(before.push(s)) == letters_of(before).push(s));
        }
    }
}

/// A hyphen stands between two letters where something else stood between them in
/// the name, and nowhere else.
pub proof fn law_hyphens_stand_for_what_stood_between(
    before: Seq<char>,
    first: char,
    between: Seq<char>,
    second: char,
)
    requires
        named(first),
        named(second),
        forall|i: int| 0 <= i < between.len() ==> !named(#[trigger] between[i]),
    ensures
        ({
            let start = aliases::hyphenated_name(before.push(first));
            let whole = aliases::hyphenated_name((before.push(first) + between).push(second));
            &&& between.len() > 0 ==> whole == start.push('-').push(aliases::lowered(second))
            &&& between.len() == 0 ==> whole == start.push(aliases::lowered(second))
        }),
{
    let head = before.push(first);
    let start = aliases::hyphenated_name(head);
    assert(head.drop_last() =~= before);
    assert(start.len() > 0);
    let inner = head + between;
    lemma_between(head, between);
    let whole = inner.push(second);
    assert(whole.drop_last() =~= inner);
    if between.len() == 0 {
        assert(inner =~= head);
        assert(whole[whole.len() - 2] == first);
    } else {
        assert(whole[whole.len() - 2] == between[between.len() - 1]);
    }
}

/// What is no letter adds nothing yet.
proof fn lemma_between(head: Seq<char>, between: Seq<char>)
    requires
        forall|i: int| 0 <= i < between.len() ==> !named(#[trigger] between[i]),
    ensures
        aliases::hyphenated_name(head + between) == aliases::hyphenated_name(head),
    decreases between.len(),
{
    if between.len() == 0 {
        assert(head + between =~= head);
    } else {
        let fewer = between.drop_last();
        assert forall|i: int| 0 <= i < fewer.len() implies !named(#[trigger] fewer[i]) by {
            assert(fewer[i] == between[i]);
        }
        lemma_between(head, fewer);
        assert((head + between).drop_last() =~= head + fewer);
        assert((head + between).last() == between[between.len() - 1]);
    }
}

proof fn lemma_shortened(shown: Seq<char>)
    ensures
        aliases::without_trailing_hyphens(shown).len() <= shown.len(),
        aliases::without_trailing_hyphens(shown) == shown.take(
            aliases::without_trailing_hyphens(shown).len() as int,
        ),
        aliases::without_trailing_hyphens(shown).len() > 0
            ==> aliases::without_trailing_hyphens(shown).last() != '-',
        forall|i: int|
            aliases::without_trailing_hyphens(shown).len() <= i < shown.len()
                ==> #[trigger] shown[i] == '-',
    decreases shown.len(),
{
    let kept = aliases::without_trailing_hyphens(shown);
    if shown.len() > 0 && shown.last() == '-' {
        lemma_shortened(shown.drop_last());
        assert(shown.drop_last().take(kept.len() as int) =~= shown.take(kept.len() as int));
        assert forall|i: int| kept.len() <= i < shown.len() implies #[trigger] shown[i] == '-' by {
            if i < shown.len() - 1 {
                assert(shown.drop_last()[i] == shown[i]);
            }
        }
    } else {
        assert(shown.take(shown.len() as int) =~= shown);
    }
}

/// A device is called by its name: all of it where that has at most 64 characters,
/// else as much as fits without a hyphen at the end. A name without letters or
/// digits gives way to the number.
pub proof fn law_devices_are_called_by_their_name(name: Seq<char>, number: nat)
    ensures
        ({
            let alias = aliases::hyphenated_name(name);
            let base = aliases::alias_base(name, number);
            &&& letters_of(name).len() == 0 ==> base == "device-"@ + crate::text::decimal_text(
                number,
            )
            &&& 0 < alias.len() <= 64 ==> base == alias
            &&& alias.len() > 64 ==> {
                &&& base == alias.take(base.len() as int)
                &&& 63 <= base.len() <= 64
                &&& base.last() != '-'
                &&& base.len() == 63 ==> alias[63] == '-'
            }
        }),
{
    law_names_keep_their_letters(name);
    let alias = aliases::hyphenated_name(name);
    let short = aliases::cut(alias, 64);
    lemma_shortened(short);
    let base = aliases::without_trailing_hyphens(short);
    if alias.len() > 64 {
        assert(short =~= alias.take(64));
        assert(short[0] == alias[0]);
        if base.len() == 0 {
            assert(short[0] == '-');
        }
        if base.len() < 63 {
            assert(short[63] == alias[63] && short[62] == alias[62]);
            assert(short[62] == '-' && short[63] == '-');
        }
        if base.len() == 63 {
            assert(short[63] == '-' && short[63] == alias[63]);
        }
        assert(short.take(base.len() as int) =~= alias.take(base.len() as int));
    } else if alias.len() > 0 {
        assert(short == alias);
        if base.len() < alias.len() {
            assert(short[alias.len() - 1] == '-');
        }
        assert(short.take(base.len() as int) =~= base);
    }
}

/// The names to try are the name itself and the name with a number from two on
/// behind it, cut so that no more than 64 characters come out.
pub proof fn law_names_are_numbered(base: Seq<char>, number: nat)
    requires
        crate::text::decimal_text(number).len() < 63,
    ensures
        number <= 1 ==> aliases::candidate(base, number) == base,
        number >= 2 ==> {
            let digits = crate::text::decimal_text(number);
            let tried = aliases::candidate(base, number);
            let front = tried.len() - digits.len() - 1;
            &&& base.len() + 1 + digits.len() <= 64 ==> tried == base + seq!['-'] + digits
            &&& base.len() + 1 + digits.len() > 64 ==> tried.len() == 64
            &&& 0 <= front <= base.len()
            &&& tried.take(front) == base.take(front)
            &&& tried[front] == '-'
            &&& tried.skip(front + 1) == digits
        },
{
    if number >= 2 {
        let digits = crate::text::decimal_text(number);
        let tried = aliases::candidate(base, number);
        let suffix = aliases::numbered_suffix(number);
        let front = tried.len() - digits.len() - 1;
        assert(suffix.len() == digits.len() + 1);
        let kept = aliases::cut(base, 64 - suffix.len());
        assert(tried == kept + suffix);
        assert(kept.len() == front);
        assert(tried.take(front) =~= base.take(front));
        assert(tried.skip(front + 1) =~= digits);
        if base.len() + 1 + digits.len() <= 64 {
            assert(tried =~= base + seq!['-'] + digits);
        }
    }
}

/// A name that is given is free, and no name that would be tried before it was:
/// the device's own name first, then the second, and so on.
pub proof fn law_first_free_name_is_given(
    base: Seq<char>,
    taken: Seq<Seq<char>>,
    alias: Seq<char>,
)
    requires
        aliases::is_first_free(base, taken, alias),
    ensures
        !taken.contains(alias),
        !taken.contains(base) ==> alias == base,
        taken.contains(base) ==> alias != base,
        taken.contains(base) && !taken.contains(aliases::candidate(base, 2)) ==> alias
            == aliases::candidate(base, 2),
        forall|number: nat|
            number >= 1 && !taken.contains(#[trigger] aliases::candidate(base, number))
                ==> exists|earlier: nat|
                1 <= earlier <= number && alias == #[trigger] aliases::candidate(base, earlier),
{
    let chosen = choose|number: nat|
        number >= 1 && alias == #[trigger] aliases::candidate(base, number) && !taken.contains(
            alias,
        ) && forall|earlier: nat|
            1 <= earlier < number ==> taken.contains(#[trigger] aliases::candidate(base, earlier));
    assert(aliases::candidate(base, 1) == base);
    assert forall|number: nat|
        number >= 1 && !taken.contains(
            #[trigger] aliases::candidate(base, number),
        ) implies exists|earlier: nat|
        1 <= earlier <= number && alias == #[trigger] aliases::candidate(base, earlier) by {
        assert(chosen <= number);
        assert(alias == aliases::candidate(base, chosen));
    }
    if !taken.contains(aliases::candidate(base, 2)) {
        assert(chosen <= 2);
    }
}

/// A name is that of one of the first targets.
pub open spec fn taken_before(outputs: OutputsConfig, count: int, name: Seq<char>) -> bool {
    exists|i: int| 0 <= i < count && (#[trigger] outputs.targets@[i]).id@ == name
}

/// The system default comes first and is the default; behind it each device has a
/// target for anything, under its own number, with its name and its identity. It is
/// called by its own name where no target in front of it is.
pub proof fn law_each_device_has_a_target(devices: Seq<OutputDevice>, outputs: OutputsConfig)
    requires
        aliases::outputs_generated(devices, outputs),
    ensures
        outputs.default_target@ == "system"@,
        outputs.targets@.len() == devices.len() + 1,
        outputs.targets@[0].id@ == "system"@,
        outputs.targets@[0].device_id is None,
        outputs.targets@[0].kind is SystemDefault,
        outputs.targets@[0].description@ == "Current system default audio device"@,
        forall|i: int|
            0 <= i < devices.len() ==> {
                let device = #[trigger] devices[i];
                let target = outputs.targets@[i + 1];
                &&& target.description@ == device.name@
                &&& target.kind is Device
                &&& target.device_id matches Some(id)
                &&& id@ == device.device_id@
            },
        forall|i: int|
            0 <= i < outputs.targets@.len() ==> (#[trigger] outputs.targets@[i]).allow@.contains(
                OutputCategory::Audio,
            ) && outputs.targets@[i].allow@.contains(OutputCategory::Speech),
        forall|i: int|
            0 <= i < devices.len() && !taken_before(
                outputs,
                i + 1,
                aliases::alias_base((#[trigger] devices[i]).name@, (i + 1) as nat),
            ) ==> outputs.targets@[i + 1].id@ == aliases::alias_base(
                devices[i].name@,
                (i + 1) as nat,
            ),
{
    assert forall|i: int|
        0 <= i < devices.len() && !taken_before(
            outputs,
            i + 1,
            aliases::alias_base((#[trigger] devices[i]).name@, (i + 1) as nat),
        ) implies outputs.targets@[i + 1].id@ == aliases::alias_base(
        devices[i].name@,
        (i + 1) as nat,
    ) by {
        let base = aliases::alias_base(devices[i].name@, (i + 1) as nat);
        let earlier = outputs.targets@.take(i + 1);
        let taken = aliases::target_ids(earlier);
        assert(aliases::is_first_free(base, taken, outputs.targets@[i + 1].id@));
        if taken.contains(base) {
            let k = choose|k: int| 0 <= k < taken.len() && taken[k] == base;
            assert(outputs.targets@[k].id@ == base);
        }
        law_first_free_name_is_given(base, taken, outputs.targets@[i + 1].id@);
    }
    assert forall|i: int| 0 <= i < devices.len() implies {
        let device = #[trigger] devices[i];
        aliases::targets_device(outputs.targets@[i + 1], device)
    } by {}
    assert forall|i: int| 0 <= i < outputs.targets@.len() implies (
    #[trigger] outputs.targets@[i]).allow@.contains(OutputCategory::Audio)
        && outputs.targets@[i].allow@.contains(OutputCategory::Speech) by {
        let allow = outputs.targets@[i].allow@;
        if i > 0 {
            let at = i - 1;
            assert(aliases::targets_device(outputs.targets@[at + 1], devices[at]));
        }
        assert(allow[0] == OutputCategory::Audio);
        assert(allow[1] == OutputCategory::Speech);
    }
}

// Listings.

/// A device is listed on two lines: its name on one, marked where it is the
/// default, and its identity below. The list has every device, in order.
pub proof fn law_devices_are_listed(devices: Seq<OutputDevice>, device: OutputDevice)
    ensures
        listings::device_table(Seq::empty()) == "No output devices are currently available.\n"@,
        device.is_default ==> listings::device_table(seq![device]) == listings::without_breaks(
            device.name@,
        ) + " [default]"@ + "\n  "@ + device.device_id@ + "\n"@,
        !device.is_default ==> listings::device_table(seq![device]) == listings::without_breaks(
            device.name@,
        ) + "\n  "@ + device.device_id@ + "\n"@,
        devices.len() > 0 ==> listings::device_table(devices.push(device))
            == listings::device_table(devices) + listings::device_table(seq![device]),
{
    reveal_strlit("");
    let one = seq![device];
    assert(one.drop_last() =~= Seq::empty());
    assert(devices.push(device).drop_last() =~= devices);
    assert(listings::devices_text(Seq::empty()) == Seq::<char>::empty());
    assert(one.last() == device);
    assert(listings::devices_text(one) =~= listings::device_text(device));
    if !device.is_default {
        assert(listings::without_breaks(device.name@) + ""@ =~= listings::without_breaks(
            device.name@,
        ));
    }
}

/// A name on one line has a space for each line break and nothing else changed.
pub proof fn law_line_breaks_become_spaces(name: Seq<char>)
    ensures
        listings::without_breaks(name).len() == name.len(),
        forall|i: int|
            0 <= i < name.len() ==> listings::without_breaks(name)[i] == if #[trigger] name[i]
                == '\n' || name[i] == '\r' {
                ' '
            } else {
                name[i]
            },
{
}

/// A voice is listed with its name, language and gender, marked where it is the
/// default, then with its identity, the value to configure and its description.
/// The list has every voice, in order, and ends with a note on the default.
pub proof fn law_voices_are_listed(
    voices: Seq<SystemVoice>,
    voice: SystemVoice,
    value: Seq<char>,
)
    ensures
        listings::voice_table(Seq::empty()) == "No system TTS voices are available.\n"@,
        voices.len() > 0 ==> listings::voice_table(voices) == listings::voices_text(voices)
            + "\n[Agent Speak default] is used when voice_id is empty; other operating-system speech features may use a different voice inventory or default.\n"@,
        listings::voices_text(voices.push(voice)) == listings::voices_text(voices)
            + listings::voice_text(
            voice,
            listings::toml_string(crate::text::without_controls(voice.id@)),
        ),
        voice.is_default ==> listings::voice_text(voice, value) == crate::text::without_controls(
            voice.display_name@,
        ) + " ("@ + crate::text::without_controls(voice.language@) + ", "@
            + crate::text::without_controls(voice.gender@) + ")"@ + " [Agent Speak default]"@
            + "\n  id: "@ + crate::text::without_controls(voice.id@) + "\n  config: voice_id = "@
            + value + "\n  "@ + crate::text::without_controls(voice.description@) + "\n"@,
        !voice.is_default ==> listings::voice_text(voice, value) == crate::text::without_controls(
            voice.display_name@,
        ) + " ("@ + crate::text::without_controls(voice.language@) + ", "@
            + crate::text::without_controls(voice.gender@) + ")"@ + "\n  id: "@
            + crate::text::without_controls(voice.id@) + "\n  config: voice_id = "@ + value
            + "\n  "@ + crate::text::without_controls(voice.description@) + "\n"@,
{
    reveal_strlit("");
    assert(voices.push(voice).drop_last() =~= voices);
    let head = crate::text::without_controls(voice.display_name@) + " ("@
        + crate::text::without_controls(voice.language@) + ", "@ + crate::text::without_controls(
        voice.gender@,
    ) + ")"@;
    assert(head + ""@ =~= head);
}

/// Formats are listed in order with commas between them.
pub proof fn law_formats_are_listed(formats: Seq<String>, format: String)
    ensures
        listings::formats_text(Seq::empty()).len() == 0,
        formats.len() == 0 ==> listings::formats_text(formats.push(format))
            == crate::text::without_controls(format@),
        formats.len() > 0 ==> listings::formats_text(formats.push(format))
            == listings::formats_text(formats) + ", "@ + crate::text::without_controls(format@),
{
    assert(formats.push(format).drop_last() =~= formats);
}

/// What a provider can do is listed flag by flag.
pub proof fn law_provider_capabilities_are_listed(able: ProviderCapabilities)
    ensures
        ({
            let said = |flag: bool|
                if flag {
                    "true"@
                } else {
                    "false"@
                };
            listings::capabilities_text(able) == "synthesis="@ + said(able.synthesis)
                + ", cancellation="@ + said(able.cancellation) + ", model_catalog="@ + said(
                able.model_catalog,
            ) + ", voice_catalog="@ + said(able.voice_catalog) + ", prepare="@ + said(able.prepare)
                + ", remove="@ + said(able.remove) + ", voice_import="@ + said(able.voice_import)
        }),
{
}

/// What a provider says of itself is listed line by line, each with its own
/// answer.
pub proof fn law_providers_are_listed(info: ProviderInfo)
    ensures
        listings::info_text(info) == "executable: "@ + crate::text::without_controls(
            info.executable@,
        ) + "\nprovider: "@ + crate::text::without_controls(info.name@) + " ("@ + info.slug@
            + ")\nvendor: "@ + crate::text::without_controls(info.vendor@) + "\nversion: "@
            + info.version@ + "\nprotocol: utterpipe.tts/"@ + info.protocol_version@
            + "\ncapabilities: "@ + listings::capabilities_text(info.capabilities)
            + "\ndelivery_modes: "@ + info.delivery_modes@ + "\naudio_formats: "@
            + listings::formats_text(info.audio_formats@) + "\n"@,
{
}

// The command line.

/// Options of the quick profile become its overrides, each its own; any one of
/// them asks for that profile.
pub proof fn law_options_become_overrides(args: ServeArgs, overrides: QuickProfileOverrides)
    ensures
        args.overridden(overrides) <==> {
            &&& overrides.voice_id == args.voice_id
            &&& overrides.minimum_gain == args.minimum_gain
            &&& overrides.maximum_gain == args.maximum_gain
            &&& overrides.default_gain == args.default_gain
            &&& overrides.maximum_text_characters == args.maximum_text_characters
            &&& overrides.log_level == args.log_level
        },
        args.asks_for_quick_profile() <==> !(args.voice_id is None && args.minimum_gain is None
            && args.maximum_gain is None && args.default_gain is None
            && args.maximum_text_characters is None && args.log_level is None),
{
}

/// Each level of diagnostics has its own name.
pub proof fn law_levels_are_named()
    ensures
        report::level_text(LogLevel::Error) == "error"@,
        report::level_text(LogLevel::Warning) == "warn"@,
        report::level_text(LogLevel::Info) == "info"@,
        report::level_text(LogLevel::Debug) == "debug"@,
        report::level_text(LogLevel::Trace) == "trace"@,
{
}

/// Native speech is refused only on Linux, and only where speech is enabled on the
/// system backend. A provider that reports no status is invalid.
pub proof fn law_refusals_follow_the_profile(
    profile: ProfileConfig,
    platform: Platform,
    status: Option<&str>,
)
    ensures
        report::lacks_native_speech(profile, platform) <==> platform == Platform::Linux
            && profile.tts.enabled && profile.tts.backend is System,
        status is None ==> report::reported_status(status) == "invalid"@,
        status is Some ==> report::reported_status(status) == status.unwrap()@,
{
}

/// Why a command failed is told with what was said of it.
pub proof fn law_command_errors_are_told(
    devices: DevicesError,
    provider: CliProviderError,
    init: InitError,
)
    ensures
        match devices {
            DevicesError::Playback(error) => devices.message_text() == error.message_text(),
            DevicesError::Serialize(detail) => devices.message_text()
                == "output policy could not be serialized: "@ + detail@,
        },
        match provider {
            CliProviderError::Config(error) => provider.message_text() == error.message_text(),
            CliProviderError::Playback(error) => provider.message_text() == error.message_text(),
            CliProviderError::Provider(detail) => provider.message_text() == detail@,
        },
        match init {
            InitError::Playback(error) => init.message_text() == error.message_text(),
            InitError::Serialize(detail) => init.message_text()
                == "generated profile could not be serialized: "@ + detail@,
            InitError::Create { path, source } => init.message_text()
                == "could not create configuration file '"@ + path@ + "': "@ + source@,
            InitError::Write { path, source } => init.message_text()
                == "could not write configuration file '"@ + path@ + "': "@ + source@,
        },
{
}

// The generated profile.

/// A generated profile is called `local`, has the policy of the quick profile
/// without overrides, and a target for each device.
pub proof fn law_generated_profile_is_complete(
    profile: ProfileConfig,
    devices: Seq<OutputDevice>,
    platform: Platform,
)
    requires
        starter::is_starter_profile(profile, devices, platform),
    ensures
        profile.profile_name@ == "local"@,
        profile.schema_version == 1,
        profile.outputs.default_target@ == "system"@,
        profile.outputs.targets@.len() == devices.len() + 1,
        profile.permissions.arbitrary_text,
        !profile.permissions.arbitrary_local_audio,
        profile.playback.minimum_gain.bits == 0,
        profile.playback.maximum_gain.bits == 0x3fe6_6666_6666_6666,
        profile.playback.default_gain.bits == 0x3fd9_9999_9999_999a,
        profile.playback.default_concurrency == ConcurrencyMode::Enqueue,
        profile.playback.maximum_queue_items == 16,
        profile.playback.maximum_mix_streams == 2,
        profile.playback.maximum_audio_seconds == 0,
        profile.tts.enabled,
        profile.tts.maximum_characters == 300,
        profile.tts.backend is Utterpipe <==> platform == Platform::Linux,
        profile.logging.level == LogLevel::Warning,
        !profile.logging.history_enabled,
        profile.audio_cues@.len() == 0,
{
    let (quick, overrides) = choose|quick: ProfileConfig, overrides: QuickProfileOverrides|
        #[trigger] crate::config::load::is_quick_profile(quick, overrides, platform)
            && starter::is_without_overrides(overrides) && profile == (ProfileConfig {
            profile_name: profile.profile_name,
            outputs: profile.outputs,
            ..quick
        });
    source_laws::law_quick_profile_speaks_only(quick, overrides, platform);
}

/// The example of an audio cue has a path of the system that it is for.
pub proof fn law_example_paths_are_absolute(style: PathStyle)
    ensures
        crate::paths::absolute(style, starter::example_path(style)),
        starter::example_path(PathStyle::Posix) == "/path/to/your/sound.wav"@,
        starter::example_path(PathStyle::Windows) == "C:/path/to/your/sound.wav"@,
{
    reveal_strlit("/path/to/your/sound.wav");
    reveal_strlit("C:/path/to/your/sound.wav");
}

/// The examples are commented out, line by line: a speech cue that asks for
/// attention, and an audio cue with the path of a file to provide.
pub proof fn law_examples_are_commented_cues(style: PathStyle)
    ensures
        starter::examples_text(style)
            == "\n# Example speech cue (remove `# ` from each line to enable):\n# [[audio_cues]]\n# id = \"needs-attention\"\n# kind = \"speech\"\n# text = \"Your agent needs your attention.\"\n# description = \"Use when work cannot continue without user input.\"\n# default_gain = 0.4\n\n# Example audio cue (provide the referenced file yourself):\n# [[audio_cues]]\n# id = \"finished-chime\"\n# kind = \"audio_file\"\n# source = \""@
            + (if style is Windows {
            "C:/path/to/your/sound.wav"@
        } else {
            "/path/to/your/sound.wav"@
        })
            + "\"\n# description = \"Use when a long-running task is complete.\"\n# default_gain = 0.4\n"@,
{
}

} // verus!
