//! Where a configuration comes from, and what is shown of it.
use super::discovery;
use super::discovery::{Candidate, CandidateFile, Discovery, DiscoveryFault, LayersModel};
use super::layers;
use super::layers::{LayerLocation, RawTtsConfig, TomlNode};
use super::load;
use super::load::{ConfigError, ConfigOrigin, Platform, QuickProfileOverrides};
use super::model;
use super::model::{
    AudioCueConfig, AudioCueSummary, ConcurrencyMode, EffectiveCapabilities, LogLevel,
    OutputCategory, OutputTargetKind, ProfileConfig, TtsBackend,
};
use super::toml_value;
use super::toml_value::{TomlModel, TomlOffset};
use super::validate::ValidationIssue;
use crate::paths::PathStyle;
use vstd::prelude::*;

verus! {

// What is shown.

/// The capabilities are those of the profile: its policy as it stands, speech only
/// where it is both permitted and enabled, each target under its own number.
pub proof fn law_capabilities_show_the_policy(
    profile: ProfileConfig,
    shown: EffectiveCapabilities,
)
    requires
        shown.reflects(profile),
    ensures
        shown.schema_version == profile.schema_version,
        shown.profile_name@ == profile.profile_name@,
        shown.permissions.arbitrary_text <==> profile.permissions.arbitrary_text
            && profile.tts.enabled,
        shown.permissions.arbitrary_local_audio <==> profile.permissions.arbitrary_local_audio,
        shown.audio_cues_available <==> profile.audio_cues@.len() != 0,
        shown.playback.minimum_gain == profile.playback.minimum_gain,
        shown.playback.maximum_gain == profile.playback.maximum_gain,
        shown.playback.default_gain == profile.playback.default_gain,
        shown.playback.default_concurrency == profile.playback.default_concurrency,
        shown.playback.allowed_concurrency@ == profile.playback.allowed_concurrency@,
        shown.playback.maximum_queue_items == profile.playback.maximum_queue_items,
        shown.playback.maximum_mix_streams == profile.playback.maximum_mix_streams,
        shown.playback.maximum_audio_seconds == profile.playback.maximum_audio_seconds,
        shown.playback.status_retention_items == 256,
        shown.tts.enabled == profile.tts.enabled,
        shown.tts.maximum_characters == profile.tts.maximum_characters,
        shown.history_enabled == profile.logging.history_enabled,
        shown.outputs.default_target@ == profile.outputs.default_target@,
        shown.outputs.targets@.len() == profile.outputs.targets@.len(),
        forall|i: int|
            0 <= i < profile.outputs.targets@.len() ==> {
                let target = #[trigger] profile.outputs.targets@[i];
                &&& shown.outputs.targets@[i].id@ == target.id@
                &&& shown.outputs.targets@[i].description@ == target.description@
                &&& shown.outputs.targets@[i].allow@ == target.allow@
            },
        shown.audio.formats@.len() == 4,
        shown.audio.formats@[0]@ == "wav"@,
        shown.audio.formats@[1]@ == "mp3"@,
        shown.audio.formats@[2]@ == "flac"@,
        shown.audio.formats@[3]@ == "ogg_vorbis"@,
        shown.tools@.len() == 3 + (if profile.audio_cues@.len() != 0 {
            2int
        } else {
            0
        }) + (if profile.permissions.arbitrary_text && profile.tts.enabled {
            1int
        } else {
            0
        }) + (if profile.permissions.arbitrary_local_audio {
            1int
        } else {
            0
        }),
{
    assert(model::texts(shown.audio.formats@).len() == 4);
    assert(model::texts(shown.audio.formats@)[0] == "wav"@);
    assert(model::texts(shown.audio.formats@)[1] == "mp3"@);
    assert(model::texts(shown.audio.formats@)[2] == "flac"@);
    assert(model::texts(shown.audio.formats@)[3] == "ogg_vorbis"@);
    assert(model::texts(shown.tools@).len() == shown.tools@.len());
    assert forall|i: int| 0 <= i < profile.outputs.targets@.len() implies {
        let target = #[trigger] profile.outputs.targets@[i];
        model::shows_target(shown.outputs.targets@[i], target)
    } by {}
}

/// A cue is listed under its identifier, with its kind and its gain, and with its
/// description where that is not empty.
pub proof fn law_cues_are_listed_as_they_are(shown: AudioCueSummary, cue: AudioCueConfig)
    ensures
        model::shows_cue(shown, cue) <==> {
            &&& shown.id@ == cue.id@
            &&& shown.kind == cue.kind
            &&& shown.default_gain == cue.default_gain
            &&& shown.description is None <==> cue.description@.len() == 0
            &&& shown.description matches Some(words) ==> words@ == cue.description@
        },
{
}

// The quick profile.

/// The quick profile speaks any text and plays no file. It has gains from zero to
/// 0.7 with 0.4 between, a queue of 16, two streams, no duration limit and 300
/// characters, unless it is told otherwise; it enqueues or interrupts, writes
/// warnings and keeps no history.
pub proof fn law_quick_profile_speaks_only(
    profile: ProfileConfig,
    overrides: QuickProfileOverrides,
    platform: Platform,
)
    requires
        load::is_quick_profile(profile, overrides, platform),
    ensures
        profile.schema_version == 1,
        profile.profile_name@ == "quickstart"@,
        profile.permissions.arbitrary_text,
        !profile.permissions.arbitrary_local_audio,
        profile.playback.minimum_gain.bits == if overrides.minimum_gain is Some {
            overrides.minimum_gain.unwrap().bits
        } else {
            0
        },
        profile.playback.maximum_gain.bits == if overrides.maximum_gain is Some {
            overrides.maximum_gain.unwrap().bits
        } else {
            0x3fe6_6666_6666_6666
        },
        profile.playback.default_gain.bits == if overrides.default_gain is Some {
            overrides.default_gain.unwrap().bits
        } else {
            0x3fd9_9999_9999_999a
        },
        profile.playback.default_concurrency == ConcurrencyMode::Enqueue,
        profile.playback.allowed_concurrency@.len() == 2,
        profile.playback.allowed_concurrency@.contains(ConcurrencyMode::Enqueue),
        profile.playback.allowed_concurrency@.contains(ConcurrencyMode::Interrupt),
        !profile.playback.allowed_concurrency@.contains(ConcurrencyMode::Mix),
        profile.playback.maximum_queue_items == 16,
        profile.playback.maximum_mix_streams == 2,
        profile.playback.maximum_audio_seconds == 0,
        profile.outputs.default_target@ == "system"@,
        profile.outputs.targets@.len() == 1,
        profile.outputs.targets@[0].id@ == "system"@,
        profile.outputs.targets@[0].kind == OutputTargetKind::SystemDefault,
        profile.outputs.targets@[0].device_id is None,
        profile.outputs.targets@[0].allow@.contains(OutputCategory::Audio),
        profile.outputs.targets@[0].allow@.contains(OutputCategory::Speech),
        profile.outputs.targets@[0].description@ == "Current system default audio device"@,
        profile.tts.enabled,
        profile.tts.maximum_characters == if overrides.maximum_text_characters is Some {
            overrides.maximum_text_characters.unwrap()
        } else {
            300
        },
        profile.logging.level == if overrides.log_level is Some {
            overrides.log_level.unwrap()
        } else {
            LogLevel::Warning
        },
        !profile.logging.history_enabled,
        profile.logging.history_path is None,
        !profile.logging.history_include_spoken_text,
        profile.audio_cues@.len() == 0,
        profile.tts.backend is Utterpipe <==> platform == Platform::Linux,
        profile.tts.backend matches TtsBackend::System(system) ==> system.voice_id@
            == if overrides.voice_id is Some {
            overrides.voice_id.unwrap()@
        } else {
            Seq::<char>::empty()
        },
        profile.tts.backend matches TtsBackend::Utterpipe(provider) ==> {
            &&& provider.provider@ == "espeak-ng"@
            &&& provider.model_id is None
            &&& provider.voice_id is None
            &&& provider.provider_environment@.len() == 0
            &&& provider.audio_deliveries@.len() == 0
            &&& provider.agent_utterance_options@.len() == 0
            &&& provider.provider_options.model().dom() =~= Set::<Seq<char>>::empty()
            &&& provider.utterance_options.model().contains_key("voice"@)
            &&& provider.utterance_options.model()["voice"@] == TomlModel::Text(
                if overrides.voice_id is Some {
                    overrides.voice_id.unwrap()@
                } else {
                    "default"@
                },
            )
            &&& forall|key: Seq<char>| #[trigger]
                provider.utterance_options.model().contains_key(key) ==> key == "voice"@
        },
{
    let modes = profile.playback.allowed_concurrency@;
    assert(modes[0] == ConcurrencyMode::Enqueue && modes[1] == ConcurrencyMode::Interrupt);
    let allow = profile.outputs.targets@[0].allow@;
    assert(allow[0] == OutputCategory::Audio && allow[1] == OutputCategory::Speech);
}

// What is said of it.

/// Where a configuration comes from is told with every path, in order.
pub proof fn law_origins_are_told(path: String, paths: Vec<String>)
    ensures
        ConfigOrigin::QuickProfile.description() == "built-in quick profile"@,
        ConfigOrigin::File(path).description() == "explicit file "@ + path@,
        ConfigOrigin::Layered(paths).description() == "discovered layers (low to high): "@
            + load::listed(paths@),
{
}

/// Paths are listed in order with commas between them.
pub proof fn law_paths_are_listed_in_order(paths: Seq<String>, path: String)
    ensures
        load::listed(Seq::empty()) == Seq::<char>::empty(),
        paths.len() == 0 ==> load::listed(paths.push(path)) == path@,
        paths.len() > 0 ==> load::listed(paths.push(path)) == load::listed(paths) + ", "@ + path@,
{
    assert(paths.push(path).drop_last() =~= paths);
}

/// Issues are listed in order, each on a line with its field and its message.
pub proof fn law_issues_are_listed_in_order(
    issues: Seq<ValidationIssue>,
    issue: ValidationIssue,
)
    ensures
        load::issue_lines(Seq::empty()) == Seq::<char>::empty(),
        issues.len() == 0 ==> load::issue_lines(issues.push(issue)) == "- "@ + issue.field@ + ": "@
            + issue.message@,
        issues.len() > 0 ==> load::issue_lines(issues.push(issue)) == load::issue_lines(issues)
            + "\n"@ + ("- "@ + issue.field@ + ": "@ + issue.message@),
{
    assert(issues.push(issue).drop_last() =~= issues);
}

/// Why a configuration could not be used is told with what was said of it.
pub proof fn law_configuration_errors_are_told(error: ConfigError)
    ensures
        match error {
            ConfigError::Read(detail) => error.message_text()
                == "could not read the configuration file: "@ + detail@,
            ConfigError::Parse(detail) => error.message_text()
                == "configuration is not valid TOML: "@ + detail@,
            ConfigError::CurrentDirectory(detail) => error.message_text()
                == "could not determine the working directory for configuration discovery: "@
                + detail@,
            ConfigError::LayerRead { path, source } => error.message_text()
                == "could not read discovered configuration layer "@ + path@ + ": "@ + source@,
            ConfigError::LayerParse { path, source } => error.message_text()
                == "discovered configuration layer "@ + path@ + " is not valid TOML: "@
                + load::error_text(source),
            ConfigError::DefaultSerialize(detail) => error.message_text()
                == "built-in configuration defaults could not be represented as TOML: "@ + detail@,
            ConfigError::MissingParent => error.message_text()
                == "configuration path has no parent directory"@,
            ConfigError::Validation(errors) => error.message_text()
                == "configuration validation failed:\n"@ + load::issue_lines(errors.0@),
        },
{
}

// The `[tts]` table.

/// A field that is left out is empty, and one that is set holds what it says. A
/// provider is what stands behind `utterpipe-`.
pub proof fn law_written_fields_are_read(
    raw: RawTtsConfig,
    list: Vec<String>,
    table: toml_value::TomlTable,
    backend: Seq<char>,
    provider: Seq<char>,
)
    ensures
        layers::or_empty(Some(list)) == list@,
        layers::or_empty(None::<Vec<String>>).len() == 0,
        layers::or_no_entries(Some(table)) == table.model(),
        layers::or_no_entries(None).dom() =~= Set::<Seq<char>>::empty(),
        raw.has_provider_fields() <==> !(raw.model_id is None && raw.audio_deliveries is None
            && raw.provider_environment is None && raw.provider_options is None
            && raw.utterance_options is None && raw.agent_utterance_options is None),
        layers::names_provider("utterpipe-"@ + provider),
        layers::provider_in("utterpipe-"@ + provider) == provider,
        layers::names_provider(backend) ==> backend == "utterpipe-"@ + layers::provider_in(backend),
{
    reveal_strlit("utterpipe-");
    let whole = "utterpipe-"@ + provider;
    assert(whole.take(10) =~= "utterpipe-"@);
    assert(layers::provider_in(whole) =~= provider);
    if layers::names_provider(backend) {
        assert(backend =~= backend.take(10) + backend.skip(10));
    }
}

/// A field that belongs to one backend.
pub open spec fn belongs_to_backend(field: Seq<char>) -> bool {
    ||| field == "model_id"@
    ||| field == "voice_id"@
    ||| field == "audio_deliveries"@
    ||| field == "provider_environment"@
    ||| field == "provider_options"@
    ||| field == "utterance_options"@
    ||| field == "agent_utterance_options"@
}

/// The fields that a changed backend discards are those of a backend.
pub proof fn law_backend_fields(field: Seq<char>)
    ensures
        layers::backend_fields().contains(field) <==> belongs_to_backend(field),
{
    let fields = layers::backend_fields();
    assert(fields[0] == "model_id"@);
    assert(fields[1] == "voice_id"@);
    assert(fields[2] == "audio_deliveries"@);
    assert(fields[3] == "provider_environment"@);
    assert(fields[4] == "provider_options"@);
    assert(fields[5] == "utterance_options"@);
    assert(fields[6] == "agent_utterance_options"@);
}

/// A layer that names another backend drops the fields of the previous one and
/// keeps the rest of its table, under what the layer sets. One that names the same
/// backend, or none, drops nothing.
pub proof fn law_another_backend_starts_afresh(
    base: Map<Seq<char>, TomlModel>,
    layer: Map<Seq<char>, TomlModel>,
    under: Map<Seq<char>, TomlModel>,
    over: Map<Seq<char>, TomlModel>,
    field: Seq<char>,
)
    requires
        base.contains_key("tts"@),
        base["tts"@] == TomlModel::Table(under),
        layer.contains_key("tts"@),
        layer["tts"@] == TomlModel::Table(over),
        under.contains_key("backend"@),
        under["backend"@] is Text,
        over.contains_key("backend"@) ==> over["backend"@] is Text,
        !over.contains_key(field),
        under.contains_key(field),
    ensures
        ({
            let after = layers::layered(base, layer)["tts"@];
            let another = over.contains_key("backend"@) && over["backend"@] != under["backend"@];
            &&& layers::layered(base, layer).contains_key("tts"@)
            &&& after is Table
            &&& another && belongs_to_backend(field) ==> !after->Table_0.contains_key(field)
            &&& !(another && belongs_to_backend(field)) ==> after->Table_0.contains_key(field)
                && after->Table_0[field] == under[field]
        }),
{
    law_backend_fields(field);
    let reset = layers::backend_reset(base, layer);
    let changed = layers::changes_backend(base, layer);
    if changed {
        let left = layers::without_keys(under, layers::backend_fields());
        assert(reset["tts"@] == TomlModel::Table(left));
        let whole = toml_value::merged_value(Some(TomlModel::Table(left)), TomlModel::Table(over));
        assert(layers::layered(base, layer)["tts"@] == whole);
    } else {
        let whole = toml_value::merged_value(Some(TomlModel::Table(under)), TomlModel::Table(over));
        assert(layers::layered(base, layer)["tts"@] == whole);
    }
    assert(toml_value::same(under["backend"@], under["backend"@]));
}

/// JSON carries texts, flags, integers that a double holds exactly and finite
/// numbers, no dates, and lists and tables of what it carries.
pub proof fn law_json_carries_plain_values(
    words: Seq<char>,
    flag: bool,
    number: i64,
    bits: u64,
    date: toml_value::TomlDatetime,
    items: Seq<TomlModel>,
    table: Map<Seq<char>, TomlModel>,
)
    ensures
        toml_value::json_compatible(TomlModel::Text(words)),
        toml_value::json_compatible(TomlModel::Boolean(flag)),
        toml_value::json_compatible(TomlModel::Integer(number)) <==> -9007199254740991 <= number
            <= 9007199254740991,
        bits < 0x8000_0000_0000_0000 ==> (toml_value::json_compatible(TomlModel::Float(bits))
            <==> bits < 0x7ff0_0000_0000_0000),
        bits >= 0x8000_0000_0000_0000 ==> (toml_value::json_compatible(TomlModel::Float(bits))
            <==> bits < 0xfff0_0000_0000_0000),
        !toml_value::json_compatible(TomlModel::Datetime(date)),
        toml_value::json_compatible(TomlModel::Array(items)) <==> forall|i: int|
            0 <= i < items.len() ==> toml_value::json_compatible(#[trigger] items[i]),
        toml_value::json_compatible(TomlModel::Table(table)) <==> forall|key: Seq<char>| #[trigger]
            table.contains_key(key) ==> toml_value::json_compatible(table[key]),
{
    let list = TomlModel::Array(items);
    assert(list->Array_0 == items);
    let whole = TomlModel::Table(table);
    assert(whole->Table_0 == table);
}

// Where layers are looked for.

/// No location in front of this one is absolute, and this one is.
pub open spec fn comes_first(style: PathStyle, locations: Seq<LayerLocation>, at: int) -> bool {
    &&& 0 <= at < locations.len()
    &&& crate::paths::absolute(style, locations[at].directory@)
    &&& forall|i: int|
        0 <= i < at ==> !crate::paths::absolute(style, (#[trigger] locations[i]).directory@)
}

proof fn lemma_first(style: PathStyle, locations: Seq<LayerLocation>)
    ensures
        match layers::first_absolute(style, locations) {
            Some(layer) => exists|at: int| #[trigger]
                comes_first(style, locations, at) && locations[at].layer@ == layer,
            None => forall|i: int|
                0 <= i < locations.len() ==> !crate::paths::absolute(
                    style,
                    (#[trigger] locations[i]).directory@,
                ),
        },
    decreases locations.len(),
{
    if locations.len() > 0 {
        let fewer = locations.drop_last();
        lemma_first(style, fewer);
        match layers::first_absolute(style, fewer) {
            Some(layer) => {
                let at = choose|at: int| #[trigger]
                    comes_first(style, fewer, at) && fewer[at].layer@ == layer;
                assert forall|i: int| 0 <= i < at implies !crate::paths::absolute(
                    style,
                    (#[trigger] locations[i]).directory@,
                ) by {
                    assert(fewer[i] == locations[i]);
                }
                assert(comes_first(style, locations, at));
            },
            None => {
                assert forall|i: int| 0 <= i < locations.len() - 1 implies !crate::paths::absolute(
                    style,
                    (#[trigger] locations[i]).directory@,
                ) by {
                    assert(fewer[i] == locations[i]);
                }
                if crate::paths::absolute(style, locations.last().directory@) {
                    assert(comes_first(style, locations, locations.len() - 1));
                }
            },
        }
    }
}

/// Layers are looked for in at most three places, lowest priority first: for the
/// system, which on POSIX is `/etc/agent-speak.toml` and on Windows the first
/// absolute directory for program data, in the first absolute home, and in the
/// working directory last.
pub proof fn law_layers_are_looked_for_in_order(
    style: PathStyle,
    program_data: Seq<LayerLocation>,
    homes: Seq<LayerLocation>,
    working: Seq<char>,
    system: int,
    home: int,
)
    ensures
        ({
            let places = layers::candidates(style, program_data, homes, working);
            let posix = style == PathStyle::Posix;
            let no_home = forall|i: int|
                0 <= i < homes.len() ==> !crate::paths::absolute(
                    style,
                    (#[trigger] homes[i]).directory@,
                );
            let no_data = forall|i: int|
                0 <= i < program_data.len() ==> !crate::paths::absolute(
                    style,
                    (#[trigger] program_data[i]).directory@,
                );
            &&& places.len() > 0 && places.last() == working
            &&& posix ==> places[0] == "/etc/agent-speak.toml"@
            &&& !posix && comes_first(style, program_data, system) ==> places[0]
                == program_data[system].layer@
            &&& comes_first(style, homes, home) ==> places.len() >= 2 && places[places.len() - 2]
                == homes[home].layer@
            &&& places.len() == 1 + (if posix || !no_data {
                1int
            } else {
                0
            }) + (if no_home {
                0int
            } else {
                1
            })
        }),
{
    lemma_first(style, program_data);
    lemma_first(style, homes);
    lemma_one_is_first(style, program_data, system);
    lemma_one_is_first(style, homes, home);
}

/// One location at most comes first.
proof fn lemma_one_is_first(style: PathStyle, locations: Seq<LayerLocation>, at: int)
    ensures
        comes_first(style, locations, at) ==> layers::first_absolute(style, locations) == Some(
            locations[at].layer@,
        ),
{
    lemma_first(style, locations);
    if comes_first(style, locations, at) {
        if let Some(layer) = layers::first_absolute(style, locations) {
            let other = choose|other: int| #[trigger]
                comes_first(style, locations, other) && locations[other].layer@ == layer;
            assert(other == at);
        }
    }
}

/// The last candidate lies over what the others came to. A missing one adds
/// nothing; nor does a file that was read before. A file that is read is the last
/// source, its settings lie over the earlier ones, and paths that it sets start in
/// its own directory.
pub proof fn law_each_candidate_lies_over_the_earlier(
    start: LayersModel,
    earlier: Seq<Candidate>,
    candidate: Candidate,
    before: LayersModel,
)
    requires
        discovery::after_candidates(start, earlier) == Discovery::Read(before),
    ensures
        ({
            let after = discovery::after_candidates(start, earlier.push(candidate));
            let fresh = |path: String|
                forall|i: int|
                    0 <= i < before.sources.len() ==> (#[trigger] before.sources[i])@ != path@;
            match candidate.file {
                CandidateFile::Missing => after == Discovery::Read(before),
                CandidateFile::Inaccessible(detail) => after == Discovery::Failed(
                    DiscoveryFault::Unreadable { path: candidate.path, detail },
                ),
                CandidateFile::Unreadable { canonical, detail } => after == if fresh(canonical) {
                    Discovery::Failed(DiscoveryFault::Unreadable { path: canonical, detail })
                } else {
                    Discovery::Read(before)
                },
                CandidateFile::Present { canonical, directory, source } => {
                    &&& !fresh(canonical) ==> after == Discovery::Read(before)
                    &&& fresh(canonical) && layers::document(source@) is None ==> after
                        == Discovery::Failed(
                        DiscoveryFault::Malformed { path: canonical, source: source@ },
                    )
                    &&& fresh(canonical) && layers::document(source@) is Some && directory is None
                        ==> after == Discovery::Failed(DiscoveryFault::NoParent)
                    &&& fresh(canonical) && layers::document(source@) is Some && directory is Some
                        ==> {
                        let layer = layers::document(source@).unwrap();
                        &&& after matches Discovery::Read(found)
                        &&& found.sources == before.sources.push(canonical)
                        &&& found.effective == layers::layered(before.effective, layer)
                        &&& found.origins.audio_cues == if layer.contains_key("audio_cues"@) {
                            directory
                        } else {
                            before.origins.audio_cues
                        }
                        &&& found.origins.history == if layer.contains_key("logging"@)
                            && layer["logging"@] is Table
                            && layer["logging"@]->Table_0.contains_key("history_path"@) {
                            directory
                        } else {
                            before.origins.history
                        }
                    }
                },
            }
        }),
{
    assert(earlier.push(candidate).drop_last() =~= earlier);
}

/// What stopped discovery is told: the path with what was said of it.
pub proof fn law_failed_discovery_says_why(error: ConfigError, fault: DiscoveryFault)
    requires
        discovery::reports(error, fault),
    ensures
        match fault {
            DiscoveryFault::Unreadable { path, detail } => error.message_text()
                == "could not read discovered configuration layer "@ + path@ + ": "@ + detail@,
            DiscoveryFault::Malformed { path, source } => error.message_text()
                == "discovered configuration layer "@ + path@ + " is not valid TOML: "@
                + layers::document_fault(source),
            DiscoveryFault::NoParent => error.message_text()
                == "configuration path has no parent directory"@,
        },
{
}

/// The first candidate that fails ends discovery: what stands behind it changes
/// nothing.
pub proof fn law_failed_discovery_ends(
    start: LayersModel,
    earlier: Seq<Candidate>,
    candidate: Candidate,
)
    requires
        discovery::after_candidates(start, earlier) is Failed,
    ensures
        discovery::after_candidates(start, earlier.push(candidate))
            == discovery::after_candidates(start, earlier),
{
    assert(earlier.push(candidate).drop_last() =~= earlier);
}

// Values.

/// Two settings are the same where they are of one kind and say the same; numbers
/// are compared as numbers, and what is not a number is the same as nothing.
pub proof fn law_same_settings_say_the_same(
    a: Seq<char>,
    b: Seq<char>,
    m: i64,
    n: i64,
    p: bool,
    q: bool,
    x: u64,
    y: u64,
)
    ensures
        toml_value::same(TomlModel::Text(a), TomlModel::Text(b)) <==> a == b,
        toml_value::same(TomlModel::Integer(m), TomlModel::Integer(n)) <==> m == n,
        toml_value::same(TomlModel::Boolean(p), TomlModel::Boolean(q)) <==> p == q,
        !toml_value::same(TomlModel::Text(a), TomlModel::Integer(n)),
        !toml_value::same(TomlModel::Integer(m), TomlModel::Boolean(q)),
        !toml_value::same(TomlModel::Integer(m), TomlModel::Float(y)),
        x <= 0x7ff0_0000_0000_0000 && y <= 0x7ff0_0000_0000_0000 ==> (toml_value::same(
            TomlModel::Float(x),
            TomlModel::Float(y),
        ) <==> x == y),
        0x7ff0_0000_0000_0000 < x < 0x8000_0000_0000_0000 ==> !toml_value::same(
            TomlModel::Float(x),
            TomlModel::Float(y),
        ),
        toml_value::same(TomlModel::Float(0), TomlModel::Float(0x8000_0000_0000_0000)),
{
}

/// Lists are the same place by place, and tables key by key.
pub proof fn law_same_collections_hold_the_same(
    left: Seq<TomlModel>,
    right: Seq<TomlModel>,
    under: Map<Seq<char>, TomlModel>,
    over: Map<Seq<char>, TomlModel>,
)
    ensures
        toml_value::same(TomlModel::Array(left), TomlModel::Array(right)) <==> left.len()
            == right.len() && forall|i: int|
            0 <= i < left.len() ==> toml_value::same(#[trigger] left[i], right[i]),
        toml_value::same(TomlModel::Table(under), TomlModel::Table(over)) <==> under.dom()
            == over.dom() && forall|key: Seq<char>| #[trigger]
            under.contains_key(key) ==> toml_value::same(under[key], over[key]),
{
    let list = TomlModel::Array(left);
    assert(list->Array_0 == left);
    let whole = TomlModel::Table(under);
    assert(whole->Table_0 == under);
}

/// A value that is opened holds what it was made of: a date its day, its time and
/// its offset, each number in its place.
pub proof fn law_opened_values_hold_what_they_say(
    words: String,
    number: i64,
    bits: u64,
    flag: bool,
    year: u16,
    month: u8,
    day: u8,
    hour: u8,
    minute: u8,
    second: Option<u8>,
    nanosecond: Option<u32>,
    minutes: i16,
)
    ensures
        layers::node_contents(TomlNode::Text(words)) == TomlModel::Text(words@),
        layers::node_contents(TomlNode::Integer(number)) == TomlModel::Integer(number),
        layers::node_contents(TomlNode::Float(bits)) == TomlModel::Float(bits),
        layers::node_contents(TomlNode::Boolean(flag)) == TomlModel::Boolean(flag),
        ({
            let held = layers::date_of(
                Some((year, month, day)),
                Some((hour, minute, second, nanosecond)),
                Some(Some(minutes)),
            );
            &&& held.date matches Some(date)
            &&& date.year == year && date.month == month && date.day == day
            &&& held.time matches Some(time)
            &&& time.hour == hour && time.minute == minute && time.second == second
                && time.nanosecond == nanosecond
            &&& held.offset == Some(TomlOffset::Minutes(minutes))
        }),
        layers::date_of(None, None, Some(None)).offset == Some(TomlOffset::Utc),
        ({
            let empty = layers::date_of(None, None, None);
            empty.date is None && empty.time is None && empty.offset is None
        }),
{
}

} // verus!
