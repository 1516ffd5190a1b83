//! What configuration keeps, whatever is configured.
use super::layers;
use super::load;
use super::load::{Platform, QuickProfileOverrides};
use super::model::{
    AudioCueConfig, AudioCueKind, ProfileConfig, TtsBackend, MAXIMUM_TEXT_CHARACTERS,
};
use super::toml_value;
use super::toml_value::TomlModel;
use super::validate;
use super::validate::{IssueModel, PathFacts, SourceInspection, ValidationIssue};
use crate::paths::PathStyle;
use crate::playback::actor::optional_text;
use vstd::prelude::*;

verus! {

/// A later layer wins: what it sets is there, a table merged key by key and
/// anything else as the layer has it. The speech settings are merged so where the
/// layer keeps their backend.
pub proof fn law_later_layer_wins(
    base: Map<Seq<char>, TomlModel>,
    layer: Map<Seq<char>, TomlModel>,
    key: Seq<char>,
)
    requires
        layer.contains_key(key),
    ensures
        layers::layered(base, layer).contains_key(key),
        !(layer[key] is Table) ==> layers::layered(base, layer)[key] == layer[key],
        layer[key] is Table && !(layers::subtable(base, key) is Some) ==> layers::layered(
            base,
            layer,
        )[key] == layer[key],
        layer[key] is Table && layers::subtable(base, key) is Some && (key != "tts"@
            || !layers::changes_backend(base, layer)) ==> layers::layered(base, layer)[key]
            == TomlModel::Table(
            toml_value::merged(layers::subtable(base, key).unwrap(), layer[key]->Table_0),
        ),
{
    let under = layers::backend_reset(base, layer);
    if let TomlModel::Table(over) = layer[key] {
        if let Some(TomlModel::Table(inner)) = toml_value::held(under, key) {
            let whole = toml_value::merged_value(
                Some(TomlModel::Table(inner)),
                TomlModel::Table(over),
            );
            assert(whole->Table_0 =~= toml_value::merged(inner, over));
        }
    }
}

/// What a layer leaves out stays as the earlier layers set it.
pub proof fn law_layer_keeps_the_rest(
    base: Map<Seq<char>, TomlModel>,
    layer: Map<Seq<char>, TomlModel>,
    key: Seq<char>,
)
    requires
        !layer.contains_key(key),
    ensures
        toml_value::held(layers::layered(base, layer), key) == toml_value::held(base, key),
{
}

/// A changed backend carries no field of the previous one along: such a field is
/// there only where the layer sets it, and then as the layer has it.
pub proof fn law_changed_backend_discards_fields(
    base: Map<Seq<char>, TomlModel>,
    layer: Map<Seq<char>, TomlModel>,
    field: Seq<char>,
)
    requires
        layers::changes_backend(base, layer),
        layers::backend_fields().contains(field),
    ensures
        layers::subtable(layers::layered(base, layer), "tts"@) is Some,
        toml_value::held(layers::subtable(layers::layered(base, layer), "tts"@).unwrap(), field)
            == toml_value::held(layers::subtable(layer, "tts"@).unwrap(), field),
{
    let under = layers::without_keys(
        layers::subtable(base, "tts"@).unwrap(),
        layers::backend_fields(),
    );
    let over = layers::subtable(layer, "tts"@).unwrap();
    let reset = layers::backend_reset(base, layer);
    assert(toml_value::held(reset, "tts"@) == Some(TomlModel::Table(under)));
    let whole = toml_value::merged_value(Some(TomlModel::Table(under)), TomlModel::Table(over));
    assert(whole->Table_0 =~= toml_value::merged(under, over));
    assert(layers::layered(base, layer)["tts"@] == whole);
    assert(!under.contains_key(field));
    if over.contains_key(field) {
        assert(toml_value::merged_value(None, over[field]) == over[field]);
    }
}

/// A layer without entries changes nothing.
pub proof fn law_empty_layer_changes_nothing(base: Map<Seq<char>, TomlModel>)
    ensures
        layers::layered(base, Map::empty()) == base,
{
    assert(layers::layered(base, Map::empty()) =~= base);
}

/// A backend is found again under the name that it gives itself.
pub proof fn law_backend_name_leads_back(backend: TtsBackend)
    ensures
        match backend {
            TtsBackend::System(_) => backend.name_text() == "system"@,
            TtsBackend::Utterpipe(provider) => {
                &&& backend.name_text() != "system"@
                &&& layers::names_provider(backend.name_text())
                &&& layers::provider_in(backend.name_text()) == provider.provider@
            },
        },
{
    if let TtsBackend::Utterpipe(provider) = backend {
        reveal_strlit("utterpipe-");
        reveal_strlit("system");
        let name = backend.name_text();
        assert(name.take("utterpipe-"@.len() as int) =~= "utterpipe-"@);
        assert(layers::provider_in(name) =~= provider.provider@);
        assert(name[0] == 'u');
    }
}

// What validation promises.

/// An output target that validation finds nothing wrong with.
pub open spec fn target_sound(profile: ProfileConfig, i: int) -> bool {
    let targets = profile.outputs.targets@;
    &&& validate::valid_id(targets[i].id@)
    &&& !validate::target_repeats(targets, i)
    &&& targets[i].description@.len() <= 1_000
    &&& !validate::repeats_category(targets[i].allow@)
    &&& targets[i].kind is SystemDefault ==> targets[i].device_id is None
    &&& targets[i].kind is Device ==> validate::names_device(targets[i])
}

/// A cue that validation finds nothing wrong with.
pub open spec fn cue_sound(profile: ProfileConfig, facts: PathFacts, i: int) -> bool {
    let cue = profile.audio_cues@[i];
    &&& validate::valid_id(cue.id@)
    &&& !validate::cue_repeats(profile.audio_cues@, i)
    &&& cue.description@.len() <= 1_000
    &&& cue.default_gain.within(profile.playback.minimum_gain, profile.playback.maximum_gain)
    &&& match cue.kind {
        AudioCueKind::AudioFile => {
            &&& cue.text is None
            &&& cue.source is Some
            &&& validate::source_fault(facts.style, facts.inspection(i)) is None
        },
        AudioCueKind::Speech => {
            &&& cue.source is None
            &&& cue.text matches Some(text) && !crate::text::blank(text@) && text@.len()
                <= profile.tts.maximum_characters
            &&& profile.tts.enabled
        },
    }
}

/// Targets add issues exactly when one of them is not sound.
pub proof fn lemma_targets(found: Seq<IssueModel>, profile: ProfileConfig, count: nat)
    requires
        count <= profile.outputs.targets@.len(),
    ensures
        validate::with_targets_issues(found, profile.outputs.targets@, count).len() >= found.len(),
        validate::with_targets_issues(found, profile.outputs.targets@, count).len() == found.len()
            <==> forall|i: int| 0 <= i < count ==> #[trigger] target_sound(profile, i),
    decreases count,
{
    if count > 0 {
        lemma_targets(found, profile, (count - 1) as nat);
        let fewer = validate::with_targets_issues(
            found,
            profile.outputs.targets@,
            (count - 1) as nat,
        );
        let last = validate::with_target_issues(fewer, profile.outputs.targets@, count - 1);
        assert(last.len() >= fewer.len());
        assert(last.len() == fewer.len() <==> target_sound(profile, count - 1));
    }
}

pub proof fn lemma_cues(
    found: Seq<IssueModel>,
    profile: ProfileConfig,
    facts: PathFacts,
    count: nat,
)
    requires
        count <= profile.audio_cues@.len(),
    ensures
        validate::with_cues_issues(found, profile, facts, count).len() >= found.len(),
        validate::with_cues_issues(found, profile, facts, count).len() == found.len()
            <==> forall|i: int| 0 <= i < count ==> #[trigger] cue_sound(profile, facts, i),
    decreases count,
{
    if count > 0 {
        lemma_cues(found, profile, facts, (count - 1) as nat);
        let fewer = validate::with_cues_issues(found, profile, facts, (count - 1) as nat);
        let last = validate::with_cue_issues(fewer, profile, facts, count - 1);
        assert(last.len() >= fewer.len());
        assert(last.len() == fewer.len() <==> cue_sound(profile, facts, count - 1));
    }
}

proof fn lemma_names(found: Seq<IssueModel>, names: Seq<String>, from: int)
    requires
        0 <= from <= names.len(),
    ensures
        validate::names_noted(found, names, from).len() >= found.len(),
    decreases names.len() - from,
{
    if from < names.len() {
        lemma_names(found, names, from + 1);
    }
}

/// A profile is valid exactly when nothing is wrong with its general settings,
/// its playback policy, its provider, its outputs, its history destination and
/// its cues.
pub open spec fn sound(profile: ProfileConfig, facts: PathFacts) -> bool {
    let none = Seq::<IssueModel>::empty();
    &&& validate::with_general_issues(none, profile).len() == 0
    &&& validate::with_playback_issues(none, profile).len() == 0
    &&& validate::with_tts_issues(none, profile).len() == 0
    &&& validate::with_outputs_issues(none, profile).len() == 0
    &&& validate::with_logging_issues(none, profile, facts).len() == 0
    &&& validate::with_cues_issues(none, profile, facts, profile.audio_cues@.len()).len() == 0
}

/// No check takes an issue back.
proof fn lemma_issues_only_grow(found: Seq<IssueModel>, profile: ProfileConfig, facts: PathFacts)
    ensures
        validate::with_general_issues(found, profile).len() >= found.len(),
        validate::with_playback_issues(found, profile).len() >= found.len(),
        validate::with_tts_issues(found, profile).len() >= found.len(),
        validate::with_outputs_issues(found, profile).len() >= found.len(),
        validate::with_logging_issues(found, profile, facts).len() >= found.len(),
        validate::with_cues_issues(found, profile, facts, profile.audio_cues@.len()).len()
            >= found.len(),
{
    let targets = profile.outputs.targets@;
    lemma_cues(found, profile, facts, profile.audio_cues@.len());
    let first = validate::noted(
        found,
        targets.len() == 0,
        "outputs.targets"@,
        "must contain at least one output target"@,
    );
    lemma_targets(first, profile, targets.len());
    if let TtsBackend::Utterpipe(provider) = profile.tts.backend {
        assert forall|before: Seq<IssueModel>| #[trigger]
            validate::names_noted(before, provider.provider_environment@, 0).len()
                >= before.len() by {
            lemma_names(before, provider.provider_environment@, 0);
        }
    }
}

/// Validation reports nothing exactly when every part of the profile is sound.
pub proof fn law_valid_means_sound(profile: ProfileConfig, facts: PathFacts)
    ensures
        validate::all_issues(profile, facts).len() == 0 <==> sound(profile, facts),
{
    let none = Seq::<IssueModel>::empty();
    let general = validate::with_general_issues(none, profile);
    let playback = validate::with_playback_issues(general, profile);
    let tts = validate::with_tts_issues(playback, profile);
    let outputs = validate::with_outputs_issues(tts, profile);
    let logging = validate::with_logging_issues(outputs, profile, facts);
    lemma_issues_only_grow(none, profile, facts);
    lemma_issues_only_grow(general, profile, facts);
    lemma_issues_only_grow(playback, profile, facts);
    lemma_issues_only_grow(tts, profile, facts);
    lemma_issues_only_grow(outputs, profile, facts);
    lemma_issues_only_grow(logging, profile, facts);
    if general.len() == 0 {
        assert(general =~= none);
    }
    if playback.len() == 0 {
        assert(playback =~= none);
    }
    if tts.len() == 0 {
        assert(tts =~= none);
    }
    if outputs.len() == 0 {
        assert(outputs =~= none);
    }
    if logging.len() == 0 {
        assert(logging =~= none);
    }
}

/// A valid profile has a usable policy: ordered gains with the default between
/// them, an allowed default mode, a listed default target, and sound targets and
/// cues.
pub proof fn law_valid_profile_is_usable(profile: ProfileConfig, facts: PathFacts)
    requires
        validate::all_issues(profile, facts).len() == 0,
    ensures
        validate::valid_gain(profile.playback.minimum_gain),
        validate::valid_gain(profile.playback.maximum_gain),
        profile.playback.default_gain.within(
            profile.playback.minimum_gain,
            profile.playback.maximum_gain,
        ),
        profile.playback.allowed_concurrency@.contains(profile.playback.default_concurrency),
        validate::target_listed(profile.outputs.targets@, profile.outputs.default_target@),
        forall|i: int|
            0 <= i < profile.outputs.targets@.len() ==> #[trigger] target_sound(profile, i),
        forall|i: int|
            0 <= i < profile.audio_cues@.len() ==> #[trigger] cue_sound(profile, facts, i),
        profile.logging.history_enabled ==> profile.logging.history_path is Some,
{
    law_valid_means_sound(profile, facts);
    let none = Seq::<IssueModel>::empty();
    let targets = profile.outputs.targets@;
    let first = validate::noted(
        none,
        targets.len() == 0,
        "outputs.targets"@,
        "must contain at least one output target"@,
    );
    lemma_targets(first, profile, targets.len());
    lemma_cues(none, profile, facts, profile.audio_cues@.len());
}

/// Each cue is seen from the layer that declared it: a relative source becomes the
/// path that was joined for this very cue, and cues with different joined paths
/// keep different sources. An absolute source stays, and so does one for which
/// nothing was joined. The history destination is treated likewise. Nothing else
/// of a profile changes.
pub proof fn law_relative_paths_come_from_their_own_layer(
    before: ProfileConfig,
    style: PathStyle,
    history: Option<String>,
    cue_sources: Seq<Option<String>>,
    after: ProfileConfig,
)
    requires
        layers::paths_rebased(before, style, history, cue_sources, after),
    ensures
        after.audio_cues@.len() == before.audio_cues@.len(),
        forall|i: int|
            0 <= i < before.audio_cues@.len() ==> match (#[trigger] before.audio_cues@[i]).source {
                None => after.audio_cues@[i].source is None,
                Some(source) => {
                    &&& after.audio_cues@[i].source matches Some(becomes)
                    &&& crate::paths::absolute(style, source@) ==> becomes@ == source@
                    &&& i >= cue_sources.len() ==> becomes@ == source@
                    &&& i < cue_sources.len() && cue_sources[i] is None ==> becomes@ == source@
                    &&& i < cue_sources.len() && cue_sources[i] is Some && !crate::paths::absolute(
                        style,
                        source@,
                    ) ==> becomes@ == cue_sources[i].unwrap()@
                },
            },
        forall|i: int, j: int|
            0 <= i < before.audio_cues@.len() && 0 <= j < before.audio_cues@.len() && i
                < cue_sources.len() && j < cue_sources.len() && cue_sources[i] is Some
                && cue_sources[j] is Some && cue_sources[i].unwrap()@ != cue_sources[j].unwrap()@
                && ((#[trigger] before.audio_cues@[i]).source matches Some(a)
                && !crate::paths::absolute(style, a@)) && ((
            #[trigger] before.audio_cues@[j]).source matches Some(b) && !crate::paths::absolute(
                style,
                b@,
            )) ==> optional_text(after.audio_cues@[i].source) != optional_text(
                after.audio_cues@[j].source,
            ),
        forall|i: int|
            0 <= i < before.audio_cues@.len() ==> {
                let cue = #[trigger] before.audio_cues@[i];
                &&& after.audio_cues@[i].id == cue.id
                &&& after.audio_cues@[i].kind == cue.kind
                &&& after.audio_cues@[i].text == cue.text
                &&& after.audio_cues@[i].description == cue.description
                &&& after.audio_cues@[i].default_gain == cue.default_gain
            },
        match before.logging.history_path {
            None => after.logging.history_path is None,
            Some(path) => {
                &&& after.logging.history_path matches Some(becomes)
                &&& becomes@ == if history is Some && !crate::paths::absolute(style, path@) {
                    history.unwrap()@
                } else {
                    path@
                }
            },
        },
        after.schema_version == before.schema_version,
        after.profile_name == before.profile_name,
        after.playback == before.playback,
        after.outputs == before.outputs,
        after.permissions == before.permissions,
        after.tts == before.tts,
        after.logging.level == before.logging.level,
        after.logging.history_enabled == before.logging.history_enabled,
        after.logging.history_include_spoken_text == before.logging.history_include_spoken_text,
{
    assert forall|i: int| 0 <= i < before.audio_cues@.len() implies {
        let cue = #[trigger] before.audio_cues@[i];
        after.audio_cues@[i] == AudioCueConfig { source: after.audio_cues@[i].source, ..cue }
    } by {}
}

/// What is found again of the paths of a resolved profile, from whatever
/// directory: the history destination is what it was, and a canonical path leads
/// to itself.
pub open spec fn found_again(first: PathFacts, resolved: ProfileConfig, second: PathFacts) -> bool {
    &&& second.style == first.style
    &&& second.history.is_directory == first.history.is_directory
    &&& second.history.parent_is_directory == first.history.parent_is_directory
    &&& forall|i: int|
        0 <= i < resolved.audio_cues@.len() && (#[trigger] resolved.audio_cues@[i]).kind
            is AudioFile ==> {
            &&& second.inspection(i) matches SourceInspection::Regular { canonical }
            &&& optional_text(resolved.audio_cues@[i].source) == Some(canonical@)
        }
}

/// Two profiles with the same settings.
pub open spec fn same_settings(one: ProfileConfig, other: ProfileConfig) -> bool {
    &&& other.schema_version == one.schema_version
    &&& other.profile_name == one.profile_name
    &&& other.permissions == one.permissions
    &&& other.playback == one.playback
    &&& other.outputs == one.outputs
    &&& other.tts == one.tts
    &&& other.logging.level == one.logging.level
    &&& other.logging.history_enabled == one.logging.history_enabled
    &&& other.logging.history_include_spoken_text == one.logging.history_include_spoken_text
    &&& optional_text(other.logging.history_path) == optional_text(one.logging.history_path)
    &&& other.audio_cues@.len() == one.audio_cues@.len()
    &&& forall|i: int|
        0 <= i < one.audio_cues@.len() ==> {
            let cue = #[trigger] one.audio_cues@[i];
            let same = other.audio_cues@[i];
            &&& same == AudioCueConfig { source: same.source, ..cue }
            &&& optional_text(same.source) == optional_text(cue.source)
        }
}

/// Resolving a resolved profile again, from whatever directory, changes nothing:
/// it is as valid as it was, with the paths that it had. Its history path is
/// absolute, as it becomes in an absolute directory, or is what joining it to the
/// directory gives, as a path on another Windows drive is.
pub proof fn law_resolving_twice_changes_nothing(
    profile: ProfileConfig,
    first: PathFacts,
    resolved: ProfileConfig,
    second: PathFacts,
    result: Result<ProfileConfig, Vec<ValidationIssue>>,
)
    requires
        validate::validated(profile, first, Ok(resolved)),
        optional_text(resolved.logging.history_path) matches Some(path)
            ==> crate::paths::absolute(first.style, path) || (path.len() > 0
            && second.history.joined@ == path),
        found_again(first, resolved, second),
        validate::validated(resolved, second, result),
    ensures
        result matches Ok(again) && same_settings(resolved, again),
{
    let none = Seq::<IssueModel>::empty();
    law_valid_means_sound(profile, first);
    law_valid_means_sound(resolved, second);
    let cues = profile.audio_cues@;
    let kept = resolved.audio_cues@;
    lemma_cues(none, profile, first, cues.len());
    lemma_cues(none, resolved, second, kept.len());
    assert forall|i: int| 0 <= i < kept.len() implies #[trigger] cue_sound(
        resolved,
        second,
        i,
    ) by {
        assert(cue_sound(profile, first, i));
        assert(validate::cue_resolved(cues[i], first.inspection(i), kept[i]));
        if validate::cue_repeats(kept, i) {
            let j = choose|j: int| 0 <= j < i && (#[trigger] kept[j]).id@ == kept[i].id@;
            assert(validate::cue_resolved(cues[j], first.inspection(j), kept[j]));
            assert(cues[j].id@ == cues[i].id@);
        }
    }
    assert(sound(resolved, second));
    if let Ok(again) = result {
        assert forall|i: int| 0 <= i < kept.len() implies {
            let cue = #[trigger] kept[i];
            let same = again.audio_cues@[i];
            &&& same == AudioCueConfig { source: same.source, ..cue }
            &&& optional_text(same.source) == optional_text(cue.source)
        } by {
            assert(validate::cue_resolved(kept[i], second.inspection(i), again.audio_cues@[i]));
        }
    }
}

/// The quick profile is valid with the default overrides, and with any whose
/// gains are in order and whose text limit is in range.
pub proof fn law_quick_profile_is_valid(
    profile: ProfileConfig,
    overrides: QuickProfileOverrides,
    platform: Platform,
    facts: PathFacts,
)
    requires
        load::is_quick_profile(profile, overrides, platform),
        facts.is_pathless(),
        validate::valid_gain(profile.playback.minimum_gain),
        validate::valid_gain(profile.playback.maximum_gain),
        profile.playback.default_gain.within(
            profile.playback.minimum_gain,
            profile.playback.maximum_gain,
        ),
        !profile.playback.maximum_gain.below(profile.playback.minimum_gain),
        1 <= profile.tts.maximum_characters <= MAXIMUM_TEXT_CHARACTERS,
    ensures
        validate::all_issues(profile, facts).len() == 0,
{
    reveal_strlit("quickstart");
    reveal_strlit("system");
    reveal_strlit("espeak-ng");
    reveal_strlit("Current system default audio device");
    law_valid_means_sound(profile, facts);
    let none = Seq::<IssueModel>::empty();
    let targets = profile.outputs.targets@;
    let modes = profile.playback.allowed_concurrency@;
    assert(modes[0] == profile.playback.default_concurrency);
    lemma_targets(none, profile, targets.len());
    assert(target_sound(profile, 0));
    assert(targets[0].id@ == profile.outputs.default_target@);
    if let TtsBackend::Utterpipe(provider) = profile.tts.backend {
        let options = TomlModel::Table(provider.provider_options.model());
        assert(options is Table && options->Table_0 == Map::<Seq<char>, TomlModel>::empty());
        assert(toml_value::json_compatible(options));
        assert(validate::valid_slug(provider.provider@));
    }
}

/// The defaults of the quick profile are in order.
pub proof fn law_quick_defaults_are_in_order()
    ensures
        ({
            let minimum = crate::gain::Gain { bits: crate::gain::ZERO_BITS };
            let maximum = crate::gain::Gain { bits: crate::gain::SEVEN_TENTHS_BITS };
            let default = crate::gain::Gain { bits: crate::gain::TWO_FIFTHS_BITS };
            &&& validate::valid_gain(minimum)
            &&& validate::valid_gain(maximum)
            &&& default.within(minimum, maximum)
            &&& !maximum.below(minimum)
        }),
{
}

} // verus!
