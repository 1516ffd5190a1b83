//! What validation says of a profile.
use super::laws;
use super::load;
use super::load::{ConfigError, ConfigOrigin, ValidatedConfig};
use super::model::{AudioCueConfig, AudioCueKind, OutputTargetKind, ProfileConfig, TtsBackend};
use super::toml_value::TomlModel;
use super::validate;
use super::validate::{IssueModel, PathFacts, SourceInspection, ValidationIssue};
use crate::gain::Gain;
use vstd::prelude::*;

verus! {

pub open spec fn letter(c: char) -> bool {
    'a' <= c <= 'z' || 'A' <= c <= 'Z'
}

pub open spec fn digit(c: char) -> bool {
    '0' <= c <= '9'
}

pub open spec fn small(c: char) -> bool {
    'a' <= c <= 'z' || '0' <= c <= '9'
}

/// At most 64 letters, digits, dots, underscores and hyphens, a letter or a digit
/// first.
pub open spec fn identifier(name: Seq<char>) -> bool {
    &&& 1 <= name.len() <= 64
    &&& letter(name[0]) || digit(name[0])
    &&& forall|i: int|
        0 <= i < name.len() ==> letter(#[trigger] name[i]) || digit(name[i]) || name[i] == '.'
            || name[i] == '_' || name[i] == '-'
}

/// At most 64 small letters, digits and hyphens, no hyphen at either end.
pub open spec fn provider_name(name: Seq<char>) -> bool {
    &&& 1 <= name.len() <= 64
    &&& name[0] != '-' && name[name.len() - 1] != '-'
    &&& forall|i: int| 0 <= i < name.len() ==> small(#[trigger] name[i]) || name[i] == '-'
}

/// At most 128 letters, digits and underscores, no digit first.
pub open spec fn variable_name(name: Seq<char>) -> bool {
    &&& 1 <= name.len() <= 128
    &&& !digit(name[0])
    &&& forall|i: int|
        0 <= i < name.len() ==> letter(#[trigger] name[i]) || digit(name[i]) || name[i] == '_'
}

/// At most 256 characters and no line end or NUL among them.
pub open spec fn provider_identity(name: Seq<char>) -> bool {
    &&& 1 <= name.len() <= 256
    &&& !name.contains('\r') && !name.contains('\n') && !name.contains('\0')
}

/// Names are accepted by their length and their characters.
pub proof fn law_names_are_checked(name: Seq<char>)
    ensures
        validate::valid_id(name) <==> identifier(name),
        validate::valid_slug(name) <==> provider_name(name),
        validate::valid_variable(name) <==> variable_name(name),
        validate::valid_identity(name) <==> provider_identity(name),
{
    if name.len() > 0 {
        let first = name[0];
        let last = name[name.len() - 1];
        assert(first == name[0] && last == name[name.len() - 1]);
    }
    if validate::valid_identity(name) {
        assert(!name.contains('\r') && !name.contains('\n') && !name.contains('\0'));
    }
    if provider_identity(name) {
        assert forall|i: int| 0 <= i < name.len() implies #[trigger] name[i] != '\r' && name[i]
            != '\n' && name[i] != '\0' by {
            assert(name.contains(name[i]));
        }
    }
}

/// A text without a character that is seen.
pub open spec fn unseen(shown: Seq<char>) -> bool {
    forall|i: int| 0 <= i < shown.len() ==> crate::text::whitespace(#[trigger] shown[i])
}

/// A text is blank where all of it is white space.
pub proof fn law_blank_texts_have_nothing_to_show(shown: Seq<char>)
    ensures
        crate::text::blank(shown) <==> unseen(shown),
        shown.len() == 0 ==> crate::text::blank(shown),
{
}

// What is told of a fault.

/// An issue is among those found.
pub open spec fn told(found: Seq<IssueModel>, field: Seq<char>, message: Seq<char>) -> bool {
    found.contains(IssueModel { field, message })
}

/// What was found is still there.
pub open spec fn kept(before: Seq<IssueModel>, after: Seq<IssueModel>) -> bool {
    forall|field: Seq<char>, message: Seq<char>| #[trigger]
        told(before, field, message) ==> told(after, field, message)
}

/// The profile is refused, and the reasons name the field with the message.
pub open spec fn refused(
    result: Result<ProfileConfig, Vec<ValidationIssue>>,
    field: Seq<char>,
    message: Seq<char>,
) -> bool {
    result matches Err(issues) && exists|i: int|
        0 <= i < issues@.len() && (#[trigger] issues@[i]).field@ == field && issues@[i].message@
            == message
}

proof fn lemma_noted()
    ensures
        forall|found: Seq<IssueModel>, condition: bool, field: Seq<char>, message: Seq<char>|
            {
                let after = #[trigger] validate::noted(found, condition, field, message);
                kept(found, after) && (condition ==> told(after, field, message))
            },
{
    assert forall|found: Seq<IssueModel>, condition: bool, field: Seq<char>, message: Seq<char>|
        {
            let after = #[trigger] validate::noted(found, condition, field, message);
            kept(found, after) && (condition ==> told(after, field, message))
        } by {
        let after = validate::noted(found, condition, field, message);
        assert forall|f: Seq<char>, m: Seq<char>| #[trigger] told(found, f, m) implies told(
            after,
            f,
            m,
        ) by {
            let i = found.index_of(IssueModel { field: f, message: m });
            assert(after[i] == found[i]);
        }
        if condition {
            assert(after[found.len() as int] == IssueModel { field, message });
        }
    }
}

proof fn lemma_names_told(found: Seq<IssueModel>, names: Seq<String>, from: int)
    requires
        0 <= from <= names.len(),
    ensures
        kept(found, validate::names_noted(found, names, from)),
        validate::names_noted(found, names, from).len() <= found.len() + 1,
        validate::names_noted(found, names, from) == found || told(
            validate::names_noted(found, names, from),
            "tts.provider_environment"@,
            "names must match [A-Za-z_][A-Za-z0-9_]{0,127}"@,
        ) || told(
            validate::names_noted(found, names, from),
            "tts.provider_environment"@,
            "must not contain duplicate names"@,
        ),
        validate::names_noted(found, names, from) == found <==> forall|i: int|
            from <= i < names.len() ==> validate::valid_variable((#[trigger] names[i])@)
                && !validate::named_before(names, i, names[i]@),
    decreases names.len() - from,
{
    lemma_noted();
    let field = "tts.provider_environment"@;
    let form = "names must match [A-Za-z_][A-Za-z0-9_]{0,127}"@;
    let twice = "must not contain duplicate names"@;
    if from < names.len() {
        let name = names[from];
        if !validate::valid_variable(name@) {
            let noted = validate::noted(found, true, field, form);
            assert(validate::names_noted(found, names, from) == noted);
            assert(noted.len() == found.len() + 1);
        } else if validate::named_before(names, from, name@) {
            let noted = validate::noted(found, true, field, twice);
            assert(validate::names_noted(found, names, from) == noted);
            assert(noted.len() == found.len() + 1);
        } else {
            lemma_names_told(found, names, from + 1);
        }
    }
}

proof fn lemma_targets_keep(found: Seq<IssueModel>, profile: ProfileConfig, count: nat)
    requires
        count <= profile.outputs.targets@.len(),
    ensures
        kept(found, validate::with_targets_issues(found, profile.outputs.targets@, count)),
    decreases count,
{
    lemma_noted();
    if count > 0 {
        lemma_targets_keep(found, profile, (count - 1) as nat);
        let fewer = validate::with_targets_issues(
            found,
            profile.outputs.targets@,
            (count - 1) as nat,
        );
        lemma_target_keeps(fewer, profile, count - 1);
    }
}

proof fn lemma_target_keeps(found: Seq<IssueModel>, profile: ProfileConfig, index: int)
    ensures
        kept(found, validate::with_target_issues(found, profile.outputs.targets@, index)),
{
    lemma_noted();
}

proof fn lemma_cue_keeps(
    found: Seq<IssueModel>,
    profile: ProfileConfig,
    facts: PathFacts,
    index: int,
)
    ensures
        kept(found, validate::with_cue_issues(found, profile, facts, index)),
{
    lemma_noted();
}

proof fn lemma_cues_keep(
    found: Seq<IssueModel>,
    profile: ProfileConfig,
    facts: PathFacts,
    count: nat,
)
    requires
        count <= profile.audio_cues@.len(),
    ensures
        kept(found, validate::with_cues_issues(found, profile, facts, count)),
    decreases count,
{
    if count > 0 {
        lemma_cues_keep(found, profile, facts, (count - 1) as nat);
        let fewer = validate::with_cues_issues(found, profile, facts, (count - 1) as nat);
        lemma_cue_keeps(fewer, profile, facts, count - 1);
    }
}

/// No check takes back what another has found.
proof fn lemma_checks_keep(found: Seq<IssueModel>, profile: ProfileConfig, facts: PathFacts)
    ensures
        kept(found, validate::with_playback_issues(found, profile)),
        kept(found, validate::with_tts_issues(found, profile)),
        kept(found, validate::with_outputs_issues(found, profile)),
        kept(found, validate::with_logging_issues(found, profile, facts)),
        kept(
            found,
            validate::with_cues_issues(found, profile, facts, profile.audio_cues@.len()),
        ),
{
    lemma_noted();
    let targets = profile.outputs.targets@;
    let first = validate::noted(
        found,
        targets.len() == 0,
        "outputs.targets"@,
        "must contain at least one output target"@,
    );
    lemma_targets_keep(first, profile, targets.len());
    lemma_cues_keep(found, profile, facts, profile.audio_cues@.len());
    lemma_provider_keeps(found, profile);
}

proof fn lemma_provider_keeps(found: Seq<IssueModel>, profile: ProfileConfig)
    ensures
        kept(found, validate::with_tts_issues(found, profile)),
{
    lemma_noted();
    if let TtsBackend::Utterpipe(provider) = profile.tts.backend {
        assert forall|before: Seq<IssueModel>| #![trigger validate::names_noted(
            before,
            provider.provider_environment@,
            0,
        )]
            kept(before, validate::names_noted(before, provider.provider_environment@, 0)) by {
            lemma_names_told(before, provider.provider_environment@, 0);
        }
    }
}

/// What a check finds is reported.
proof fn lemma_reported(
    profile: ProfileConfig,
    facts: PathFacts,
    result: Result<ProfileConfig, Vec<ValidationIssue>>,
    field: Seq<char>,
    message: Seq<char>,
)
    requires
        validate::validated(profile, facts, result),
        told(validate::all_issues(profile, facts), field, message),
    ensures
        refused(result, field, message),
{
    let all = validate::all_issues(profile, facts);
    let i = all.index_of(IssueModel { field, message });
    if let Err(issues) = result {
        assert(all[i] == validate::issue_models(issues@)[i]);
        assert(issues@[i].field@ == field && issues@[i].message@ == message);
    }
}

/// A version other than 1, a name that is empty or longer than 80 characters and
/// more than 256 cues are refused.
pub proof fn law_general_faults_are_told(
    profile: ProfileConfig,
    facts: PathFacts,
    result: Result<ProfileConfig, Vec<ValidationIssue>>,
)
    requires
        validate::validated(profile, facts, result),
    ensures
        profile.schema_version != 1 ==> refused(result, "schema_version"@, "must equal 1"@),
        profile.profile_name@.len() == 0 || profile.profile_name@.len() > 80 ==> refused(
            result,
            "profile_name"@,
            "must contain between 1 and 80 Unicode characters"@,
        ),
        profile.audio_cues@.len() > 256 ==> refused(
            result,
            "audio_cues"@,
            "must contain no more than 256 entries"@,
        ),
{
    lemma_stages(profile, facts);
    lemma_noted();
    lemma_all_reported(profile, facts, result);
}

/// Every stage of validation reaches the report.
proof fn lemma_stages(profile: ProfileConfig, facts: PathFacts)
    ensures
        ({
            let all = validate::all_issues(profile, facts);
            let general = validate::with_general_issues(Seq::empty(), profile);
            let playback = validate::with_playback_issues(general, profile);
            let tts = validate::with_tts_issues(playback, profile);
            let outputs = validate::with_outputs_issues(tts, profile);
            let logging = validate::with_logging_issues(outputs, profile, facts);
            &&& kept(general, all)
            &&& kept(playback, all)
            &&& kept(tts, all)
            &&& kept(outputs, all)
            &&& kept(logging, all)
        }),
{
    let general = validate::with_general_issues(Seq::empty(), profile);
    let playback = validate::with_playback_issues(general, profile);
    let tts = validate::with_tts_issues(playback, profile);
    let outputs = validate::with_outputs_issues(tts, profile);
    let logging = validate::with_logging_issues(outputs, profile, facts);
    lemma_checks_keep(general, profile, facts);
    lemma_checks_keep(playback, profile, facts);
    lemma_checks_keep(tts, profile, facts);
    lemma_checks_keep(outputs, profile, facts);
    lemma_checks_keep(logging, profile, facts);
}

/// What is among all issues is reported.
proof fn lemma_all_reported(
    profile: ProfileConfig,
    facts: PathFacts,
    result: Result<ProfileConfig, Vec<ValidationIssue>>,
)
    requires
        validate::validated(profile, facts, result),
    ensures
        forall|field: Seq<char>, message: Seq<char>| #[trigger]
            told(validate::all_issues(profile, facts), field, message) ==> refused(
                result,
                field,
                message,
            ),
{
    assert forall|field: Seq<char>, message: Seq<char>| #[trigger]
        told(validate::all_issues(profile, facts), field, message) implies refused(
        result,
        field,
        message,
    ) by {
        lemma_reported(profile, facts, result, field, message);
    }
}

/// A pattern from zero to one, or that of the negative zero.
pub open spec fn unit_gain(gain: Gain) -> bool {
    gain.bits <= 0x3ff0_0000_0000_0000 || gain.bits == 0x8000_0000_0000_0000
}

/// A number from zero on.
pub open spec fn plain_gain(gain: Gain) -> bool {
    gain.bits < 0x7ff0_0000_0000_0000
}

/// Gains outside of zero to one, gains out of order, repeated modes, a default
/// mode that is not allowed, a queue of none or more than 1024 items and a text
/// limit of none or more than 10000 characters are refused.
pub proof fn law_playback_faults_are_told(
    profile: ProfileConfig,
    facts: PathFacts,
    result: Result<ProfileConfig, Vec<ValidationIssue>>,
)
    requires
        validate::validated(profile, facts, result),
    ensures
        !unit_gain(profile.playback.minimum_gain) ==> refused(
            result,
            "playback.minimum_gain"@,
            "must be a finite number between 0.0 and 1.0 inclusive"@,
        ),
        !unit_gain(profile.playback.maximum_gain) ==> refused(
            result,
            "playback.maximum_gain"@,
            "must be a finite number between 0.0 and 1.0 inclusive"@,
        ),
        !unit_gain(profile.playback.default_gain) ==> refused(
            result,
            "playback.default_gain"@,
            "must be a finite number between 0.0 and 1.0 inclusive"@,
        ),
        plain_gain(profile.playback.minimum_gain) && profile.playback.maximum_gain.bits
            < profile.playback.minimum_gain.bits ==> refused(
            result,
            "playback.minimum_gain"@,
            "must be less than or equal to playback.maximum_gain"@,
        ),
        plain_gain(profile.playback.minimum_gain) && plain_gain(profile.playback.maximum_gain)
            && plain_gain(profile.playback.default_gain) && !(profile.playback.minimum_gain.bits
            <= profile.playback.default_gain.bits <= profile.playback.maximum_gain.bits)
            ==> refused(
            result,
            "playback.default_gain"@,
            "must be between playback.minimum_gain and playback.maximum_gain"@,
        ),
        forall|i: int, j: int|
            0 <= i < j < profile.playback.allowed_concurrency@.len()
                && #[trigger] profile.playback.allowed_concurrency@[i]
                == #[trigger] profile.playback.allowed_concurrency@[j] ==> refused(
                result,
                "playback.allowed_concurrency"@,
                "must not contain duplicate modes"@,
            ),
        !profile.playback.allowed_concurrency@.contains(profile.playback.default_concurrency)
            ==> refused(
            result,
            "playback.default_concurrency"@,
            "must be included in playback.allowed_concurrency"@,
        ),
        profile.playback.maximum_queue_items == 0 || profile.playback.maximum_queue_items > 1024
            ==> refused(
            result,
            "playback.maximum_queue_items"@,
            "must be positive and no greater than "@ + crate::text::decimal_text(1024),
        ),
        profile.tts.maximum_characters == 0 || profile.tts.maximum_characters > 10000 ==> refused(
            result,
            "tts.maximum_characters"@,
            "must be positive and no greater than "@ + crate::text::decimal_text(10000),
        ),
{
    lemma_stages(profile, facts);
    lemma_noted();
    lemma_all_reported(profile, facts, result);
}

/// What is wrong with a provider is told: its name, an identity that is given, more
/// than 32 variables, a variable that is none or is named twice, and options that
/// JSON cannot carry. A system backend has none of this.
pub proof fn law_provider_faults_are_told(
    profile: ProfileConfig,
    facts: PathFacts,
    result: Result<ProfileConfig, Vec<ValidationIssue>>,
)
    requires
        validate::validated(profile, facts, result),
    ensures
        profile.tts.backend matches TtsBackend::Utterpipe(provider) ==> {
            let names = provider.provider_environment@;
            let form =
                "is required, must contain 1 to 256 Unicode characters, and must not contain CR, LF, or NUL"@;
            &&& !provider_name(provider.provider@) ==> refused(
                result,
                "tts.provider"@,
                "is required and must match [a-z0-9][a-z0-9-]{0,62}[a-z0-9] (or one lowercase letter/digit)"@,
            )
            &&& (provider.model_id matches Some(id) && !provider_identity(id@)) ==> refused(
                result,
                "tts.model_id"@,
                form,
            )
            &&& (provider.voice_id matches Some(id) && !provider_identity(id@)) ==> refused(
                result,
                "tts.voice_id"@,
                form,
            )
            &&& names.len() > 32 ==> refused(
                result,
                "tts.provider_environment"@,
                "must contain no more than 32 names"@,
            )
            &&& forall|i: int|
                0 <= i < names.len() && !variable_name((#[trigger] names[i])@) ==> refused(
                    result,
                    "tts.provider_environment"@,
                    "names must match [A-Za-z_][A-Za-z0-9_]{0,127}"@,
                ) || refused(
                    result,
                    "tts.provider_environment"@,
                    "must not contain duplicate names"@,
                )
            &&& forall|i: int, j: int|
                0 <= i < j < names.len() && (#[trigger] names[i])@ == (#[trigger] names[j])@
                    ==> refused(
                    result,
                    "tts.provider_environment"@,
                    "names must match [A-Za-z_][A-Za-z0-9_]{0,127}"@,
                ) || refused(
                    result,
                    "tts.provider_environment"@,
                    "must not contain duplicate names"@,
                )
            &&& !super::toml_value::json_compatible(
                TomlModel::Table(provider.provider_options.model()),
            ) ==> refused(
                result,
                "tts.provider_options"@,
                "must contain only JSON-compatible finite values and exactly representable integers"@,
            )
        },
{
    lemma_stages(profile, facts);
    lemma_noted();
    lemma_all_reported(profile, facts, result);
    if let TtsBackend::Utterpipe(provider) = profile.tts.backend {
        let names = provider.provider_environment@;
        law_names_are_checked(provider.provider@);
        if let Some(id) = provider.model_id {
            law_names_are_checked(id@);
        }
        if let Some(id) = provider.voice_id {
            law_names_are_checked(id@);
        }
        assert forall|before: Seq<IssueModel>|
            #![trigger validate::names_noted(before, names, 0)]
            {
                let after = validate::names_noted(before, names, 0);
                &&& kept(before, after)
                &&& after == before || told(
                    after,
                    "tts.provider_environment"@,
                    "names must match [A-Za-z_][A-Za-z0-9_]{0,127}"@,
                ) || told(
                    after,
                    "tts.provider_environment"@,
                    "must not contain duplicate names"@,
                )
                &&& after == before <==> forall|i: int|
                    0 <= i < names.len() ==> validate::valid_variable((#[trigger] names[i])@)
                        && !validate::named_before(names, i, names[i]@)
            } by {
            lemma_names_told(before, names, 0);
        }
        assert forall|i: int| 0 <= i < names.len() implies (validate::valid_variable(
            (#[trigger] names[i])@,
        ) <==> variable_name(names[i]@)) by {
            law_names_are_checked(names[i]@);
        }
    }
}

proof fn lemma_target_reaches(
    found: Seq<IssueModel>,
    profile: ProfileConfig,
    index: nat,
    count: nat,
)
    requires
        index < count <= profile.outputs.targets@.len(),
    ensures
        kept(
            validate::with_targets_issues(found, profile.outputs.targets@, index + 1),
            validate::with_targets_issues(found, profile.outputs.targets@, count),
        ),
    decreases count,
{
    if index + 1 < count {
        lemma_target_reaches(found, profile, index, (count - 1) as nat);
        let fewer = validate::with_targets_issues(
            found,
            profile.outputs.targets@,
            (count - 1) as nat,
        );
        lemma_target_keeps(fewer, profile, count - 1);
    }
}

/// What an issue of a target names.
pub open spec fn target_place(index: int, field: Seq<char>) -> Seq<char> {
    "outputs.targets["@ + crate::text::decimal_text(index as nat) + "]"@ + field
}

/// No target, a default that is no target, and what is wrong with any target is
/// told: its identifier, one that an earlier target has, a description of more
/// than 1000 characters, a repeated category, a device for the system default and
/// a missing or blank one for a device.
pub proof fn law_output_faults_are_told(
    profile: ProfileConfig,
    facts: PathFacts,
    result: Result<ProfileConfig, Vec<ValidationIssue>>,
    index: int,
)
    requires
        validate::validated(profile, facts, result),
    ensures
        profile.outputs.targets@.len() == 0 ==> refused(
            result,
            "outputs.targets"@,
            "must contain at least one output target"@,
        ),
        (forall|i: int|
            0 <= i < profile.outputs.targets@.len() ==> (#[trigger] profile.outputs.targets@[i]).id@
                != profile.outputs.default_target@) ==> refused(
            result,
            "outputs.default_target"@,
            "must identify one of outputs.targets"@,
        ),
        0 <= index < profile.outputs.targets@.len() ==> {
            let targets = profile.outputs.targets@;
            let target = targets[index];
            &&& !identifier(target.id@) ==> refused(
                result,
                target_place(index, ".id"@),
                "must match [a-zA-Z0-9][a-zA-Z0-9._-]{0,63}"@,
            )
            &&& forall|i: int|
                0 <= i < index && (#[trigger] targets[i]).id@ == target.id@ ==> refused(
                    result,
                    target_place(index, ".id"@),
                    "must be unique within the output target allowlist"@,
                )
            &&& target.description@.len() > 1000 ==> refused(
                result,
                target_place(index, ".description"@),
                "must contain no more than 1000 Unicode characters"@,
            )
            &&& forall|i: int, j: int|
                0 <= i < j < target.allow@.len() && #[trigger] target.allow@[i]
                    == #[trigger] target.allow@[j] ==> refused(
                    result,
                    target_place(index, ".allow"@),
                    "must not contain duplicate categories"@,
                )
            &&& target.kind == OutputTargetKind::SystemDefault && target.device_id is Some
                ==> refused(
                result,
                target_place(index, ".device_id"@),
                "is not allowed for a system_default target"@,
            )
            &&& target.kind == OutputTargetKind::Device && (target.device_id is None || unseen(
                target.device_id.unwrap()@,
            )) ==> refused(
                result,
                target_place(index, ".device_id"@),
                "is required and must not be empty for a device target"@,
            )
        },
{
    lemma_stages(profile, facts);
    lemma_noted();
    lemma_all_reported(profile, facts, result);
    let targets = profile.outputs.targets@;
    let general = validate::with_general_issues(Seq::empty(), profile);
    let playback = validate::with_playback_issues(general, profile);
    let tts = validate::with_tts_issues(playback, profile);
    let first = validate::noted(
        tts,
        targets.len() == 0,
        "outputs.targets"@,
        "must contain at least one output target"@,
    );
    lemma_targets_keep(first, profile, targets.len());
    if 0 <= index < targets.len() {
        lemma_target_reaches(first, profile, index as nat, targets.len());
        law_names_are_checked(targets[index].id@);
        let before = validate::with_targets_issues(first, targets, index as nat);
        assert(validate::with_targets_issues(first, targets, (index + 1) as nat)
            == validate::with_target_issues(before, targets, index));
    }
}

/// A history that is enabled without a destination, an empty destination, one on
/// a share or a device, one that is a directory and one without a directory to be
/// in are refused.
pub proof fn law_history_faults_are_told(
    profile: ProfileConfig,
    facts: PathFacts,
    result: Result<ProfileConfig, Vec<ValidationIssue>>,
)
    requires
        validate::validated(profile, facts, result),
    ensures
        profile.logging.history_enabled && profile.logging.history_path is None ==> refused(
            result,
            "logging.history_path"@,
            "is required when logging.history_enabled is true"@,
        ),
        profile.logging.history_path matches Some(path) ==> {
            let destination = if crate::paths::absolute(facts.style, path@) {
                path@
            } else {
                facts.history.joined@
            };
            &&& path@.len() == 0 ==> refused(
                result,
                "logging.history_path"@,
                "must identify a file when provided"@,
            )
            &&& path@.len() > 0 && crate::paths::nonlocal(facts.style, destination) ==> refused(
                result,
                "logging.history_path"@,
                "network and device paths are not supported"@,
            )
            &&& path@.len() > 0 && facts.history.is_directory ==> refused(
                result,
                "logging.history_path"@,
                "must identify a file, not a directory"@,
            )
            &&& path@.len() > 0 && !facts.history.parent_is_directory ==> refused(
                result,
                "logging.history_path"@,
                "parent directory does not exist"@,
            )
        },
{
    lemma_stages(profile, facts);
    lemma_noted();
    lemma_all_reported(profile, facts, result);
}

proof fn lemma_cue_reaches(
    found: Seq<IssueModel>,
    profile: ProfileConfig,
    facts: PathFacts,
    index: nat,
    count: nat,
)
    requires
        index < count <= profile.audio_cues@.len(),
    ensures
        kept(
            validate::with_cues_issues(found, profile, facts, index + 1),
            validate::with_cues_issues(found, profile, facts, count),
        ),
    decreases count,
{
    if index + 1 < count {
        lemma_cue_reaches(found, profile, facts, index, (count - 1) as nat);
        let fewer = validate::with_cues_issues(found, profile, facts, (count - 1) as nat);
        lemma_cue_keeps(fewer, profile, facts, count - 1);
    }
}

/// What an issue of a cue names.
pub open spec fn cue_place(index: int, field: Seq<char>) -> Seq<char> {
    "audio_cues["@ + crate::text::decimal_text(index as nat) + "]"@ + field
}

/// What is wrong with any cue is told, under the number of that very cue: its
/// identifier, one that an earlier cue has, a description of more than 1000
/// characters and a gain outside of the playback range.
pub proof fn law_cue_faults_are_told(
    profile: ProfileConfig,
    facts: PathFacts,
    result: Result<ProfileConfig, Vec<ValidationIssue>>,
    index: int,
)
    requires
        validate::validated(profile, facts, result),
        0 <= index < profile.audio_cues@.len(),
    ensures
        ({
            let cues = profile.audio_cues@;
            let cue = cues[index];
            let playback = profile.playback;
            &&& !identifier(cue.id@) ==> refused(
                result,
                cue_place(index, ".id"@),
                "must match [a-zA-Z0-9][a-zA-Z0-9._-]{0,63}"@,
            )
            &&& forall|i: int|
                0 <= i < index && (#[trigger] cues[i]).id@ == cue.id@ ==> refused(
                    result,
                    cue_place(index, ".id"@),
                    "must be unique within the profile"@,
                )
            &&& cue.description@.len() > 1000 ==> refused(
                result,
                cue_place(index, ".description"@),
                "must contain no more than 1000 Unicode characters"@,
            )
            &&& !cue.default_gain.within(playback.minimum_gain, playback.maximum_gain) ==> refused(
                result,
                cue_place(index, ".default_gain"@),
                "must be finite and within the configured playback gain range"@,
            )
        }),
{
    let before = lemma_cue_reported(profile, facts, result, index);
    assert(kept(before, validate::with_cue_issues(before, profile, facts, index))) by {
        lemma_cue_keeps(before, profile, facts, index);
    }
    law_names_are_checked(profile.audio_cues@[index].id@);
    lemma_noted();
}

/// An audio-file cue needs a source and has no text; what it names has to be a
/// regular file that is local.
pub proof fn law_file_cue_faults_are_told(
    profile: ProfileConfig,
    facts: PathFacts,
    result: Result<ProfileConfig, Vec<ValidationIssue>>,
    index: int,
)
    requires
        validate::validated(profile, facts, result),
        0 <= index < profile.audio_cues@.len(),
        profile.audio_cues@[index].kind == AudioCueKind::AudioFile,
    ensures
        ({
            let cue = profile.audio_cues@[index];
            &&& cue.text is Some ==> refused(
                result,
                cue_place(index, ".text"@),
                "is not allowed for an audio_file cue"@,
            )
            &&& cue.source is None ==> refused(
                result,
                cue_place(index, ".source"@),
                "is required for an audio_file cue"@,
            )
            &&& cue.source is Some && (index >= facts.cues@.len()
                || facts.cues@[index] is Missing) ==> refused(
                result,
                cue_place(index, ".source"@),
                "file does not exist"@,
            )
            &&& cue.source is Some && index < facts.cues@.len() ==> match facts.cues@[index] {
                SourceInspection::Missing => true,
                SourceInspection::Unreadable { canonical } => refused(
                    result,
                    cue_place(index, ".source"@),
                    if crate::paths::nonlocal(facts.style, canonical@) {
                        "network and device paths are not supported"@
                    } else {
                        "could not be inspected"@
                    },
                ),
                SourceInspection::NotRegular { canonical } => refused(
                    result,
                    cue_place(index, ".source"@),
                    if crate::paths::nonlocal(facts.style, canonical@) {
                        "network and device paths are not supported"@
                    } else {
                        "must identify a regular file"@
                    },
                ),
                SourceInspection::Regular { canonical } => crate::paths::nonlocal(
                    facts.style,
                    canonical@,
                ) ==> refused(
                    result,
                    cue_place(index, ".source"@),
                    "network and device paths are not supported"@,
                ),
            }
        }),
{
    let before = lemma_cue_reported(profile, facts, result, index);
    assert(kept(before, validate::with_cue_issues(before, profile, facts, index))) by {
        lemma_cue_keeps(before, profile, facts, index);
    }
    lemma_noted();
}

/// A speech cue needs a text and has no source; the text has something to say, is
/// no longer than the limit, and speech is enabled.
pub proof fn law_speech_cue_faults_are_told(
    profile: ProfileConfig,
    facts: PathFacts,
    result: Result<ProfileConfig, Vec<ValidationIssue>>,
    index: int,
)
    requires
        validate::validated(profile, facts, result),
        0 <= index < profile.audio_cues@.len(),
        profile.audio_cues@[index].kind == AudioCueKind::Speech,
    ensures
        ({
            let cue = profile.audio_cues@[index];
            &&& cue.source is Some ==> refused(
                result,
                cue_place(index, ".source"@),
                "is not allowed for a speech cue"@,
            )
            &&& cue.text is None ==> refused(
                result,
                cue_place(index, ".text"@),
                "is required for a speech cue"@,
            )
            &&& cue.text matches Some(spoken) ==> {
                &&& unseen(spoken@) ==> refused(
                    result,
                    cue_place(index, ".text"@),
                    "must not be empty or whitespace-only"@,
                )
                &&& spoken@.len() > profile.tts.maximum_characters ==> refused(
                    result,
                    cue_place(index, ".text"@),
                    "exceeds tts.maximum_characters"@,
                )
                &&& !profile.tts.enabled ==> refused(
                    result,
                    cue_place(index, ".kind"@),
                    "requires tts.enabled to be true"@,
                )
            }
        }),
{
    let before = lemma_cue_reported(profile, facts, result, index);
    assert(kept(before, validate::with_cue_issues(before, profile, facts, index))) by {
        lemma_cue_keeps(before, profile, facts, index);
    }
    lemma_noted();
}

/// The issues found of one cue are reported.
proof fn lemma_cue_reported(
    profile: ProfileConfig,
    facts: PathFacts,
    result: Result<ProfileConfig, Vec<ValidationIssue>>,
    index: int,
) -> (before: Seq<IssueModel>)
    requires
        validate::validated(profile, facts, result),
        0 <= index < profile.audio_cues@.len(),
    ensures
        forall|field: Seq<char>, message: Seq<char>| #[trigger]
            told(
                validate::with_cue_issues(before, profile, facts, index),
                field,
                message,
            ) ==> refused(result, field, message),
{
    lemma_all_reported(profile, facts, result);
    let count = profile.audio_cues@.len();
    let general = validate::with_general_issues(Seq::empty(), profile);
    let playback = validate::with_playback_issues(general, profile);
    let tts = validate::with_tts_issues(playback, profile);
    let outputs = validate::with_outputs_issues(tts, profile);
    let logging = validate::with_logging_issues(outputs, profile, facts);
    lemma_cue_reaches(logging, profile, facts, index as nat, count);
    let before = validate::with_cues_issues(logging, profile, facts, index as nat);
    let after = validate::with_cue_issues(before, profile, facts, index);
    assert(after == validate::with_cues_issues(logging, profile, facts, (index + 1) as nat));
    assert forall|field: Seq<char>, message: Seq<char>| #[trigger]
        told(
            validate::with_cue_issues(before, profile, facts, index),
            field,
            message,
        ) implies refused(result, field, message) by {
        assert(told(validate::all_issues(profile, facts), field, message));
    }
    before
}

// What is accepted.

/// Nothing is wrong with the provider of a backend.
pub open spec fn provider_faultless(backend: TtsBackend) -> bool {
    backend matches TtsBackend::Utterpipe(provider) ==> {
        let names = provider.provider_environment@;
        &&& provider_name(provider.provider@)
        &&& provider.model_id matches Some(id) ==> provider_identity(id@)
        &&& provider.voice_id matches Some(id) ==> provider_identity(id@)
        &&& names.len() <= 32
        &&& forall|i: int| 0 <= i < names.len() ==> variable_name((#[trigger] names[i])@)
        &&& forall|i: int, j: int|
            0 <= i < j < names.len() ==> (#[trigger] names[i])@ != (#[trigger] names[j])@
        &&& super::toml_value::json_compatible(TomlModel::Table(provider.provider_options.model()))
    }
}

/// Nothing is wrong with a target.
pub open spec fn target_faultless(profile: ProfileConfig, index: int) -> bool {
    let targets = profile.outputs.targets@;
    let target = targets[index];
    &&& identifier(target.id@)
    &&& forall|i: int| 0 <= i < index ==> (#[trigger] targets[i]).id@ != target.id@
    &&& target.description@.len() <= 1000
    &&& forall|i: int, j: int|
        0 <= i < j < target.allow@.len() ==> #[trigger] target.allow@[i]
            != #[trigger] target.allow@[j]
    &&& match target.kind {
        OutputTargetKind::SystemDefault => target.device_id is None,
        OutputTargetKind::Device => target.device_id matches Some(id) && !unseen(id@),
    }
}

/// Nothing is wrong with a cue.
pub open spec fn cue_faultless(profile: ProfileConfig, facts: PathFacts, index: int) -> bool {
    let cues = profile.audio_cues@;
    let cue = cues[index];
    &&& identifier(cue.id@)
    &&& forall|i: int| 0 <= i < index ==> (#[trigger] cues[i]).id@ != cue.id@
    &&& cue.description@.len() <= 1000
    &&& cue.default_gain.within(profile.playback.minimum_gain, profile.playback.maximum_gain)
    &&& match cue.kind {
        AudioCueKind::AudioFile => {
            &&& cue.text is None
            &&& cue.source is Some
            &&& index < facts.cues@.len()
            &&& facts.cues@[index] matches SourceInspection::Regular { canonical }
                && !crate::paths::nonlocal(facts.style, canonical@)
        },
        AudioCueKind::Speech => {
            &&& cue.source is None
            &&& cue.text matches Some(spoken) && !unseen(spoken@) && spoken@.len()
                <= profile.tts.maximum_characters
            &&& profile.tts.enabled
        },
    }
}

/// Nothing is wrong with a history destination.
pub open spec fn history_faultless(profile: ProfileConfig, facts: PathFacts) -> bool {
    match profile.logging.history_path {
        None => !profile.logging.history_enabled,
        Some(path) => {
            &&& path@.len() > 0
            &&& !crate::paths::nonlocal(
                facts.style,
                if crate::paths::absolute(facts.style, path@) {
                    path@
                } else {
                    facts.history.joined@
                },
            )
            &&& !facts.history.is_directory
            &&& facts.history.parent_is_directory
        },
    }
}

/// A profile with nothing wrong is accepted.
pub proof fn law_faultless_profiles_are_accepted(
    profile: ProfileConfig,
    facts: PathFacts,
    result: Result<ProfileConfig, Vec<ValidationIssue>>,
)
    requires
        validate::validated(profile, facts, result),
        profile.schema_version == 1,
        1 <= profile.profile_name@.len() <= 80,
        profile.audio_cues@.len() <= 256,
        profile.playback.minimum_gain.bits <= profile.playback.default_gain.bits
            <= profile.playback.maximum_gain.bits <= 0x3ff0_0000_0000_0000,
        profile.playback.allowed_concurrency@.contains(profile.playback.default_concurrency),
        forall|i: int, j: int|
            0 <= i < j < profile.playback.allowed_concurrency@.len()
                ==> #[trigger] profile.playback.allowed_concurrency@[i]
                != #[trigger] profile.playback.allowed_concurrency@[j],
        1 <= profile.playback.maximum_queue_items <= 1024,
        1 <= profile.tts.maximum_characters <= 10000,
        provider_faultless(profile.tts.backend),
        exists|i: int|
            0 <= i < profile.outputs.targets@.len() && (#[trigger] profile.outputs.targets@[i]).id@
                == profile.outputs.default_target@,
        forall|i: int|
            0 <= i < profile.outputs.targets@.len() ==> #[trigger] target_faultless(profile, i),
        history_faultless(profile, facts),
        forall|i: int|
            0 <= i < profile.audio_cues@.len() ==> #[trigger] cue_faultless(profile, facts, i),
    ensures
        result is Ok,
{
    let none = Seq::<IssueModel>::empty();
    let targets = profile.outputs.targets@;
    laws::law_valid_means_sound(profile, facts);
    laws::lemma_targets(none, profile, targets.len());
    laws::lemma_cues(none, profile, facts, profile.audio_cues@.len());
    assert forall|i: int| 0 <= i < targets.len() implies #[trigger] laws::target_sound(
        profile,
        i,
    ) by {
        assert(target_faultless(profile, i));
        law_names_are_checked(targets[i].id@);
    }
    assert forall|i: int| 0 <= i < profile.audio_cues@.len() implies #[trigger] laws::cue_sound(
        profile,
        facts,
        i,
    ) by {
        assert(cue_faultless(profile, facts, i));
        law_names_are_checked(profile.audio_cues@[i].id@);
    }
    lemma_provider_accepted(profile);
    let given = validate::with_targets_issues(none, targets, targets.len());
    assert(given =~= none);
    assert(laws::sound(profile, facts));
}

proof fn lemma_provider_accepted(profile: ProfileConfig)
    requires
        provider_faultless(profile.tts.backend),
    ensures
        validate::with_tts_issues(Seq::empty(), profile).len() == 0,
{
    if let TtsBackend::Utterpipe(provider) = profile.tts.backend {
        let names = provider.provider_environment@;
        law_names_are_checked(provider.provider@);
        if let Some(id) = provider.model_id {
            law_names_are_checked(id@);
        }
        if let Some(id) = provider.voice_id {
            law_names_are_checked(id@);
        }
        assert forall|i: int| 0 <= i < names.len() implies validate::valid_variable(
            (#[trigger] names[i])@,
        ) && !validate::named_before(names, i, names[i]@) by {
            law_names_are_checked(names[i]@);
        }
        lemma_names_told(Seq::empty(), names, 0);
    }
}

/// An accepted profile keeps what it said. Its history destination is absolute
/// where it was, and joined to the directory of the configuration otherwise; an
/// audio-file cue names the canonical path of its own file.
pub proof fn law_accepted_profiles_keep_their_settings(
    profile: ProfileConfig,
    facts: PathFacts,
    accepted: ProfileConfig,
)
    requires
        validate::validated(profile, facts, Ok(accepted)),
    ensures
        accepted.schema_version == profile.schema_version,
        accepted.profile_name == profile.profile_name,
        accepted.permissions == profile.permissions,
        accepted.playback == profile.playback,
        accepted.outputs == profile.outputs,
        accepted.tts == profile.tts,
        accepted.logging.level == profile.logging.level,
        accepted.logging.history_enabled == profile.logging.history_enabled,
        accepted.logging.history_include_spoken_text
            == profile.logging.history_include_spoken_text,
        match profile.logging.history_path {
            None => accepted.logging.history_path is None,
            Some(path) => accepted.logging.history_path matches Some(becomes) && becomes@
                == if crate::paths::absolute(facts.style, path@) {
                path@
            } else {
                facts.history.joined@
            },
        },
        accepted.audio_cues@.len() == profile.audio_cues@.len(),
        forall|i: int|
            0 <= i < profile.audio_cues@.len() ==> {
                let cue = #[trigger] profile.audio_cues@[i];
                let becomes = accepted.audio_cues@[i];
                &&& becomes.id == cue.id
                &&& becomes.kind == cue.kind
                &&& becomes.text == cue.text
                &&& becomes.description == cue.description
                &&& becomes.default_gain == cue.default_gain
                &&& cue.kind == AudioCueKind::Speech ==> becomes.source is None
                &&& cue.kind == AudioCueKind::AudioFile ==> {
                    &&& i < facts.cues@.len()
                    &&& facts.cues@[i] matches SourceInspection::Regular { canonical }
                    &&& becomes.source matches Some(file)
                    &&& file@ == canonical@
                }
            },
{
    laws::law_valid_profile_is_usable(profile, facts);
    let none = Seq::<IssueModel>::empty();
    laws::law_valid_means_sound(profile, facts);
    assert(validate::with_logging_issues(none, profile, facts).len() == 0);
    assert forall|i: int| 0 <= i < profile.audio_cues@.len() implies {
        let cue = #[trigger] profile.audio_cues@[i];
        let becomes = accepted.audio_cues@[i];
        &&& becomes == AudioCueConfig { source: becomes.source, ..cue }
        &&& cue.kind == AudioCueKind::Speech ==> becomes.source is None
        &&& cue.kind == AudioCueKind::AudioFile ==> {
            &&& i < facts.cues@.len()
            &&& facts.cues@[i] matches SourceInspection::Regular { canonical }
            &&& becomes.source matches Some(file)
            &&& file@ == canonical@
        }
    } by {
        assert(laws::cue_sound(profile, facts, i));
        assert(validate::cue_resolved(
            profile.audio_cues@[i],
            facts.inspection(i),
            accepted.audio_cues@[i],
        ));
    }
}

/// A configuration that is used holds the accepted profile, its own capabilities
/// and where it came from; one that is not used tells every issue.
pub proof fn law_used_configurations_are_accepted(
    profile: ProfileConfig,
    facts: PathFacts,
    origin: ConfigOrigin,
    result: Result<ValidatedConfig, ConfigError>,
)
    requires
        load::finished(profile, facts, origin, result),
    ensures
        match result {
            Ok(config) => {
                &&& validate::validated(profile, facts, Ok(config.profile_view()))
                &&& config.capabilities_view().reflects(config.profile_view())
                &&& config.origin_view() == origin
            },
            Err(ConfigError::Validation(errors)) => validate::validated(
                profile,
                facts,
                Err(errors.0),
            ),
            Err(_) => false,
        },
{
    if let Err(ConfigError::Validation(errors)) = result {
        assert(validate::issue_models(errors.0@).len() == errors.0@.len());
    }
}

} // verus!
