use super::model::{
    AudioCueConfig, AudioCueKind, ConcurrencyMode, OutputCategory, OutputTargetConfig,
    OutputTargetKind, ProfileConfig, TtsBackend, UtterPipeTtsConfig, MAXIMUM_AUDIO_CUES,
    MAXIMUM_QUEUE_ITEMS, MAXIMUM_TEXT_CHARACTERS, SCHEMA_VERSION,
};
use super::toml_value::{TomlModel, TomlTable};
use crate::gain::{Gain, ONE_BITS, ZERO_BITS};
use crate::paths::{is_nonlocal_windows_path, resolve_path, PathStyle};
use crate::text::{
    characters, decimal, is_ascii_letter, is_ascii_letter_or_digit, is_ascii_lower_or_digit,
    is_blank, join, join3, same_text,
};
use vstd::prelude::*;

verus! {

/// One thing that is wrong with a profile, and where.
#[derive(Debug, PartialEq, Eq)]
pub struct ValidationIssue {
    pub field: String,
    pub message: String,
}

/// What an issue says.
pub struct IssueModel {
    pub field: Seq<char>,
    pub message: Seq<char>,
}

impl View for ValidationIssue {
    type V = IssueModel;

    open spec fn view(&self) -> IssueModel {
        IssueModel { field: self.field@, message: self.message@ }
    }
}

/// What a list of issues says.
pub open spec fn issue_models(issues: Seq<ValidationIssue>) -> Seq<IssueModel> {
    issues.map_values(|issue: ValidationIssue| issue@)
}

/// One more issue, where the condition holds.
pub open spec fn noted(
    found: Seq<IssueModel>,
    condition: bool,
    field: Seq<char>,
    message: Seq<char>,
) -> Seq<IssueModel> {
    if condition {
        found.push(IssueModel { field, message })
    } else {
        found
    }
}

impl ValidationIssue {
    pub fn new(field: String, message: String) -> (issue: Self)
        ensures
            issue.field == field,
            issue.message == message,
    {
        ValidationIssue { field, message }
    }
}

fn note(issues: &mut Vec<ValidationIssue>, condition: bool, field: &str, message: &str)
    ensures
        issue_models(final(issues)@) == noted(
            issue_models(old(issues)@),
            condition,
            field@,
            message@,
        ),
{
    if condition {
        issues.push(ValidationIssue::new(field.to_string(), message.to_string()));
        assert(issue_models(issues@) =~= issue_models(old(issues)@).push(
            IssueModel { field: field@, message: message@ },
        ));
    }
}

// Identifiers.

/// A cue or output target identifier.
pub open spec fn valid_id(id: Seq<char>) -> bool {
    &&& 1 <= id.len() <= 64
    &&& crate::text::ascii_alphanumeric(id[0])
    &&& forall|i: int|
        0 <= i < id.len() ==> crate::text::ascii_alphanumeric(#[trigger] id[i]) || id[i] == '.'
            || id[i] == '_' || id[i] == '-'
}

/// Whether an identifier matches `[a-zA-Z0-9][a-zA-Z0-9._-]{0,63}`.
pub fn valid_preset_id(identifier: &str) -> (valid: bool)
    ensures
        valid == valid_id(identifier@),
{
    let chars = characters(identifier);
    if chars.len() < 1 || chars.len() > 64 || !is_ascii_letter_or_digit(chars[0]) {
        return false;
    }
    let mut i: usize = 0;
    while i < chars.len()
        invariant
            i <= chars@.len(),
            chars@ == identifier@,
            forall|j: int|
                0 <= j < i ==> crate::text::ascii_alphanumeric(#[trigger] chars@[j]) || chars@[j]
                    == '.' || chars@[j] == '_' || chars@[j] == '-',
        decreases chars@.len() - i,
    {
        let c = chars[i];
        if !(is_ascii_letter_or_digit(c) || c == '.' || c == '_' || c == '-') {
            return false;
        }
        i += 1;
    }
    true
}

pub open spec fn slug_end(c: char) -> bool {
    crate::text::ascii_lowercase(c) || crate::text::ascii_digit(c)
}

/// The name of a provider.
pub open spec fn valid_slug(slug: Seq<char>) -> bool {
    &&& 1 <= slug.len() <= 64
    &&& slug_end(slug[0])
    &&& slug_end(slug[slug.len() - 1])
    &&& forall|i: int| 0 <= i < slug.len() ==> slug_end(#[trigger] slug[i]) || slug[i] == '-'
}

pub fn valid_provider_slug(value: &str) -> (valid: bool)
    ensures
        valid == valid_slug(value@),
{
    let chars = characters(value);
    if chars.len() < 1 || chars.len() > 64 || !is_ascii_lower_or_digit(chars[0])
        || !is_ascii_lower_or_digit(chars[chars.len() - 1]) {
        return false;
    }
    let mut i: usize = 0;
    while i < chars.len()
        invariant
            i <= chars@.len(),
            chars@ == value@,
            forall|j: int| 0 <= j < i ==> slug_end(#[trigger] chars@[j]) || chars@[j] == '-',
        decreases chars@.len() - i,
    {
        if !(is_ascii_lower_or_digit(chars[i]) || chars[i] == '-') {
            return false;
        }
        i += 1;
    }
    true
}

/// The name of an environment variable.
pub open spec fn valid_variable(name: Seq<char>) -> bool {
    &&& 1 <= name.len() <= 128
    &&& crate::text::ascii_alphabetic(name[0]) || name[0] == '_'
    &&& forall|i: int|
        0 <= i < name.len() ==> crate::text::ascii_alphanumeric(#[trigger] name[i]) || name[i]
            == '_'
}

pub fn valid_environment_name(value: &str) -> (valid: bool)
    ensures
        valid == valid_variable(value@),
{
    let chars = characters(value);
    if chars.len() < 1 || chars.len() > 128 || !(is_ascii_letter(chars[0]) || chars[0] == '_') {
        return false;
    }
    let mut i: usize = 0;
    while i < chars.len()
        invariant
            i <= chars@.len(),
            chars@ == value@,
            forall|j: int|
                0 <= j < i ==> crate::text::ascii_alphanumeric(#[trigger] chars@[j]) || chars@[j]
                    == '_',
        decreases chars@.len() - i,
    {
        if !(is_ascii_letter_or_digit(chars[i]) || chars[i] == '_') {
            return false;
        }
        i += 1;
    }
    true
}

/// A model or voice identifier of a provider.
pub open spec fn valid_identity(value: Seq<char>) -> bool {
    &&& 1 <= value.len() <= 256
    &&& forall|i: int|
        0 <= i < value.len() ==> #[trigger] value[i] != '\r' && value[i] != '\n' && value[i]
            != '\0'
}

fn is_valid_identity(value: &str) -> (valid: bool)
    ensures
        valid == valid_identity(value@),
{
    let chars = characters(value);
    if chars.len() < 1 || chars.len() > 256 {
        return false;
    }
    let mut i: usize = 0;
    while i < chars.len()
        invariant
            i <= chars@.len(),
            chars@ == value@,
            forall|j: int|
                0 <= j < i ==> #[trigger] chars@[j] != '\r' && chars@[j] != '\n' && chars@[j]
                    != '\0',
        decreases chars@.len() - i,
    {
        if chars[i] == '\r' || chars[i] == '\n' || chars[i] == '\0' {
            return false;
        }
        i += 1;
    }
    true
}

// General settings.

pub open spec fn with_general_issues(
    found: Seq<IssueModel>,
    profile: ProfileConfig,
) -> Seq<IssueModel> {
    let found = noted(
        found,
        profile.schema_version != SCHEMA_VERSION,
        "schema_version"@,
        "must equal 1"@,
    );
    let found = noted(
        found,
        profile.profile_name@.len() == 0 || profile.profile_name@.len() > 80,
        "profile_name"@,
        "must contain between 1 and 80 Unicode characters"@,
    );
    noted(
        found,
        profile.audio_cues@.len() > MAXIMUM_AUDIO_CUES,
        "audio_cues"@,
        "must contain no more than 256 entries"@,
    )
}

fn validate_general(profile: &ProfileConfig, issues: &mut Vec<ValidationIssue>)
    ensures
        issue_models(final(issues)@) == with_general_issues(issue_models(old(issues)@), *profile),
{
    note(
        issues,
        profile.schema_version != SCHEMA_VERSION,
        "schema_version",
        "must equal 1",
    );
    let length: usize = profile.profile_name.as_str().unicode_len();
    note(
        issues,
        length == 0 || length > 80,
        "profile_name",
        "must contain between 1 and 80 Unicode characters",
    );
    note(
        issues,
        profile.audio_cues.len() > MAXIMUM_AUDIO_CUES,
        "audio_cues",
        "must contain no more than 256 entries",
    );
}

// Playback settings.

/// A finite gain from zero to one.
pub open spec fn valid_gain(gain: Gain) -> bool {
    gain.within(Gain { bits: ZERO_BITS }, Gain { bits: ONE_BITS })
}

pub open spec fn gain_noted(
    found: Seq<IssueModel>,
    field: Seq<char>,
    gain: Gain,
) -> Seq<IssueModel> {
    noted(
        found,
        !valid_gain(gain),
        field,
        "must be a finite number between 0.0 and 1.0 inclusive"@,
    )
}

fn validate_gain(field: &str, gain: Gain, issues: &mut Vec<ValidationIssue>)
    ensures
        issue_models(final(issues)@) == gain_noted(issue_models(old(issues)@), field@, gain),
{
    let valid = gain.is_within(Gain { bits: ZERO_BITS }, Gain { bits: ONE_BITS });
    note(issues, !valid, field, "must be a finite number between 0.0 and 1.0 inclusive");
}

pub open spec fn limit_noted(
    found: Seq<IssueModel>,
    field: Seq<char>,
    value: nat,
    ceiling: nat,
) -> Seq<IssueModel> {
    noted(
        found,
        value == 0 || value > ceiling,
        field,
        "must be positive and no greater than "@ + crate::text::decimal_text(ceiling),
    )
}

fn validate_positive_limit(
    field: &str,
    value: usize,
    ceiling: usize,
    issues: &mut Vec<ValidationIssue>,
)
    ensures
        issue_models(final(issues)@) == limit_noted(
            issue_models(old(issues)@),
            field@,
            value as nat,
            ceiling as nat,
        ),
{
    let message = join("must be positive and no greater than ", decimal(ceiling as u64).as_str());
    note(issues, value == 0 || value > ceiling, field, message.as_str());
}

/// A mode stands twice in the list.
pub open spec fn repeats_mode(modes: Seq<ConcurrencyMode>) -> bool {
    exists|i: int, j: int| 0 <= i < j < modes.len() && #[trigger] modes[i] == #[trigger] modes[j]
}

fn has_repeated_mode(modes: &Vec<ConcurrencyMode>) -> (repeated: bool)
    ensures
        repeated == repeats_mode(modes@),
{
    let mut i: usize = 0;
    while i < modes.len()
        invariant
            i <= modes@.len(),
            forall|a: int, b: int| 0 <= a < b < i ==> #[trigger] modes@[a] != #[trigger] modes@[b],
        decreases modes@.len() - i,
    {
        if mode_among(modes, i, modes[i]) {
            return true;
        }
        i += 1;
    }
    false
}

fn mode_among(modes: &Vec<ConcurrencyMode>, count: usize, mode: ConcurrencyMode) -> (found: bool)
    requires
        count <= modes@.len(),
    ensures
        found == exists|i: int| 0 <= i < count && #[trigger] modes@[i] == mode,
{
    let mut i: usize = 0;
    while i < count
        invariant
            i <= count <= modes@.len(),
            forall|j: int| 0 <= j < i ==> #[trigger] modes@[j] != mode,
        decreases count - i,
    {
        if modes[i] == mode {
            return true;
        }
        i += 1;
    }
    false
}

pub open spec fn with_playback_issues(
    found: Seq<IssueModel>,
    profile: ProfileConfig,
) -> Seq<IssueModel> {
    let playback = profile.playback;
    let finite_range = playback.minimum_gain.finite() && playback.maximum_gain.finite();
    let found = gain_noted(found, "playback.minimum_gain"@, playback.minimum_gain);
    let found = gain_noted(found, "playback.maximum_gain"@, playback.maximum_gain);
    let found = gain_noted(found, "playback.default_gain"@, playback.default_gain);
    let found = noted(
        found,
        finite_range && playback.maximum_gain.below(playback.minimum_gain),
        "playback.minimum_gain"@,
        "must be less than or equal to playback.maximum_gain"@,
    );
    let found = noted(
        found,
        playback.default_gain.finite() && finite_range && (playback.default_gain.below(
            playback.minimum_gain,
        ) || playback.maximum_gain.below(playback.default_gain)),
        "playback.default_gain"@,
        "must be between playback.minimum_gain and playback.maximum_gain"@,
    );
    let found = noted(
        found,
        repeats_mode(playback.allowed_concurrency@),
        "playback.allowed_concurrency"@,
        "must not contain duplicate modes"@,
    );
    let found = noted(
        found,
        !playback.allowed_concurrency@.contains(playback.default_concurrency),
        "playback.default_concurrency"@,
        "must be included in playback.allowed_concurrency"@,
    );
    let found = limit_noted(
        found,
        "playback.maximum_queue_items"@,
        playback.maximum_queue_items as nat,
        MAXIMUM_QUEUE_ITEMS as nat,
    );
    limit_noted(
        found,
        "tts.maximum_characters"@,
        profile.tts.maximum_characters as nat,
        MAXIMUM_TEXT_CHARACTERS as nat,
    )
}

fn validate_playback(profile: &ProfileConfig, issues: &mut Vec<ValidationIssue>)
    ensures
        issue_models(final(issues)@) == with_playback_issues(issue_models(old(issues)@), *profile),
{
    let playback = &profile.playback;
    validate_gain("playback.minimum_gain", playback.minimum_gain, issues);
    validate_gain("playback.maximum_gain", playback.maximum_gain, issues);
    validate_gain("playback.default_gain", playback.default_gain, issues);
    let finite_range = playback.minimum_gain.is_finite() && playback.maximum_gain.is_finite();
    note(
        issues,
        finite_range && playback.maximum_gain.is_below(playback.minimum_gain),
        "playback.minimum_gain",
        "must be less than or equal to playback.maximum_gain",
    );
    note(
        issues,
        playback.default_gain.is_finite() && finite_range && (playback.default_gain.is_below(
            playback.minimum_gain,
        ) || playback.maximum_gain.is_below(playback.default_gain)),
        "playback.default_gain",
        "must be between playback.minimum_gain and playback.maximum_gain",
    );
    note(
        issues,
        has_repeated_mode(&playback.allowed_concurrency),
        "playback.allowed_concurrency",
        "must not contain duplicate modes",
    );
    let listed = mode_among(
        &playback.allowed_concurrency,
        playback.allowed_concurrency.len(),
        playback.default_concurrency,
    );
    note(
        issues,
        !listed,
        "playback.default_concurrency",
        "must be included in playback.allowed_concurrency",
    );
    validate_positive_limit(
        "playback.maximum_queue_items",
        playback.maximum_queue_items,
        MAXIMUM_QUEUE_ITEMS,
        issues,
    );
    validate_positive_limit(
        "tts.maximum_characters",
        profile.tts.maximum_characters,
        MAXIMUM_TEXT_CHARACTERS,
        issues,
    );
}

// Speech settings.

pub open spec fn identity_noted(
    found: Seq<IssueModel>,
    field: Seq<char>,
    value: Option<String>,
) -> Seq<IssueModel> {
    noted(
        found,
        !(value matches Some(text) && valid_identity(text@)),
        field,
        "is required, must contain 1 to 256 Unicode characters, and must not contain CR, LF, or NUL"@,
    )
}

/// Check an identifier that has to be there.
pub fn validate_provider_id(field: &str, value: &Option<String>, issues: &mut Vec<ValidationIssue>)
    ensures
        issue_models(final(issues)@) == identity_noted(issue_models(old(issues)@), field@, *value),
{
    let valid = match value {
        Some(text) => is_valid_identity(text.as_str()),
        None => false,
    };
    note(
        issues,
        !valid,
        field,
        "is required, must contain 1 to 256 Unicode characters, and must not contain CR, LF, or NUL",
    );
}

/// The name stands among the first names.
pub open spec fn named_before(names: Seq<String>, count: int, name: Seq<char>) -> bool {
    exists|i: int| 0 <= i < count && (#[trigger] names[i])@ == name
}

fn is_named_before(names: &Vec<String>, count: usize, name: &str) -> (found: bool)
    requires
        count <= names@.len(),
    ensures
        found == named_before(names@, count as int, name@),
{
    let mut i: usize = 0;
    while i < count
        invariant
            i <= count <= names@.len(),
            forall|j: int| 0 <= j < i ==> (#[trigger] names@[j])@ != name@,
        decreases count - i,
    {
        if same_text(names[i].as_str(), name) {
            return true;
        }
        i += 1;
    }
    false
}

/// The first name from `from` on that is malformed or repeated is reported, and
/// no other.
pub open spec fn names_noted(
    found: Seq<IssueModel>,
    names: Seq<String>,
    from: int,
) -> Seq<IssueModel>
    decreases names.len() - from,
{
    if from < 0 || from >= names.len() {
        found
    } else if !valid_variable(names[from]@) {
        found.push(
            IssueModel {
                field: "tts.provider_environment"@,
                message: "names must match [A-Za-z_][A-Za-z0-9_]{0,127}"@,
            },
        )
    } else if named_before(names, from, names[from]@) {
        found.push(
            IssueModel {
                field: "tts.provider_environment"@,
                message: "must not contain duplicate names"@,
            },
        )
    } else {
        names_noted(found, names, from + 1)
    }
}

pub open spec fn with_provider_issues(
    found: Seq<IssueModel>,
    provider: UtterPipeTtsConfig,
) -> Seq<IssueModel> {
    let found = noted(
        found,
        !valid_slug(provider.provider@),
        "tts.provider"@,
        "is required and must match [a-z0-9][a-z0-9-]{0,62}[a-z0-9] (or one lowercase letter/digit)"@,
    );
    let found = if provider.model_id is Some {
        identity_noted(found, "tts.model_id"@, provider.model_id)
    } else {
        found
    };
    let found = if provider.voice_id is Some {
        identity_noted(found, "tts.voice_id"@, provider.voice_id)
    } else {
        found
    };
    let found = noted(
        found,
        provider.provider_environment@.len() > 32,
        "tts.provider_environment"@,
        "must contain no more than 32 names"@,
    );
    let found = names_noted(found, provider.provider_environment@, 0);
    noted(
        found,
        !super::toml_value::json_compatible(TomlModel::Table(provider.provider_options.model())),
        "tts.provider_options"@,
        "must contain only JSON-compatible finite values and exactly representable integers"@,
    )
}

pub open spec fn with_tts_issues(
    found: Seq<IssueModel>,
    profile: ProfileConfig,
) -> Seq<IssueModel> {
    match profile.tts.backend {
        TtsBackend::System(_) => found,
        TtsBackend::Utterpipe(provider) => with_provider_issues(found, provider),
    }
}

impl UtterPipeTtsConfig {
    /// The option tables have distinct keys.
    pub open spec fn well_formed(self) -> bool {
        self.provider_options.well_formed() && self.utterance_options.well_formed()
    }
}

impl ProfileConfig {
    /// Every option table has distinct keys.
    pub open spec fn well_formed(self) -> bool {
        self.tts.backend matches TtsBackend::Utterpipe(provider) ==> provider.well_formed()
    }
}

fn validate_names(names: &Vec<String>, issues: &mut Vec<ValidationIssue>)
    ensures
        issue_models(final(issues)@) == names_noted(issue_models(old(issues)@), names@, 0),
{
    let mut i: usize = 0;
    while i < names.len()
        invariant
            i <= names@.len(),
            *issues == *old(issues),
            names_noted(issue_models(old(issues)@), names@, 0) == names_noted(
                issue_models(old(issues)@),
                names@,
                i as int,
            ),
        decreases names@.len() - i,
    {
        if !valid_environment_name(names[i].as_str()) {
            note(
                issues,
                true,
                "tts.provider_environment",
                "names must match [A-Za-z_][A-Za-z0-9_]{0,127}",
            );
            return ;
        }
        if is_named_before(names, i, names[i].as_str()) {
            note(
                issues,
                true,
                "tts.provider_environment",
                "must not contain duplicate names",
            );
            return ;
        }
        i += 1;
    }
}

fn validate_provider_options(table: &TomlTable, field: &str, issues: &mut Vec<ValidationIssue>)
    requires
        table.well_formed(),
    ensures
        issue_models(final(issues)@) == noted(
            issue_models(old(issues)@),
            !super::toml_value::json_compatible(TomlModel::Table(table.model())),
            field@,
            "must contain only JSON-compatible finite values and exactly representable integers"@,
        ),
{
    note(
        issues,
        !table.is_json_compatible(),
        field,
        "must contain only JSON-compatible finite values and exactly representable integers",
    );
}

fn validate_tts(profile: &ProfileConfig, issues: &mut Vec<ValidationIssue>)
    requires
        profile.well_formed(),
    ensures
        issue_models(final(issues)@) == with_tts_issues(issue_models(old(issues)@), *profile),
{
    match &profile.tts.backend {
        TtsBackend::System(_) => {},
        TtsBackend::Utterpipe(provider) => {
            note(
                issues,
                !valid_provider_slug(provider.provider.as_str()),
                "tts.provider",
                "is required and must match [a-z0-9][a-z0-9-]{0,62}[a-z0-9] (or one lowercase letter/digit)",
            );
            if provider.model_id.is_some() {
                validate_provider_id("tts.model_id", &provider.model_id, issues);
            }
            if provider.voice_id.is_some() {
                validate_provider_id("tts.voice_id", &provider.voice_id, issues);
            }
            note(
                issues,
                provider.provider_environment.len() > 32,
                "tts.provider_environment",
                "must contain no more than 32 names",
            );
            validate_names(&provider.provider_environment, issues);
            validate_provider_options(
                &provider.provider_options,
                "tts.provider_options",
                issues,
            );
        },
    }
}

// Output settings.

/// A category stands twice in the list.
pub open spec fn repeats_category(allow: Seq<OutputCategory>) -> bool {
    exists|i: int, j: int| 0 <= i < j < allow.len() && #[trigger] allow[i] == #[trigger] allow[j]
}

fn has_repeated_category(allow: &Vec<OutputCategory>) -> (repeated: bool)
    ensures
        repeated == repeats_category(allow@),
{
    let mut i: usize = 0;
    while i < allow.len()
        invariant
            i <= allow@.len(),
            forall|a: int, b: int| 0 <= a < b < i ==> #[trigger] allow@[a] != #[trigger] allow@[b],
        decreases allow@.len() - i,
    {
        let mut k: usize = 0;
        while k < i
            invariant
                k <= i < allow@.len(),
                forall|a: int| 0 <= a < k ==> #[trigger] allow@[a] != allow@[i as int],
            decreases i - k,
        {
            if allow[k] == allow[i] {
                return true;
            }
            k += 1;
        }
        i += 1;
    }
    false
}

/// `outputs.targets[i]` with a field behind it.
pub open spec fn target_field(index: int, field: Seq<char>) -> Seq<char> {
    "outputs.targets["@ + crate::text::decimal_text(index as nat) + "]"@ + field
}

/// An earlier target has the same identifier.
pub open spec fn target_repeats(targets: Seq<OutputTargetConfig>, index: int) -> bool {
    exists|i: int| 0 <= i < index && (#[trigger] targets[i]).id@ == targets[index].id@
}

/// A device target needs a device that is not blank.
pub open spec fn names_device(target: OutputTargetConfig) -> bool {
    target.device_id matches Some(id) && !crate::text::blank(id@)
}

pub open spec fn with_target_issues(
    found: Seq<IssueModel>,
    targets: Seq<OutputTargetConfig>,
    index: int,
) -> Seq<IssueModel> {
    let target = targets[index];
    let found = noted(
        found,
        !valid_id(target.id@),
        target_field(index, ".id"@),
        "must match [a-zA-Z0-9][a-zA-Z0-9._-]{0,63}"@,
    );
    let found = noted(
        found,
        target_repeats(targets, index),
        target_field(index, ".id"@),
        "must be unique within the output target allowlist"@,
    );
    let found = noted(
        found,
        target.description@.len() > 1_000,
        target_field(index, ".description"@),
        "must contain no more than 1000 Unicode characters"@,
    );
    let found = noted(
        found,
        repeats_category(target.allow@),
        target_field(index, ".allow"@),
        "must not contain duplicate categories"@,
    );
    let found = noted(
        found,
        target.kind is SystemDefault && target.device_id is Some,
        target_field(index, ".device_id"@),
        "is not allowed for a system_default target"@,
    );
    noted(
        found,
        target.kind is Device && !names_device(target),
        target_field(index, ".device_id"@),
        "is required and must not be empty for a device target"@,
    )
}

/// The issues of the first targets, in order.
pub open spec fn with_targets_issues(
    found: Seq<IssueModel>,
    targets: Seq<OutputTargetConfig>,
    count: nat,
) -> Seq<IssueModel>
    decreases count,
{
    if count == 0 {
        found
    } else {
        with_target_issues(
            with_targets_issues(found, targets, (count - 1) as nat),
            targets,
            count - 1,
        )
    }
}

/// A target has the identifier.
pub open spec fn target_listed(targets: Seq<OutputTargetConfig>, id: Seq<char>) -> bool {
    exists|i: int| 0 <= i < targets.len() && (#[trigger] targets[i]).id@ == id
}

pub open spec fn with_outputs_issues(
    found: Seq<IssueModel>,
    profile: ProfileConfig,
) -> Seq<IssueModel> {
    let targets = profile.outputs.targets@;
    let found = noted(
        found,
        targets.len() == 0,
        "outputs.targets"@,
        "must contain at least one output target"@,
    );
    let found = with_targets_issues(found, targets, targets.len());
    noted(
        found,
        !target_listed(targets, profile.outputs.default_target@),
        "outputs.default_target"@,
        "must identify one of outputs.targets"@,
    )
}

fn is_target_before(targets: &Vec<OutputTargetConfig>, count: usize, id: &str) -> (found: bool)
    requires
        count <= targets@.len(),
    ensures
        found == exists|i: int| 0 <= i < count && (#[trigger] targets@[i]).id@ == id@,
{
    let mut i: usize = 0;
    while i < count
        invariant
            i <= count <= targets@.len(),
            forall|j: int| 0 <= j < i ==> (#[trigger] targets@[j]).id@ != id@,
        decreases count - i,
    {
        if same_text(targets[i].id.as_str(), id) {
            return true;
        }
        i += 1;
    }
    false
}

fn validate_target(
    targets: &Vec<OutputTargetConfig>,
    index: usize,
    issues: &mut Vec<ValidationIssue>,
)
    requires
        index < targets@.len(),
    ensures
        issue_models(final(issues)@) == with_target_issues(
            issue_models(old(issues)@),
            targets@,
            index as int,
        ),
{
    let target = &targets[index];
    let base = join3("outputs.targets[", decimal(index as u64).as_str(), "]");
    let id_field = join(base.as_str(), ".id");
    note(
        issues,
        !valid_preset_id(target.id.as_str()),
        id_field.as_str(),
        "must match [a-zA-Z0-9][a-zA-Z0-9._-]{0,63}",
    );
    note(
        issues,
        is_target_before(targets, index, target.id.as_str()),
        id_field.as_str(),
        "must be unique within the output target allowlist",
    );
    note(
        issues,
        target.description.as_str().unicode_len() > 1_000,
        join(base.as_str(), ".description").as_str(),
        "must contain no more than 1000 Unicode characters",
    );
    note(
        issues,
        has_repeated_category(&target.allow),
        join(base.as_str(), ".allow").as_str(),
        "must not contain duplicate categories",
    );
    let device_field = join(base.as_str(), ".device_id");
    let is_device = match target.kind {
        OutputTargetKind::SystemDefault => false,
        OutputTargetKind::Device => true,
    };
    note(
        issues,
        !is_device && target.device_id.is_some(),
        device_field.as_str(),
        "is not allowed for a system_default target",
    );
    let named = match &target.device_id {
        Some(id) => !is_blank(id.as_str()),
        None => false,
    };
    note(
        issues,
        is_device && !named,
        device_field.as_str(),
        "is required and must not be empty for a device target",
    );
}

fn validate_outputs(profile: &ProfileConfig, issues: &mut Vec<ValidationIssue>)
    ensures
        issue_models(final(issues)@) == with_outputs_issues(issue_models(old(issues)@), *profile),
{
    let targets = &profile.outputs.targets;
    note(
        issues,
        targets.len() == 0,
        "outputs.targets",
        "must contain at least one output target",
    );
    let ghost start = issue_models(issues@);
    let mut i: usize = 0;
    while i < targets.len()
        invariant
            i <= targets@.len(),
            issue_models(issues@) == with_targets_issues(start, targets@, i as nat),
        decreases targets@.len() - i,
    {
        validate_target(targets, i, issues);
        i += 1;
    }
    let listed = is_target_before(targets, targets.len(), profile.outputs.default_target.as_str());
    note(
        issues,
        !listed,
        "outputs.default_target",
        "must identify one of outputs.targets",
    );
}

// Paths.

/// What the file system says of a history destination.
#[derive(Debug)]
pub struct HistoryFacts {
    /// The configured path joined to the configuration directory.
    pub joined: String,
    /// The resolved path is a directory.
    pub is_directory: bool,
    /// The resolved path has a parent that is a directory.
    pub parent_is_directory: bool,
}

/// What the file system says of a cue source.
#[derive(Debug)]
pub enum SourceInspection {
    /// There is nothing at the resolved path.
    Missing,
    /// The canonical path cannot be inspected.
    Unreadable { canonical: String },
    /// The canonical path is not a regular file.
    NotRegular { canonical: String },
    /// The canonical path is a regular file.
    Regular { canonical: String },
}

/// What is known of the paths of a profile.
#[derive(Debug)]
pub struct PathFacts {
    pub style: PathStyle,
    pub history: HistoryFacts,
    /// One entry for each cue, in order.
    pub cues: Vec<SourceInspection>,
}

impl PathFacts {
    /// What is known of the source of a cue. Nothing known is nothing there.
    pub open spec fn inspection(self, index: int) -> SourceInspection {
        if 0 <= index < self.cues@.len() {
            self.cues@[index]
        } else {
            SourceInspection::Missing
        }
    }
}

/// The history destination after resolution.
pub open spec fn history_after(profile: ProfileConfig, facts: PathFacts) -> Option<Seq<char>> {
    match profile.logging.history_path {
        None => None,
        Some(path) => if path@.len() == 0 {
            Some(path@)
        } else {
            Some(crate::paths::resolved(facts.style, path@, facts.history.joined@))
        },
    }
}

pub open spec fn with_logging_issues(
    found: Seq<IssueModel>,
    profile: ProfileConfig,
    facts: PathFacts,
) -> Seq<IssueModel> {
    let field = "logging.history_path"@;
    match profile.logging.history_path {
        None => noted(
            found,
            profile.logging.history_enabled,
            field,
            "is required when logging.history_enabled is true"@,
        ),
        Some(path) => if path@.len() == 0 {
            noted(found, true, field, "must identify a file when provided"@)
        } else {
            let destination = crate::paths::resolved(facts.style, path@, facts.history.joined@);
            let found = noted(
                found,
                crate::paths::nonlocal(facts.style, destination),
                field,
                "network and device paths are not supported"@,
            );
            let found = noted(
                found,
                facts.history.is_directory,
                field,
                "must identify a file, not a directory"@,
            );
            noted(
                found,
                !facts.history.parent_is_directory,
                field,
                "parent directory does not exist"@,
            )
        },
    }
}

fn resolve_logging(profile: &mut ProfileConfig, facts: &PathFacts, issues: &mut Vec<ValidationIssue>)
    ensures
        issue_models(final(issues)@) == with_logging_issues(
            issue_models(old(issues)@),
            *old(profile),
            *facts,
        ),
        final(profile).logging.history_path matches Some(path) ==> Some(path@) == history_after(
            *old(profile),
            *facts,
        ),
        final(profile).logging.history_path is None ==> history_after(*old(profile), *facts) is None,
        final(profile).logging.level == old(profile).logging.level,
        final(profile).logging.history_enabled == old(profile).logging.history_enabled,
        final(profile).logging.history_include_spoken_text == old(
            profile,
        ).logging.history_include_spoken_text,
        final(profile).schema_version == old(profile).schema_version,
        final(profile).profile_name == old(profile).profile_name,
        final(profile).permissions == old(profile).permissions,
        final(profile).playback == old(profile).playback,
        final(profile).outputs == old(profile).outputs,
        final(profile).tts == old(profile).tts,
        final(profile).audio_cues == old(profile).audio_cues,
{
    let destination: Option<String> = match &profile.logging.history_path {
        None => {
            note(
                issues,
                profile.logging.history_enabled,
                "logging.history_path",
                "is required when logging.history_enabled is true",
            );
            None
        },
        Some(path) => {
            if path.as_str().unicode_len() == 0 {
                note(
                    issues,
                    true,
                    "logging.history_path",
                    "must identify a file when provided",
                );
                None
            } else {
                let destination = resolve_path(
                    facts.style,
                    path.as_str(),
                    facts.history.joined.as_str(),
                );
                note(
                    issues,
                    is_nonlocal_windows_path(facts.style, destination.as_str()),
                    "logging.history_path",
                    "network and device paths are not supported",
                );
                note(
                    issues,
                    facts.history.is_directory,
                    "logging.history_path",
                    "must identify a file, not a directory",
                );
                note(
                    issues,
                    !facts.history.parent_is_directory,
                    "logging.history_path",
                    "parent directory does not exist",
                );
                Some(destination)
            }
        },
    };
    if destination.is_some() {
        profile.logging.history_path = destination;
    }
}

/// `audio_cues[i]` with a field behind it.
pub open spec fn cue_field(index: int, field: Seq<char>) -> Seq<char> {
    "audio_cues["@ + crate::text::decimal_text(index as nat) + "]"@ + field
}

/// An earlier cue has the same identifier.
pub open spec fn cue_repeats(cues: Seq<AudioCueConfig>, index: int) -> bool {
    exists|i: int| 0 <= i < index && (#[trigger] cues[i]).id@ == cues[index].id@
}

/// What is wrong with the source of an audio-file cue.
pub open spec fn source_fault(style: PathStyle, inspection: SourceInspection) -> Option<Seq<char>> {
    match inspection {
        SourceInspection::Missing => Some("file does not exist"@),
        SourceInspection::Unreadable { canonical } => if crate::paths::nonlocal(style, canonical@) {
            Some("network and device paths are not supported"@)
        } else {
            Some("could not be inspected"@)
        },
        SourceInspection::NotRegular { canonical } => if crate::paths::nonlocal(style, canonical@) {
            Some("network and device paths are not supported"@)
        } else {
            Some("must identify a regular file"@)
        },
        SourceInspection::Regular { canonical } => if crate::paths::nonlocal(style, canonical@) {
            Some("network and device paths are not supported"@)
        } else {
            None
        },
    }
}

pub open spec fn with_cue_issues(
    found: Seq<IssueModel>,
    profile: ProfileConfig,
    facts: PathFacts,
    index: int,
) -> Seq<IssueModel> {
    let cue = profile.audio_cues@[index];
    let found = noted(
        found,
        !valid_id(cue.id@),
        cue_field(index, ".id"@),
        "must match [a-zA-Z0-9][a-zA-Z0-9._-]{0,63}"@,
    );
    let found = noted(
        found,
        cue_repeats(profile.audio_cues@, index),
        cue_field(index, ".id"@),
        "must be unique within the profile"@,
    );
    let found = noted(
        found,
        cue.description@.len() > 1_000,
        cue_field(index, ".description"@),
        "must contain no more than 1000 Unicode characters"@,
    );
    let found = noted(
        found,
        !cue.default_gain.within(profile.playback.minimum_gain, profile.playback.maximum_gain),
        cue_field(index, ".default_gain"@),
        "must be finite and within the configured playback gain range"@,
    );
    match cue.kind {
        AudioCueKind::AudioFile => {
            let found = noted(
                found,
                cue.text is Some,
                cue_field(index, ".text"@),
                "is not allowed for an audio_file cue"@,
            );
            if cue.source is None {
                noted(
                    found,
                    true,
                    cue_field(index, ".source"@),
                    "is required for an audio_file cue"@,
                )
            } else {
                match source_fault(facts.style, facts.inspection(index)) {
                    Some(message) => noted(found, true, cue_field(index, ".source"@), message),
                    None => found,
                }
            }
        },
        AudioCueKind::Speech => {
            let found = noted(
                found,
                cue.source is Some,
                cue_field(index, ".source"@),
                "is not allowed for a speech cue"@,
            );
            match cue.text {
                None => noted(
                    found,
                    true,
                    cue_field(index, ".text"@),
                    "is required for a speech cue"@,
                ),
                Some(text) => {
                    let found = noted(
                        found,
                        crate::text::blank(text@),
                        cue_field(index, ".text"@),
                        "must not be empty or whitespace-only"@,
                    );
                    let found = noted(
                        found,
                        text@.len() > profile.tts.maximum_characters,
                        cue_field(index, ".text"@),
                        "exceeds tts.maximum_characters"@,
                    );
                    noted(
                        found,
                        !profile.tts.enabled,
                        cue_field(index, ".kind"@),
                        "requires tts.enabled to be true"@,
                    )
                },
            }
        },
    }
}

/// The issues of the first cues, in order.
pub open spec fn with_cues_issues(
    found: Seq<IssueModel>,
    profile: ProfileConfig,
    facts: PathFacts,
    count: nat,
) -> Seq<IssueModel>
    decreases count,
{
    if count == 0 {
        found
    } else {
        with_cue_issues(
            with_cues_issues(found, profile, facts, (count - 1) as nat),
            profile,
            facts,
            count - 1,
        )
    }
}

fn is_cue_before(cues: &Vec<AudioCueConfig>, count: usize, id: &str) -> (found: bool)
    requires
        count <= cues@.len(),
    ensures
        found == exists|i: int| 0 <= i < count && (#[trigger] cues@[i]).id@ == id@,
{
    let mut i: usize = 0;
    while i < count
        invariant
            i <= count <= cues@.len(),
            forall|j: int| 0 <= j < i ==> (#[trigger] cues@[j]).id@ != id@,
        decreases count - i,
    {
        if same_text(cues[i].id.as_str(), id) {
            return true;
        }
        i += 1;
    }
    false
}

fn inspect_source(facts: &PathFacts, index: usize, field: &str, issues: &mut Vec<ValidationIssue>)
    ensures
        issue_models(final(issues)@) == match source_fault(
            facts.style,
            facts.inspection(index as int),
        ) {
            Some(message) => noted(issue_models(old(issues)@), true, field@, message),
            None => issue_models(old(issues)@),
        },
{
    if index >= facts.cues.len() {
        note(issues, true, field, "file does not exist");
        return ;
    }
    let (canonical, message): (&String, Option<&str>) = match &facts.cues[index] {
        SourceInspection::Missing => {
            note(issues, true, field, "file does not exist");
            return ;
        },
        SourceInspection::Unreadable { canonical } => (canonical, Some("could not be inspected")),
        SourceInspection::NotRegular { canonical } => (
            canonical,
            Some("must identify a regular file"),
        ),
        SourceInspection::Regular { canonical } => (canonical, None),
    };
    if is_nonlocal_windows_path(facts.style, canonical.as_str()) {
        note(issues, true, field, "network and device paths are not supported");
    } else if let Some(message) = message {
        note(issues, true, field, message);
    }
}

fn validate_cue(
    profile: &ProfileConfig,
    facts: &PathFacts,
    index: usize,
    issues: &mut Vec<ValidationIssue>,
)
    requires
        index < profile.audio_cues@.len(),
    ensures
        issue_models(final(issues)@) == with_cue_issues(
            issue_models(old(issues)@),
            *profile,
            *facts,
            index as int,
        ),
{
    let cue = &profile.audio_cues[index];
    let base = join3("audio_cues[", decimal(index as u64).as_str(), "]");
    let id_field = join(base.as_str(), ".id");
    let text_field = join(base.as_str(), ".text");
    let source_field = join(base.as_str(), ".source");
    note(
        issues,
        !valid_preset_id(cue.id.as_str()),
        id_field.as_str(),
        "must match [a-zA-Z0-9][a-zA-Z0-9._-]{0,63}",
    );
    note(
        issues,
        is_cue_before(&profile.audio_cues, index, cue.id.as_str()),
        id_field.as_str(),
        "must be unique within the profile",
    );
    note(
        issues,
        cue.description.as_str().unicode_len() > 1_000,
        join(base.as_str(), ".description").as_str(),
        "must contain no more than 1000 Unicode characters",
    );
    note(
        issues,
        !cue.default_gain.is_within(profile.playback.minimum_gain, profile.playback.maximum_gain),
        join(base.as_str(), ".default_gain").as_str(),
        "must be finite and within the configured playback gain range",
    );
    match cue.kind {
        AudioCueKind::AudioFile => {
            note(
                issues,
                cue.text.is_some(),
                text_field.as_str(),
                "is not allowed for an audio_file cue",
            );
            if cue.source.is_none() {
                note(
                    issues,
                    true,
                    source_field.as_str(),
                    "is required for an audio_file cue",
                );
            } else {
                inspect_source(facts, index, source_field.as_str(), issues);
            }
        },
        AudioCueKind::Speech => {
            note(
                issues,
                cue.source.is_some(),
                source_field.as_str(),
                "is not allowed for a speech cue",
            );
            match &cue.text {
                None => {
                    note(issues, true, text_field.as_str(), "is required for a speech cue");
                },
                Some(text) => {
                    note(
                        issues,
                        is_blank(text.as_str()),
                        text_field.as_str(),
                        "must not be empty or whitespace-only",
                    );
                    note(
                        issues,
                        text.as_str().unicode_len() > profile.tts.maximum_characters,
                        text_field.as_str(),
                        "exceeds tts.maximum_characters",
                    );
                    note(
                        issues,
                        !profile.tts.enabled,
                        join(base.as_str(), ".kind").as_str(),
                        "requires tts.enabled to be true",
                    );
                },
            }
        },
    }
}

/// The source of a cue after resolution: the canonical path of an audio file.
pub open spec fn source_after(
    cue: AudioCueConfig,
    inspection: SourceInspection,
) -> Option<Seq<char>> {
    match cue.source {
        None => None,
        Some(source) => match (cue.kind, inspection) {
            (AudioCueKind::AudioFile, SourceInspection::Regular { canonical }) => Some(canonical@),
            _ => Some(source@),
        },
    }
}

/// Nothing of a cue but its source has changed, and that has been resolved.
pub open spec fn cue_resolved(
    before: AudioCueConfig,
    inspection: SourceInspection,
    after: AudioCueConfig,
) -> bool {
    &&& after == AudioCueConfig { source: after.source, ..before }
    &&& crate::playback::actor::optional_text(after.source) == source_after(before, inspection)
}

/// Every issue of a profile, in the order in which they are reported.
pub open spec fn all_issues(profile: ProfileConfig, facts: PathFacts) -> Seq<IssueModel> {
    let found = with_general_issues(Seq::empty(), profile);
    let found = with_playback_issues(found, profile);
    let found = with_tts_issues(found, profile);
    let found = with_outputs_issues(found, profile);
    let found = with_logging_issues(found, profile, facts);
    with_cues_issues(found, profile, facts, profile.audio_cues@.len())
}

/// Nothing of a profile but its paths has changed, and those are resolved.
pub open spec fn profile_resolved(
    before: ProfileConfig,
    facts: PathFacts,
    after: ProfileConfig,
) -> bool {
    &&& after.schema_version == before.schema_version
    &&& after.profile_name == before.profile_name
    &&& after.permissions == before.permissions
    &&& after.playback == before.playback
    &&& after.outputs == before.outputs
    &&& after.tts == before.tts
    &&& after.logging.level == before.logging.level
    &&& after.logging.history_enabled == before.logging.history_enabled
    &&& after.logging.history_include_spoken_text == before.logging.history_include_spoken_text
    &&& crate::playback::actor::optional_text(after.logging.history_path) == history_after(
        before,
        facts,
    )
    &&& after.audio_cues@.len() == before.audio_cues@.len()
    &&& forall|i: int|
        0 <= i < after.audio_cues@.len() ==> cue_resolved(
            before.audio_cues@[i],
            facts.inspection(i),
            #[trigger] after.audio_cues@[i],
        )
}

/// What a profile becomes: resolved where nothing is wrong with it, and every
/// issue otherwise.
pub open spec fn validated(
    profile: ProfileConfig,
    facts: PathFacts,
    result: Result<ProfileConfig, Vec<ValidationIssue>>,
) -> bool {
    match result {
        Ok(valid) => all_issues(profile, facts).len() == 0 && profile_resolved(
            profile,
            facts,
            valid,
        ),
        Err(issues) => issues@.len() > 0 && issue_models(issues@) == all_issues(profile, facts),
    }
}

/// The cue with its source resolved.
fn resolve_cue(cue: AudioCueConfig, facts: &PathFacts, index: usize) -> (resolved: AudioCueConfig)
    ensures
        cue_resolved(cue, facts.inspection(index as int), resolved),
{
    let mut resolved = cue;
    let is_file = match resolved.kind {
        AudioCueKind::AudioFile => true,
        AudioCueKind::Speech => false,
    };
    if is_file && resolved.source.is_some() && index < facts.cues.len() {
        if let SourceInspection::Regular { canonical } = &facts.cues[index] {
            resolved.source = Some(canonical.clone());
        }
    }
    resolved
}

/// Resolve configuration paths and validate all invariants that do not require
/// an initialized decoder or platform audio backend.
pub fn resolve_and_validate(profile: ProfileConfig, facts: &PathFacts) -> (result: Result<
    ProfileConfig,
    Vec<ValidationIssue>,
>)
    requires
        profile.well_formed(),
    ensures
        validated(profile, *facts, result),
{
    let ghost before = profile;
    let mut profile = profile;
    let mut issues: Vec<ValidationIssue> = Vec::new();
    assert(issue_models(issues@) =~= Seq::empty());
    validate_general(&profile, &mut issues);
    validate_playback(&profile, &mut issues);
    validate_tts(&profile, &mut issues);
    validate_outputs(&profile, &mut issues);
    resolve_logging(&mut profile, facts, &mut issues);
    let ghost start = issue_models(issues@);
    let mut i: usize = 0;
    while i < profile.audio_cues.len()
        invariant
            i <= profile.audio_cues@.len(),
            profile.audio_cues == before.audio_cues,
            profile.playback == before.playback,
            profile.tts == before.tts,
            issue_models(issues@) == with_cues_issues(start, before, *facts, i as nat),
        decreases profile.audio_cues@.len() - i,
    {
        validate_cue(&profile, facts, i, &mut issues);
        i += 1;
    }
    if issues.len() > 0 {
        return Err(issues);
    }
    let ghost cues = profile.audio_cues@;
    let mut left: Vec<AudioCueConfig> = Vec::new();
    std::mem::swap(&mut left, &mut profile.audio_cues);
    let mut done: usize = 0;
    while left.len() > 0
        invariant
            cues == before.audio_cues@,
            done + left@.len() == cues.len(),
            cues.len() <= usize::MAX,
            left@ == cues.skip(done as int),
            profile.audio_cues@.len() == done,
            forall|j: int|
                0 <= j < done ==> cue_resolved(
                    cues[j],
                    facts.inspection(j),
                    #[trigger] profile.audio_cues@[j],
                ),
            profile.schema_version == before.schema_version,
            profile.profile_name == before.profile_name,
            profile.permissions == before.permissions,
            profile.playback == before.playback,
            profile.outputs == before.outputs,
            profile.tts == before.tts,
            profile.logging.level == before.logging.level,
            profile.logging.history_enabled == before.logging.history_enabled,
            profile.logging.history_include_spoken_text
                == before.logging.history_include_spoken_text,
            crate::playback::actor::optional_text(profile.logging.history_path) == history_after(
                before,
                *facts,
            ),
        decreases left@.len(),
    {
        let cue = left.remove(0);
        assert(cue == cues[done as int]);
        profile.audio_cues.push(resolve_cue(cue, facts, done));
        assert(left@ =~= cues.skip(done + 1));
        done += 1;
    }
    assert(issue_models(issues@).len() == 0);
    Ok(profile)
}

} // verus!
