//! Discovered configuration layers and how they combine.
use super::load::ConfigError;
use super::model::{
    AudioCueConfig, AudioDelivery, ProfileConfig, SystemTtsConfig, TtsBackend, TtsConfig,
    UtterPipeTtsConfig,
};
use super::toml_value::{
    merge_tables, same_value, TomlDate, TomlDatetime, TomlModel, TomlOffset, TomlTable, TomlTime,
    TomlValue,
};
use crate::paths::{is_absolute, PathStyle};
use crate::text::{characters, join, same_text, text_of};
use toml::value::Offset;
use toml::Value;
use vstd::prelude::*;

verus! {

// TOML documents.

#[verifier::external_type_specification]
#[verifier::external_body]
#[verifier::reject_recursive_types(K)]
#[verifier::reject_recursive_types(V)]
pub struct ExTomlMap<K, V>(toml::map::Map<K, V>);

#[verifier::external_type_specification]
#[verifier::external_body]
pub struct ExTomlValue(toml::Value);

/// What a TOML table holds.
pub uninterp spec fn table_contents(table: toml::Table) -> Map<Seq<char>, TomlModel>;

/// What a TOML value holds: text, a number, a flag, a date, or other values.
pub uninterp spec fn value_contents(value: toml::Value) -> TomlModel;

/// The table that a TOML document describes, where it is one.
pub uninterp spec fn document(source: Seq<char>) -> Option<Map<Seq<char>, TomlModel>>;

/// What the TOML parser says of a document that it refuses.
pub uninterp spec fn document_fault(source: Seq<char>) -> Seq<char>;

/// A TOML value, opened one level.
pub enum TomlNode {
    Text(String),
    Integer(i64),
    Float(u64),
    Boolean(bool),
    /// The day, the time of day, and the offset. An offset without minutes is UTC,
    /// written as `Z`.
    Datetime(
        Option<(u16, u8, u8)>,
        Option<(u8, u8, Option<u8>, Option<u32>)>,
        Option<Option<i16>>,
    ),
    Array(Vec<toml::Value>),
    Table(toml::Table),
}

/// The date that these parts make.
pub open spec fn date_of(
    day: Option<(u16, u8, u8)>,
    time: Option<(u8, u8, Option<u8>, Option<u32>)>,
    offset: Option<Option<i16>>,
) -> TomlDatetime {
    TomlDatetime {
        date: match day {
            Some((year, month, day)) => Some(TomlDate { year, month, day }),
            None => None,
        },
        time: match time {
            Some((hour, minute, second, nanosecond)) => Some(
                TomlTime { hour, minute, second, nanosecond },
            ),
            None => None,
        },
        offset: match offset {
            Some(Some(minutes)) => Some(TomlOffset::Minutes(minutes)),
            Some(None) => Some(TomlOffset::Utc),
            None => None,
        },
    }
}

/// What an opened value holds.
pub open spec fn node_contents(node: TomlNode) -> TomlModel {
    match node {
        TomlNode::Text(text) => TomlModel::Text(text@),
        TomlNode::Integer(number) => TomlModel::Integer(number),
        TomlNode::Float(bits) => TomlModel::Float(bits),
        TomlNode::Boolean(flag) => TomlModel::Boolean(flag),
        TomlNode::Datetime(day, time, offset) => TomlModel::Datetime(date_of(day, time, offset)),
        TomlNode::Array(items) => TomlModel::Array(
            items@.map_values(|item: toml::Value| value_contents(item)),
        ),
        TomlNode::Table(table) => TomlModel::Table(table_contents(table)),
    }
}

/// `toml::from_str` to a table: a document is refused with an error that says why,
/// or read as the table that it describes.
#[verifier::external_body]
fn read_document(source: &str) -> (table: Result<toml::Table, toml::de::Error>)
    ensures
        match table {
            Ok(table) => document(source@) == Some(table_contents(table)),
            Err(error) => document(source@) is None && super::load::error_text(error)
                == document_fault(source@),
        },
{
    toml::from_str::<toml::Table>(source)
}

/// `toml::map::Map::into_iter`: every entry once, each under its own key.
#[verifier::external_body]
fn table_entries(table: toml::Table) -> (entries: Vec<(String, toml::Value)>)
    ensures
        forall|i: int|
            0 <= i < entries@.len() ==> table_contents(table).contains_key(
                (#[trigger] entries@[i]).0@,
            ) && table_contents(table)[entries@[i].0@] == value_contents(entries@[i].1),
        forall|key: Seq<char>| #[trigger]
            table_contents(table).contains_key(key) ==> exists|i: int|
                0 <= i < entries@.len() && (#[trigger] entries@[i]).0@ == key,
{
    table.into_iter().collect()
}

/// The variant of a `toml::Value` and what it carries: a float as its bits, a
/// date as its parts.
#[verifier::external_body]
fn open_value(value: toml::Value) -> (node: TomlNode)
    ensures
        node_contents(node) == value_contents(value),
{
    match value {
        Value::String(text) => TomlNode::Text(text),
        Value::Integer(number) => TomlNode::Integer(number),
        Value::Float(number) => TomlNode::Float(number.to_bits()),
        Value::Boolean(flag) => TomlNode::Boolean(flag),
        Value::Datetime(date) => TomlNode::Datetime(
            date.date.map(|day| (day.year, day.month, day.day)),
            date.time.map(|time| (time.hour, time.minute, time.second, time.nanosecond)),
            date.offset.map(
                |zone| match zone { Offset::Z => None, Offset::Custom { minutes } => Some(minutes) },
            ),
        ),
        Value::Array(items) => TomlNode::Array(items),
        Value::Table(table) => TomlNode::Table(table),
    }
}

/// The date that these parts make.
fn make_date(
    day: Option<(u16, u8, u8)>,
    time: Option<(u8, u8, Option<u8>, Option<u32>)>,
    offset: Option<Option<i16>>,
) -> (date: TomlDatetime)
    ensures
        date == date_of(day, time, offset),
{
    TomlDatetime {
        date: match day {
            Some((year, month, day)) => Some(TomlDate { year, month, day }),
            None => None,
        },
        time: match time {
            Some((hour, minute, second, nanosecond)) => Some(
                TomlTime { hour, minute, second, nanosecond },
            ),
            None => None,
        },
        offset: match offset {
            Some(Some(minutes)) => Some(TomlOffset::Minutes(minutes)),
            Some(None) => Some(TomlOffset::Utc),
            None => None,
        },
    }
}

/// A TOML value as a plain value.
fn plain_value(value: toml::Value) -> (plain: TomlValue)
    ensures
        plain.well_formed(),
        plain.model() == value_contents(value),
    decreases value_contents(value), 1int,
{
    let ghost said = value_contents(value);
    match open_value(value) {
        TomlNode::Text(text) => TomlValue::new_text(text),
        TomlNode::Integer(number) => TomlValue::new_integer(number),
        TomlNode::Float(bits) => TomlValue::new_float(bits),
        TomlNode::Boolean(flag) => TomlValue::new_boolean(flag),
        TomlNode::Datetime(day, time, offset) => TomlValue::new_datetime(
            make_date(day, time, offset),
        ),
        TomlNode::Array(items) => {
            let ghost all = items@;
            let mut left = items;
            let mut plain: Vec<TomlValue> = Vec::new();
            while left.len() > 0
                invariant
                    said == TomlModel::Array(all.map_values(|item: toml::Value| value_contents(item))),
                    said == value_contents(value),
                    plain@.len() + left@.len() == all.len(),
                    left@ == all.skip(plain@.len() as int),
                    forall|i: int|
                        0 <= i < plain@.len() ==> (#[trigger] plain@[i]).well_formed()
                            && plain@[i].model() == value_contents(all[i]),
                decreases left@.len(),
            {
                let ghost k = plain@.len() as int;
                let item = left.remove(0);
                proof {
                    assert(item == all[k]);
                    let parts = said->Array_0;
                    assert(parts[k] == value_contents(all[k]));
                    assert(decreases_to!(said => parts[k]));
                }
                plain.push(plain_value(item));
                assert(left@ =~= all.skip(plain@.len() as int));
            }
            let value = TomlValue::new_array(plain);
            assert(value.model() == said) by {
                assert(value.model()->Array_0 =~= said->Array_0);
            }
            value
        },
        TomlNode::Table(table) => TomlValue::new_table(plain_table(table)),
    }
}

/// A TOML table as a plain table.
pub fn plain_table(table: toml::Table) -> (plain: TomlTable)
    ensures
        plain.well_formed(),
        plain.model() == table_contents(table),
    decreases TomlModel::Table(table_contents(table)), 0int,
{
    let ghost contents = table_contents(table);
    let ghost said = TomlModel::Table(contents);
    let entries = table_entries(table);
    let ghost all = entries@;
    let mut left = entries;
    let mut plain = TomlTable::new();
    let ghost mut count: int = 0;
    while left.len() > 0
        invariant
            said == TomlModel::Table(contents),
            contents == table_contents(table),
            0 <= count,
            count + left@.len() == all.len(),
            left@ == all.skip(count),
            plain.well_formed(),
            forall|i: int|
                0 <= i < all.len() ==> contents.contains_key((#[trigger] all[i]).0@)
                    && contents[all[i].0@] == value_contents(all[i].1),
            forall|i: int| 0 <= i < count ==> plain.model().contains_key((#[trigger] all[i]).0@),
            forall|key: Seq<char>| #[trigger]
                plain.model().contains_key(key) ==> contents.contains_key(key)
                    && plain.model()[key] == contents[key],
        decreases left@.len(),
    {
        let (key, item) = left.remove(0);
        proof {
            assert((key, item) == all[count]);
            let parts = said->Table_0;
            assert(parts == contents);
            assert(contents.contains_key(all[count].0@));
            assert(decreases_to!(said => parts[key@]));
        }
        let laid = plain_value(item);
        plain.insert(key, laid);
        proof {
            assert(left@ =~= all.skip(count + 1));
            count = count + 1;
        }
    }
    proof {
        assert forall|key: Seq<char>| contents.contains_key(key) implies #[trigger]
            plain.model().contains_key(key) by {
            let i = choose|i: int| 0 <= i < all.len() && (#[trigger] all[i]).0@ == key;
            assert(all[i].0@ == key);
        }
        assert(plain.model() =~= contents);
    }
    plain
}

/// Read a TOML document as a plain table.
pub fn read_table(source: &str) -> (table: Result<TomlTable, toml::de::Error>)
    ensures
        match table {
            Ok(table) => table.well_formed() && document(source@) == Some(table.model()),
            Err(error) => document(source@) is None && super::load::error_text(error)
                == document_fault(source@),
        },
{
    match read_document(source) {
        Err(error) => Err(error),
        Ok(table) => Ok(plain_table(table)),
    }
}

// Layers.

/// The fields of `[tts]` that belong to one backend.
pub open spec fn backend_fields() -> Seq<Seq<char>> {
    seq![
        "model_id"@,
        "voice_id"@,
        "audio_deliveries"@,
        "provider_environment"@,
        "provider_options"@,
        "utterance_options"@,
        "agent_utterance_options"@,
    ]
}

/// A table without some of its keys.
pub open spec fn without_keys(
    table: Map<Seq<char>, TomlModel>,
    keys: Seq<Seq<char>>,
) -> Map<Seq<char>, TomlModel> {
    Map::new(
        |key: Seq<char>| table.contains_key(key) && !keys.contains(key),
        |key: Seq<char>| table[key],
    )
}

/// The table under a key, where there is one.
pub open spec fn subtable(table: Map<Seq<char>, TomlModel>, key: Seq<char>) -> Option<
    Map<Seq<char>, TomlModel>,
> {
    match super::toml_value::held(table, key) {
        Some(TomlModel::Table(inner)) => Some(inner),
        _ => None,
    }
}

/// The layer names a backend other than the one that was chosen before.
pub open spec fn changes_backend(
    base: Map<Seq<char>, TomlModel>,
    layer: Map<Seq<char>, TomlModel>,
) -> bool {
    match (subtable(base, "tts"@), subtable(layer, "tts"@)) {
        (Some(under), Some(over)) => {
            &&& over.contains_key("backend"@)
            &&& !(under.contains_key("backend"@) && super::toml_value::same(
                under["backend"@],
                over["backend"@],
            ))
        },
        _ => false,
    }
}

/// A changed backend discards the fields that belonged to the previous one.
pub open spec fn backend_reset(
    base: Map<Seq<char>, TomlModel>,
    layer: Map<Seq<char>, TomlModel>,
) -> Map<Seq<char>, TomlModel> {
    if changes_backend(base, layer) {
        base.insert(
            "tts"@,
            TomlModel::Table(without_keys(subtable(base, "tts"@).unwrap(), backend_fields())),
        )
    } else {
        base
    }
}

/// A layer laid over what the earlier ones came to.
pub open spec fn layered(
    base: Map<Seq<char>, TomlModel>,
    layer: Map<Seq<char>, TomlModel>,
) -> Map<Seq<char>, TomlModel> {
    super::toml_value::merged(backend_reset(base, layer), layer)
}

fn backend_field_names() -> (names: Vec<String>)
    ensures
        super::model::texts(names@) == backend_fields(),
{
    let mut names: Vec<String> = Vec::new();
    names.push("model_id".to_string());
    names.push("voice_id".to_string());
    names.push("audio_deliveries".to_string());
    names.push("provider_environment".to_string());
    names.push("provider_options".to_string());
    names.push("utterance_options".to_string());
    names.push("agent_utterance_options".to_string());
    assert(super::model::texts(names@) =~= backend_fields());
    names
}

fn remove_backend_fields(table: &mut TomlTable)
    requires
        old(table).well_formed(),
    ensures
        final(table).well_formed(),
        final(table).model() == without_keys(old(table).model(), backend_fields()),
{
    let ghost before = table.model();
    let names = backend_field_names();
    let ghost keys = super::model::texts(names@);
    let mut i: usize = 0;
    assert(table.model() =~= without_keys(before, keys.take(0)));
    while i < names.len()
        invariant
            i <= names@.len(),
            keys == super::model::texts(names@),
            table.well_formed(),
            table.model() == without_keys(before, keys.take(i as int)),
        decreases names@.len() - i,
    {
        table.remove(names[i].as_str());
        proof {
            let fewer = keys.take(i as int);
            let more = keys.take(i + 1);
            assert(more =~= fewer.push(names@[i as int]@));
            assert forall|key: Seq<char>|
                more.contains(key) <==> fewer.contains(key) || key == names@[i as int]@ by {
                if fewer.contains(key) {
                    let j = choose|j: int| 0 <= j < fewer.len() && fewer[j] == key;
                    assert(more[j] == key);
                }
                assert(more[i as int] == names@[i as int]@);
                if more.contains(key) && key != names@[i as int]@ {
                    let j = choose|j: int| 0 <= j < more.len() && more[j] == key;
                    assert(fewer[j] == key);
                }
            }
            assert(table.model() =~= without_keys(before, more));
        }
        i += 1;
    }
    assert(keys.take(i as int) =~= keys);
}

/// Whether a layer names a backend other than the one that was chosen before.
fn is_backend_change(base: &TomlTable, layer: &TomlTable) -> (changed: bool)
    requires
        base.well_formed(),
        layer.well_formed(),
    ensures
        changed == changes_backend(base.model(), layer.model()),
{
    let over = match layer.get("tts") {
        Some(value) => match value.as_table() {
            Some(table) => table,
            None => {
                return false;
            },
        },
        None => {
            return false;
        },
    };
    let under = match base.get("tts") {
        Some(value) => match value.as_table() {
            Some(table) => table,
            None => {
                return false;
            },
        },
        None => {
            return false;
        },
    };
    match over.get("backend") {
        None => false,
        Some(wanted) => match under.get("backend") {
            None => true,
            Some(current) => !same_value(current, wanted),
        },
    }
}

/// Discard the fields of the previous backend where a layer changes it.
pub fn reset_tts_variant_on_backend_change(base: &mut TomlTable, layer: &TomlTable)
    requires
        old(base).well_formed(),
        layer.well_formed(),
    ensures
        final(base).well_formed(),
        final(base).model() == backend_reset(old(base).model(), layer.model()),
{
    if is_backend_change(base, layer) {
        let ghost before = base.model();
        if let Some(value) = base.remove("tts") {
            if let Some(mut table) = value.into_table() {
                remove_backend_fields(&mut table);
                base.insert("tts".to_string(), TomlValue::new_table(table));
                assert(base.model() =~= backend_reset(before, layer.model()));
            }
        }
    }
}

/// The directories from which relative paths are taken.
#[derive(Debug)]
pub struct PathOrigins {
    pub history: Option<String>,
    pub audio_cues: Option<String>,
}

/// The configuration that the layers read so far come to.
#[derive(Debug)]
pub struct LayeredConfig {
    effective: TomlTable,
    sources: Vec<String>,
    origins: PathOrigins,
}

/// A layer sets a history destination.
pub open spec fn declares_history(layer: Map<Seq<char>, TomlModel>) -> bool {
    subtable(layer, "logging"@) matches Some(logging) && logging.contains_key("history_path"@)
}

/// A layer sets the audio cues.
pub open spec fn declares_cues(layer: Map<Seq<char>, TomlModel>) -> bool {
    layer.contains_key("audio_cues"@)
}

impl LayeredConfig {
    pub closed spec fn effective_model(&self) -> Map<Seq<char>, TomlModel> {
        self.effective.model()
    }

    pub closed spec fn source_list(&self) -> Seq<String> {
        self.sources@
    }

    pub closed spec fn origins_view(&self) -> PathOrigins {
        self.origins
    }

    pub closed spec fn well_formed(&self) -> bool {
        self.effective.well_formed()
    }

    /// A path was read as a layer.
    pub open spec fn loaded(&self, path: Seq<char>) -> bool {
        exists|i: int| 0 <= i < self.source_list().len() && (#[trigger] self.source_list()[i])@
            == path
    }

    /// Nothing but the built-in defaults.
    pub fn new(defaults: TomlTable) -> (config: Self)
        requires
            defaults.well_formed(),
        ensures
            config.well_formed(),
            config.effective_model() == defaults.model(),
            config.source_list().len() == 0,
            config.origins_view() == (PathOrigins { history: None, audio_cues: None }),
    {
        LayeredConfig {
            effective: defaults,
            sources: Vec::new(),
            origins: PathOrigins { history: None, audio_cues: None },
        }
    }

    /// Whether a path was read already.
    pub fn is_loaded(&self, path: &str) -> (found: bool)
        ensures
            found == self.loaded(path@),
    {
        let mut i: usize = 0;
        while i < self.sources.len()
            invariant
                i <= self.sources@.len(),
                forall|j: int| 0 <= j < i ==> (#[trigger] self.sources@[j])@ != path@,
            decreases self.sources@.len() - i,
        {
            if same_text(self.sources[i].as_str(), path) {
                assert(self.source_list()[i as int]@ == path@);
                return true;
            }
            i += 1;
        }
        false
    }

    /// Lay a layer over the earlier ones.
    pub fn apply_layer(&mut self, path: String, directory: String, layer: TomlTable)
        requires
            old(self).well_formed(),
            layer.well_formed(),
        ensures
            final(self).well_formed(),
            final(self).effective_model() == layered(old(self).effective_model(), layer.model()),
            final(self).source_list() == old(self).source_list().push(path),
            final(self).origins_view().history == if declares_history(layer.model()) {
                Some(directory)
            } else {
                old(self).origins_view().history
            },
            final(self).origins_view().audio_cues == if declares_cues(layer.model()) {
                Some(directory)
            } else {
                old(self).origins_view().audio_cues
            },
    {
        let history = match layer.get("logging") {
            Some(value) => match value.as_table() {
                Some(logging) => logging.contains_key("history_path"),
                None => false,
            },
            None => false,
        };
        if history {
            self.origins.history = Some(directory.clone());
        }
        if layer.contains_key("audio_cues") {
            self.origins.audio_cues = Some(directory);
        }
        reset_tts_variant_on_backend_change(&mut self.effective, &layer);
        merge_tables(&mut self.effective, layer);
        self.sources.push(path);
    }

    /// Read a layer and lay it over the earlier ones. A path that was read
    /// before adds nothing.
    pub fn add_layer(&mut self, path: String, directory: Option<String>, source: &str) -> (result:
        Result<(), ConfigError>)
        requires
            old(self).well_formed(),
        ensures
            final(self).well_formed(),
            if old(self).loaded(path@) {
                result is Ok && *final(self) == *old(self)
            } else {
                match document(source@) {
                    None => {
                        &&& result matches Err(ConfigError::LayerParse { path: named, source: error })
                        &&& named == path
                        &&& super::load::error_text(error) == document_fault(source@)
                        &&& *final(self) == *old(self)
                    },
                    Some(layer) => match directory {
                        None => {
                            &&& result matches Err(ConfigError::MissingParent)
                            &&& *final(self) == *old(self)
                        },
                        Some(directory) => {
                            &&& result is Ok
                            &&& final(self).effective_model() == layered(
                                old(self).effective_model(),
                                layer,
                            )
                            &&& final(self).source_list() == old(self).source_list().push(path)
                            &&& final(self).origins_view().history == if declares_history(layer) {
                                Some(directory)
                            } else {
                                old(self).origins_view().history
                            }
                            &&& final(self).origins_view().audio_cues == if declares_cues(layer) {
                                Some(directory)
                            } else {
                                old(self).origins_view().audio_cues
                            }
                        },
                    },
                }
            },
    {
        if self.is_loaded(path.as_str()) {
            return Ok(());
        }
        match read_table(source) {
            Err(source) => Err(ConfigError::LayerParse { path, source }),
            Ok(layer) => match directory {
                None => Err(ConfigError::MissingParent),
                Some(directory) => {
                    self.apply_layer(path, directory, layer);
                    Ok(())
                },
            },
        }
    }

    /// The merged table, the layers it came from and where their paths start;
    /// nothing where no layer was read.
    pub fn finish(self) -> (parts: Option<(TomlTable, Vec<String>, PathOrigins)>)
        requires
            self.well_formed(),
        ensures
            match parts {
                None => self.source_list().len() == 0,
                Some(parts) => {
                    &&& self.source_list().len() > 0
                    &&& parts.0.well_formed()
                    &&& parts.0.model() == self.effective_model()
                    &&& parts.1@ == self.source_list()
                    &&& parts.2 == self.origins_view()
                },
            },
    {
        if self.sources.len() == 0 {
            None
        } else {
            Some((self.effective, self.sources, self.origins))
        }
    }
}

/// A configured path seen from the layer that declared it. `joined` is the path
/// joined to that layer's directory; a path without such a layer stays.
pub open spec fn rebased(
    style: PathStyle,
    path: Option<Seq<char>>,
    joined: Option<Seq<char>>,
) -> Option<Seq<char>> {
    match (path, joined) {
        (Some(path), Some(joined)) => if crate::paths::absolute(style, path) {
            Some(path)
        } else {
            Some(joined)
        },
        _ => path,
    }
}

fn rebase(style: PathStyle, path: Option<String>, joined: &Option<String>) -> (result: Option<
    String,
>)
    ensures
        crate::playback::actor::optional_text(result) == rebased(
            style,
            crate::playback::actor::optional_text(path),
            crate::playback::actor::optional_text(*joined),
        ),
{
    match (path, joined) {
        (Some(path), Some(joined)) => if is_absolute(style, path.as_str()) {
            Some(path)
        } else {
            Some(joined.clone())
        },
        (path, _) => path,
    }
}

/// What is known of a cue's joined source. Nothing known is nothing joined.
pub open spec fn joined_source(cue_sources: Seq<Option<String>>, index: int) -> Option<Seq<char>> {
    if 0 <= index < cue_sources.len() {
        crate::playback::actor::optional_text(cue_sources[index])
    } else {
        None
    }
}

/// Nothing of a profile but its relative paths has changed, and those are seen
/// from the layers that declared them.
pub open spec fn paths_rebased(
    before: ProfileConfig,
    style: PathStyle,
    history: Option<String>,
    cue_sources: Seq<Option<String>>,
    after: ProfileConfig,
) -> bool {
    &&& crate::playback::actor::optional_text(after.logging.history_path) == rebased(
        style,
        crate::playback::actor::optional_text(before.logging.history_path),
        crate::playback::actor::optional_text(history),
    )
    &&& after.audio_cues@.len() == before.audio_cues@.len()
    &&& forall|i: int|
        0 <= i < after.audio_cues@.len() ==> {
            let old_cue = before.audio_cues@[i];
            let new_cue = #[trigger] after.audio_cues@[i];
            &&& new_cue == AudioCueConfig { source: new_cue.source, ..old_cue }
            &&& crate::playback::actor::optional_text(new_cue.source) == rebased(
                style,
                crate::playback::actor::optional_text(old_cue.source),
                joined_source(cue_sources, i),
            )
        }
    &&& after.schema_version == before.schema_version
    &&& after.profile_name == before.profile_name
    &&& after.permissions == before.permissions
    &&& after.playback == before.playback
    &&& after.outputs == before.outputs
    &&& after.tts == before.tts
    &&& after.logging.level == before.logging.level
    &&& after.logging.history_enabled == before.logging.history_enabled
    &&& after.logging.history_include_spoken_text == before.logging.history_include_spoken_text
}

/// Take the relative paths of a merged profile from the layers that declared
/// them: the joined history destination, and the joined source of each cue.
pub fn rebase_paths(
    profile: &mut ProfileConfig,
    style: PathStyle,
    history: &Option<String>,
    cue_sources: &Vec<Option<String>>,
)
    ensures
        paths_rebased(*old(profile), style, *history, cue_sources@, *final(profile)),
        forall|i: int|
            0 <= i < cue_sources@.len() && i < old(profile).audio_cues@.len() ==> {
                let after = #[trigger] final(profile).audio_cues@[i];
                match (old(profile).audio_cues@[i].source, cue_sources@[i]) {
                    (Some(source), Some(joined)) => !crate::paths::absolute(style, source@)
                        ==> after.source is Some && after.source.unwrap()@ == joined@,
                    (source, None) => crate::playback::actor::optional_text(after.source)
                        == crate::playback::actor::optional_text(source),
                    (None, _) => after.source is None,
                }
            },
        crate::playback::actor::optional_text(final(profile).logging.history_path) == rebased(
            style,
            crate::playback::actor::optional_text(old(profile).logging.history_path),
            crate::playback::actor::optional_text(*history),
        ),
        final(profile).audio_cues@.len() == old(profile).audio_cues@.len(),
        forall|i: int|
            0 <= i < final(profile).audio_cues@.len() ==> {
                let before = old(profile).audio_cues@[i];
                let after = #[trigger] final(profile).audio_cues@[i];
                &&& after == AudioCueConfig { source: after.source, ..before }
                &&& crate::playback::actor::optional_text(after.source) == rebased(
                    style,
                    crate::playback::actor::optional_text(before.source),
                    joined_source(cue_sources@, i),
                )
            },
        final(profile).schema_version == old(profile).schema_version,
        final(profile).profile_name == old(profile).profile_name,
        final(profile).permissions == old(profile).permissions,
        final(profile).playback == old(profile).playback,
        final(profile).outputs == old(profile).outputs,
        final(profile).tts == old(profile).tts,
        final(profile).logging.level == old(profile).logging.level,
        final(profile).logging.history_enabled == old(profile).logging.history_enabled,
        final(profile).logging.history_include_spoken_text == old(
            profile,
        ).logging.history_include_spoken_text,
{
    let ghost before = *profile;
    let path = profile.logging.history_path.take();
    profile.logging.history_path = rebase(style, path, history);
    let ghost rebased_logging = *profile;
    let ghost cues = profile.audio_cues@;
    let total: usize = profile.audio_cues.len();
    let mut left: Vec<AudioCueConfig> = Vec::new();
    std::mem::swap(&mut left, &mut profile.audio_cues);
    let mut done: usize = 0;
    while left.len() > 0
        invariant
            done + left@.len() == cues.len(),
            cues.len() == total,
            left@ == cues.skip(done as int),
            profile.audio_cues@.len() == done,
            forall|i: int|
                0 <= i < done ==> {
                    let earlier = cues[i];
                    let after = #[trigger] profile.audio_cues@[i];
                    &&& after == AudioCueConfig { source: after.source, ..earlier }
                    &&& crate::playback::actor::optional_text(after.source) == rebased(
                        style,
                        crate::playback::actor::optional_text(earlier.source),
                        joined_source(cue_sources@, i),
                    )
                },
            profile.logging == rebased_logging.logging,
            profile.schema_version == before.schema_version,
            profile.profile_name == before.profile_name,
            profile.permissions == before.permissions,
            profile.playback == before.playback,
            profile.outputs == before.outputs,
            profile.tts == before.tts,
        decreases left@.len(),
    {
        let mut cue = left.remove(0);
        assert(cue == cues[done as int]);
        if done < cue_sources.len() {
            let source = cue.source.take();
            cue.source = rebase(style, source, &cue_sources[done]);
        }
        profile.audio_cues.push(cue);
        assert(left@ =~= cues.skip(done + 1));
        done += 1;
    }
}

// Where layers are looked for.

/// A directory that may hold a layer.
#[derive(Debug)]
pub struct LayerLocation {
    /// The directory, as the environment names it.
    pub directory: String,
    /// The layer's path in that directory.
    pub layer: String,
}

/// The layer of the first absolute directory.
pub open spec fn first_absolute(style: PathStyle, locations: Seq<LayerLocation>) -> Option<
    Seq<char>,
>
    decreases locations.len(),
{
    if locations.len() == 0 {
        None
    } else {
        match first_absolute(style, locations.drop_last()) {
            Some(layer) => Some(layer),
            None => if crate::paths::absolute(style, locations.last().directory@) {
                Some(locations.last().layer@)
            } else {
                None
            },
        }
    }
}

/// A path, where there is one.
pub open spec fn one(path: Option<Seq<char>>) -> Seq<Seq<char>> {
    match path {
        Some(path) => seq![path],
        None => Seq::empty(),
    }
}

/// Where layers are looked for, lowest priority first: for the system, for the
/// user, in the working directory.
pub open spec fn candidates(
    style: PathStyle,
    program_data: Seq<LayerLocation>,
    homes: Seq<LayerLocation>,
    working: Seq<char>,
) -> Seq<Seq<char>> {
    (match style {
        PathStyle::Posix => seq!["/etc/agent-speak.toml"@],
        PathStyle::Windows => one(first_absolute(style, program_data)),
    }) + one(first_absolute(style, homes)) + seq![working]
}

fn find_absolute(style: PathStyle, locations: &Vec<LayerLocation>) -> (layer: Option<String>)
    ensures
        crate::playback::actor::optional_text(layer) == first_absolute(style, locations@),
{
    let mut i: usize = 0;
    assert(locations@.take(0) =~= Seq::empty());
    while i < locations.len()
        invariant
            i <= locations@.len(),
            first_absolute(style, locations@.take(i as int)) is None,
        decreases locations@.len() - i,
    {
        assert(locations@.take(i + 1).drop_last() =~= locations@.take(i as int));
        if is_absolute(style, locations[i].directory.as_str()) {
            proof {
                lemma_first_stays(style, locations@, i + 1);
            }
            return Some(locations[i].layer.clone());
        }
        i += 1;
    }
    assert(locations@.take(i as int) =~= locations@);
    None
}

/// More locations do not change which comes first.
proof fn lemma_first_stays(style: PathStyle, locations: Seq<LayerLocation>, count: int)
    requires
        0 <= count <= locations.len(),
        first_absolute(style, locations.take(count)) is Some,
    ensures
        first_absolute(style, locations) == first_absolute(style, locations.take(count)),
    decreases locations.len() - count,
{
    if count < locations.len() {
        assert(locations.take(count + 1).drop_last() =~= locations.take(count));
        lemma_first_stays(style, locations, count + 1);
    } else {
        assert(locations.take(count) =~= locations);
    }
}

/// Where layers are looked for, lowest priority first.
pub fn discovery_candidates(
    style: PathStyle,
    program_data: &Vec<LayerLocation>,
    homes: &Vec<LayerLocation>,
    working: String,
) -> (paths: Vec<String>)
    ensures
        super::model::texts(paths@) == candidates(style, program_data@, homes@, working@),
{
    let mut paths: Vec<String> = Vec::new();
    match style {
        PathStyle::Posix => {
            paths.push("/etc/agent-speak.toml".to_string());
        },
        PathStyle::Windows => {
            if let Some(layer) = find_absolute(style, program_data) {
                paths.push(layer);
            }
        },
    }
    if let Some(layer) = find_absolute(style, homes) {
        paths.push(layer);
    }
    paths.push(working);
    assert(super::model::texts(paths@) =~= candidates(style, program_data@, homes@, working@));
    paths
}

// The `[tts]` table.

/// The `[tts]` table as it is written.
#[derive(Debug)]
pub struct RawTtsConfig {
    pub enabled: bool,
    pub maximum_characters: usize,
    pub backend: String,
    pub voice_id: Option<String>,
    pub model_id: Option<String>,
    pub audio_deliveries: Option<Vec<AudioDelivery>>,
    pub provider_environment: Option<Vec<String>>,
    pub provider_options: Option<TomlTable>,
    pub utterance_options: Option<TomlTable>,
    pub agent_utterance_options: Option<Vec<String>>,
}

impl RawTtsConfig {
    /// A field is set that only a provider has.
    pub open spec fn has_provider_fields(self) -> bool {
        ||| self.model_id is Some
        ||| self.audio_deliveries is Some
        ||| self.provider_environment is Some
        ||| self.provider_options is Some
        ||| self.utterance_options is Some
        ||| self.agent_utterance_options is Some
    }

    pub open spec fn well_formed(self) -> bool {
        &&& self.provider_options matches Some(table) ==> table.well_formed()
        &&& self.utterance_options matches Some(table) ==> table.well_formed()
    }
}

/// `utterpipe-` stands before the provider in a backend name.
pub open spec fn names_provider(backend: Seq<char>) -> bool {
    backend.len() >= "utterpipe-"@.len() && backend.take("utterpipe-"@.len() as int)
        == "utterpipe-"@
}

/// The provider in a backend name.
pub open spec fn provider_in(backend: Seq<char>) -> Seq<char> {
    backend.skip("utterpipe-"@.len() as int)
}

fn provider_of(backend: &str) -> (provider: Option<String>)
    ensures
        match provider {
            Some(provider) => names_provider(backend@) && provider@ == provider_in(backend@),
            None => !names_provider(backend@),
        },
{
    let prefix: Vec<char> = characters("utterpipe-");
    let chars: Vec<char> = characters(backend);
    if chars.len() < prefix.len() {
        return None;
    }
    let mut i: usize = 0;
    while i < prefix.len()
        invariant
            i <= prefix@.len() <= chars@.len(),
            prefix@ == "utterpipe-"@,
            chars@ == backend@,
            forall|j: int| 0 <= j < i ==> #[trigger] chars@[j] == prefix@[j],
        decreases prefix@.len() - i,
    {
        if chars[i] != prefix[i] {
            assert(backend@.take(prefix@.len() as int)[i as int] != prefix@[i as int]);
            return None;
        }
        i += 1;
    }
    assert(backend@.take(prefix@.len() as int) =~= prefix@);
    let mut rest: Vec<char> = Vec::new();
    let mut k: usize = prefix.len();
    while k < chars.len()
        invariant
            prefix@.len() <= k <= chars@.len(),
            rest@ == chars@.subrange(prefix@.len() as int, k as int),
        decreases chars@.len() - k,
    {
        rest.push(chars[k]);
        k += 1;
        assert(rest@ =~= chars@.subrange(prefix@.len() as int, k as int));
    }
    assert(rest@ =~= provider_in(backend@));
    Some(text_of(&rest))
}

/// The contents of an optional list; an absent one is empty.
pub open spec fn or_empty<T>(list: Option<Vec<T>>) -> Seq<T> {
    match list {
        Some(list) => list@,
        None => Seq::empty(),
    }
}

/// The contents of an optional table; an absent one is empty.
pub open spec fn or_no_entries(table: Option<TomlTable>) -> Map<Seq<char>, TomlModel> {
    match table {
        Some(table) => table.model(),
        None => Map::empty(),
    }
}

impl TtsConfig {
    /// Choose the backend that a `[tts]` table names, with the fields that it
    /// may have.
    pub fn from_raw(raw: RawTtsConfig) -> (result: Result<Self, String>)
        requires
            raw.well_formed(),
        ensures
            if raw.backend@ == "system"@ && raw.has_provider_fields() {
                result matches Err(message) && message@
                    == "provider fields are not allowed for the system TTS backend"@
            } else if raw.backend@ == "system"@ {
                result matches Ok(tts) && tts.enabled == raw.enabled && tts.maximum_characters
                    == raw.maximum_characters && (tts.backend matches TtsBackend::System(system)
                    && system.voice_id@ == match raw.voice_id {
                    Some(voice) => voice@,
                    None => Seq::<char>::empty(),
                })
            } else if names_provider(raw.backend@) {
                result matches Ok(tts) && tts.enabled == raw.enabled && tts.maximum_characters
                    == raw.maximum_characters && (tts.backend matches TtsBackend::Utterpipe(
                    provider,
                ) && {
                    &&& provider.provider@ == provider_in(raw.backend@)
                    &&& provider.model_id == raw.model_id
                    &&& provider.voice_id == raw.voice_id
                    &&& provider.audio_deliveries@ == or_empty(raw.audio_deliveries)
                    &&& provider.provider_environment@ == or_empty(raw.provider_environment)
                    &&& provider.provider_options.model() == or_no_entries(raw.provider_options)
                    &&& provider.utterance_options.model() == or_no_entries(raw.utterance_options)
                    &&& provider.agent_utterance_options@ == or_empty(raw.agent_utterance_options)
                    &&& provider.well_formed()
                })
            } else {
                result matches Err(message) && message@
                    == "backend must be 'system' or an 'utterpipe-<provider>' executable name"@
            },
    {
        if same_text(raw.backend.as_str(), "system") {
            if raw.model_id.is_some() || raw.audio_deliveries.is_some()
                || raw.provider_environment.is_some() || raw.provider_options.is_some()
                || raw.utterance_options.is_some() || raw.agent_utterance_options.is_some() {
                return Err(
                    "provider fields are not allowed for the system TTS backend".to_string(),
                );
            }
            return Ok(
                TtsConfig {
                    enabled: raw.enabled,
                    backend: TtsBackend::System(
                        SystemTtsConfig {
                            voice_id: match raw.voice_id {
                                Some(voice) => voice,
                                None => String::new(),
                            },
                        },
                    ),
                    maximum_characters: raw.maximum_characters,
                },
            );
        }
        match provider_of(raw.backend.as_str()) {
            None => Err(
                "backend must be 'system' or an 'utterpipe-<provider>' executable name".to_string(),
            ),
            Some(provider) => Ok(
                TtsConfig {
                    enabled: raw.enabled,
                    backend: TtsBackend::Utterpipe(
                        UtterPipeTtsConfig {
                            provider,
                            model_id: raw.model_id,
                            voice_id: raw.voice_id,
                            audio_deliveries: match raw.audio_deliveries {
                                Some(list) => list,
                                None => Vec::new(),
                            },
                            provider_environment: match raw.provider_environment {
                                Some(list) => list,
                                None => Vec::new(),
                            },
                            provider_options: match raw.provider_options {
                                Some(table) => table,
                                None => TomlTable::new(),
                            },
                            utterance_options: match raw.utterance_options {
                                Some(table) => table,
                                None => TomlTable::new(),
                            },
                            agent_utterance_options: match raw.agent_utterance_options {
                                Some(list) => list,
                                None => Vec::new(),
                            },
                        },
                    ),
                    maximum_characters: raw.maximum_characters,
                },
            ),
        }
    }
}

impl TtsBackend {
    /// The name under which a backend is configured.
    pub open spec fn name_text(self) -> Seq<char> {
        match self {
            TtsBackend::System(_) => "system"@,
            TtsBackend::Utterpipe(provider) => "utterpipe-"@ + provider.provider@,
        }
    }

    pub fn name(&self) -> (name: String)
        ensures
            name@ == self.name_text(),
    {
        match self {
            TtsBackend::System(_) => "system".to_string(),
            TtsBackend::Utterpipe(provider) => join("utterpipe-", provider.provider.as_str()),
        }
    }
}

} // verus!
