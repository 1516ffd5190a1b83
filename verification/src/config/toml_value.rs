//! TOML documents as plain values, and how one is laid over another.
use crate::gain::Gain;
use crate::text::same_text;
use vstd::prelude::*;

verus! {

/// The largest integer that a JSON number holds exactly.
pub const LARGEST_EXACT_INTEGER: i64 = 9_007_199_254_740_991;

/// A day of a TOML date.
#[derive(Clone, Copy, Debug, PartialEq, Eq, Structural)]
pub struct TomlDate {
    pub year: u16,
    pub month: u8,
    pub day: u8,
}

/// A time of day of a TOML date.
#[derive(Clone, Copy, Debug, PartialEq, Eq, Structural)]
pub struct TomlTime {
    pub hour: u8,
    pub minute: u8,
    pub second: Option<u8>,
    pub nanosecond: Option<u32>,
}

/// How far the time of a TOML date stands from UTC.
#[derive(Clone, Copy, Debug, PartialEq, Eq, Structural)]
pub enum TomlOffset {
    /// Written as `Z`.
    Utc,
    Minutes(i16),
}

/// A TOML date: a day, a time or both, and an offset where one is given.
#[derive(Clone, Copy, Debug, PartialEq, Eq, Structural)]
pub struct TomlDatetime {
    pub date: Option<TomlDate>,
    pub time: Option<TomlTime>,
    pub offset: Option<TomlOffset>,
}

/// One TOML value.
#[derive(Debug, PartialEq, Eq)]
pub enum TomlValue {
    Text(String),
    Integer(i64),
    /// The bit pattern of a double.
    Float(u64),
    Boolean(bool),
    Datetime(TomlDatetime),
    Array(Vec<TomlValue>),
    Table(TomlTable),
}

/// A TOML table: values by distinct keys.
#[derive(Debug, PartialEq, Eq)]
pub struct TomlTable {
    entries: Vec<(String, TomlValue)>,
}

/// What a TOML value says.
#[verifier::ext_equal]
pub enum TomlModel {
    Text(Seq<char>),
    Integer(i64),
    Float(u64),
    Boolean(bool),
    Datetime(TomlDatetime),
    Array(Seq<TomlModel>),
    Table(Map<Seq<char>, TomlModel>),
}

/// A value laid over what a key held: tables merge key by key, anything else
/// replaces what was there.
pub open spec fn merged_value(base: Option<TomlModel>, incoming: TomlModel) -> TomlModel
    decreases incoming,
{
    match (base, incoming) {
        (Some(TomlModel::Table(under)), TomlModel::Table(over)) => TomlModel::Table(
            Map::new(
                |key: Seq<char>| under.contains_key(key) || over.contains_key(key),
                |key: Seq<char>|
                    if over.contains_key(key) {
                        merged_value(held(under, key), over[key])
                    } else {
                        under[key]
                    },
            ),
        ),
        _ => incoming,
    }
}

/// Lay a table over another.
pub open spec fn merged(
    base: Map<Seq<char>, TomlModel>,
    incoming: Map<Seq<char>, TomlModel>,
) -> Map<Seq<char>, TomlModel> {
    Map::new(
        |key: Seq<char>| base.contains_key(key) || incoming.contains_key(key),
        |key: Seq<char>|
            if incoming.contains_key(key) {
                merged_value(held(base, key), incoming[key])
            } else {
                base[key]
            },
    )
}

/// What a key holds.
pub open spec fn held(table: Map<Seq<char>, TomlModel>, key: Seq<char>) -> Option<TomlModel> {
    if table.contains_key(key) {
        Some(table[key])
    } else {
        None
    }
}

/// A value that JSON can carry without loss.
pub open spec fn json_compatible(value: TomlModel) -> bool
    decreases value,
{
    match value {
        TomlModel::Text(_) => true,
        TomlModel::Boolean(_) => true,
        TomlModel::Integer(number) => -LARGEST_EXACT_INTEGER <= number <= LARGEST_EXACT_INTEGER,
        TomlModel::Float(bits) => (Gain { bits }).finite(),
        TomlModel::Datetime(_) => false,
        TomlModel::Array(items) => forall|i: int|
            0 <= i < items.len() ==> json_compatible(#[trigger] items[i]),
        TomlModel::Table(table) => forall|key: Seq<char>| #[trigger]
            table.contains_key(key) ==> json_compatible(table[key]),
    }
}

impl TomlValue {
    pub closed spec fn model(self) -> TomlModel
        decreases self,
    {
        match self {
            TomlValue::Text(text) => TomlModel::Text(text@),
            TomlValue::Integer(number) => TomlModel::Integer(number),
            TomlValue::Float(bits) => TomlModel::Float(bits),
            TomlValue::Boolean(flag) => TomlModel::Boolean(flag),
            TomlValue::Datetime(date) => TomlModel::Datetime(date),
            TomlValue::Array(items) => TomlModel::Array(items_model(items@)),
            TomlValue::Table(table) => TomlModel::Table(table.model()),
        }
    }
}

/// What a list of values says.
pub closed spec fn items_model(items: Seq<TomlValue>) -> Seq<TomlModel>
    decreases items,
{
    if items.len() == 0 {
        Seq::empty()
    } else {
        items_model(items.drop_last()).push(items.last().model())
    }
}

/// What a list of entries says.
pub closed spec fn entries_model(entries: Seq<(String, TomlValue)>) -> Map<Seq<char>, TomlModel>
    decreases entries,
{
    if entries.len() == 0 {
        Map::empty()
    } else {
        entries_model(entries.drop_last()).insert(entries.last().0@, entries.last().1.model())
    }
}

impl TomlTable {
    pub closed spec fn model(self) -> Map<Seq<char>, TomlModel>
        decreases self,
    {
        entries_model(self.entries@)
    }
}

/// No key occurs twice.
pub closed spec fn distinct_keys(entries: Seq<(String, TomlValue)>) -> bool {
    forall|i: int, j: int|
        0 <= i < j < entries.len() ==> (#[trigger] entries[i]).0@ != (#[trigger] entries[j]).0@
}

impl TomlValue {
    /// Every table in the value has distinct keys.
    pub closed spec fn well_formed(self) -> bool
        decreases self,
    {
        match self {
            TomlValue::Array(items) => forall|i: int|
                0 <= i < items@.len() ==> (#[trigger] items@[i]).well_formed(),
            TomlValue::Table(table) => table.well_formed(),
            _ => true,
        }
    }
}

impl TomlTable {
    /// The table and every table in it have distinct keys.
    pub closed spec fn well_formed(self) -> bool
        decreases self,
    {
        &&& distinct_keys(self.entries@)
        &&& forall|i: int|
            0 <= i < self.entries@.len() ==> (#[trigger] self.entries@[i]).1.well_formed()
    }
}

/// A list of entries with distinct keys says what each entry says, and no more.
proof fn lemma_entries(entries: Seq<(String, TomlValue)>)
    requires
        distinct_keys(entries),
    ensures
        forall|i: int|
            0 <= i < entries.len() ==> entries_model(entries).contains_key(
                (#[trigger] entries[i]).0@,
            ) && entries_model(entries)[entries[i].0@] == entries[i].1.model(),
        forall|key: Seq<char>| #[trigger]
            entries_model(entries).contains_key(key) ==> exists|i: int|
                0 <= i < entries.len() && (#[trigger] entries[i]).0@ == key,
    decreases entries.len(),
{
    if entries.len() > 0 {
        let fewer = entries.drop_last();
        assert forall|i: int, j: int| 0 <= i < j < fewer.len() implies (#[trigger] fewer[i]).0@ != (
        #[trigger] fewer[j]).0@ by {
            assert(entries[i].0@ != entries[j].0@);
        }
        lemma_entries(fewer);
        assert forall|i: int| 0 <= i < entries.len() implies entries_model(entries).contains_key(
            (#[trigger] entries[i]).0@,
        ) && entries_model(entries)[entries[i].0@] == entries[i].1.model() by {
            if i < fewer.len() {
                assert(fewer[i] == entries[i]);
                assert(entries[i].0@ != entries[entries.len() - 1].0@);
            }
        }
        assert forall|key: Seq<char>| #[trigger]
            entries_model(entries).contains_key(key) implies exists|i: int|
            0 <= i < entries.len() && (#[trigger] entries[i]).0@ == key by {
            if key == entries.last().0@ {
                assert(entries[entries.len() - 1].0@ == key);
            } else {
                let i = choose|i: int| 0 <= i < fewer.len() && (#[trigger] fewer[i]).0@ == key;
                assert(entries[i].0@ == key);
            }
        }
    }
}

/// Leaving out one entry leaves out its key.
proof fn lemma_remove_entry(entries: Seq<(String, TomlValue)>, at: int)
    requires
        distinct_keys(entries),
        0 <= at < entries.len(),
    ensures
        distinct_keys(entries.remove(at)),
        entries_model(entries.remove(at)) == entries_model(entries).remove(entries[at].0@),
{
    let rest = entries.remove(at);
    let key = entries[at].0@;
    assert forall|i: int, j: int| 0 <= i < j < rest.len() implies (#[trigger] rest[i]).0@ != (
    #[trigger] rest[j]).0@ by {
        let a = if i < at {
            i
        } else {
            i + 1
        };
        let b = if j < at {
            j
        } else {
            j + 1
        };
        assert(entries[a].0@ != entries[b].0@);
    }
    lemma_entries(entries);
    lemma_entries(rest);
    assert forall|other: Seq<char>|
        entries_model(rest).contains_key(other) <==> entries_model(entries).contains_key(other)
            && other != key by {
        if entries_model(rest).contains_key(other) {
            let i = choose|i: int| 0 <= i < rest.len() && (#[trigger] rest[i]).0@ == other;
            let a = if i < at {
                i
            } else {
                i + 1
            };
            assert(entries[a].0@ == other);
            assert(entries[at].0@ == key);
        }
        if entries_model(entries).contains_key(other) && other != key {
            let a = choose|a: int| 0 <= a < entries.len() && (#[trigger] entries[a]).0@ == other;
            let i = if a < at {
                a
            } else {
                a - 1
            };
            assert(rest[i].0@ == other);
        }
    }
    assert forall|other: Seq<char>| entries_model(rest).contains_key(other) implies entries_model(
        rest,
    )[other] == entries_model(entries)[other] by {
        let i = choose|i: int| 0 <= i < rest.len() && (#[trigger] rest[i]).0@ == other;
        let a = if i < at {
            i
        } else {
            i + 1
        };
        assert(entries[a].0@ == other);
        assert(rest[i].0@ == other);
    }
    assert(entries_model(rest) =~= entries_model(entries).remove(key));
}

/// A new entry at the end adds its key.
proof fn lemma_push_entry(entries: Seq<(String, TomlValue)>, entry: (String, TomlValue))
    requires
        distinct_keys(entries),
        !entries_model(entries).contains_key(entry.0@),
    ensures
        distinct_keys(entries.push(entry)),
        entries_model(entries.push(entry)) == entries_model(entries).insert(
            entry.0@,
            entry.1.model(),
        ),
{
    lemma_entries(entries);
    let more = entries.push(entry);
    assert forall|i: int, j: int| 0 <= i < j < more.len() implies (#[trigger] more[i]).0@ != (
    #[trigger] more[j]).0@ by {
        assert(more[i] == entries[i]);
        if j < entries.len() {
            assert(entries[i].0@ != entries[j].0@);
        }
    }
    assert(more.drop_last() =~= entries);
}

impl TomlTable {
    pub fn new() -> (table: Self)
        ensures
            table.well_formed(),
            table.model() == Map::<Seq<char>, TomlModel>::empty(),
    {
        TomlTable { entries: Vec::new() }
    }

    /// Every entry, each under its own key.
    pub fn into_entries(self) -> (entries: Vec<(String, TomlValue)>)
        requires
            self.well_formed(),
        ensures
            forall|i: int|
                0 <= i < entries@.len() ==> (#[trigger] entries@[i]).1.well_formed()
                    && self.model().contains_key(entries@[i].0@) && self.model()[entries@[i].0@]
                    == entries@[i].1.model(),
            forall|i: int, j: int|
                0 <= i < j < entries@.len() ==> (#[trigger] entries@[i]).0@ != (
                #[trigger] entries@[j]).0@,
            forall|key: Seq<char>| #[trigger]
                self.model().contains_key(key) ==> exists|i: int|
                    0 <= i < entries@.len() && (#[trigger] entries@[i]).0@ == key,
    {
        proof {
            lemma_entries(self.entries@);
        }
        self.entries
    }

    fn position(&self, key: &str) -> (position: Option<usize>)
        requires
            distinct_keys(self.entries@),
        ensures
            match position {
                Some(i) => i < self.entries@.len() && self.entries@[i as int].0@ == key@
                    && self.model().contains_key(key@) && self.model()[key@]
                    == self.entries@[i as int].1.model(),
                None => !self.model().contains_key(key@),
            },
    {
        proof {
            lemma_entries(self.entries@);
        }
        let mut i: usize = 0;
        while i < self.entries.len()
            invariant
                i <= self.entries@.len(),
                distinct_keys(self.entries@),
                forall|j: int| 0 <= j < i ==> (#[trigger] self.entries@[j]).0@ != key@,
            decreases self.entries@.len() - i,
        {
            if same_text(self.entries[i].0.as_str(), key) {
                proof {
                    lemma_entries(self.entries@);
                }
                return Some(i);
            }
            i += 1;
        }
        None
    }

    /// The value of a key.
    pub fn get(&self, key: &str) -> (value: Option<&TomlValue>)
        requires
            self.well_formed(),
        ensures
            match value {
                Some(value) => held(self.model(), key@) == Some(value.model())
                    && value.well_formed(),
                None => held(self.model(), key@) is None,
            },
    {
        match self.position(key) {
            Some(i) => {
                assert(self.entries@[i as int].1.well_formed());
                Some(&self.entries[i].1)
            },
            None => None,
        }
    }

    pub fn contains_key(&self, key: &str) -> (found: bool)
        requires
            self.well_formed(),
        ensures
            found == self.model().contains_key(key@),
    {
        self.position(key).is_some()
    }

    /// Take a key out of the table.
    pub fn remove(&mut self, key: &str) -> (value: Option<TomlValue>)
        requires
            old(self).well_formed(),
        ensures
            final(self).well_formed(),
            final(self).model() == old(self).model().remove(key@),
            match value {
                Some(value) => held(old(self).model(), key@) == Some(value.model())
                    && value.well_formed() && decreases_to!(*old(self) => value),
                None => held(old(self).model(), key@) is None,
            },
    {
        match self.position(key) {
            Some(i) => {
                let ghost before = self.entries@;
                proof {
                    lemma_remove_entry(before, i as int);
                    assert(before[i as int].1.well_formed());
                    assert(decreases_to!(before => before[i as int]));
                }
                let (_, value) = self.entries.remove(i);
                assert forall|j: int| 0 <= j < self.entries@.len() implies (
                #[trigger] self.entries@[j]).1.well_formed() by {
                    let a = if j < i {
                        j
                    } else {
                        j + 1
                    };
                    assert(before[a].1.well_formed());
                }
                Some(value)
            },
            None => {
                assert(self.model().remove(key@) =~= self.model());
                None
            },
        }
    }

    /// Set the value of a key.
    pub fn insert(&mut self, key: String, value: TomlValue)
        requires
            old(self).well_formed(),
            value.well_formed(),
        ensures
            final(self).well_formed(),
            final(self).model() == old(self).model().insert(key@, value.model()),
    {
        let ghost before = self.model();
        self.remove(key.as_str());
        let ghost removed = self.entries@;
        proof {
            lemma_push_entry(removed, (key, value));
            assert(before.remove(key@).insert(key@, value.model()) =~= before.insert(
                key@,
                value.model(),
            ));
        }
        self.entries.push((key, value));
        assert forall|j: int| 0 <= j < self.entries@.len() implies (
        #[trigger] self.entries@[j]).1.well_formed() by {
            if j < removed.len() {
                assert(removed[j].1.well_formed());
            }
        }
    }
}

/// Lay a table over another.
pub fn merge_tables(base: &mut TomlTable, incoming: TomlTable)
    requires
        old(base).well_formed(),
        incoming.well_formed(),
    ensures
        final(base).well_formed(),
        final(base).model() == merged(old(base).model(), incoming.model()),
    decreases incoming,
{
    let ghost under = base.model();
    let ghost all = incoming.entries@;
    let mut rest = incoming.entries;
    let ghost mut done: int = 0;
    proof {
        lemma_entries(all);
        assert(all.take(0) =~= Seq::empty());
        assert(under =~= merged(under, entries_model(all.take(0))));
    }
    while rest.len() > 0
        invariant
            base.well_formed(),
            incoming.well_formed(),
            all == incoming.entries@,
            0 <= done,
            done + rest@.len() == all.len(),
            rest@ == all.skip(done),
            base.model() == merged(under, entries_model(all.take(done))),
        decreases rest@.len(),
    {
        let ghost seen = entries_model(all.take(done));
        proof {
            assert(all.take(done + 1).drop_last() =~= all.take(done));
            assert(all[done].1.well_formed());
            assert(decreases_to!(incoming => all[done]));
            lemma_prefix_is_distinct(all, done);
            lemma_entries(all.take(done));
            if seen.contains_key(all[done].0@) {
                let i = choose|i: int|
                    0 <= i < done && (#[trigger] all.take(done)[i]).0@ == all[done].0@;
                assert(all[i].0@ == all[done].0@);
            }
        }
        let (key, value) = rest.remove(0);
        assert(key == all[done].0 && value == all[done].1);
        let ghost before = base.model();
        let ghost laid = value.model();
        let current = base.remove(key.as_str());
        match (current, value) {
            (Some(TomlValue::Table(mut lower)), TomlValue::Table(upper)) => {
                proof {
                    lemma_tables_merge(lower.model(), upper.model());
                }
                merge_tables(&mut lower, upper);
                base.insert(key, TomlValue::Table(lower));
            },
            (_, value) => {
                base.insert(key, value);
            },
        }
        proof {
            let result = merged_value(held(under, key@), laid);
            assert(held(before, key@) == held(under, key@));
            assert(base.model() =~= before.insert(key@, result));
            assert(merged(under, seen.insert(key@, laid)) =~= merged(under, seen).insert(
                key@,
                result,
            ));
            assert(rest@ =~= all.skip(done + 1));
            done = done + 1;
        }
    }
    assert(all.take(done) =~= all);
}

/// Laying a table over a table is laying their entries.
proof fn lemma_tables_merge(under: Map<Seq<char>, TomlModel>, over: Map<Seq<char>, TomlModel>)
    ensures
        merged_value(Some(TomlModel::Table(under)), TomlModel::Table(over)) == TomlModel::Table(
            merged(under, over),
        ),
{
    let whole = merged_value(Some(TomlModel::Table(under)), TomlModel::Table(over));
    assert(whole->Table_0 =~= merged(under, over));
}

/// A part of a list with distinct keys has distinct keys.
proof fn lemma_prefix_is_distinct(entries: Seq<(String, TomlValue)>, count: int)
    requires
        distinct_keys(entries),
        0 <= count <= entries.len(),
    ensures
        distinct_keys(entries.take(count)),
{
    assert forall|i: int, j: int| 0 <= i < j < count implies (
    #[trigger] entries.take(count)[i]).0@ != (#[trigger] entries.take(count)[j]).0@ by {
        assert(entries[i].0@ != entries[j].0@);
    }
}

/// Two values are the same: numbers by value, everything else by content.
pub open spec fn same(left: TomlModel, right: TomlModel) -> bool
    decreases left,
{
    match (left, right) {
        (TomlModel::Text(a), TomlModel::Text(b)) => a == b,
        (TomlModel::Integer(a), TomlModel::Integer(b)) => a == b,
        (TomlModel::Float(a), TomlModel::Float(b)) => {
            &&& !(Gain { bits: a }).nan()
            &&& !(Gain { bits: b }).nan()
            &&& (Gain { bits: a }).rank() == (Gain { bits: b }).rank()
        },
        (TomlModel::Boolean(a), TomlModel::Boolean(b)) => a == b,
        (TomlModel::Datetime(a), TomlModel::Datetime(b)) => a == b,
        (TomlModel::Array(a), TomlModel::Array(b)) => {
            &&& a.len() == b.len()
            &&& forall|i: int| 0 <= i < a.len() ==> same(#[trigger] a[i], b[i])
        },
        (TomlModel::Table(a), TomlModel::Table(b)) => {
            &&& a.dom() == b.dom()
            &&& forall|key: Seq<char>| #[trigger] a.contains_key(key) ==> same(a[key], b[key])
        },
        _ => false,
    }
}

/// A list of values says what each value says.
proof fn lemma_items(items: Seq<TomlValue>)
    ensures
        items_model(items).len() == items.len(),
        forall|i: int|
            0 <= i < items.len() ==> #[trigger] items_model(items)[i] == items[i].model(),
    decreases items.len(),
{
    if items.len() > 0 {
        lemma_items(items.drop_last());
    }
}

/// Whether two values are the same.
pub fn same_value(left: &TomlValue, right: &TomlValue) -> (result: bool)
    requires
        left.well_formed(),
        right.well_formed(),
    ensures
        result == same(left.model(), right.model()),
    decreases *left,
{
    match (left, right) {
        (TomlValue::Text(a), TomlValue::Text(b)) => same_text(a.as_str(), b.as_str()),
        (TomlValue::Integer(a), TomlValue::Integer(b)) => *a == *b,
        (TomlValue::Float(a), TomlValue::Float(b)) => {
            let a = Gain { bits: *a };
            let b = Gain { bits: *b };
            !a.is_nan() && !b.is_nan() && !a.is_below(b) && !b.is_below(a)
        },
        (TomlValue::Boolean(a), TomlValue::Boolean(b)) => *a == *b,
        (TomlValue::Datetime(a), TomlValue::Datetime(b)) => *a == *b,
        (TomlValue::Array(a), TomlValue::Array(b)) => {
            proof {
                lemma_items(a@);
                lemma_items(b@);
            }
            if a.len() != b.len() {
                return false;
            }
            let ghost left_items = items_model(a@);
            let ghost right_items = items_model(b@);
            let mut i: usize = 0;
            while i < a.len()
                invariant
                    i <= a@.len(),
                    a@.len() == b@.len(),
                    left_items == items_model(a@),
                    right_items == items_model(b@),
                    left_items.len() == a@.len(),
                    right_items.len() == b@.len(),
                    *left == TomlValue::Array(*a),
                    left.well_formed(),
                    right.well_formed(),
                    *right == TomlValue::Array(*b),
                    forall|j: int| 0 <= j < i ==> same(#[trigger] left_items[j], right_items[j]),
                decreases a@.len() - i,
            {
                proof {
                    lemma_items(a@);
                    lemma_items(b@);
                    assert(a@[i as int].well_formed());
                    assert(b@[i as int].well_formed());
                    assert(decreases_to!(a@ => a@[i as int]));
                }
                if !same_value(&a[i], &b[i]) {
                    assert(!same(left_items[i as int], right_items[i as int]));
                    return false;
                }
                i += 1;
            }
            true
        },
        (TomlValue::Table(a), TomlValue::Table(b)) => same_table(a, b),
        _ => false,
    }
}

fn same_table(left: &TomlTable, right: &TomlTable) -> (result: bool)
    requires
        left.well_formed(),
        right.well_formed(),
    ensures
        result == same(TomlModel::Table(left.model()), TomlModel::Table(right.model())),
    decreases *left,
{
    let ghost a = left.model();
    let ghost b = right.model();
    let mut i: usize = 0;
    while i < left.entries.len()
        invariant
            i <= left.entries@.len(),
            a == left.model(),
            b == right.model(),
            left.well_formed(),
            right.well_formed(),
            forall|j: int|
                0 <= j < i ==> b.contains_key((#[trigger] left.entries@[j]).0@) && same(
                    left.entries@[j].1.model(),
                    b[left.entries@[j].0@],
                ),
        decreases left.entries@.len() - i,
    {
        let ghost key = left.entries@[i as int].0@;
        proof {
            lemma_entries(left.entries@);
            assert(left.entries@[i as int].1.well_formed());
            assert(decreases_to!(left.entries@ => left.entries@[i as int]));
            assert(a.contains_key(key));
        }
        match right.get(left.entries[i].0.as_str()) {
            None => {
                assert(!b.dom().contains(key));
                assert(a.dom().contains(key));
                return false;
            },
            Some(value) => if !same_value(&left.entries[i].1, value) {
                assert(!same(a[key], b[key]));
                return false;
            },
        }
        i += 1;
    }
    proof {
        lemma_entries(left.entries@);
        lemma_entries(right.entries@);
        assert forall|key: Seq<char>| #[trigger] a.contains_key(key) implies b.contains_key(key)
            && same(a[key], b[key]) by {
            let j = choose|j: int|
                0 <= j < left.entries@.len() && (#[trigger] left.entries@[j]).0@ == key;
            assert(left.entries@[j].0@ == key);
        }
    }
    let mut k: usize = 0;
    while k < right.entries.len()
        invariant
            k <= right.entries@.len(),
            a == left.model(),
            b == right.model(),
            left.well_formed(),
            right.well_formed(),
            forall|j: int| 0 <= j < k ==> a.contains_key((#[trigger] right.entries@[j]).0@),
        decreases right.entries@.len() - k,
    {
        if !left.contains_key(right.entries[k].0.as_str()) {
            proof {
                lemma_entries(right.entries@);
                assert(b.dom().contains(right.entries@[k as int].0@));
                assert(!a.dom().contains(right.entries@[k as int].0@));
            }
            return false;
        }
        k += 1;
    }
    proof {
        lemma_entries(right.entries@);
        assert forall|key: Seq<char>| b.dom().contains(key) implies a.dom().contains(key) by {
            assert(b.contains_key(key));
            let j = choose|j: int|
                0 <= j < right.entries@.len() && (#[trigger] right.entries@[j]).0@ == key;
            assert(right.entries@[j].0@ == key);
        }
        assert forall|key: Seq<char>| a.dom().contains(key) implies b.dom().contains(key) by {
            assert(a.contains_key(key));
        }
        assert(a.dom() =~= b.dom());
    }
    true
}

impl TomlValue {
    pub fn new_text(text: String) -> (value: Self)
        ensures
            value.well_formed(),
            value.model() == TomlModel::Text(text@),
    {
        TomlValue::Text(text)
    }

    pub fn new_integer(number: i64) -> (value: Self)
        ensures
            value.well_formed(),
            value.model() == TomlModel::Integer(number),
    {
        TomlValue::Integer(number)
    }

    /// A number by the bit pattern of a double.
    pub fn new_float(bits: u64) -> (value: Self)
        ensures
            value.well_formed(),
            value.model() == TomlModel::Float(bits),
    {
        TomlValue::Float(bits)
    }

    pub fn new_boolean(flag: bool) -> (value: Self)
        ensures
            value.well_formed(),
            value.model() == TomlModel::Boolean(flag),
    {
        TomlValue::Boolean(flag)
    }

    pub fn new_datetime(date: TomlDatetime) -> (value: Self)
        ensures
            value.well_formed(),
            value.model() == TomlModel::Datetime(date),
    {
        TomlValue::Datetime(date)
    }

    pub fn new_array(items: Vec<TomlValue>) -> (value: Self)
        requires
            forall|i: int| 0 <= i < items@.len() ==> (#[trigger] items@[i]).well_formed(),
        ensures
            value.well_formed(),
            value.model() is Array,
            value.model()->Array_0.len() == items@.len(),
            forall|i: int|
                0 <= i < items@.len() ==> #[trigger] value.model()->Array_0[i]
                    == items@[i].model(),
    {
        proof {
            lemma_items(items@);
        }
        TomlValue::Array(items)
    }

    /// The table that the value is, if it is one.
    pub fn as_table(&self) -> (table: Option<&TomlTable>)
        requires
            self.well_formed(),
        ensures
            match table {
                Some(table) => table.well_formed() && self.model() == TomlModel::Table(
                    table.model(),
                ),
                None => !(self.model() is Table),
            },
    {
        match self {
            TomlValue::Table(table) => Some(table),
            _ => None,
        }
    }

    /// Turn the value into the table that it is, if it is one.
    pub fn into_table(self) -> (table: Option<TomlTable>)
        requires
            self.well_formed(),
        ensures
            match table {
                Some(table) => table.well_formed() && self.model() == TomlModel::Table(
                    table.model(),
                ),
                None => !(self.model() is Table),
            },
    {
        match self {
            TomlValue::Table(table) => Some(table),
            _ => None,
        }
    }

    pub fn new_table(table: TomlTable) -> (value: Self)
        requires
            table.well_formed(),
        ensures
            value.well_formed(),
            value.model() == TomlModel::Table(table.model()),
    {
        TomlValue::Table(table)
    }
}

/// One value that JSON cannot carry spoils the list.
proof fn lemma_item_spoils_array(items: Seq<TomlModel>, i: int)
    requires
        0 <= i < items.len(),
        !json_compatible(items[i]),
    ensures
        !json_compatible(TomlModel::Array(items)),
{
    let whole = TomlModel::Array(items);
    assert(whole is Array && whole->Array_0 == items);
    if json_compatible(whole) {
        assert(json_compatible(items[i]));
    }
}

/// One value that JSON cannot carry spoils the table.
proof fn lemma_entry_spoils_table(table: Map<Seq<char>, TomlModel>, key: Seq<char>)
    requires
        table.contains_key(key),
        !json_compatible(table[key]),
    ensures
        !json_compatible(TomlModel::Table(table)),
{
    let whole = TomlModel::Table(table);
    assert(whole is Table && whole->Table_0 == table);
    if json_compatible(whole) {
        assert(json_compatible(table[key]));
    }
}

impl TomlValue {
    /// Whether JSON can carry the value without loss.
    pub fn is_json_compatible(&self) -> (compatible: bool)
        requires
            self.well_formed(),
        ensures
            compatible == json_compatible(self.model()),
        decreases *self,
    {
        match self {
            TomlValue::Text(_) => true,
            TomlValue::Boolean(_) => true,
            TomlValue::Integer(number) => -LARGEST_EXACT_INTEGER <= *number && *number
                <= LARGEST_EXACT_INTEGER,
            TomlValue::Float(bits) => (Gain { bits: *bits }).is_finite(),
            TomlValue::Datetime(_) => false,
            TomlValue::Array(items) => {
                let ghost said = items_model(items@);
                let mut i: usize = 0;
                proof {
                    lemma_items(items@);
                }
                while i < items.len()
                    invariant
                        i <= items@.len(),
                        said == items_model(items@),
                        said.len() == items@.len(),
                        *self == TomlValue::Array(*items),
                        self.well_formed(),
                        forall|j: int| 0 <= j < i ==> json_compatible(#[trigger] said[j]),
                    decreases items@.len() - i,
                {
                    proof {
                        lemma_items(items@);
                        assert(items@[i as int].well_formed());
                        assert(decreases_to!(items@ => items@[i as int]));
                    }
                    if !items[i].is_json_compatible() {
                        proof {
                            lemma_item_spoils_array(said, i as int);
                        }
                        return false;
                    }
                    i += 1;
                }
                true
            },
            TomlValue::Table(table) => table.is_json_compatible(),
        }
    }
}

impl TomlTable {
    /// Whether JSON can carry every value without loss.
    pub fn is_json_compatible(&self) -> (compatible: bool)
        requires
            self.well_formed(),
        ensures
            compatible == json_compatible(TomlModel::Table(self.model())),
        decreases *self,
    {
        let ghost said = self.model();
        let mut i: usize = 0;
        while i < self.entries.len()
            invariant
                i <= self.entries@.len(),
                said == self.model(),
                self.well_formed(),
                forall|j: int|
                    0 <= j < i ==> json_compatible((#[trigger] self.entries@[j]).1.model()),
            decreases self.entries@.len() - i,
        {
            proof {
                lemma_entries(self.entries@);
                assert(self.entries@[i as int].1.well_formed());
                assert(decreases_to!(self.entries@ => self.entries@[i as int]));
            }
            if !self.entries[i].1.is_json_compatible() {
                proof {
                    lemma_entry_spoils_table(said, self.entries@[i as int].0@);
                }
                return false;
            }
            i += 1;
        }
        proof {
            lemma_entries(self.entries@);
            assert forall|key: Seq<char>| #[trigger]
                said.contains_key(key) implies json_compatible(said[key]) by {
                let j = choose|j: int|
                    0 <= j < self.entries@.len() && (#[trigger] self.entries@[j]).0@ == key;
                assert(self.entries@[j].0@ == key);
            }
        }
        true
    }
}

} // verus!
