//! Readable, unique names for output devices.
use crate::config::model::{OutputCategory, OutputTargetConfig, OutputTargetKind, OutputsConfig};
use crate::playback::audio::OutputDevice;
use crate::text::{characters, decimal, decimal_wide, is_ascii_letter_or_digit, join, same_text, text_of};
use vstd::prelude::*;

verus! {

/// The longest name of an output target.
pub const MAXIMUM_ALIAS_CHARACTERS: usize = 64;

/// An ASCII letter in lower case; any other character as it is.
pub open spec fn lowered(c: char) -> char {
    if 'A' <= c <= 'Z' {
        (c as u32 + 32) as char
    } else {
        c
    }
}

/// The ASCII letters and digits of a name in lower case, with one hyphen between
/// two that something else stood between.
pub open spec fn hyphenated_name(name: Seq<char>) -> Seq<char>
    decreases name.len(),
{
    if name.len() == 0 {
        Seq::empty()
    } else {
        let before = hyphenated_name(name.drop_last());
        if !crate::text::ascii_alphanumeric(name.last()) {
            before
        } else if name.len() >= 2 && !crate::text::ascii_alphanumeric(name[name.len() - 2])
            && before.len() > 0 {
            before.push('-').push(lowered(name.last()))
        } else {
            before.push(lowered(name.last()))
        }
    }
}

/// The first characters of a text.
pub open spec fn cut(text: Seq<char>, length: int) -> Seq<char> {
    if text.len() <= length {
        text
    } else {
        text.take(length)
    }
}

/// The text up to its last character that is not a hyphen.
pub open spec fn without_trailing_hyphens(text: Seq<char>) -> Seq<char>
    decreases text.len(),
{
    if text.len() > 0 && text.last() == '-' {
        without_trailing_hyphens(text.drop_last())
    } else {
        text
    }
}

/// The name that a device is called by, as long as nothing else is.
pub open spec fn alias_base(name: Seq<char>, number: nat) -> Seq<char> {
    let base = without_trailing_hyphens(
        cut(hyphenated_name(name), MAXIMUM_ALIAS_CHARACTERS as int),
    );
    if base.len() == 0 {
        "device-"@ + crate::text::decimal_text(number)
    } else {
        base
    }
}

/// A hyphen and a number.
pub open spec fn numbered_suffix(number: nat) -> Seq<char> {
    seq!['-'] + crate::text::decimal_text(number)
}

/// The names to try, in their order: the base itself, then the base with a
/// number behind it, cut where that would be too long.
pub open spec fn candidate(base: Seq<char>, number: nat) -> Seq<char> {
    if number <= 1 {
        base
    } else {
        cut(base, MAXIMUM_ALIAS_CHARACTERS - numbered_suffix(number).len()) + numbered_suffix(
            number,
        )
    }
}

/// The first of the names to try that is not taken.
pub open spec fn is_first_free(base: Seq<char>, taken: Seq<Seq<char>>, alias: Seq<char>) -> bool {
    exists|number: nat|
        number >= 1 && alias == #[trigger] candidate(base, number) && !taken.contains(alias)
            && forall|earlier: nat|
            1 <= earlier < number ==> taken.contains(#[trigger] candidate(base, earlier))
}

fn lower(c: char) -> (result: char)
    requires
        crate::text::ascii_alphanumeric(c),
    ensures
        result == lowered(c),
{
    if 'A' <= c && c <= 'Z' {
        let code: u8 = c as u8;
        (code + 32) as char
    } else {
        c
    }
}

/// The base of a name, before hyphens at its end are taken off.
fn hyphenate(name: &str) -> (base: Vec<char>)
    ensures
        base@ == cut(hyphenated_name(name@), MAXIMUM_ALIAS_CHARACTERS as int),
{
    let chars = characters(name);
    let mut base: Vec<char> = Vec::new();
    let mut separator_pending = false;
    let mut i: usize = 0;
    while i < chars.len()
        invariant
            i <= chars@.len(),
            chars@ == name@,
            base@ == cut(hyphenated_name(chars@.take(i as int)), MAXIMUM_ALIAS_CHARACTERS as int),
            separator_pending == (i > 0 && !crate::text::ascii_alphanumeric(chars@[i - 1])),
        decreases chars@.len() - i,
    {
        let ghost next = chars@.take(i + 1);
        assert(next.drop_last() =~= chars@.take(i as int));
        let ghost before = hyphenated_name(chars@.take(i as int));
        let c = chars[i];
        if is_ascii_letter_or_digit(c) {
            if separator_pending && base.len() > 0 && base.len() < MAXIMUM_ALIAS_CHARACTERS {
                base.push('-');
                assert(base@ =~= before.push('-'));
            }
            separator_pending = false;
            if base.len() < MAXIMUM_ALIAS_CHARACTERS {
                base.push(lower(c));
            }
            assert(base@ =~= cut(hyphenated_name(next), MAXIMUM_ALIAS_CHARACTERS as int));
        } else {
            separator_pending = true;
        }
        i += 1;
    }
    assert(chars@.take(i as int) =~= chars@);
    base
}

/// The name that a device is called by, as long as nothing else is.
pub fn device_alias_base(name: &str, number: usize) -> (base: String)
    ensures
        base@ == alias_base(name@, number as nat),
{
    let mut base = hyphenate(name);
    let ghost full = base@;
    while base.len() > 0 && base[base.len() - 1] == '-'
        invariant
            without_trailing_hyphens(full) == without_trailing_hyphens(base@),
        decreases base@.len(),
    {
        let ghost longer = base@;
        base.pop();
        assert(base@ =~= longer.drop_last());
    }
    if base.len() == 0 {
        return join("device-", decimal(number as u64).as_str());
    }
    text_of(&base)
}

proof fn lemma_numbered_candidates_differ(base: Seq<char>, a: nat, b: nat)
    requires
        a >= 2,
        b >= 2,
        candidate(base, a) == candidate(base, b),
    ensures
        a == b,
{
    let x = candidate(base, a);
    let left = crate::text::decimal_text(a);
    let right = crate::text::decimal_text(b);
    crate::text::lemma_decimal_is_digits(a);
    crate::text::lemma_decimal_is_digits(b);
    let n = x.len();
    assert(x.skip(n - left.len()) =~= left);
    assert(x.skip(n - right.len()) =~= right);
    assert(x[n - left.len() - 1] == '-');
    assert(x[n - right.len() - 1] == '-');
    if left.len() < right.len() {
        assert(right[right.len() - left.len() - 1] == '-');
    } else if right.len() < left.len() {
        assert(left[left.len() - right.len() - 1] == '-');
    }
    crate::text::lemma_decimal_texts_differ(a, b);
}

proof fn lemma_suffix_length(number: nat)
    requires
        number <= 0x1_0000_0000_0000_0001,
    ensures
        2 <= numbered_suffix(number).len() <= 21,
{
    assert(vstd::arithmetic::power::pow(10, 20) == 100_000_000_000_000_000_000) by {
        reveal_with_fuel(vstd::arithmetic::power::pow, 21);
    }
    crate::text::lemma_decimal_length(number, 20);
    crate::text::lemma_decimal_is_digits(number);
}

fn is_taken(taken: &Vec<String>, alias: &str) -> (result: bool)
    ensures
        result == crate::config::model::texts(taken@).contains(alias@),
{
    let mut i: usize = 0;
    while i < taken.len()
        invariant
            i <= taken@.len(),
            forall|j: int| 0 <= j < i ==> #[trigger] taken@[j]@ != alias@,
        decreases taken@.len() - i,
    {
        if same_text(taken[i].as_str(), alias) {
            assert(crate::config::model::texts(taken@)[i as int] == alias@);
            return true;
        }
        i += 1;
    }
    assert(forall|j: int|
        0 <= j < taken@.len() ==> #[trigger] crate::config::model::texts(taken@)[j] != alias@);
    false
}

/// The numbered name to try.
fn numbered_alias(base: &Vec<char>, number: u128) -> (alias: String)
    requires
        2 <= number <= 0x1_0000_0000_0000_0001,
    ensures
        alias@ == candidate(base@, number as nat),
{
    proof {
        lemma_suffix_length(number as nat);
    }
    let digits = decimal_wide(number);
    let mut suffix = String::new();
    suffix.push('-');
    let suffix = join(suffix.as_str(), digits.as_str());
    assert(suffix@ =~= numbered_suffix(number as nat));
    let prefix_length: usize = MAXIMUM_ALIAS_CHARACTERS - suffix.as_str().unicode_len();
    let mut prefix: Vec<char> = Vec::new();
    let mut i: usize = 0;
    while i < base.len() && i < prefix_length
        invariant
            i <= base@.len(),
            i <= prefix_length,
            prefix@ == base@.take(i as int),
        decreases base@.len() - i,
    {
        prefix.push(base[i]);
        i += 1;
        assert(base@.take(i as int) =~= base@.take(i - 1).push(base@[i - 1]));
    }
    assert(prefix@ =~= cut(base@, prefix_length as int));
    join(text_of(&prefix).as_str(), suffix.as_str())
}

/// A name for a device that no other has, which is then taken.
pub fn unique_device_alias(name: &str, fallback_number: usize, taken: &mut Vec<String>) -> (alias:
    String)
    ensures
        is_first_free(
            alias_base(name@, fallback_number as nat),
            crate::config::model::texts(old(taken)@),
            alias@,
        ),
        crate::config::model::texts(final(taken)@) == crate::config::model::texts(
            old(taken)@,
        ).push(alias@),
{
    let base = device_alias_base(name, fallback_number);
    let base_chars = characters(base.as_str());
    let total: usize = taken.len();
    let ghost used = crate::config::model::texts(taken@);
    let ghost mut rest = used.to_set();
    proof {
        used.lemma_cardinality_of_set();
        vstd::seq_lib::seq_to_set_is_finite(used);
    }
    let mut alias = base.clone();
    let mut number: u128 = 1;
    while is_taken(taken, alias.as_str())
        invariant
            base_chars@ == base@,
            used == crate::config::model::texts(taken@),
            used.len() == total,
            number >= 1,
            alias@ == candidate(base@, number as nat),
            forall|earlier: nat|
                1 <= earlier < number ==> used.contains(#[trigger] candidate(base@, earlier)),
            rest.finite(),
            number <= 1 ==> rest.len() <= used.len(),
            number >= 2 ==> rest.len() + number <= used.len() + 2,
            forall|text: Seq<char>| #[trigger]
                used.contains(text) && !rest.contains(text) ==> exists|earlier: nat|
                    2 <= earlier < number && text == #[trigger] candidate(base@, earlier),
        decreases rest.len(), if number <= 1 {
            1int
        } else {
            0int
        },
    {
        proof {
            if number >= 2 {
                if !rest.contains(alias@) {
                    let earlier = choose|earlier: nat|
                        2 <= earlier < number && alias@ == #[trigger] candidate(base@, earlier);
                    lemma_numbered_candidates_differ(base@, earlier, number as nat);
                }
                let smaller = rest.remove(alias@);
                assert forall|text: Seq<char>| #[trigger]
                    used.contains(text) && !smaller.contains(text) implies exists|earlier: nat|
                    2 <= earlier < number + 1 && text == #[trigger] candidate(base@, earlier) by {
                    if text == alias@ {
                        assert(text == candidate(base@, number as nat));
                    } else {
                        let earlier = choose|earlier: nat|
                            2 <= earlier < number && text == #[trigger] candidate(base@, earlier);
                        assert(text == candidate(base@, earlier));
                    }
                }
                rest = smaller;
            }
        }
        number += 1;
        alias = numbered_alias(&base_chars, number);
    }
    let ghost before = taken@;
    taken.push(alias.clone());
    assert(crate::config::model::texts(taken@) =~= crate::config::model::texts(before).push(
        alias@,
    ));
    alias
}

/// The names of output targets.
pub open spec fn target_ids(targets: Seq<OutputTargetConfig>) -> Seq<Seq<char>> {
    targets.map_values(|target: OutputTargetConfig| target.id@)
}

/// A target that plays anything on exactly that device.
pub open spec fn targets_device(target: OutputTargetConfig, device: OutputDevice) -> bool {
    &&& target.description@ == device.name@
    &&& target.kind is Device
    &&& target.device_id matches Some(id) && id@ == device.device_id@
    &&& target.allow@ == seq![OutputCategory::Audio, OutputCategory::Speech]
}

/// The system default, then each device under a name of its own.
pub open spec fn outputs_generated(devices: Seq<OutputDevice>, outputs: OutputsConfig) -> bool {
    &&& outputs.default_target@ == "system"@
    &&& outputs.targets@.len() == devices.len() + 1
    &&& outputs.targets@[0].id@ == "system"@
    &&& outputs.targets@[0].description@ == "Current system default audio device"@
    &&& outputs.targets@[0].kind is SystemDefault
    &&& outputs.targets@[0].device_id is None
    &&& outputs.targets@[0].allow@ == seq![OutputCategory::Audio, OutputCategory::Speech]
    &&& forall|i: int|
        0 <= i < devices.len() ==> targets_device(
            #[trigger] outputs.targets@[i + 1],
            devices[i],
        )
    &&& forall|i: int|
        0 <= i < devices.len() ==> is_first_free(
            alias_base(devices[i].name@, (i + 1) as nat),
            target_ids(outputs.targets@.take(i + 1)),
            (#[trigger] outputs.targets@[i + 1]).id@,
        )
}

/// An output policy that names every device.
pub fn outputs_for_devices(devices: &Vec<OutputDevice>) -> (outputs: OutputsConfig)
    ensures
        outputs_generated(devices@, outputs),
{
    let mut outputs = OutputsConfig::default();
    let mut taken: Vec<String> = Vec::new();
    taken.push("system".to_string());
    assert(crate::config::model::texts(taken@) =~= target_ids(outputs.targets@));
    let mut i: usize = 0;
    while i < devices.len()
        invariant
            i <= devices@.len(),
            outputs_generated(devices@.take(i as int), outputs),
            crate::config::model::texts(taken@) == target_ids(outputs.targets@),
        decreases devices@.len() - i,
    {
        let device = &devices[i];
        let ghost before = outputs;
        let id = unique_device_alias(device.name.as_str(), i + 1, &mut taken);
        let mut allow: Vec<OutputCategory> = Vec::new();
        allow.push(OutputCategory::Audio);
        allow.push(OutputCategory::Speech);
        assert(allow@ =~= seq![OutputCategory::Audio, OutputCategory::Speech]);
        outputs.targets.push(
            OutputTargetConfig {
                id,
                description: device.name.clone(),
                kind: OutputTargetKind::Device,
                device_id: Some(device.device_id.clone()),
                allow,
            },
        );
        proof {
            let shorter = devices@.take(i as int);
            let longer = devices@.take(i + 1);
            assert(crate::config::model::texts(taken@) =~= target_ids(outputs.targets@));
            assert(outputs.targets@.take(i + 1) =~= before.targets@);
            assert forall|k: int| 0 <= k < longer.len() implies targets_device(
                #[trigger] outputs.targets@[k + 1],
                longer[k],
            ) by {
                if k < i {
                    assert(targets_device(before.targets@[k + 1], shorter[k]));
                }
            }
            assert forall|k: int| 0 <= k < longer.len() implies is_first_free(
                alias_base(longer[k].name@, (k + 1) as nat),
                target_ids(outputs.targets@.take(k + 1)),
                (#[trigger] outputs.targets@[k + 1]).id@,
            ) by {
                if k < i {
                    assert(outputs.targets@.take(k + 1) =~= before.targets@.take(k + 1));
                    assert(before.targets@[k + 1] == outputs.targets@[k + 1]);
                    assert(shorter[k] == longer[k]);
                }
            }
        }
        i += 1;
    }
    assert(devices@.take(i as int) =~= devices@);
    outputs
}

/// The numbered names tried before one.
spec fn tried(base: Seq<char>, number: nat) -> Set<Seq<char>>
    decreases number,
{
    if number <= 2 {
        Set::empty()
    } else {
        tried(base, (number - 1) as nat).insert(candidate(base, (number - 1) as nat))
    }
}

proof fn lemma_tried(base: Seq<char>, number: nat)
    requires
        number >= 2,
    ensures
        tried(base, number).finite(),
        tried(base, number).len() == number - 2,
        forall|text: Seq<char>| #[trigger]
            tried(base, number).contains(text) ==> exists|earlier: nat|
                2 <= earlier < number && text == #[trigger] candidate(base, earlier),
    decreases number,
{
    if number > 2 {
        let last = (number - 1) as nat;
        lemma_tried(base, last);
        if tried(base, last).contains(candidate(base, last)) {
            let earlier = choose|earlier: nat|
                2 <= earlier < last && candidate(base, last) == #[trigger] candidate(base, earlier);
            lemma_numbered_candidates_differ(base, earlier, last);
        }
        assert forall|text: Seq<char>| #[trigger]
            tried(base, number).contains(text) implies exists|earlier: nat|
            2 <= earlier < number && text == #[trigger] candidate(base, earlier) by {
            if text != candidate(base, last) {
                assert(tried(base, last).contains(text));
                let earlier = choose|earlier: nat|
                    2 <= earlier < last && text == #[trigger] candidate(base, earlier);
                assert(text == candidate(base, earlier));
            }
        }
    }
}

/// The number behind a name is at most two more than how many names are taken.
proof fn lemma_number_is_bounded(base: Seq<char>, taken: Seq<Seq<char>>, number: nat)
    requires
        number >= 2,
        forall|earlier: nat|
            1 <= earlier < number ==> taken.contains(#[trigger] candidate(base, earlier)),
    ensures
        number <= taken.len() + 2,
{
    lemma_tried(base, number);
    vstd::seq_lib::seq_to_set_is_finite(taken);
    taken.lemma_cardinality_of_set();
    assert forall|text: Seq<char>| #[trigger]
        tried(base, number).contains(text) implies taken.to_set().contains(text) by {
        let earlier = choose|earlier: nat|
            2 <= earlier < number && text == #[trigger] candidate(base, earlier);
        assert(taken.contains(candidate(base, earlier)));
    }
    vstd::set_lib::lemma_len_subset(tried(base, number), taken.to_set());
}

/// Letters and digits in lower case, and hyphens.
spec fn plain(text: Seq<char>) -> bool {
    forall|i: int|
        0 <= i < text.len() ==> crate::text::ascii_alphanumeric(#[trigger] text[i]) || text[i]
            == '-'
}

proof fn lemma_hyphenated_is_plain(name: Seq<char>)
    ensures
        plain(hyphenated_name(name)),
        hyphenated_name(name).len() > 0 ==> crate::text::ascii_alphanumeric(
            hyphenated_name(name)[0],
        ),
    decreases name.len(),
{
    if name.len() > 0 {
        lemma_hyphenated_is_plain(name.drop_last());
    }
}

proof fn lemma_trimmed(text: Seq<char>)
    ensures
        without_trailing_hyphens(text).len() <= text.len(),
        without_trailing_hyphens(text) == text.take(without_trailing_hyphens(text).len() as int),
    decreases text.len(),
{
    if text.len() > 0 && text.last() == '-' {
        lemma_trimmed(text.drop_last());
        let kept = without_trailing_hyphens(text);
        assert(text.drop_last().take(kept.len() as int) =~= text.take(kept.len() as int));
    } else {
        assert(text.take(text.len() as int) =~= text);
    }
}

proof fn lemma_base_is_valid(name: Seq<char>, number: nat)
    requires
        number <= 0x1_0000_0000_0000_0001,
    ensures
        plain(alias_base(name, number)),
        1 <= alias_base(name, number).len() <= MAXIMUM_ALIAS_CHARACTERS,
        crate::text::ascii_alphanumeric(alias_base(name, number)[0]),
{
    reveal_strlit("device-");
    lemma_hyphenated_is_plain(name);
    let full = cut(hyphenated_name(name), MAXIMUM_ALIAS_CHARACTERS as int);
    lemma_trimmed(full);
    lemma_suffix_length(number);
    crate::text::lemma_decimal_is_digits(number);
    let base = alias_base(name, number);
    let trimmed = without_trailing_hyphens(full);
    if trimmed.len() > 0 {
        assert forall|i: int| 0 <= i < base.len() implies crate::text::ascii_alphanumeric(
            #[trigger] base[i],
        ) || base[i] == '-' by {
            assert(base[i] == full[i]);
            assert(full[i] == hyphenated_name(name)[i]);
        }
        assert(base[0] == hyphenated_name(name)[0]);
    } else {
        assert(base[0] == 'd');
        let digits = crate::text::decimal_text(number);
        assert forall|i: int| 0 <= i < base.len() implies crate::text::ascii_alphanumeric(
            #[trigger] base[i],
        ) || base[i] == '-' by {
            if i < 7 {
                assert(base[i] == "device-"@[i]);
            } else {
                assert(base[i] == digits[i - 7]);
            }
        }
    }
}

/// A generated name is one that a profile may use.
proof fn lemma_alias_is_valid(
    name: Seq<char>,
    number: nat,
    taken: Seq<Seq<char>>,
    alias: Seq<char>,
)
    requires
        number <= usize::MAX,
        taken.len() <= usize::MAX,
        is_first_free(alias_base(name, number), taken, alias),
    ensures
        crate::config::validate::valid_id(alias),
{
    let base = alias_base(name, number);
    lemma_base_is_valid(name, number);
    let behind = choose|behind: nat|
        behind >= 1 && alias == #[trigger] candidate(base, behind) && !taken.contains(alias)
            && forall|earlier: nat|
            1 <= earlier < behind ==> taken.contains(#[trigger] candidate(base, earlier));
    if behind >= 2 {
        lemma_number_is_bounded(base, taken, behind);
        lemma_suffix_length(behind);
        crate::text::lemma_decimal_is_digits(behind);
        let suffix = numbered_suffix(behind);
        let prefix = cut(base, MAXIMUM_ALIAS_CHARACTERS - suffix.len());
        assert(alias == prefix + suffix);
        assert(alias[0] == base[0]);
        assert forall|i: int| 0 <= i < alias.len() implies crate::text::ascii_alphanumeric(
            #[trigger] alias[i],
        ) || alias[i] == '-' by {
            if i < prefix.len() {
                assert(alias[i] == base[i]);
            } else if i > prefix.len() {
                assert(alias[i] == crate::text::decimal_text(behind)[i - prefix.len() - 1]);
            }
        }
    }
}

/// Every generated output target has a name that a profile may use, and no two
/// have the same.
pub proof fn law_generated_aliases_are_valid_and_unique(
    devices: Seq<OutputDevice>,
    outputs: OutputsConfig,
)
    requires
        outputs_generated(devices, outputs),
    ensures
        forall|i: int|
            0 <= i < outputs.targets@.len() ==> crate::config::validate::valid_id(
                (#[trigger] outputs.targets@[i]).id@,
            ),
        forall|i: int, j: int|
            0 <= i < j < outputs.targets@.len() ==> (#[trigger] outputs.targets@[i]).id@ != (
            #[trigger] outputs.targets@[j]).id@,
{
    reveal_strlit("system");
    let targets = outputs.targets@;
    assert(targets.len() == outputs.targets.len());
    assert forall|i: int| 0 <= i < targets.len() implies crate::config::validate::valid_id(
        (#[trigger] targets[i]).id@,
    ) by {
        if i > 0 {
            let at = i - 1;
            assert(targets[at + 1] == targets[i]);
            lemma_alias_is_valid(
                devices[at].name@,
                i as nat,
                target_ids(targets.take(at + 1)),
                targets[i].id@,
            );
        }
    }
    assert forall|i: int, j: int| 0 <= i < j < targets.len() implies (#[trigger] targets[i]).id@
        != (#[trigger] targets[j]).id@ by {
        let at = j - 1;
        assert(targets[at + 1] == targets[j]);
        let taken = target_ids(targets.take(at + 1));
        assert(taken[i] == targets[i].id@);
        assert(taken.contains(targets[i].id@));
        assert(is_first_free(
            alias_base(devices[at].name@, j as nat),
            taken,
            targets[at + 1].id@,
        ));
    }
}

} // verus!
