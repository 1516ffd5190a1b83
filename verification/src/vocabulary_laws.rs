//! What the shared vocabulary means.
use crate::gain::Gain;
use crate::order;
use crate::order::TextKeyed;
use crate::paths;
use crate::paths::PathStyle;
use vstd::prelude::*;

verus! {

/// Gains lie in a range as numbers do. The patterns of doubles from zero on grow
/// with the number; a negative number, an infinity and what is not a number lie in
/// no range from zero on, and a negative zero lies where zero does.
pub proof fn law_gains_are_ordered_as_numbers(gain: Gain, minimum: Gain, maximum: Gain)
    requires
        minimum.bits < 0x7ff0_0000_0000_0000,
        maximum.bits < 0x7ff0_0000_0000_0000,
    ensures
        gain.bits < 0x7ff0_0000_0000_0000 ==> (gain.within(minimum, maximum) <==> minimum.bits
            <= gain.bits <= maximum.bits),
        0x7ff0_0000_0000_0000 <= gain.bits < 0x8000_0000_0000_0000 ==> !gain.within(
            minimum,
            maximum,
        ),
        gain.bits == 0x8000_0000_0000_0000 ==> (gain.within(minimum, maximum) <==> minimum.bits
            == 0),
        gain.bits > 0x8000_0000_0000_0000 ==> !gain.within(minimum, maximum),
        gain.bits < 0x7ff0_0000_0000_0000 ==> gain.finite() && !gain.nan(),
        gain.bits == 0x7ff0_0000_0000_0000 ==> !gain.finite() && !gain.nan(),
        0x7ff0_0000_0000_0000 < gain.bits < 0x8000_0000_0000_0000 ==> gain.nan(),
        0xfff0_0000_0000_0000 <= gain.bits ==> !gain.finite(),
        0xfff0_0000_0000_0000 < gain.bits ==> gain.nan(),
{
}

/// The number that decimal digits stand for.
pub open spec fn number_of(digits: Seq<char>) -> int
    decreases digits.len(),
{
    if digits.len() == 0 {
        0
    } else {
        10 * number_of(digits.drop_last()) + (digits.last() as int - '0' as int)
    }
}

/// A number in decimal reads back as that number. It has digits only, and no
/// leading zero but that of zero itself.
pub proof fn law_decimal_reads_back(value: nat)
    ensures
        number_of(crate::text::decimal_text(value)) == value,
        crate::text::decimal_text(value).len() > 0,
        forall|i: int|
            0 <= i < crate::text::decimal_text(value).len() ==> '0' <= #[trigger] crate::text::decimal_text(
                value,
            )[i] <= '9',
        value > 0 ==> crate::text::decimal_text(value)[0] != '0',
    decreases value,
{
    let digits = crate::text::decimal_text(value);
    if value >= 10 {
        law_decimal_reads_back(value / 10);
        assert(digits.drop_last() =~= crate::text::decimal_text(value / 10));
        assert(digits[0] == crate::text::decimal_text(value / 10)[0]);
    } else {
        assert(digits.drop_last() =~= Seq::empty());
        assert(number_of(Seq::<char>::empty()) == 0);
    }
}

/// No printable ASCII character but the space is white space; the space, the tab
/// and the line breaks are.
pub proof fn law_white_space_is_not_printed(c: char)
    ensures
        '!' <= c <= '~' ==> !crate::text::whitespace(c),
        c == ' ' || c == '\t' || c == '\n' || c == '\r' ==> crate::text::whitespace(c),
        crate::text::whitespace(c) && c as u32 > 0x7f ==> c as u32 >= 0x85,
{
}

/// A text on one line has no control character: each became a space, and every
/// other character stands where it stood.
pub proof fn law_one_line_has_no_controls(value: Seq<char>)
    ensures
        crate::text::without_controls(value).len() == value.len(),
        forall|i: int|
            0 <= i < value.len() ==> {
                let code = (#[trigger] value[i]) as u32;
                let shown = crate::text::without_controls(value)[i];
                if code < 0x20 || 0x7f <= code < 0xa0 {
                    shown == ' '
                } else {
                    shown == value[i]
                }
            },
{
}

/// A POSIX path is absolute where it begins with a slash. A Windows path is
/// absolute with a drive and a separator behind it, and not without a separator
/// behind its drive, nor with neither a drive nor two separators in front.
pub proof fn law_absolute_paths_name_their_root(path: Seq<char>)
    ensures
        paths::absolute(PathStyle::Posix, path) <==> path.len() > 0 && path[0] == '/',
        paths::local_absolute(PathStyle::Posix, path) <==> path.len() > 0 && path[0] == '/',
        !paths::nonlocal(PathStyle::Posix, path),
        path.len() >= 2 && ('a' <= path[0] <= 'z' || 'A' <= path[0] <= 'Z') && path[1] == ':' ==> {
            &&& paths::absolute(PathStyle::Windows, path) <==> path.len() > 2 && (path[2] == '\\'
                || path[2] == '/')
            &&& paths::local_absolute(PathStyle::Windows, path) <==> path.len() > 2 && (path[2]
                == '\\' || path[2] == '/')
            &&& !paths::nonlocal(PathStyle::Windows, path)
        },
        path.len() > 0 && !('a' <= path[0] <= 'z' || 'A' <= path[0] <= 'Z') && path[0] != '\\'
            && path[0] != '/' ==> !paths::absolute(PathStyle::Windows, path)
            && !paths::nonlocal(PathStyle::Windows, path),
        path.len() == 0 ==> !paths::absolute(PathStyle::Windows, path),
        path.len() > 1 && (path[0] == '\\' || path[0] == '/') && path[1] != '\\' && path[1] != '/'
            ==> !paths::absolute(PathStyle::Windows, path),
{
}

/// A Windows path on a share or a device is not local, and absolute where it is
/// complete: two separators, a server, a separator and a share.
pub proof fn law_shares_are_not_local(path: Seq<char>, server: int, share: int)
    requires
        2 < server < share <= path.len(),
        share > server + 1,
        path[0] == '\\' || path[0] == '/',
        path[1] == '\\' || path[1] == '/',
        forall|i: int| 2 <= i < server ==> #[trigger] path[i] != '\\' && path[i] != '/',
        path[server] == '\\' || path[server] == '/',
        forall|i: int| server < i < share ==> #[trigger] path[i] != '\\' && path[i] != '/',
        path[2] != '?',
        path[2] != '.',
    ensures
        paths::absolute(PathStyle::Windows, path),
        paths::nonlocal(PathStyle::Windows, path),
        !paths::local_absolute(PathStyle::Windows, path),
{
    lemma_component(path, 2, server);
    lemma_component_long(path, server + 1, share);
}

proof fn lemma_component(path: Seq<char>, from: int, end: int)
    requires
        0 <= from <= end < path.len(),
        forall|i: int| from <= i < end ==> #[trigger] path[i] != '\\' && path[i] != '/',
        path[end] == '\\' || path[end] == '/',
    ensures
        paths::component_end(path, from) == end,
    decreases end - from,
{
    if from < end {
        lemma_component(path, from + 1, end);
    }
}

proof fn lemma_component_long(path: Seq<char>, from: int, end: int)
    requires
        0 <= from <= end <= path.len(),
        forall|i: int| from <= i < end ==> #[trigger] path[i] != '\\' && path[i] != '/',
    ensures
        paths::component_end(path, from) >= end,
    decreases end - from,
{
    if from < end {
        lemma_component_long(path, from + 1, end);
    } else {
        lemma_component_forward(path, from);
    }
}

proof fn lemma_component_forward(path: Seq<char>, from: int)
    ensures
        paths::component_end(path, from) >= from,
    decreases path.len() - from,
{
    if 0 <= from < path.len() && !paths::windows_separator(path[from]) {
        lemma_component_forward(path, from + 1);
    }
}

/// Device paths, as in `\\.\pipe` and `\\?\GLOBALROOT`, are not local. A drive
/// behind `\\?\` is.
pub proof fn law_device_paths_are_not_local(path: Seq<char>)
    requires
        path.len() >= 4,
        path[0] == '\\',
        path[1] == '\\',
        path[3] == '\\',
    ensures
        path[2] == '.' ==> paths::nonlocal(PathStyle::Windows, path) && !paths::local_absolute(
            PathStyle::Windows,
            path,
        ),
        path[2] == '?' && path.len() >= 7 && ('a' <= path[4] <= 'z' || 'A' <= path[4] <= 'Z')
            && path[5] == ':' && path[6] == '\\' ==> paths::local_absolute(
            PathStyle::Windows,
            path,
        ) && !paths::nonlocal(PathStyle::Windows, path),
        path[2] == '?' && path.len() >= 6 && path[5] != ':' ==> paths::nonlocal(
            PathStyle::Windows,
            path,
        ),
{
}

/// A path that is resolved is the configured one where that is absolute, and
/// otherwise the one that was joined for it.
pub proof fn law_resolved_paths(style: PathStyle, path: Seq<char>, joined: Seq<char>)
    ensures
        paths::absolute(style, path) ==> paths::resolved(style, path, joined) == path,
        !paths::absolute(style, path) ==> paths::resolved(style, path, joined) == joined,
{
}

/// One text comes at most as late as another where it is its start, or where the
/// first character in which they differ is the smaller one.
pub proof fn law_texts_are_in_dictionary_order(left: Seq<char>, right: Seq<char>)
    ensures
        order::text_at_most(left, right) <==> {
            ||| left.is_prefix_of(right)
            ||| exists|i: int|
                0 <= i < left.len() && i < right.len() && left.take(i) == right.take(i)
                    && #[trigger] left[i] < right[i]
        },
    decreases left.len(),
{
    if left.len() == 0 {
        assert(left =~= right.take(0));
    } else if right.len() > 0 {
        let a = left.skip(1);
        let b = right.skip(1);
        law_texts_are_in_dictionary_order(a, b);
        if left[0] == right[0] {
            if a.is_prefix_of(b) {
                assert(left =~= right.take(left.len() as int)) by {
                    assert forall|i: int| 0 <= i < left.len() implies left[i] == right[i] by {
                        if i > 0 {
                            assert(a[i - 1] == b.take(a.len() as int)[i - 1]);
                        }
                    }
                }
            }
            if left.is_prefix_of(right) {
                assert(a =~= b.take(a.len() as int)) by {
                    assert forall|i: int| 0 <= i < a.len() implies a[i] == b[i] by {
                        assert(left[i + 1] == right.take(left.len() as int)[i + 1]);
                    }
                }
            }
            if exists|i: int|
                0 <= i < a.len() && i < b.len() && a.take(i) == b.take(i) && #[trigger] a[i]
                    < b[i] {
                let i = choose|i: int|
                    0 <= i < a.len() && i < b.len() && a.take(i) == b.take(i) && #[trigger] a[i]
                        < b[i];
                assert(left.take(i + 1) =~= right.take(i + 1)) by {
                    assert forall|j: int| 0 <= j < i + 1 implies left[j] == right[j] by {
                        if j > 0 {
                            assert(a.take(i)[j - 1] == b.take(i)[j - 1]);
                        }
                    }
                }
                assert(left[i + 1] < right[i + 1]);
            }
            if exists|i: int|
                0 <= i < left.len() && i < right.len() && left.take(i) == right.take(i)
                    && #[trigger] left[i] < right[i] {
                let i = choose|i: int|
                    0 <= i < left.len() && i < right.len() && left.take(i) == right.take(i)
                        && #[trigger] left[i] < right[i];
                assert(i > 0);
                assert(a.take(i - 1) =~= b.take(i - 1)) by {
                    assert forall|j: int| 0 <= j < i - 1 implies a[j] == b[j] by {
                        assert(left.take(i)[j + 1] == right.take(i)[j + 1]);
                    }
                }
                assert(a[i - 1] < b[i - 1]);
            }
        } else {
            if left[0] < right[0] {
                assert(left.take(0) =~= right.take(0));
            }
            if left.is_prefix_of(right) {
                assert(left[0] == right.take(left.len() as int)[0]);
            }
            assert forall|i: int|
                0 <= i < left.len() && i < right.len() && left.take(i) == right.take(i)
                    && #[trigger] left[i] < right[i] implies left[0] < right[0] by {
                if i > 0 {
                    assert(left.take(i)[0] == right.take(i)[0]);
                }
            }
        }
    } else {
        assert(!left.is_prefix_of(right));
    }
}

/// Records with two texts are ordered by the first, and by the second where the
/// first are equal.
pub proof fn law_pairs_are_ordered_by_the_first_text(
    a: Seq<char>,
    b: Seq<char>,
    c: Seq<char>,
    d: Seq<char>,
)
    ensures
        a != c ==> (order::key_at_most(seq![a, b], seq![c, d]) <==> order::text_at_most(a, c)),
        a == c && b != d ==> (order::key_at_most(seq![a, b], seq![c, d]) <==> order::text_at_most(
            b,
            d,
        )),
        a == c && b == d ==> order::key_at_most(seq![a, b], seq![c, d]),
{
    let left = seq![a, b];
    let right = seq![c, d];
    assert(left.skip(1) =~= seq![b]);
    assert(right.skip(1) =~= seq![d]);
    assert(seq![b].skip(1) =~= Seq::<Seq<char>>::empty());
    reveal_with_fuel(order::key_at_most, 3);
}

/// Sorted records are the records themselves: as many, and each of them there.
pub proof fn law_sorting_loses_nothing<T: TextKeyed>(sorted: Seq<T>, items: Seq<T>)
    requires
        order::sorted_from(sorted, items),
    ensures
        sorted.len() == items.len(),
        forall|item: T| #[trigger] sorted.contains(item) <==> items.contains(item),
        forall|i: int, j: int|
            0 <= i < j < sorted.len() ==> order::key_at_most(
                (#[trigger] sorted[i]).key(),
                (#[trigger] sorted[j]).key(),
            ),
{
    sorted.to_multiset_ensures();
    items.to_multiset_ensures();
    assert forall|item: T| #[trigger] sorted.contains(item) <==> items.contains(item) by {
        assert(sorted.to_multiset().count(item) == items.to_multiset().count(item));
        assert(sorted.contains(item) <==> sorted.to_multiset().count(item) > 0);
        assert(items.contains(item) <==> items.to_multiset().count(item) > 0);
    }
}

/// The limits: what a profile may hold, what a request may hold, what a session
/// retains and what synthesis may take.
pub proof fn law_limits_are_these()
    ensures
        crate::config::model::SCHEMA_VERSION == 1,
        crate::config::model::MAXIMUM_AUDIO_CUES == 256,
        crate::config::model::MAXIMUM_QUEUE_ITEMS == 1024,
        crate::config::model::MAXIMUM_TEXT_CHARACTERS == 10000,
        crate::config::model::DEFAULT_MAXIMUM_MIX_STREAMS == 2,
        crate::config::toml_value::LARGEST_EXACT_INTEGER == 9007199254740991,
        crate::history::WRITER_QUEUE_ITEMS == 1024,
        crate::control::CONTROL_SCHEMA_VERSION == 1,
        crate::control::MAXIMUM_REQUEST_BYTES == 8192,
        crate::control::MAXIMUM_CONNECTIONS == 16,
        crate::control::REQUEST_TIMEOUT_SECONDS == 2,
        crate::http::DESCRIPTOR_SCHEMA_VERSION == 1,
        crate::http::MCP_PATH@ == "/mcp"@,
        crate::http::MAXIMUM_REQUEST_BYTES == 131072,
        crate::private_file::TOKEN_BYTES == 32,
        crate::playback::audio::SNIFF_BYTES == 65536,
        crate::playback::actor::PLAYBACK_STATUS_RETENTION_ITEMS == 256,
        crate::playback::actor::DEFAULT_INTERNAL_MIX_STREAM_CAPACITY == 2,
        crate::playback::synthesis::MAX_SYNTHESIZED_AUDIO_BYTES == 268435456,
        crate::playback::synthesis::WAV_HEADER_BYTES == 44,
        crate::playback::synthesis::MAX_SYNTHESIS_SECONDS == 120,
        crate::playback::synthesis::MAX_SYNTHESIS_CHANNELS == 32,
        crate::playback::routes::MINIMUM_SAMPLE_RATE_HZ == 8000,
        crate::playback::routes::MAXIMUM_SAMPLE_RATE_HZ == 96000,
        crate::cli::aliases::MAXIMUM_ALIAS_CHARACTERS == 64,
        crate::gain::ZERO_BITS == 0,
        crate::gain::TWO_FIFTHS_BITS == 0x3fd9_9999_9999_999a,
        crate::gain::SEVEN_TENTHS_BITS == 0x3fe6_6666_6666_6666,
        crate::gain::ONE_BITS == 0x3ff0_0000_0000_0000,
{
}

/// A separator of Windows paths.
pub open spec fn parts(c: char) -> bool {
    c == '\\' || c == '/'
}

/// A drive at a place: a letter and a colon.
pub open spec fn has_drive(path: Seq<char>, at: int) -> bool {
    at + 2 <= path.len() && ('a' <= path[at] <= 'z' || 'A' <= path[at] <= 'Z') && path[at + 1] == ':'
}

/// A server stands in front of `end` and a share behind it.
pub open spec fn has_share(path: Seq<char>, end: int) -> bool {
    &&& 2 < end
    &&& end + 1 < path.len()
    &&& parts(path[end])
    &&& !parts(path[end + 1])
    &&& forall|i: int| 2 <= i < end ==> !parts(#[trigger] path[i])
}

proof fn lemma_component_is(path: Seq<char>, from: int)
    requires
        0 <= from <= path.len(),
    ensures
        from <= paths::component_end(path, from) <= path.len(),
        forall|i: int|
            from <= i < paths::component_end(path, from) ==> !parts(#[trigger] path[i]),
        paths::component_end(path, from) < path.len() ==> parts(
            path[paths::component_end(path, from)],
        ),
    decreases path.len() - from,
{
    if from < path.len() && !parts(path[from]) {
        lemma_component_is(path, from + 1);
    }
}

/// A Windows path begins with a drive, with a drive behind `\\?\`, or with another
/// prefix behind two separators: what else stands behind `\\?\` or `\\.\`, or a
/// server with a share. Other paths have no prefix.
pub proof fn law_prefixes_of_windows_paths(path: Seq<char>)
    ensures
        ({
            let two = path.len() >= 2 && parts(path[0]) && parts(path[1]);
            let verbatim = path.len() >= 4 && path[0] == '\\' && path[1] == '\\' && path[2] == '?'
                && path[3] == '\\';
            let verbatim_drive = verbatim && has_drive(path, 4) && (path.len() == 6 || parts(
                path[6],
            ));
            let device = two && path.len() >= 4 && path[2] == '.' && parts(path[3]);
            let share = two && exists|end: int| #[trigger] has_share(path, end);
            let prefix = paths::windows_prefix(path);
            &&& prefix is VerbatimDisk <==> verbatim_drive
            &&& prefix is Other <==> (verbatim && !verbatim_drive) || device || (share && !verbatim)
            &&& prefix is Disk <==> !two && has_drive(path, 0)
            &&& prefix is Missing <==> !verbatim && !device && !share && (two || !has_drive(path, 0))
        }),
{
    let two = path.len() >= 2 && parts(path[0]) && parts(path[1]);
    if two {
        let server = paths::component_end(path, 2);
        lemma_component_is(path, 2);
        if server < path.len() {
            lemma_component_is(path, server + 1);
            let share = paths::component_end(path, server + 1);
            if server > 2 && share > server + 1 {
                assert(!parts(path[server + 1]));
                assert(has_share(path, server));
            }
            assert forall|end: int| #[trigger] has_share(path, end) implies server > 2 && share
                > server + 1 by {
                if end < server {
                    assert(!parts(path[end]));
                }
                if server < end && server > 2 {
                    assert(!parts(path[server]));
                }
                if server == 2 {
                    assert(!parts(path[2]));
                }
            }
        } else {
            assert forall|end: int| !(#[trigger] has_share(path, end)) by {
                if has_share(path, end) {
                    assert(!parts(path[end]));
                }
            }
        }
    }
}

/// A Windows path is absolute with a drive and a separator behind it, and with any
/// other prefix. It is local with a drive alone, and not with another prefix.
pub proof fn law_prefixes_decide_where_paths_lead(path: Seq<char>)
    ensures
        ({
            let prefix = paths::windows_prefix(path);
            &&& paths::absolute(PathStyle::Windows, path) <==> prefix is VerbatimDisk || prefix
                is Other || (prefix is Disk && path.len() > 2 && parts(path[2]))
            &&& paths::local_absolute(PathStyle::Windows, path) <==> prefix is VerbatimDisk || (
            prefix is Disk && path.len() > 2 && parts(path[2]))
            &&& paths::nonlocal(PathStyle::Windows, path) <==> prefix is Other
        }),
{
}

/// The characters that count as white space.
pub proof fn law_white_space_is_that_of_unicode(c: char)
    ensures
        crate::text::whitespace(c) <==> {
            let code = c as u32;
            ||| 0x09 <= code <= 0x0d
            ||| code == 0x20
            ||| code == 0x85
            ||| code == 0xa0
            ||| code == 0x1680
            ||| 0x2000 <= code <= 0x200a
            ||| 0x2028 <= code <= 0x2029
            ||| code == 0x202f
            ||| code == 0x205f
            ||| code == 0x3000
        },
{
}

/// The records that have a key, in the order in which they stand.
pub open spec fn having<T: TextKeyed>(items: Seq<T>, key: Seq<Seq<char>>) -> Seq<T>
    decreases items.len(),
{
    if items.len() == 0 {
        Seq::empty()
    } else if items.last().key() == key {
        having(items.drop_last(), key).push(items.last())
    } else {
        having(items.drop_last(), key)
    }
}

proof fn lemma_having<T: TextKeyed>(items: Seq<T>, key: Seq<Seq<char>>)
    ensures
        order::with_key(items, key) == having(items, key),
    decreases items.len(),
{
    reveal(Seq::filter);
    if items.len() > 0 {
        lemma_having(items.drop_last(), key);
    }
}

/// Records with one key keep the order in which they stood, and each of them stands
/// as often as it did.
pub proof fn law_sorting_keeps_equals_in_order<T: TextKeyed>(
    sorted: Seq<T>,
    items: Seq<T>,
    key: Seq<Seq<char>>,
)
    requires
        order::sorted_from(sorted, items),
    ensures
        having(sorted, key) == having(items, key),
        sorted.to_multiset() == items.to_multiset(),
{
    lemma_having(sorted, key);
    lemma_having(items, key);
    assert(order::with_key(sorted, key) == order::with_key(items, key));
}

} // verus!
