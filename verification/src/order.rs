//! Ordering records by the texts that name them.
use crate::text::characters;
use vstd::multiset::Multiset;
use vstd::prelude::*;

verus! {

/// Lexicographic order of texts by code point.
pub open spec fn text_at_most(left: Seq<char>, right: Seq<char>) -> bool
    decreases left.len(),
{
    if left.len() == 0 {
        true
    } else if right.len() == 0 {
        false
    } else if left[0] != right[0] {
        left[0] < right[0]
    } else {
        text_at_most(left.skip(1), right.skip(1))
    }
}

/// Lexicographic order of keys, each a list of texts.
pub open spec fn key_at_most(left: Seq<Seq<char>>, right: Seq<Seq<char>>) -> bool
    decreases left.len(),
{
    if left.len() == 0 {
        true
    } else if right.len() == 0 {
        false
    } else if left[0] != right[0] {
        text_at_most(left[0], right[0])
    } else {
        key_at_most(left.skip(1), right.skip(1))
    }
}

/// A record that is ordered by texts.
pub trait TextKeyed: Sized {
    /// The texts to compare, most significant first.
    spec fn key(&self) -> Seq<Seq<char>>;

    fn key_texts(&self) -> (texts: Vec<String>)
        ensures
            texts@.map_values(|text: String| text@) == self.key(),
    ;
}

/// Every record is followed by records with the same or a later key.
pub open spec fn ordered<T: TextKeyed>(items: Seq<T>) -> bool {
    forall|i: int, j: int|
        0 <= i < j < items.len() ==> key_at_most(
            (#[trigger] items[i]).key(),
            (#[trigger] items[j]).key(),
        )
}

pub proof fn lemma_text_order(a: Seq<char>, b: Seq<char>, c: Seq<char>)
    ensures
        text_at_most(a, b) || text_at_most(b, a),
        text_at_most(a, b) && text_at_most(b, c) ==> text_at_most(a, c),
        text_at_most(a, b) && text_at_most(b, a) ==> a == b,
    decreases a.len() + b.len() + c.len(),
{
    if a.len() > 0 && b.len() > 0 && c.len() > 0 {
        lemma_text_order(a.skip(1), b.skip(1), c.skip(1));
    } else if a.len() > 0 && b.len() > 0 {
        lemma_text_order(a.skip(1), b.skip(1), c);
    }
    if text_at_most(a, b) && text_at_most(b, a) {
        if a.len() > 0 {
            assert(a.skip(1) == b.skip(1));
            assert(a =~= seq![a[0]] + a.skip(1));
            assert(b =~= seq![b[0]] + b.skip(1));
        } else {
            assert(a =~= b);
        }
    }
}

pub proof fn lemma_key_order(a: Seq<Seq<char>>, b: Seq<Seq<char>>, c: Seq<Seq<char>>)
    ensures
        key_at_most(a, b) || key_at_most(b, a),
        key_at_most(a, b) && key_at_most(b, c) ==> key_at_most(a, c),
    decreases a.len() + b.len() + c.len(),
{
    if a.len() > 0 && b.len() > 0 {
        if c.len() > 0 {
            lemma_text_order(a[0], b[0], c[0]);
            lemma_text_order(b[0], a[0], c[0]);
            lemma_text_order(b[0], c[0], a[0]);
            lemma_key_order(a.skip(1), b.skip(1), c.skip(1));
        } else {
            lemma_text_order(a[0], b[0], a[0]);
            lemma_key_order(a.skip(1), b.skip(1), c);
        }
    }
}

/// `text_at_most`, computed.
pub fn is_text_at_most(left: &str, right: &str) -> (at_most: bool)
    ensures
        at_most == text_at_most(left@, right@),
{
    let a = characters(left);
    let b = characters(right);
    let mut i: usize = 0;
    assert(a@.skip(0) =~= a@);
    assert(b@.skip(0) =~= b@);
    while i < a.len()
        invariant
            i <= a@.len(),
            i <= b@.len(),
            a@ == left@,
            b@ == right@,
            text_at_most(a@, b@) == text_at_most(a@.skip(i as int), b@.skip(i as int)),
        decreases a@.len() - i,
    {
        if i >= b.len() {
            return false;
        }
        if a[i] != b[i] {
            return a[i] < b[i];
        }
        assert(a@.skip(i as int).skip(1) =~= a@.skip(i + 1));
        assert(b@.skip(i as int).skip(1) =~= b@.skip(i + 1));
        i += 1;
    }
    true
}

fn is_key_at_most(left: &Vec<String>, right: &Vec<String>) -> (at_most: bool)
    ensures
        at_most == key_at_most(
            left@.map_values(|text: String| text@),
            right@.map_values(|text: String| text@),
        ),
{
    let ghost a = left@.map_values(|text: String| text@);
    let ghost b = right@.map_values(|text: String| text@);
    let mut i: usize = 0;
    assert(a.skip(0) =~= a);
    assert(b.skip(0) =~= b);
    while i < left.len()
        invariant
            i <= left@.len(),
            i <= right@.len(),
            a == left@.map_values(|text: String| text@),
            b == right@.map_values(|text: String| text@),
            key_at_most(a, b) == key_at_most(a.skip(i as int), b.skip(i as int)),
        decreases left@.len() - i,
    {
        if i >= right.len() {
            return false;
        }
        assert(a.skip(i as int)[0] == left@[i as int]@);
        assert(b.skip(i as int)[0] == right@[i as int]@);
        if left[i] != right[i] {
            return is_text_at_most(left[i].as_str(), right[i].as_str());
        }
        assert(a.skip(i as int).skip(1) =~= a.skip(i + 1));
        assert(b.skip(i as int).skip(1) =~= b.skip(i + 1));
        i += 1;
    }
    true
}

/// The records with one key, in order.
pub open spec fn with_key<T: TextKeyed>(items: Seq<T>, key: Seq<Seq<char>>) -> Seq<T> {
    items.filter(|item: T| item.key() == key)
}

/// The same records in key order; records with equal keys keep their order.
pub open spec fn sorted_from<T: TextKeyed>(sorted: Seq<T>, items: Seq<T>) -> bool {
    &&& ordered(sorted)
    &&& sorted.to_multiset() == items.to_multiset()
    &&& forall|key: Seq<Seq<char>>| #[trigger] with_key(sorted, key) == with_key(items, key)
}

/// A record put behind every record with its key.
proof fn lemma_insert_behind_equals<T: TextKeyed>(items: Seq<T>, at: int, item: T)
    requires
        0 <= at <= items.len(),
        forall|j: int| at <= j < items.len() ==> (#[trigger] items[j]).key() != item.key(),
    ensures
        forall|key: Seq<Seq<char>>| #[trigger]
            with_key(items.insert(at, item), key) == with_key(items, key) + with_key(
                seq![item],
                key,
            ),
{
    let front = items.take(at);
    let back = items.skip(at);
    assert(items =~= front + back);
    assert(items.insert(at, item) =~= front + seq![item] + back);
    assert forall|key: Seq<Seq<char>>| #[trigger]
        with_key(items.insert(at, item), key) == with_key(items, key) + with_key(
            seq![item],
            key,
        ) by {
        let same = |other: T| other.key() == key;
        Seq::filter_distributes_over_add(front, back, same);
        Seq::filter_distributes_over_add(front + seq![item], back, same);
        Seq::filter_distributes_over_add(front, seq![item], same);
        reveal_with_fuel(Seq::filter, 2);
        assert(seq![item].drop_last() =~= Seq::<T>::empty());
        if key == item.key() {
            back.lemma_filter_len(same);
            if back.filter(same).len() > 0 {
                back.lemma_filter_pred(same, 0);
                lemma_filter_from(back, same);
                let j = choose|j: int| 0 <= j < back.len() && back[j] == back.filter(same)[0];
                assert(items[at + j] == back[j]);
            }
            assert(back.filter(same) =~= Seq::<T>::empty());
        } else {
            assert(seq![item].filter(same) =~= Seq::<T>::empty());
        }
        assert(with_key(items.insert(at, item), key) =~= with_key(items, key) + with_key(
            seq![item],
            key,
        ));
    }
}

/// What a filter keeps comes from the sequence.
proof fn lemma_filter_from<T>(items: Seq<T>, keep: spec_fn(T) -> bool)
    ensures
        forall|i: int|
            0 <= i < items.filter(keep).len() ==> exists|j: int|
                0 <= j < items.len() && items[j] == #[trigger] items.filter(keep)[i],
    decreases items.len(),
{
    reveal(Seq::filter);
    if items.len() > 0 {
        lemma_filter_from(items.drop_last(), keep);
        let shorter = items.drop_last().filter(keep);
        assert forall|i: int| 0 <= i < items.filter(keep).len() implies exists|j: int|
            0 <= j < items.len() && items[j] == #[trigger] items.filter(keep)[i] by {
            if i < shorter.len() {
                assert(items.filter(keep)[i] == shorter[i]);
                let j = choose|j: int|
                    0 <= j < items.drop_last().len() && items.drop_last()[j] == shorter[i];
                assert(items[j] == items.filter(keep)[i]);
            } else {
                assert(items[items.len() - 1] == items.filter(keep)[i]);
            }
        }
    }
}

/// Order records by their keys. Records with equal keys keep their order.
pub fn sort_by_key<T: TextKeyed>(items: Vec<T>) -> (sorted: Vec<T>)
    ensures
        sorted_from(sorted@, items@),
{
    broadcast use vstd::seq_lib::group_to_multiset_ensures;

    let ghost all = items@;
    let mut rest = items;
    let mut sorted: Vec<T> = Vec::new();
    assert(rest@ =~= all);
    assert(sorted@.to_multiset() =~= Multiset::empty());
    assert forall|key: Seq<Seq<char>>| #[trigger]
        with_key(all, key) == with_key(sorted@, key) + with_key(rest@, key) by {
        reveal(Seq::filter);
        assert(with_key(sorted@, key) =~= Seq::<T>::empty());
    }
    while rest.len() > 0
        invariant
            ordered(sorted@),
            sorted@.to_multiset().add(rest@.to_multiset()) == all.to_multiset(),
            forall|key: Seq<Seq<char>>| #[trigger]
                with_key(all, key) == with_key(sorted@, key) + with_key(rest@, key),
        decreases rest@.len(),
    {
        let ghost before = rest@;
        let item = rest.remove(0);
        assert(before.remove(0) =~= rest@);
        proof {
            before.to_multiset_ensures();
            assert(before.contains(before[0]));
        }
        assert(before.to_multiset() =~= rest@.to_multiset().insert(item));
        let key = item.key_texts();
        let mut at: usize = sorted.len();
        while at > 0 && !is_key_at_most(&sorted[at - 1].key_texts(), &key)
            invariant
                at <= sorted@.len(),
                ordered(sorted@),
                key@.map_values(|text: String| text@) == item.key(),
                forall|j: int|
                    at <= j < sorted@.len() ==> key_at_most(
                        item.key(),
                        (#[trigger] sorted@[j]).key(),
                    ) && sorted@[j].key() != item.key(),
            decreases at,
        {
            proof {
                lemma_key_order(sorted@[at - 1].key(), item.key(), item.key());
                lemma_key_order(item.key(), item.key(), item.key());
            }
            at -= 1;
        }
        let ghost unsorted = sorted@;
        proof {
            assert forall|j: int| 0 <= j < at implies key_at_most(
                (#[trigger] unsorted[j]).key(),
                item.key(),
            ) by {
                lemma_key_order(unsorted[j].key(), unsorted[at - 1].key(), item.key());
            }
            lemma_insert_behind_equals(unsorted, at as int, item);
            assert forall|key: Seq<Seq<char>>| #[trigger]
                with_key(all, key) == with_key(unsorted.insert(at as int, item), key) + with_key(
                    rest@,
                    key,
                ) by {
                assert(before =~= seq![item] + rest@);
                Seq::filter_distributes_over_add(
                    seq![item],
                    rest@,
                    |other: T| other.key() == key,
                );
                assert(with_key(before, key) == with_key(seq![item], key) + with_key(rest@, key));
                assert(with_key(unsorted, key) + (with_key(seq![item], key) + with_key(rest@, key))
                    =~= with_key(unsorted, key) + with_key(seq![item], key) + with_key(rest@, key));
            }
        }
        sorted.insert(at, item);
        assert(sorted@.remove(at as int) =~= unsorted);
        proof {
            sorted@.to_multiset_ensures();
            assert(sorted@.contains(sorted@[at as int]));
        }
        assert(sorted@.to_multiset() =~= unsorted.to_multiset().insert(item));
    }
    assert(rest@.to_multiset() =~= Multiset::empty());
    assert(sorted@.to_multiset() =~= all.to_multiset());
    assert forall|key: Seq<Seq<char>>| #[trigger]
        with_key(sorted@, key) == with_key(all, key) by {
        reveal(Seq::filter);
        assert(with_key(rest@, key) =~= Seq::<T>::empty());
        assert(with_key(sorted@, key) + with_key(rest@, key) =~= with_key(sorted@, key));
    }
    sorted
}

} // verus!
