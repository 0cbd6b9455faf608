//! The order of a listing: by name, with leading dots and letter case set
//! aside, and with entries of equal rank left in the order they came in.
use crate::ls::entry::DirEntry;
use crate::text::{from_chars, lowercase, to_chars};
use vstd::prelude::*;

verus! {

/// A name without its leading dots.
pub open spec fn strip_dots(name: Seq<char>) -> Seq<char>
    decreases name.len(),
{
    if name.len() > 0 && name[0] == '.' {
        strip_dots(name.skip(1))
    } else {
        name
    }
}

/// The key by which a name is ordered: leading dots dropped, then lower case.
pub open spec fn sort_key(name: Seq<char>) -> Seq<char> {
    lowercase(strip_dots(name))
}

/// The key of an entry is the key of its name.
pub open spec fn key_of(e: DirEntry) -> Seq<char> {
    sort_key(e.name@)
}

proof fn lemma_strip_dots(name: Seq<char>, dots: int)
    requires
        0 <= dots <= name.len(),
        forall|k: int| 0 <= k < dots ==> name[k] == '.',
        dots < name.len() ==> name[dots] != '.',
    ensures
        strip_dots(name) == name.subrange(dots, name.len() as int),
    decreases name.len(),
{
    if dots == 0 {
        assert(name.subrange(0, name.len() as int) =~= name);
    } else {
        let rest = name.skip(1);
        assert(name[0] == '.');
        assert forall|k: int| 0 <= k < dots - 1 implies rest[k] == '.' by {
            assert(rest[k] == name[k + 1]);
        }
        lemma_strip_dots(rest, dots - 1);
        assert(rest.subrange(dots - 1, rest.len() as int) =~= name.subrange(
            dots,
            name.len() as int,
        ));
    }
}

/// Computes the key by which a name is ordered.
pub fn normalize(name: &str) -> (key: String)
    ensures
        key@ == sort_key(name@),
{
    let chars = to_chars(name);
    let mut dots: usize = 0;
    while dots < chars.len() && chars[dots] == '.'
        invariant
            dots <= chars.len(),
            forall|k: int| 0 <= k < dots ==> chars@[k] == '.',
        decreases chars.len() - dots,
    {
        dots = dots + 1;
    }
    proof {
        lemma_strip_dots(chars@, dots as int);
    }
    from_chars(&chars, dots, chars.len()).as_str().to_lowercase()
}

/// Lexical order of two keys, character by character by code point; a key
/// comes before every longer key that starts with it.
pub open spec fn key_le(a: Seq<char>, b: Seq<char>) -> bool
    decreases a.len(),
{
    if a.len() == 0 {
        true
    } else if b.len() == 0 {
        false
    } else if a[0] != b[0] {
        a[0] < b[0]
    } else {
        key_le(a.skip(1), b.skip(1))
    }
}

/// The order is reflexive.
pub proof fn lemma_key_le_reflexive(a: Seq<char>)
    ensures
        key_le(a, a),
    decreases a.len(),
{
    if a.len() > 0 {
        lemma_key_le_reflexive(a.skip(1));
    }
}

/// The order is total.
pub proof fn lemma_key_le_total(a: Seq<char>, b: Seq<char>)
    ensures
        key_le(a, b) || key_le(b, a),
    decreases a.len(),
{
    if a.len() > 0 && b.len() > 0 {
        if a[0] == b[0] {
            lemma_key_le_total(a.skip(1), b.skip(1));
        }
    }
}

/// The order is transitive.
pub proof fn lemma_key_le_transitive(a: Seq<char>, b: Seq<char>, c: Seq<char>)
    requires
        key_le(a, b),
        key_le(b, c),
    ensures
        key_le(a, c),
    decreases a.len(),
{
    if a.len() > 0 && b.len() > 0 && c.len() > 0 && a[0] == b[0] && b[0] == c[0] {
        lemma_key_le_transitive(a.skip(1), b.skip(1), c.skip(1));
    }
}

fn keys_in_order(a: &Vec<char>, b: &Vec<char>) -> (r: bool)
    ensures
        r == key_le(a@, b@),
{
    let mut i: usize = 0;
    assert(a@.skip(0) =~= a@);
    assert(b@.skip(0) =~= b@);
    while i < a.len() && i < b.len() && a[i] == b[i]
        invariant
            i <= a.len(),
            i <= b.len(),
            key_le(a@, b@) == key_le(a@.skip(i as int), b@.skip(i as int)),
        decreases a.len() - i,
    {
        proof {
            let x = a@.skip(i as int);
            let y = b@.skip(i as int);
            assert(x[0] == y[0]);
            assert(x.skip(1) =~= a@.skip(i + 1));
            assert(y.skip(1) =~= b@.skip(i + 1));
        }
        i = i + 1;
    }
    if i == a.len() {
        true
    } else if i == b.len() {
        false
    } else {
        a[i] < b[i]
    }
}

/// Where a new entry with key `key` goes into a sorted run of keys: behind
/// every key that is strictly smaller, so before its equals.
pub open spec fn rank(key: Seq<char>, keys: Seq<Seq<char>>) -> int
    decreases keys.len(),
{
    if keys.len() == 0 || key_le(key, keys[0]) {
        0
    } else {
        1 + rank(key, keys.skip(1))
    }
}

/// The keys of a run of entries.
pub open spec fn keys_of(entries: Seq<DirEntry>) -> Seq<Seq<char>> {
    entries.map_values(|e: DirEntry| key_of(e))
}

/// The entries in listing order. It is built from the back: the first entry
/// goes into the sorted rest, before the entries that share its key.
pub open spec fn sorted(entries: Seq<DirEntry>) -> Seq<DirEntry>
    decreases entries.len(),
{
    if entries.len() == 0 {
        Seq::empty()
    } else {
        let rest = sorted(entries.skip(1));
        rest.insert(rank(key_of(entries[0]), keys_of(rest)), entries[0])
    }
}

proof fn lemma_rank_bounds(key: Seq<char>, keys: Seq<Seq<char>>)
    ensures
        0 <= rank(key, keys) <= keys.len(),
    decreases keys.len(),
{
    if !(keys.len() == 0 || key_le(key, keys[0])) {
        lemma_rank_bounds(key, keys.skip(1));
    }
}

/// The keys alone in listing order, built as `sorted` is built.
pub open spec fn sorted_keys(keys: Seq<Seq<char>>) -> Seq<Seq<char>>
    decreases keys.len(),
{
    if keys.len() == 0 {
        Seq::empty()
    } else {
        let rest = sorted_keys(keys.skip(1));
        rest.insert(rank(keys[0], rest), keys[0])
    }
}

/// The entries in the order of the keys that come with them, `keys[i]` being
/// the key of `entries[i]`: by key, and among equal keys in the order given.
pub open spec fn sorted_by(entries: Seq<DirEntry>, keys: Seq<Seq<char>>) -> Seq<DirEntry>
    decreases entries.len(),
{
    if entries.len() == 0 || keys.len() == 0 {
        Seq::empty()
    } else {
        let rest = sorted_by(entries.skip(1), keys.skip(1));
        rest.insert(rank(keys[0], sorted_keys(keys.skip(1))), entries[0])
    }
}

proof fn lemma_sorted_keys_len(keys: Seq<Seq<char>>)
    ensures
        sorted_keys(keys).len() == keys.len(),
    decreases keys.len(),
{
    if keys.len() > 0 {
        lemma_sorted_keys_len(keys.skip(1));
        lemma_rank_bounds(keys[0], sorted_keys(keys.skip(1)));
    }
}

/// Sorting entries by their own keys is the listing order.
pub proof fn lemma_sorted_by_own_keys(entries: Seq<DirEntry>)
    ensures
        sorted_by(entries, keys_of(entries)) == sorted(entries),
        sorted_keys(keys_of(entries)) == keys_of(sorted(entries)),
    decreases entries.len(),
{
    if entries.len() > 0 {
        let tail = entries.skip(1);
        let rest = sorted(tail);
        lemma_sorted_by_own_keys(tail);
        assert(keys_of(entries).skip(1) =~= keys_of(tail));
        let at = rank(key_of(entries[0]), keys_of(rest));
        lemma_rank_bounds(key_of(entries[0]), keys_of(rest));
        assert(keys_of(rest).insert(at, key_of(entries[0])) =~= keys_of(
            rest.insert(at, entries[0]),
        ));
    } else {
        assert(keys_of(sorted(entries)) =~= Seq::<Seq<char>>::empty());
    }
}

/// Keys in listing order never go down.
pub proof fn lemma_sorted_keys_ordered(keys: Seq<Seq<char>>)
    ensures
        forall|i: int, j: int|
            0 <= i <= j < sorted_keys(keys).len() ==> key_le(
                #[trigger] sorted_keys(keys)[i],
                #[trigger] sorted_keys(keys)[j],
            ),
    decreases keys.len(),
{
    if keys.len() > 0 {
        let key = keys[0];
        let rest = sorted_keys(keys.skip(1));
        let at = rank(key, rest);
        let out = sorted_keys(keys);
        lemma_sorted_keys_ordered(keys.skip(1));
        lemma_rank_splits(key, rest);
        assert forall|i: int, j: int| 0 <= i <= j < out.len() implies key_le(
            #[trigger] out[i],
            #[trigger] out[j],
        ) by {
            if i == j {
                lemma_key_le_reflexive(out[i]);
            } else if j == at {
                assert(out[i] == rest[i]);
                lemma_key_le_total(key, rest[i]);
            } else if i == at {
                assert(out[j] == rest[j - 1]);
                assert(key_le(rest[at], rest[j - 1]));
                lemma_key_le_transitive(key, rest[at], rest[j - 1]);
            } else {
                let a = if i < at {
                    i
                } else {
                    i - 1
                };
                let b = if j < at {
                    j
                } else {
                    j - 1
                };
                assert(out[i] == rest[a]);
                assert(out[j] == rest[b]);
                assert(key_le(rest[a], rest[b]));
            }
        }
    }
}

/// Sorting by given keys neither adds nor drops an entry.
pub proof fn lemma_sorted_by_is_permutation(entries: Seq<DirEntry>, keys: Seq<Seq<char>>)
    requires
        keys.len() == entries.len(),
    ensures
        sorted_by(entries, keys).to_multiset() == entries.to_multiset(),
    decreases entries.len(),
{
    if entries.len() > 0 {
        let tail = entries.skip(1);
        let rest = sorted_by(tail, keys.skip(1));
        let at = rank(keys[0], sorted_keys(keys.skip(1)));
        lemma_sorted_by_is_permutation(tail, keys.skip(1));
        lemma_sorted_by_len(tail, keys.skip(1));
        lemma_sorted_keys_len(keys.skip(1));
        lemma_rank_bounds(keys[0], sorted_keys(keys.skip(1)));
        assert(tail.insert(0, entries[0]) =~= entries);
        vstd::seq_lib::to_multiset_insert(rest, at, entries[0]);
        vstd::seq_lib::to_multiset_insert(tail, 0, entries[0]);
    } else {
        assert(sorted_by(entries, keys) =~= entries);
    }
}

proof fn lemma_sorted_by_len(entries: Seq<DirEntry>, keys: Seq<Seq<char>>)
    requires
        keys.len() == entries.len(),
    ensures
        sorted_by(entries, keys).len() == entries.len(),
    decreases entries.len(),
{
    if entries.len() > 0 {
        lemma_sorted_by_len(entries.skip(1), keys.skip(1));
        lemma_sorted_keys_len(keys.skip(1));
        lemma_rank_bounds(keys[0], sorted_keys(keys.skip(1)));
    }
}

/// Puts the entries into the order of the keys that come with them: by key,
/// and among entries with the same key in the order in which they were given.
/// `keys[i]` is the key of `entries[i]`.
pub fn sort_by_keys(entries: Vec<DirEntry>, keys: Vec<Vec<char>>) -> (out: Vec<DirEntry>)
    requires
        keys.len() == entries.len(),
    ensures
        out@ == sorted_by(entries@, keys.deep_view()),
{
    let ghost all = entries@;
    let ghost all_keys = keys.deep_view();
    let mut pending = entries;
    let mut pending_keys = keys;
    let mut out: Vec<DirEntry> = Vec::new();
    let mut out_keys: Vec<Vec<char>> = Vec::new();
    proof {
        assert(all.skip(all.len() as int) =~= Seq::<DirEntry>::empty());
        assert(all_keys.skip(all.len() as int) =~= Seq::<Seq<char>>::empty());
        assert forall|k: int| 0 <= k < pending_keys.len() implies (#[trigger] pending_keys[k])@
            == all_keys[k] by {
            assert(pending_keys[k].deep_view() =~= pending_keys[k]@);
        }
    }
    while pending.len() > 0
        invariant
            pending.len() == pending_keys.len(),
            pending.len() <= all.len(),
            all.len() == all_keys.len(),
            pending@ == all.take(pending.len() as int),
            forall|k: int|
                0 <= k < pending_keys.len() ==> (#[trigger] pending_keys[k])@ == all_keys[k],
            out@ == sorted_by(
                all.skip(pending.len() as int),
                all_keys.skip(pending.len() as int),
            ),
            out_keys.len() == out.len(),
            out_keys.len() == sorted_keys(all_keys.skip(pending.len() as int)).len(),
            forall|k: int|
                0 <= k < out_keys.len() ==> (#[trigger] out_keys[k])@ == sorted_keys(
                    all_keys.skip(pending.len() as int),
                )[k],
        decreases pending.len(),
    {
        let ghost n = pending.len() as int;
        let ghost ks = sorted_keys(all_keys.skip(n));
        let e = pending.pop().unwrap();
        let key = pending_keys.pop().unwrap();
        proof {
            assert(key@ == all_keys[n - 1]);
            assert(all.skip(n - 1)[0] == e);
            assert(all.skip(n - 1).skip(1) =~= all.skip(n));
            assert(all_keys.skip(n - 1).skip(1) =~= all_keys.skip(n));
            assert(pending@ =~= all.take(n - 1));
        }
        let mut at: usize = 0;
        assert(ks.skip(0) =~= ks);
        while at < out_keys.len() && !keys_in_order(&key, &out_keys[at])
            invariant
                at <= out_keys.len(),
                out_keys.len() == ks.len(),
                forall|k: int| 0 <= k < out_keys.len() ==> (#[trigger] out_keys[k])@ == ks[k],
                rank(key@, ks) == at + rank(key@, ks.skip(at as int)),
            decreases out_keys.len() - at,
        {
            proof {
                let here = ks.skip(at as int);
                assert(here[0] == out_keys[at as int]@);
                assert(here.skip(1) =~= ks.skip(at + 1));
            }
            at = at + 1;
        }
        proof {
            let here = ks.skip(at as int);
            if at < out_keys.len() {
                assert(here[0] == out_keys[at as int]@);
            }
            assert(rank(key@, here) == 0);
        }
        let ghost key_text = key@;
        out.insert(at, e);
        out_keys.insert(at, key);
        proof {
            let now = sorted_keys(all_keys.skip(n - 1));
            assert(now == ks.insert(at as int, key_text));
            assert forall|k: int| 0 <= k < out_keys.len() implies (#[trigger] out_keys[k])@
                == now[k] by {
                if k < at {
                    assert(out_keys[k]@ == ks[k]);
                } else if k > at {
                    assert(out_keys[k]@ == ks[k - 1]);
                }
            }
        }
    }
    assert(all.skip(0) =~= all);
    assert(all_keys.skip(0) =~= all_keys);
    out
}

/// Puts the entries into listing order: by the key of their name, and among
/// entries with the same key in the order in which they were given.
pub fn sort_entries(entries: Vec<DirEntry>) -> (out: Vec<DirEntry>)
    ensures
        out@ == sorted(entries@),
{
    let mut keys: Vec<Vec<char>> = Vec::new();
    let mut i: usize = 0;
    while i < entries.len()
        invariant
            i <= entries.len(),
            keys.len() == i,
            forall|k: int| 0 <= k < i ==> (#[trigger] keys[k])@ == key_of(entries[k]),
        decreases entries.len() - i,
    {
        keys.push(to_chars(normalize(entries[i].name.as_str()).as_str()));
        i = i + 1;
    }
    proof {
        assert(keys.deep_view() =~= keys_of(entries@)) by {
            assert forall|k: int| 0 <= k < keys.len() implies keys.deep_view()[k] == keys_of(
                entries@,
            )[k] by {
                assert(keys[k].deep_view() =~= keys[k]@);
            }
        }
        lemma_sorted_by_own_keys(entries@);
    }
    sort_by_keys(entries, keys)
}

/// A run of entries whose keys never go down.
pub open spec fn ordered(entries: Seq<DirEntry>) -> bool {
    forall|i: int, j: int|
        0 <= i <= j < entries.len() ==> key_le(
            #[trigger] key_of(entries[i]),
            #[trigger] key_of(entries[j]),
        )
}

proof fn lemma_rank_splits(key: Seq<char>, keys: Seq<Seq<char>>)
    ensures
        0 <= rank(key, keys) <= keys.len(),
        forall|i: int| 0 <= i < rank(key, keys) ==> !key_le(key, #[trigger] keys[i]),
        rank(key, keys) < keys.len() ==> key_le(key, keys[rank(key, keys)]),
    decreases keys.len(),
{
    if !(keys.len() == 0 || key_le(key, keys[0])) {
        let rest = keys.skip(1);
        lemma_rank_splits(key, rest);
        assert forall|i: int| 0 <= i < rank(key, keys) implies !key_le(key, #[trigger] keys[i]) by {
            if i > 0 {
                assert(keys[i] == rest[i - 1]);
            }
        }
        if rank(key, keys) < keys.len() {
            assert(keys[rank(key, keys)] == rest[rank(key, rest)]);
        }
    }
}

/// The listing is in order: no entry has a key above that of a later entry.
pub proof fn lemma_sorted_is_ordered(entries: Seq<DirEntry>)
    ensures
        ordered(sorted(entries)),
    decreases entries.len(),
{
    if entries.len() > 0 {
        let first = entries[0];
        let key = key_of(first);
        let rest = sorted(entries.skip(1));
        let keys = keys_of(rest);
        let at = rank(key, keys);
        let out = sorted(entries);
        lemma_sorted_is_ordered(entries.skip(1));
        lemma_rank_splits(key, keys);
        assert forall|i: int, j: int| 0 <= i <= j < out.len() implies key_le(
            #[trigger] key_of(out[i]),
            #[trigger] key_of(out[j]),
        ) by {
            if i == j {
                lemma_key_le_reflexive(key_of(out[i]));
            } else if j == at {
                // an entry before the new one: its key is strictly below
                assert(out[i] == rest[i]);
                assert(keys[i] == key_of(rest[i]));
                lemma_key_le_total(key, keys[i]);
            } else if i == at {
                // an entry behind the new one: its key is not below
                assert(out[j] == rest[j - 1]);
                assert(keys[at] == key_of(rest[at]));
                assert(key_le(key_of(rest[at]), key_of(rest[j - 1])));
                lemma_key_le_transitive(key, key_of(rest[at]), key_of(rest[j - 1]));
            } else {
                let a = if i < at {
                    i
                } else {
                    i - 1
                };
                let b = if j < at {
                    j
                } else {
                    j - 1
                };
                assert(out[i] == rest[a]);
                assert(out[j] == rest[b]);
                assert(key_le(key_of(rest[a]), key_of(rest[b])));
            }
        }
    }
}

/// The listing holds the entries that were given, each as often as it was
/// given.
pub proof fn lemma_sorted_is_permutation(entries: Seq<DirEntry>)
    ensures
        sorted(entries).to_multiset() == entries.to_multiset(),
    decreases entries.len(),
{
    if entries.len() > 0 {
        let tail = entries.skip(1);
        let rest = sorted(tail);
        let at = rank(key_of(entries[0]), keys_of(rest));
        lemma_sorted_is_permutation(tail);
        lemma_rank_bounds(key_of(entries[0]), keys_of(rest));
        assert(tail.insert(0, entries[0]) =~= entries);
        vstd::seq_lib::to_multiset_insert(rest, at, entries[0]);
        vstd::seq_lib::to_multiset_insert(tail, 0, entries[0]);
    } else {
        assert(sorted(entries) =~= entries);
    }
}

/// The listing is stable: the entries that share a key stand in it in the
/// order in which they were given.
pub proof fn lemma_sorted_is_stable(entries: Seq<DirEntry>, key: Seq<char>)
    ensures
        sorted(entries).filter(|e: DirEntry| key_of(e) == key) == entries.filter(
            |e: DirEntry| key_of(e) == key,
        ),
    decreases entries.len(),
{
    let shares = |e: DirEntry| key_of(e) == key;
    if entries.len() > 0 {
        let first = entries[0];
        let tail = entries.skip(1);
        let rest = sorted(tail);
        let keys = keys_of(rest);
        let at = rank(key_of(first), keys);
        lemma_sorted_is_stable(tail, key);
        lemma_rank_splits(key_of(first), keys);
        let low = rest.take(at);
        let high = rest.skip(at);
        assert(rest =~= low + high);
        assert(sorted(entries) =~= low + (seq![first] + high));
        assert(entries =~= seq![first] + tail);
        Seq::filter_distributes_over_add(low, high, shares);
        Seq::filter_distributes_over_add(low, seq![first] + high, shares);
        high.lemma_filter_prepend(first, shares);
        tail.lemma_filter_prepend(first, shares);
        if shares(first) {
            assert(low.all(|e: DirEntry| !shares(e))) by {
                assert forall|i: int| 0 <= i < low.len() implies !shares(#[trigger] low[i]) by {
                    assert(keys[i] == key_of(rest[i]));
                    lemma_key_le_reflexive(key);
                }
            }
            low.lemma_all_neg_filter_empty(shares);
            assert(low.filter(shares) =~= Seq::<DirEntry>::empty());
            assert(sorted(entries).filter(shares) =~= entries.filter(shares));
        } else {
            assert(sorted(entries).filter(shares) =~= entries.filter(shares));
        }
    } else {
        assert(sorted(entries) =~= entries);
    }
}

} // verus!
