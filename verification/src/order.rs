//! Lexicographic orders on byte strings and names, and the sorted sequences
//! that folder hashes are computed over.
use vstd::prelude::*;
use vstd::multiset::Multiset;
use vstd::relations::{sorted_by, total_ordering};

verus! {

broadcast use vstd::multiset::group_multiset_axioms;

// ----- byte strings -----

/// Lexicographic order on byte strings (`<=` of `[u8]`).
pub open spec fn bytes_le(a: Seq<u8>, b: Seq<u8>) -> bool
    decreases a.len(),
{
    if a.len() == 0 {
        true
    } else if b.len() == 0 {
        false
    } else if a[0] < b[0] {
        true
    } else if a[0] > b[0] {
        false
    } else {
        bytes_le(a.drop_first(), b.drop_first())
    }
}

pub open spec fn bytes_le_rel() -> spec_fn(Seq<u8>, Seq<u8>) -> bool {
    |a: Seq<u8>, b: Seq<u8>| bytes_le(a, b)
}

proof fn lemma_bytes_le_reflexive(a: Seq<u8>)
    ensures
        bytes_le(a, a),
    decreases a.len(),
{
    if a.len() > 0 {
        lemma_bytes_le_reflexive(a.drop_first());
    }
}

proof fn lemma_bytes_le_total(a: Seq<u8>, b: Seq<u8>)
    ensures
        bytes_le(a, b) || bytes_le(b, a),
    decreases a.len(),
{
    if a.len() > 0 && b.len() > 0 && a[0] == b[0] {
        lemma_bytes_le_total(a.drop_first(), b.drop_first());
    }
}

proof fn lemma_bytes_le_antisymmetric(a: Seq<u8>, b: Seq<u8>)
    requires
        bytes_le(a, b),
        bytes_le(b, a),
    ensures
        a == b,
    decreases a.len(),
{
    if a.len() > 0 {
        lemma_bytes_le_antisymmetric(a.drop_first(), b.drop_first());
        assert(a =~= seq![a[0]] + a.drop_first());
        assert(b =~= seq![b[0]] + b.drop_first());
    } else {
        assert(b.len() == 0);
        assert(a =~= b);
    }
}

proof fn lemma_bytes_le_transitive(a: Seq<u8>, b: Seq<u8>, c: Seq<u8>)
    requires
        bytes_le(a, b),
        bytes_le(b, c),
    ensures
        bytes_le(a, c),
    decreases a.len(),
{
    if a.len() > 0 && b.len() > 0 && c.len() > 0 && a[0] == b[0] && b[0] == c[0] {
        lemma_bytes_le_transitive(a.drop_first(), b.drop_first(), c.drop_first());
    }
}

/// The lexicographic order on byte strings is a total order.
pub proof fn lemma_bytes_le_total_ordering()
    ensures
        total_ordering(bytes_le_rel()),
{
    let r = bytes_le_rel();
    assert forall|x: Seq<u8>| #[trigger] r(x, x) by {
        lemma_bytes_le_reflexive(x);
    }
    assert forall|x: Seq<u8>, y: Seq<u8>| #[trigger] r(x, y) && #[trigger] r(y, x) implies x == y by {
        lemma_bytes_le_antisymmetric(x, y);
    }
    assert forall|x: Seq<u8>, y: Seq<u8>, z: Seq<u8>| #[trigger] r(x, y) && #[trigger] r(y, z) implies r(
        x,
        z,
    ) by {
        lemma_bytes_le_transitive(x, y, z);
    }
    assert forall|x: Seq<u8>, y: Seq<u8>| #[trigger] r(x, y) || #[trigger] r(y, x) by {
        lemma_bytes_le_total(x, y);
    }
}

/// Inserts `x` before the first element that is not below it.
pub open spec fn insert_sorted(s: Seq<Seq<u8>>, x: Seq<u8>) -> Seq<Seq<u8>>
    decreases s.len(),
{
    if s.len() == 0 {
        seq![x]
    } else if bytes_le(x, s[0]) {
        seq![x] + s
    } else {
        seq![s[0]] + insert_sorted(s.drop_first(), x)
    }
}

/// Insertion sort of byte strings in lexicographic order.
pub open spec fn sort_bytes(s: Seq<Seq<u8>>) -> Seq<Seq<u8>>
    decreases s.len(),
{
    if s.len() == 0 {
        Seq::empty()
    } else {
        insert_sorted(sort_bytes(s.drop_last()), s.last())
    }
}

proof fn lemma_insert_sorted_multiset(s: Seq<Seq<u8>>, x: Seq<u8>)
    ensures
        insert_sorted(s, x).to_multiset() == s.to_multiset().insert(x),
    decreases s.len(),
{
    broadcast use vstd::seq_lib::group_to_multiset_ensures;
    if s.len() == 0 {
        assert(seq![x].to_multiset() =~= Multiset::empty().insert(x)) by {
            assert(seq![x] =~= Seq::<Seq<u8>>::empty().push(x));
        }
        assert(s.to_multiset() =~= Multiset::empty());
    } else if bytes_le(x, s[0]) {
        vstd::seq_lib::lemma_multiset_commutative(seq![x], s);
        assert(seq![x] =~= Seq::<Seq<u8>>::empty().push(x));
    } else {
        lemma_insert_sorted_multiset(s.drop_first(), x);
        vstd::seq_lib::lemma_multiset_commutative(seq![s[0]], insert_sorted(s.drop_first(), x));
        vstd::seq_lib::lemma_multiset_commutative(seq![s[0]], s.drop_first());
        assert(seq![s[0]] + s.drop_first() =~= s);
        assert(seq![s[0]] =~= Seq::<Seq<u8>>::empty().push(s[0]));
    }
}

proof fn lemma_insert_sorted_sorted(s: Seq<Seq<u8>>, x: Seq<u8>)
    requires
        sorted_by(s, bytes_le_rel()),
    ensures
        sorted_by(insert_sorted(s, x), bytes_le_rel()),
        forall|i: int|
            0 <= i < insert_sorted(s, x).len() ==> #[trigger] insert_sorted(s, x)[i] == x || s.contains(
                insert_sorted(s, x)[i],
            ),
        insert_sorted(s, x).len() == s.len() + 1,
    decreases s.len(),
{
    lemma_bytes_le_total_ordering();
    let r = insert_sorted(s, x);
    if s.len() == 0 {
    } else if bytes_le(x, s[0]) {
        assert forall|i: int, j: int| 0 <= i < j < r.len() implies #[trigger] bytes_le(r[i], r[j]) by {
            if i == 0 {
                if j - 1 > 0 {
                    assert(bytes_le_rel()(s[0], s[j - 1]));
                    lemma_bytes_le_transitive(x, s[0], s[j - 1]);
                }
            } else {
                assert(r[i] == s[i - 1] && r[j] == s[j - 1]);
                assert(bytes_le_rel()(s[i - 1], s[j - 1]));
            }
        }
        assert forall|i: int| 0 <= i < r.len() implies #[trigger] r[i] == x || s.contains(r[i]) by {
            if i > 0 {
                assert(r[i] == s[i - 1]);
            }
        }
    } else {
        let t = s.drop_first();
        assert(sorted_by(t, bytes_le_rel())) by {
            assert forall|i: int, j: int| 0 <= i < j < t.len() implies #[trigger] bytes_le(t[i], t[j]) by {
                assert(t[i] == s[i + 1] && t[j] == s[j + 1]);
                assert(bytes_le_rel()(s[i + 1], s[j + 1]));
            }
        }
        lemma_insert_sorted_sorted(t, x);
        let rt = insert_sorted(t, x);
        lemma_bytes_le_total(x, s[0]);
        assert forall|i: int, j: int| 0 <= i < j < r.len() implies #[trigger] bytes_le(r[i], r[j]) by {
            if i == 0 {
                assert(r[j] == rt[j - 1]);
                if rt[j - 1] == x {
                } else {
                    let k = choose|k: int| 0 <= k < t.len() && t[k] == rt[j - 1];
                    assert(s[k + 1] == t[k]);
                    assert(bytes_le_rel()(s[0], s[k + 1]));
                }
            } else {
                assert(r[i] == rt[i - 1] && r[j] == rt[j - 1]);
                assert(bytes_le_rel()(rt[i - 1], rt[j - 1]));
            }
        }
        assert forall|i: int| 0 <= i < r.len() implies #[trigger] r[i] == x || s.contains(r[i]) by {
            if i == 0 {
                assert(s[0] == r[0]);
            } else {
                assert(r[i] == rt[i - 1]);
                if rt[i - 1] != x {
                    let k = choose|k: int| 0 <= k < t.len() && t[k] == rt[i - 1];
                    assert(s[k + 1] == t[k]);
                }
            }
        }
    }
}

/// Sorting yields a sorted permutation of the input.
pub proof fn lemma_sort_bytes_sorted_permutation(s: Seq<Seq<u8>>)
    ensures
        sorted_by(sort_bytes(s), bytes_le_rel()),
        sort_bytes(s).to_multiset() == s.to_multiset(),
        sort_bytes(s).len() == s.len(),
    decreases s.len(),
{
    broadcast use vstd::seq_lib::group_to_multiset_ensures;
    if s.len() > 0 {
        lemma_sort_bytes_sorted_permutation(s.drop_last());
        lemma_insert_sorted_sorted(sort_bytes(s.drop_last()), s.last());
        lemma_insert_sorted_multiset(sort_bytes(s.drop_last()), s.last());
        assert(s =~= s.drop_last().push(s.last()));
    }
}

/// Sorting does not depend on the order of its input: any two orderings of the
/// same byte strings sort to the same sequence.
pub proof fn lemma_sort_bytes_order_independent(a: Seq<Seq<u8>>, b: Seq<Seq<u8>>)
    requires
        a.to_multiset() == b.to_multiset(),
    ensures
        sort_bytes(a) == sort_bytes(b),
{
    lemma_sort_bytes_sorted_permutation(a);
    lemma_sort_bytes_sorted_permutation(b);
    lemma_bytes_le_total_ordering();
    vstd::seq_lib::lemma_sorted_unique(sort_bytes(a), sort_bytes(b), bytes_le_rel());
}

proof fn lemma_insert_at_first_not_below(s: Seq<Seq<u8>>, x: Seq<u8>, k: int)
    requires
        0 <= k <= s.len(),
        forall|i: int| 0 <= i < k ==> !bytes_le(x, #[trigger] s[i]),
        k < s.len() ==> bytes_le(x, s[k]),
    ensures
        insert_sorted(s, x) == s.insert(k, x),
    decreases s.len(),
{
    if s.len() == 0 {
        assert(s.insert(k, x) =~= seq![x]);
    } else if k == 0 {
        assert(s.insert(0, x) =~= seq![x] + s);
    } else {
        let t = s.drop_first();
        assert forall|i: int| 0 <= i < k - 1 implies !bytes_le(x, #[trigger] t[i]) by {
            assert(t[i] == s[i + 1]);
        }
        lemma_insert_at_first_not_below(t, x, k - 1);
        assert(s.insert(k, x) =~= seq![s[0]] + t.insert(k - 1, x));
    }
}

// ----- executable side for digests -----

/// The byte strings held by a vector of digests.
pub open spec fn digest_views(v: Seq<[u8; 32]>) -> Seq<Seq<u8>> {
    Seq::new(v.len(), |i: int| v[i]@)
}

/// Whether digest `a` is lexicographically at most `b`.
pub fn digest_le(a: &[u8; 32], b: &[u8; 32]) -> (r: bool)
    ensures
        r == bytes_le(a@, b@),
{
    let mut i: usize = 0;
    assert(a@.skip(0) =~= a@);
    assert(b@.skip(0) =~= b@);
    while i < 32
        invariant
            i <= 32,
            a@.len() == 32,
            b@.len() == 32,
            bytes_le(a@, b@) == bytes_le(a@.skip(i as int), b@.skip(i as int)),
        decreases 32 - i,
    {
        assert(a@.skip(i as int)[0] == a@[i as int]);
        assert(b@.skip(i as int)[0] == b@[i as int]);
        if a[i] < b[i] {
            return true;
        }
        if a[i] > b[i] {
            return false;
        }
        assert(a@.skip(i as int).drop_first() =~= a@.skip(i + 1));
        assert(b@.skip(i as int).drop_first() =~= b@.skip(i + 1));
        i = i + 1;
    }
    assert(a@.skip(32).len() == 0);
    true
}

/// Sorts digests in lexicographic byte order, as `sort_by` on their bytes does.
pub fn sort_digests(v: &Vec<[u8; 32]>) -> (r: Vec<[u8; 32]>)
    ensures
        digest_views(r@) == sort_bytes(digest_views(v@)),
{
    let mut r: Vec<[u8; 32]> = Vec::new();
    let mut n: usize = 0;
    while n < v.len()
        invariant
            n <= v.len(),
            digest_views(r@) == sort_bytes(digest_views(v@).take(n as int)),
        decreases v.len() - n,
    {
        let x = v[n];
        let mut k: usize = 0;
        while k < r.len() && !digest_le(&x, &r[k])
            invariant
                k <= r.len(),
                forall|i: int| 0 <= i < k ==> !bytes_le(x@, #[trigger] digest_views(r@)[i]),
            decreases r.len() - k,
        {
            k = k + 1;
        }
        proof {
            if k < r.len() {
                assert(digest_views(r@)[k as int] == r@[k as int]@);
            }
            lemma_insert_at_first_not_below(digest_views(r@), x@, k as int);
        }
        let ghost before = r@;
        r.insert(k, x);
        assert(digest_views(r@) =~= digest_views(before).insert(k as int, x@));
        assert(digest_views(v@).take(n + 1).drop_last() =~= digest_views(v@).take(n as int));
        assert(digest_views(v@).take(n + 1).last() == x@);
        n = n + 1;
    }
    assert(digest_views(v@).take(v.len() as int) =~= digest_views(v@));
    r
}

// ----- names -----

/// Strict lexicographic order on names, character by character (the order of
/// `String`, since UTF-8 keeps the order of code points).
pub open spec fn name_lt(a: Seq<char>, b: Seq<char>) -> bool
    decreases a.len(),
{
    if b.len() == 0 {
        false
    } else if a.len() == 0 {
        true
    } else if a[0] < b[0] {
        true
    } else if a[0] > b[0] {
        false
    } else {
        name_lt(a.drop_first(), b.drop_first())
    }
}

proof fn lemma_name_trichotomy(a: Seq<char>, b: Seq<char>)
    ensures
        name_lt(a, b) || name_lt(b, a) || a == b,
        !(name_lt(a, b) && name_lt(b, a)),
        !name_lt(a, a),
    decreases a.len(),
{
    if a.len() > 0 && b.len() > 0 && a[0] == b[0] {
        lemma_name_trichotomy(a.drop_first(), b.drop_first());
        if a.drop_first() == b.drop_first() {
            assert(a =~= seq![a[0]] + a.drop_first());
            assert(b =~= seq![b[0]] + b.drop_first());
        }
    } else if a.len() > 0 && b.len() > 0 {

    } else if a.len() == 0 && b.len() == 0 {
        assert(a =~= b);
    }
    if a.len() > 0 {
        lemma_name_trichotomy(a.drop_first(), a.drop_first());
    }
}

proof fn lemma_name_lt_transitive(a: Seq<char>, b: Seq<char>, c: Seq<char>)
    requires
        name_lt(a, b),
        name_lt(b, c),
    ensures
        name_lt(a, c),
    decreases a.len(),
{
    if a.len() > 0 && b.len() > 0 && c.len() > 0 && a[0] == b[0] && b[0] == c[0] {
        lemma_name_trichotomy(a, a);
        lemma_name_lt_transitive(a.drop_first(), b.drop_first(), c.drop_first());
    }
}

/// Whether `a` comes strictly before `b`.
pub fn name_less(a: &Vec<char>, b: &Vec<char>) -> (r: bool)
    ensures
        r == name_lt(a@, b@),
{
    let mut i: usize = 0;
    assert(a@.skip(0) =~= a@);
    assert(b@.skip(0) =~= b@);
    while i < a.len() && i < b.len()
        invariant
            i <= a.len(),
            i <= b.len(),
            name_lt(a@, b@) == name_lt(a@.skip(i as int), b@.skip(i as int)),
        decreases a.len() - i,
    {
        assert(a@.skip(i as int)[0] == a@[i as int]);
        assert(b@.skip(i as int)[0] == b@[i as int]);
        if a[i] < b[i] {
            return true;
        }
        if a[i] > b[i] {
            return false;
        }
        assert(a@.skip(i as int).drop_first() =~= a@.skip(i + 1));
        assert(b@.skip(i as int).drop_first() =~= b@.skip(i + 1));
        i = i + 1;
    }
    i < b.len()
}

/// An entry of a folder listing: a name and whether it is a directory.
pub type Entry = (Seq<char>, bool);

/// Inserts an entry into a listing ordered by name; an entry with the same name
/// is replaced, as `BTreeMap::insert` does.
pub open spec fn insert_entry(s: Seq<Entry>, e: Entry) -> Seq<Entry>
    decreases s.len(),
{
    if s.len() == 0 {
        seq![e]
    } else if e.0 == s[0].0 {
        seq![e] + s.drop_first()
    } else if name_lt(e.0, s[0].0) {
        seq![e] + s
    } else {
        seq![s[0]] + insert_entry(s.drop_first(), e)
    }
}

/// The listing built by inserting the entries in order, as a `BTreeMap` keyed by name.
pub open spec fn sorted_entries(s: Seq<Entry>) -> Seq<Entry>
    decreases s.len(),
{
    if s.len() == 0 {
        Seq::empty()
    } else {
        insert_entry(sorted_entries(s.drop_last()), s.last())
    }
}

/// Whether the names of a listing are strictly increasing.
pub open spec fn strictly_sorted_names(s: Seq<Entry>) -> bool {
    forall|i: int, j: int| 0 <= i < j < s.len() ==> name_lt(#[trigger] s[i].0, #[trigger] s[j].0)
}

proof fn lemma_insert_entry_sorted(s: Seq<Entry>, e: Entry)
    requires
        strictly_sorted_names(s),
    ensures
        strictly_sorted_names(insert_entry(s, e)),
        forall|i: int|
            0 <= i < insert_entry(s, e).len() ==> (#[trigger] insert_entry(s, e)[i] == e || exists|k: int|
                0 <= k < s.len() && s[k] == insert_entry(s, e)[i]),
        exists|i: int| 0 <= i < insert_entry(s, e).len() && #[trigger] insert_entry(s, e)[i] == e,
    decreases s.len(),
{
    let r = insert_entry(s, e);
    if s.len() == 0 {
        assert(r[0] == e);
    } else if e.0 == s[0].0 {
        assert forall|i: int, j: int| 0 <= i < j < r.len() implies name_lt(#[trigger] r[i].0, #[trigger] r[j].0) by {
            if i == 0 {
                assert(r[j] == s[j]);
            } else {
                assert(r[i] == s[i] && r[j] == s[j]);
            }
        }
        assert forall|i: int| 0 <= i < r.len() implies (#[trigger] r[i] == e || exists|k: int|
            0 <= k < s.len() && s[k] == r[i]) by {
            if i > 0 {
                assert(r[i] == s[i]);
            }
        }
        assert(r[0] == e);
    } else if name_lt(e.0, s[0].0) {
        assert forall|i: int, j: int| 0 <= i < j < r.len() implies name_lt(#[trigger] r[i].0, #[trigger] r[j].0) by {
            if i == 0 {
                if j - 1 > 0 {
                    lemma_name_lt_transitive(e.0, s[0].0, s[j - 1].0);
                }
            } else {
                assert(r[i] == s[i - 1] && r[j] == s[j - 1]);
            }
        }
        assert forall|i: int| 0 <= i < r.len() implies (#[trigger] r[i] == e || exists|k: int|
            0 <= k < s.len() && s[k] == r[i]) by {
            if i > 0 {
                assert(r[i] == s[i - 1]);
            }
        }
        assert(r[0] == e);
    } else {
        let t = s.drop_first();
        lemma_name_trichotomy(e.0, s[0].0);
        assert(strictly_sorted_names(t)) by {
            assert forall|i: int, j: int| 0 <= i < j < t.len() implies name_lt(#[trigger] t[i].0, #[trigger] t[j].0) by {
                assert(t[i] == s[i + 1] && t[j] == s[j + 1]);
            }
        }
        lemma_insert_entry_sorted(t, e);
        let rt = insert_entry(t, e);
        assert forall|i: int, j: int| 0 <= i < j < r.len() implies name_lt(#[trigger] r[i].0, #[trigger] r[j].0) by {
            if i == 0 {
                assert(r[j] == rt[j - 1]);
                if rt[j - 1] == e {
                } else {
                    let k = choose|k: int| 0 <= k < t.len() && t[k] == rt[j - 1];
                    assert(s[k + 1] == t[k]);
                }
            } else {
                assert(r[i] == rt[i - 1] && r[j] == rt[j - 1]);
            }
        }
        assert forall|i: int| 0 <= i < r.len() implies (#[trigger] r[i] == e || exists|k: int|
            0 <= k < s.len() && s[k] == r[i]) by {
            if i == 0 {
                assert(s[0] == r[0]);
            } else {
                assert(r[i] == rt[i - 1]);
                if rt[i - 1] != e {
                    let k = choose|k: int| 0 <= k < t.len() && t[k] == rt[i - 1];
                    assert(s[k + 1] == t[k]);
                }
            }
        }
        let w = choose|i: int| 0 <= i < rt.len() && rt[i] == e;
        assert(r[w + 1] == e);
    }
}

/// A listing built as a map keyed by name has strictly increasing names.
pub proof fn lemma_sorted_entries_strictly_sorted(s: Seq<Entry>)
    ensures
        strictly_sorted_names(sorted_entries(s)),
    decreases s.len(),
{
    if s.len() > 0 {
        lemma_sorted_entries_strictly_sorted(s.drop_last());
        lemma_insert_entry_sorted(sorted_entries(s.drop_last()), s.last());
    }
}

proof fn lemma_insert_entry_at(s: Seq<Entry>, e: Entry, k: int)
    requires
        0 <= k <= s.len(),
        forall|i: int| 0 <= i < k ==> name_lt(#[trigger] s[i].0, e.0),
        k < s.len() ==> !name_lt(s[k].0, e.0),
    ensures
        k < s.len() && s[k].0 == e.0 ==> insert_entry(s, e) == s.update(k, e),
        !(k < s.len() && s[k].0 == e.0) ==> insert_entry(s, e) == s.insert(k, e),
    decreases s.len(),
{
    if s.len() == 0 {
        assert(s.insert(k, e) =~= seq![e]);
    } else if k == 0 {
        lemma_name_trichotomy(e.0, s[0].0);
        assert(s.update(0, e) =~= seq![e] + s.drop_first());
        assert(s.insert(0, e) =~= seq![e] + s);
    } else {
        let t = s.drop_first();
        lemma_name_trichotomy(e.0, s[0].0);
        assert forall|i: int| 0 <= i < k - 1 implies name_lt(#[trigger] t[i].0, e.0) by {
            assert(t[i] == s[i + 1]);
        }
        lemma_insert_entry_at(t, e, k - 1);
        if k < s.len() && s[k].0 == e.0 {
            assert(t[k - 1] == s[k]);
            assert(s.update(k, e) =~= seq![s[0]] + t.update(k - 1, e));
        } else {
            if k < s.len() {
                assert(t[k - 1] == s[k]);
            }
            assert(s.insert(k, e) =~= seq![s[0]] + t.insert(k - 1, e));
        }
    }
}

/// Whether no two entries of a listing have the same name.
pub open spec fn distinct_names(s: Seq<Entry>) -> bool {
    forall|i: int, j: int| 0 <= i < s.len() && 0 <= j < s.len() && i != j ==> (#[trigger] s[i]).0 != (#[trigger] s[j]).0
}

proof fn lemma_insert_entry_keeps(s: Seq<Entry>, e: Entry)
    ensures
        forall|k: int| 0 <= k < s.len() && (#[trigger] s[k]).0 != e.0 ==> insert_entry(s, e).contains(s[k]),
        insert_entry(s, e).contains(e),
    decreases s.len(),
{
    let r = insert_entry(s, e);
    if s.len() == 0 {
        assert(r[0] == e);
    } else if e.0 == s[0].0 {
        assert(r[0] == e);
        assert forall|k: int| 0 <= k < s.len() && (#[trigger] s[k]).0 != e.0 implies r.contains(s[k]) by {
            assert(k != 0);
            assert(r[k] == s[k]);
        }
    } else if name_lt(e.0, s[0].0) {
        assert(r[0] == e);
        assert forall|k: int| 0 <= k < s.len() && (#[trigger] s[k]).0 != e.0 implies r.contains(s[k]) by {
            assert(r[k + 1] == s[k]);
        }
    } else {
        let t = s.drop_first();
        lemma_insert_entry_keeps(t, e);
        let rt = insert_entry(t, e);
        assert(r == seq![s[0]] + rt);
        let w = choose|i: int| 0 <= i < rt.len() && rt[i] == e;
        assert(r[w + 1] == e);
        assert forall|k: int| 0 <= k < s.len() && (#[trigger] s[k]).0 != e.0 implies r.contains(s[k]) by {
            if k == 0 {
                assert(r[0] == s[0]);
            } else {
                assert(t[k - 1] == s[k]);
                assert(rt.contains(t[k - 1]));
                let m = choose|m: int| 0 <= m < rt.len() && rt[m] == t[k - 1];
                assert(r[m + 1] == s[k]);
            }
        }
    }
}

/// Where names are distinct, the name-ordered listing holds exactly the
/// entries read.
proof fn lemma_sorted_entries_elements(s: Seq<Entry>)
    requires
        distinct_names(s),
    ensures
        forall|x: Entry| sorted_entries(s).contains(x) <==> s.contains(x),
    decreases s.len(),
{
    if s.len() > 0 {
        let p = s.drop_last();
        let e = s.last();
        assert(distinct_names(p)) by {
            assert forall|i: int, j: int| 0 <= i < p.len() && 0 <= j < p.len() && i != j implies (#[trigger] p[i]).0 != (#[trigger] p[j]).0 by {
                assert(p[i] == s[i] && p[j] == s[j]);
            }
        }
        lemma_sorted_entries_elements(p);
        let sp = sorted_entries(p);
        lemma_sorted_entries_strictly_sorted(p);
        lemma_insert_entry_sorted(sp, e);
        lemma_insert_entry_keeps(sp, e);
        let r = sorted_entries(s);
        assert(r == insert_entry(sp, e));
        assert forall|x: Entry| r.contains(x) <==> s.contains(x) by {
            if r.contains(x) {
                let i = choose|i: int| 0 <= i < r.len() && r[i] == x;
                if x == e {
                    assert(s[s.len() - 1] == x);
                } else {
                    assert(r[i] == e || exists|k: int| 0 <= k < sp.len() && sp[k] == r[i]);
                    let k = choose|k: int| 0 <= k < sp.len() && sp[k] == r[i];
                    assert(sp[k] == x);
                    assert(sp.contains(x));
                    assert(p.contains(x));
                    let m = choose|m: int| 0 <= m < p.len() && p[m] == x;
                    assert(s[m] == x);
                }
            }
            if s.contains(x) {
                let i = choose|i: int| 0 <= i < s.len() && s[i] == x;
                if i == s.len() - 1 {
                    assert(x == e);
                } else {
                    assert(p[i] == x);
                    assert(p.contains(x));
                    assert(sorted_entries(p).contains(x) <==> p.contains(x));
                    assert(sp.contains(x));
                    let k = choose|k: int| 0 <= k < sp.len() && sp[k] == x;
                    assert(s[i].0 != s[s.len() - 1].0);
                    assert(sp[k].0 != e.0);
                    assert(r.contains(sp[k]));
                }
            }
        }
    }
}

/// Two listings with strictly increasing names and the same entries are equal.
proof fn lemma_strictly_sorted_unique(x: Seq<Entry>, y: Seq<Entry>)
    requires
        strictly_sorted_names(x),
        strictly_sorted_names(y),
        forall|e: Entry| x.contains(e) <==> y.contains(e),
    ensures
        x == y,
    decreases x.len() + y.len(),
{
    if x.len() == 0 {
        if y.len() > 0 {
            assert(y.contains(y[0]));
        }
        assert(x =~= y);
    } else if y.len() == 0 {
        assert(x.contains(x[0]));
    } else {
        assert(x.contains(x[0]));
        assert(y.contains(y[0]));
        let i = choose|i: int| 0 <= i < x.len() && x[i] == y[0];
        let j = choose|j: int| 0 <= j < y.len() && y[j] == x[0];
        if x[0] != y[0] {
            assert(i > 0 && j > 0);
            assert(name_lt(x[0].0, x[i].0));
            assert(name_lt(y[0].0, y[j].0));
            lemma_name_trichotomy(x[0].0, y[0].0);
        }
        let xt = x.drop_first();
        let yt = y.drop_first();
        assert(strictly_sorted_names(xt)) by {
            assert forall|a: int, b: int| 0 <= a < b < xt.len() implies name_lt(#[trigger] xt[a].0, #[trigger] xt[b].0) by {
                assert(xt[a] == x[a + 1] && xt[b] == x[b + 1]);
            }
        }
        assert(strictly_sorted_names(yt)) by {
            assert forall|a: int, b: int| 0 <= a < b < yt.len() implies name_lt(#[trigger] yt[a].0, #[trigger] yt[b].0) by {
                assert(yt[a] == y[a + 1] && yt[b] == y[b + 1]);
            }
        }
        assert forall|e: Entry| xt.contains(e) <==> yt.contains(e) by {
            if xt.contains(e) {
                let a = choose|a: int| 0 <= a < xt.len() && xt[a] == e;
                assert(x[a + 1] == e);
                assert(name_lt(x[0].0, x[a + 1].0));
                lemma_name_trichotomy(x[0].0, e.0);
                assert(y.contains(e));
                let b = choose|b: int| 0 <= b < y.len() && y[b] == e;
                assert(b != 0);
                assert(yt[b - 1] == e);
            }
            if yt.contains(e) {
                let a = choose|a: int| 0 <= a < yt.len() && yt[a] == e;
                assert(y[a + 1] == e);
                assert(name_lt(y[0].0, y[a + 1].0));
                lemma_name_trichotomy(y[0].0, e.0);
                assert(x.contains(e));
                let b = choose|b: int| 0 <= b < x.len() && x[b] == e;
                assert(b != 0);
                assert(xt[b - 1] == e);
            }
        }
        lemma_strictly_sorted_unique(xt, yt);
        assert(x =~= seq![x[0]] + xt);
        assert(y =~= seq![y[0]] + yt);
    }
}

/// Where the names of a listing are distinct, its name-ordered form does not
/// depend on the order in which the entries were read.
pub proof fn lemma_sorted_entries_order_independent(a: Seq<Entry>, b: Seq<Entry>)
    requires
        distinct_names(a),
        distinct_names(b),
        forall|e: Entry| a.contains(e) <==> b.contains(e),
    ensures
        sorted_entries(a) == sorted_entries(b),
{
    lemma_sorted_entries_elements(a);
    lemma_sorted_entries_elements(b);
    lemma_sorted_entries_strictly_sorted(a);
    lemma_sorted_entries_strictly_sorted(b);
    assert forall|e: Entry| sorted_entries(a).contains(e) <==> sorted_entries(b).contains(e) by {
        assert(sorted_entries(a).contains(e) <==> a.contains(e));
        assert(sorted_entries(b).contains(e) <==> b.contains(e));
    }
    lemma_strictly_sorted_unique(sorted_entries(a), sorted_entries(b));
}

/// A folder entry as handed over by the directory walk: a name and whether it is a directory.
pub struct ListingEntry {
    pub name: Vec<char>,
    pub is_dir: bool,
}

pub open spec fn listing_views(v: Seq<ListingEntry>) -> Seq<Entry> {
    Seq::new(v.len(), |i: int| (v[i].name@, v[i].is_dir))
}

/// Builds the name-ordered listing of `entries`, later entries replacing earlier
/// ones of the same name.
pub fn sort_listing(entries: &Vec<ListingEntry>) -> (r: Vec<ListingEntry>)
    ensures
        listing_views(r@) == sorted_entries(listing_views(entries@)),
{
    let mut r: Vec<ListingEntry> = Vec::new();
    let mut n: usize = 0;
    let ghost input = listing_views(entries@);
    while n < entries.len()
        invariant
            n <= entries.len(),
            input == listing_views(entries@),
            listing_views(r@) == sorted_entries(input.take(n as int)),
        decreases entries.len() - n,
    {
        let e = ListingEntry { name: entries[n].name.clone(), is_dir: entries[n].is_dir };
        assert(e.name@ =~= entries@[n as int].name@);
        let mut k: usize = 0;
        while k < r.len() && name_less(&r[k].name, &e.name)
            invariant
                k <= r.len(),
                forall|i: int| 0 <= i < k ==> name_lt(#[trigger] listing_views(r@)[i].0, e.name@),
            decreases r.len() - k,
        {
            k = k + 1;
        }
        let same = k < r.len() && crate::text::chars_eq(&r[k].name, &e.name);
        proof {
            lemma_insert_entry_at(listing_views(r@), (e.name@, e.is_dir), k as int);
        }
        let ghost before = r@;
        let ghost ev = (e.name@, e.is_dir);
        if same {
            r.set(k, e);
            assert(listing_views(r@) =~= listing_views(before).update(k as int, ev));
        } else {
            r.insert(k, e);
            assert(listing_views(r@) =~= listing_views(before).insert(k as int, ev));
        }
        assert(input.take(n + 1).drop_last() =~= input.take(n as int));
        assert(input.take(n + 1).last() == ev);
        n = n + 1;
    }
    assert(input.take(entries.len() as int) =~= input);
    r
}

} // verus!
