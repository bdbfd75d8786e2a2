use vstd::prelude::*;

verus! {

/// Some row has key `k`.
pub open spec fn has_key<T>(rows: Seq<T>, key: spec_fn(T) -> Seq<char>, k: Seq<char>) -> bool {
    exists|i: int| 0 <= i < rows.len() && #[trigger] key(rows[i]) == k
}

/// No two rows share a key.
pub open spec fn distinct_by<T>(rows: Seq<T>, key: spec_fn(T) -> Seq<char>) -> bool {
    forall|i: int, j: int|
        0 <= i < rows.len() && 0 <= j < rows.len() && i != j ==> #[trigger] key(rows[i]) != #[trigger] key(
            rows[j],
        )
}

/// The rows as a map from key to row.
pub open spec fn keyed<T: View>(rows: Seq<T>, key: spec_fn(T) -> Seq<char>) -> Map<Seq<char>, T::V> {
    Map::new(
        |k: Seq<char>| has_key(rows, key, k),
        |k: Seq<char>| rows[choose|i: int| 0 <= i < rows.len() && #[trigger] key(rows[i]) == k]@,
    )
}

/// No two entries of `m` agree on `sec`.
pub open spec fn injective_by<V>(m: Map<Seq<char>, V>, sec: spec_fn(V) -> Seq<char>) -> bool {
    forall|k1: Seq<char>, k2: Seq<char>|
        m.contains_key(k1) && m.contains_key(k2) && #[trigger] sec(m[k1]) == #[trigger] sec(m[k2])
            ==> k1 == k2
}

/// Some entry of `m` has `sec` equal to `c`.
pub open spec fn value_with<V>(m: Map<Seq<char>, V>, sec: spec_fn(V) -> Seq<char>, c: Seq<char>) -> bool {
    exists|k: Seq<char>| m.contains_key(k) && #[trigger] sec(m[k]) == c
}

pub proof fn lemma_keyed_at<T: View>(rows: Seq<T>, key: spec_fn(T) -> Seq<char>, i: int)
    requires
        distinct_by(rows, key),
        0 <= i < rows.len(),
    ensures
        keyed(rows, key).contains_key(key(rows[i])),
        keyed(rows, key)[key(rows[i])] == rows[i]@,
{
    let k = key(rows[i]);
    assert(has_key(rows, key, k));
    let j = choose|j: int| 0 <= j < rows.len() && #[trigger] key(rows[j]) == k;
    assert(j == i);
}

pub proof fn lemma_keyed_push<T: View>(rows: Seq<T>, key: spec_fn(T) -> Seq<char>, x: T)
    requires
        distinct_by(rows, key),
        !has_key(rows, key, key(x)),
    ensures
        distinct_by(rows.push(x), key),
        keyed(rows.push(x), key) == keyed(rows, key).insert(key(x), x@),
{
    let r2 = rows.push(x);
    let n = rows.len() as int;
    assert forall|i: int, j: int|
        0 <= i < r2.len() && 0 <= j < r2.len() && i != j implies #[trigger] key(r2[i]) != #[trigger] key(
            r2[j],
        ) by {
        if i < n && j < n {
            assert(r2[i] == rows[i] && r2[j] == rows[j]);
        } else if i < n {
            assert(r2[i] == rows[i]);
        } else if j < n {
            assert(r2[j] == rows[j]);
        }
    }
    let m = keyed(rows, key).insert(key(x), x@);
    assert forall|k: Seq<char>| #[trigger] has_key(r2, key, k) <==> m.contains_key(k) by {
        if has_key(rows, key, k) {
            let i = choose|i: int| 0 <= i < rows.len() && #[trigger] key(rows[i]) == k;
            assert(r2[i] == rows[i]);
        }
        if k == key(x) {
            assert(r2[n] == x);
        }
        if has_key(r2, key, k) {
            let i = choose|i: int| 0 <= i < r2.len() && #[trigger] key(r2[i]) == k;
            if i < n {
                assert(r2[i] == rows[i]);
            }
        }
    }
    assert forall|k: Seq<char>| #[trigger] keyed(r2, key).contains_key(k) implies keyed(r2, key)[k]
        == m[k] by {
        if k == key(x) {
            lemma_keyed_at(r2, key, n);
        } else {
            let i = choose|i: int| 0 <= i < rows.len() && #[trigger] key(rows[i]) == k;
            lemma_keyed_at(rows, key, i);
            assert(r2[i] == rows[i]);
            lemma_keyed_at(r2, key, i);
        }
    }
    assert(keyed(r2, key) =~= m);
}

pub proof fn lemma_keyed_remove<T: View>(rows: Seq<T>, key: spec_fn(T) -> Seq<char>, i: int)
    requires
        distinct_by(rows, key),
        0 <= i < rows.len(),
    ensures
        distinct_by(rows.remove(i), key),
        keyed(rows.remove(i), key) == keyed(rows, key).remove(key(rows[i])),
        forall|j: int| 0 <= j < rows.remove(i).len() ==> exists|l: int| 0 <= l < rows.len() && #[trigger] rows.remove(i)[j] == rows[l],
{
    let r2 = rows.remove(i);
    let old_of = |j: int| if j < i { j } else { j + 1 };
    assert forall|j: int| 0 <= j < r2.len() implies #[trigger] r2[j] == rows[old_of(j)] by {}
    assert forall|j: int| 0 <= j < r2.len() implies exists|l: int| 0 <= l < rows.len() && #[trigger] r2[j] == rows[l] by {
        assert(r2[j] == rows[old_of(j)]);
    }
    assert forall|a: int, b: int|
        0 <= a < r2.len() && 0 <= b < r2.len() && a != b implies #[trigger] key(r2[a]) != #[trigger] key(
            r2[b],
        ) by {
        assert(r2[a] == rows[old_of(a)] && r2[b] == rows[old_of(b)]);
    }
    let gone = key(rows[i]);
    let m = keyed(rows, key).remove(gone);
    assert forall|k: Seq<char>| #[trigger] has_key(r2, key, k) <==> m.contains_key(k) by {
        if has_key(r2, key, k) {
            let j = choose|j: int| 0 <= j < r2.len() && #[trigger] key(r2[j]) == k;
            assert(r2[j] == rows[old_of(j)]);
        }
        if m.contains_key(k) {
            let l = choose|l: int| 0 <= l < rows.len() && #[trigger] key(rows[l]) == k;
            assert(l != i);
            if l < i {
                assert(r2[l] == rows[l]);
            } else {
                assert(r2[l - 1] == rows[l]);
            }
        }
    }
    assert forall|k: Seq<char>| #[trigger] keyed(r2, key).contains_key(k) implies keyed(r2, key)[k]
        == m[k] by {
        let j = choose|j: int| 0 <= j < r2.len() && #[trigger] key(r2[j]) == k;
        assert(r2[j] == rows[old_of(j)]);
        lemma_keyed_at(r2, key, j);
        lemma_keyed_at(rows, key, old_of(j));
    }
    assert(keyed(r2, key) =~= m);
}

pub proof fn lemma_keyed_update<T: View>(rows: Seq<T>, key: spec_fn(T) -> Seq<char>, i: int, x: T)
    requires
        distinct_by(rows, key),
        0 <= i < rows.len(),
        key(x) == key(rows[i]),
    ensures
        distinct_by(rows.update(i, x), key),
        keyed(rows.update(i, x), key) == keyed(rows, key).insert(key(x), x@),
{
    let r2 = rows.update(i, x);
    assert forall|a: int, b: int|
        0 <= a < r2.len() && 0 <= b < r2.len() && a != b implies #[trigger] key(r2[a]) != #[trigger] key(
            r2[b],
        ) by {
        if a != i {
            assert(r2[a] == rows[a]);
        }
        if b != i {
            assert(r2[b] == rows[b]);
        }
    }
    let m = keyed(rows, key).insert(key(x), x@);
    assert forall|k: Seq<char>| #[trigger] has_key(r2, key, k) <==> m.contains_key(k) by {
        if has_key(r2, key, k) {
            let j = choose|j: int| 0 <= j < r2.len() && #[trigger] key(r2[j]) == k;
            if j != i {
                assert(r2[j] == rows[j]);
            }
        }
        if has_key(rows, key, k) {
            let j = choose|j: int| 0 <= j < rows.len() && #[trigger] key(rows[j]) == k;
            if j != i {
                assert(r2[j] == rows[j]);
            } else {
                assert(key(r2[i]) == k);
            }
        }
        if k == key(x) {
            assert(key(r2[i]) == k);
        }
    }
    assert forall|k: Seq<char>| #[trigger] keyed(r2, key).contains_key(k) implies keyed(r2, key)[k]
        == m[k] by {
        let j = choose|j: int| 0 <= j < r2.len() && #[trigger] key(r2[j]) == k;
        lemma_keyed_at(r2, key, j);
        if j != i {
            assert(r2[j] == rows[j]);
            lemma_keyed_at(rows, key, j);
        }
    }
    assert(keyed(r2, key) =~= m);
}

/// A second column, known on rows and on views, read through the map.
pub proof fn lemma_keyed_secondary<T: View>(
    rows: Seq<T>,
    key: spec_fn(T) -> Seq<char>,
    sec: spec_fn(T) -> Seq<char>,
    sec_v: spec_fn(T::V) -> Seq<char>,
)
    requires
        distinct_by(rows, key),
        forall|t: T| #[trigger] sec(t) == sec_v(t@),
    ensures
        forall|c: Seq<char>| has_key(rows, sec, c) <==> #[trigger] value_with(keyed(rows, key), sec_v, c),
        distinct_by(rows, sec) ==> injective_by(keyed(rows, key), sec_v),
{
    let m = keyed(rows, key);
    assert forall|c: Seq<char>| has_key(rows, sec, c) <==> #[trigger] value_with(m, sec_v, c) by {
        if has_key(rows, sec, c) {
            let i = choose|i: int| 0 <= i < rows.len() && #[trigger] sec(rows[i]) == c;
            lemma_keyed_at(rows, key, i);
            assert(sec_v(m[key(rows[i])]) == c);
        }
        if value_with(m, sec_v, c) {
            let k = choose|k: Seq<char>| m.contains_key(k) && #[trigger] sec_v(m[k]) == c;
            let i = choose|i: int| 0 <= i < rows.len() && #[trigger] key(rows[i]) == k;
            lemma_keyed_at(rows, key, i);
            assert(sec(rows[i]) == c);
        }
    }
    if distinct_by(rows, sec) {
        assert forall|k1: Seq<char>, k2: Seq<char>|
            m.contains_key(k1) && m.contains_key(k2) && #[trigger] sec_v(m[k1]) == #[trigger] sec_v(m[k2])
                implies k1 == k2 by {
            let i1 = choose|i: int| 0 <= i < rows.len() && #[trigger] key(rows[i]) == k1;
            let i2 = choose|i: int| 0 <= i < rows.len() && #[trigger] key(rows[i]) == k2;
            lemma_keyed_at(rows, key, i1);
            lemma_keyed_at(rows, key, i2);
            assert(sec(rows[i1]) == sec(rows[i2]));
        }
    }
}

} // verus!
