//! An insertion-ordered map from strings to values, kept as a list of
//! entries in which no key occurs twice.

use vstd::prelude::*;

verus! {

/// A map from names to values that remembers the order in which names were
/// first inserted. Inserting an existing name replaces its value in place.
#[derive(Debug, PartialEq, Eq)]
pub struct KeyedList<V> {
    pub entries: Vec<(String, V)>,
}

/// No key occurs twice in `s`.
pub open spec fn keys_unique<V>(s: Seq<(String, V)>) -> bool {
    forall|i: int, j: int| 0 <= i < s.len() && 0 <= j < s.len() && i != j ==> s[i].0@ != s[j].0@
}

/// `k` is the key of some entry of `s`.
pub open spec fn has_key<V>(s: Seq<(String, V)>, k: Seq<char>) -> bool {
    exists|i: int| 0 <= i < s.len() && s[i].0@ == k
}

/// The position of key `k` in `s` (meaningful when `has_key(s, k)`).
pub open spec fn index_of_key<V>(s: Seq<(String, V)>, k: Seq<char>) -> int {
    choose|i: int| 0 <= i < s.len() && s[i].0@ == k
}

/// The entries of `s` as a mathematical map.
pub open spec fn entries_map<V>(s: Seq<(String, V)>) -> Map<Seq<char>, V> {
    Map::new(|k: Seq<char>| has_key(s, k), |k: Seq<char>| s[index_of_key(s, k)].1)
}

/// The keys of `s`, in order.
pub open spec fn keys_of<V>(s: Seq<(String, V)>) -> Seq<Seq<char>> {
    Seq::new(s.len(), |i: int| s[i].0@)
}

pub proof fn lemma_index_of_key<V>(s: Seq<(String, V)>, i: int)
    requires
        keys_unique(s),
        0 <= i < s.len(),
    ensures
        has_key(s, s[i].0@),
        index_of_key(s, s[i].0@) == i,
        entries_map(s).contains_key(s[i].0@),
        entries_map(s)[s[i].0@] == s[i].1,
{
    assert(has_key(s, s[i].0@));
}

pub proof fn lemma_push_map<V>(s: Seq<(String, V)>, k: String, v: V)
    requires
        keys_unique(s),
        !has_key(s, k@),
    ensures
        keys_unique(s.push((k, v))),
        entries_map(s.push((k, v))) =~= entries_map(s).insert(k@, v),
{
    let t = s.push((k, v));
    assert forall|kk: Seq<char>| has_key(t, kk) <==> (has_key(s, kk) || kk == k@) by {
        if has_key(t, kk) {
            let i = choose|i: int| 0 <= i < t.len() && t[i].0@ == kk;
            if i < s.len() {
                assert(s[i].0@ == kk);
            }
        }
        if has_key(s, kk) {
            let i = choose|i: int| 0 <= i < s.len() && s[i].0@ == kk;
            assert(t[i].0@ == kk);
        }
        if kk == k@ {
            assert(t[s.len() as int].0@ == kk);
        }
    }
    assert forall|kk: Seq<char>| #[trigger] has_key(t, kk) implies t[index_of_key(t, kk)].1 == (
    if kk == k@ {
        v
    } else {
        s[index_of_key(s, kk)].1
    }) by {
        if kk == k@ {
            lemma_index_of_key(t, s.len() as int);
        } else {
            let j = index_of_key(s, kk);
            lemma_index_of_key(t, j);
        }
    }
}

pub proof fn lemma_update_map<V>(s: Seq<(String, V)>, j: int, k: String, v: V)
    requires
        keys_unique(s),
        0 <= j < s.len(),
        s[j].0@ == k@,
    ensures
        keys_unique(s.update(j, (k, v))),
        entries_map(s.update(j, (k, v))) =~= entries_map(s).insert(k@, v),
{
    let t = s.update(j, (k, v));
    assert forall|kk: Seq<char>| has_key(t, kk) <==> has_key(s, kk) by {
        if has_key(t, kk) {
            let i = choose|i: int| 0 <= i < t.len() && t[i].0@ == kk;
            assert(s[i].0@ == kk);
        }
        if has_key(s, kk) {
            let i = choose|i: int| 0 <= i < s.len() && s[i].0@ == kk;
            assert(t[i].0@ == kk);
        }
    }
    assert(has_key(s, k@)) by {
        assert(s[j].0@ == k@);
    }
    assert forall|kk: Seq<char>| #[trigger] has_key(t, kk) implies t[index_of_key(t, kk)].1 == (
    if kk == k@ {
        v
    } else {
        s[index_of_key(s, kk)].1
    }) by {
        if kk == k@ {
            lemma_index_of_key(t, j);
        } else {
            let i = index_of_key(s, kk);
            lemma_index_of_key(t, i);
        }
    }
}

/// Two entry lists with the same keys, position by position.
pub open spec fn same_keys<V, W>(s: Seq<(String, V)>, t: Seq<(String, W)>) -> bool {
    s.len() == t.len() && forall|i: int| 0 <= i < s.len() ==> s[i].0@ == t[i].0@
}

pub proof fn lemma_same_keys<V, W>(s: Seq<(String, V)>, t: Seq<(String, W)>)
    requires
        same_keys(s, t),
        keys_unique(s),
    ensures
        keys_unique(t),
        forall|k: Seq<char>| has_key(s, k) <==> has_key(t, k),
{
    assert forall|k: Seq<char>| has_key(s, k) <==> has_key(t, k) by {
        if has_key(s, k) {
            let i = choose|i: int| 0 <= i < s.len() && s[i].0@ == k;
            assert(t[i].0@ == k);
        }
        if has_key(t, k) {
            let i = choose|i: int| 0 <= i < t.len() && t[i].0@ == k;
            assert(s[i].0@ == k);
        }
    }
}

/// The entry at position `i` is the one that `k` finds.
pub proof fn lemma_key_at<V>(s: Seq<(String, V)>, k: Seq<char>) -> (i: int)
    requires
        keys_unique(s),
        has_key(s, k),
    ensures
        0 <= i < s.len(),
        s[i].0@ == k,
        entries_map(s)[k] == s[i].1,
        entries_map(s).contains_key(k),
{
    let i = choose|i: int| 0 <= i < s.len() && s[i].0@ == k;
    lemma_index_of_key(s, i);
    i
}

/// Looks up `a`, then `n`, then `i` in a three-level keyed list.
pub open spec fn lookup3<V>(
    m: KeyedList<KeyedList<KeyedList<V>>>,
    a: Seq<char>,
    n: Seq<char>,
    i: Seq<char>,
) -> Option<V> {
    if m.map().contains_key(a) && m.map()[a].map().contains_key(n) && m.map()[a].map()[
        n
    ].map().contains_key(i) {
        Some(m.map()[a].map()[n].map()[i])
    } else {
        None
    }
}

/// No key occurs twice at any level of a three-level keyed list.
pub open spec fn wf3<V>(m: KeyedList<KeyedList<KeyedList<V>>>) -> bool {
    &&& m.wf()
    &&& forall|x: int| 0 <= x < m.entries@.len() ==> (#[trigger] m.entries@[x]).1.wf()
    &&& forall|x: int, y: int|
        0 <= x < m.entries@.len() && 0 <= y < m.entries@[x].1.entries@.len() ==> (
        #[trigger] m.entries@[x].1.entries@[y]).1.wf()
}

/// Whether no name occurs twice at any level of `m`.
pub fn has_unique_keys3<V>(m: &KeyedList<KeyedList<KeyedList<V>>>) -> (r: bool)
    ensures
        r == wf3(*m),
{
    if !m.has_unique_keys() {
        return false;
    }
    let mut x: usize = 0;
    while x < m.entries.len()
        invariant
            m.wf(),
            x <= m.entries@.len(),
            forall|a: int| 0 <= a < x ==> (#[trigger] m.entries@[a]).1.wf(),
            forall|a: int, b: int|
                0 <= a < x && 0 <= b < m.entries@[a].1.entries@.len() ==> (
                #[trigger] m.entries@[a].1.entries@[b]).1.wf(),
        decreases m.entries@.len() - x,
    {
        let names = &m.entries[x].1;
        if !names.has_unique_keys() {
            return false;
        }
        let mut y: usize = 0;
        while y < names.entries.len()
            invariant
                x < m.entries@.len(),
                *names == m.entries@[x as int].1,
                y <= names.entries@.len(),
                forall|b: int| 0 <= b < y ==> (#[trigger] names.entries@[b]).1.wf(),
            decreases names.entries@.len() - y,
        {
            if !names.entries[y].1.has_unique_keys() {
                proof {
                    assert(!m.entries@[x as int].1.entries@[y as int].1.wf());
                }
                return false;
            }
            y = y + 1;
        }
        x = x + 1;
    }
    true
}

/// The entries of a three-level keyed list, flattened in order.
pub open spec fn flat_ids<V>(a: Seq<char>, n: Seq<char>, s: Seq<(String, V)>) -> Seq<
    (Seq<char>, Seq<char>, Seq<char>, V),
> {
    Seq::new(s.len(), |k: int| (a, n, s[k].0@, s[k].1))
}

pub open spec fn flat_names<V>(a: Seq<char>, s: Seq<(String, KeyedList<V>)>) -> Seq<
    (Seq<char>, Seq<char>, Seq<char>, V),
>
    decreases s.len(),
{
    if s.len() == 0 {
        Seq::empty()
    } else {
        flat_names(a, s.drop_last()) + flat_ids(a, s.last().0@, s.last().1.entries@)
    }
}

pub open spec fn flat_agents<V>(s: Seq<(String, KeyedList<KeyedList<V>>)>) -> Seq<
    (Seq<char>, Seq<char>, Seq<char>, V),
>
    decreases s.len(),
{
    if s.len() == 0 {
        Seq::empty()
    } else {
        flat_agents(s.drop_last()) + flat_names(s.last().0@, s.last().1.entries@)
    }
}

pub proof fn lemma_flat_names_step<V>(a: Seq<char>, s: Seq<(String, KeyedList<V>)>, y: int)
    requires
        0 <= y < s.len(),
    ensures
        flat_names(a, s.take(y + 1)) == flat_names(a, s.take(y)) + flat_ids(
            a,
            s[y].0@,
            s[y].1.entries@,
        ),
{
    assert(s.take(y + 1).drop_last() =~= s.take(y));
}

pub proof fn lemma_flat_agents_step<V>(s: Seq<(String, KeyedList<KeyedList<V>>)>, x: int)
    requires
        0 <= x < s.len(),
    ensures
        flat_agents(s.take(x + 1)) == flat_agents(s.take(x)) + flat_names(
            s[x].0@,
            s[x].1.entries@,
        ),
{
    assert(s.take(x + 1).drop_last() =~= s.take(x));
}

/// The map of a list without repeated keys, taken apart at its last entry.
proof fn lemma_last_entry_map<V>(s: Seq<(String, V)>)
    requires
        keys_unique(s),
        s.len() > 0,
    ensures
        keys_unique(s.drop_last()),
        entries_map(s) == entries_map(s.drop_last()).insert(s.last().0@, s.last().1),
        !has_key(s.drop_last(), s.last().0@),
{
    let n = s.len() - 1;
    lemma_take_push_map(s, n);
    assert(s.take(n + 1) =~= s);
    assert(s.take(n) =~= s.drop_last());
    assert(!has_key(s.drop_last(), s.last().0@)) by {
        if has_key(s.drop_last(), s.last().0@) {
            let i = choose|i: int| 0 <= i < n && s.drop_last()[i].0@ == s.last().0@;
            assert(s[i].0@ == s[n].0@);
        }
    }
}

/// No key occurs twice in `s`, nor in the list of any of its entries.
pub open spec fn names_wf<V>(s: Seq<(String, KeyedList<V>)>) -> bool {
    &&& keys_unique(s)
    &&& forall|y: int| 0 <= y < s.len() ==> (#[trigger] s[y]).1.wf()
}

/// `v` is stored in `s` under the names `n` and `i`.
pub open spec fn stored2<V>(s: Seq<(String, KeyedList<V>)>, n: Seq<char>, i: Seq<char>, v: V) -> bool {
    &&& entries_map(s).contains_key(n)
    &&& entries_map(s)[n].map().contains_key(i)
    &&& entries_map(s)[n].map()[i] == v
}

/// Something is stored in `s` under the names `n` and `i`.
pub open spec fn has2<V>(s: Seq<(String, KeyedList<V>)>, n: Seq<char>, i: Seq<char>) -> bool {
    entries_map(s).contains_key(n) && entries_map(s)[n].map().contains_key(i)
}

/// The flattened entries of a two-level list without repeated names hold
/// each stored value once, under its names.
proof fn lemma_flat_names_each_once<V>(a: Seq<char>, s: Seq<(String, KeyedList<V>)>)
    requires
        names_wf(s),
    ensures
        forall|k: int|
            0 <= k < flat_names(a, s).len() ==> (#[trigger] flat_names(a, s)[k]).0 == a && stored2(
                s,
                flat_names(a, s)[k].1,
                flat_names(a, s)[k].2,
                flat_names(a, s)[k].3,
            ),
        forall|j: int, k: int|
            0 <= j < k < flat_names(a, s).len() ==> !(#[trigger] flat_names(a, s)[j].1 == #[trigger] flat_names(
                a,
                s,
            )[k].1 && flat_names(a, s)[j].2 == flat_names(a, s)[k].2),
        forall|n: Seq<char>, i: Seq<char>|
            #[trigger] has2(s, n, i) ==> exists|k: int|
                0 <= k < flat_names(a, s).len() && (#[trigger] flat_names(a, s)[k]).1 == n
                    && flat_names(a, s)[k].2 == i,
    decreases s.len(),
{
    if s.len() == 0 {
        assert forall|n: Seq<char>, i: Seq<char>| #[trigger] has2(s, n, i) implies false by {
            assert(!has_key(s, n));
        }
    } else {
        let p = s.drop_last();
        let e = s.last();
        assert(names_wf(p)) by {
            assert forall|y: int| 0 <= y < p.len() implies (#[trigger] p[y]).1.wf() by {
                assert(p[y] == s[y]);
            }
        }
        lemma_last_entry_map(s);
        lemma_flat_names_each_once(a, p);
        let l1 = flat_names(a, p);
        let l2 = flat_ids(a, e.0@, e.1.entries@);
        let l = flat_names(a, s);
        assert(l == l1 + l2);
        assert(e.1.wf()) by {
            assert(s[s.len() - 1] == e);
        }
        assert forall|k: int| 0 <= k < l.len() implies (#[trigger] l[k]).0 == a && stored2(
            s,
            l[k].1,
            l[k].2,
            l[k].3,
        ) by {
            if k < l1.len() {
                assert(l[k] == l1[k]);
                assert(stored2(p, l1[k].1, l1[k].2, l1[k].3));
                assert(has_key(p, l1[k].1));
            } else {
                let z = k - l1.len();
                assert(l[k] == l2[z]);
                lemma_index_of_key(e.1.entries@, z);
            }
        }
        assert forall|j: int, k: int| 0 <= j < k < l.len() implies !(#[trigger] l[j].1 == #[trigger] l[k].1
            && l[j].2 == l[k].2) by {
            if k < l1.len() {
                assert(l[j] == l1[j]);
                assert(l[k] == l1[k]);
            } else if j < l1.len() {
                assert(l[j] == l1[j]);
                assert(stored2(p, l1[j].1, l1[j].2, l1[j].3));
                assert(has_key(p, l1[j].1));
                assert(l[k] == l2[k - l1.len()]);
            } else {
                assert(l[j] == l2[j - l1.len()]);
                assert(l[k] == l2[k - l1.len()]);
            }
        }
        assert forall|n: Seq<char>, i: Seq<char>| #[trigger] has2(s, n, i) implies exists|k: int|
            0 <= k < l.len() && (#[trigger] l[k]).1 == n && l[k].2 == i by {
            if n == e.0@ {
                assert(e.1.map().contains_key(i));
                assert(has_key(e.1.entries@, i));
                let z = lemma_key_at(e.1.entries@, i);
                let k = l1.len() + z;
                assert(l[k] == l2[z]);
            } else {
                assert(has2(p, n, i));
                let k = choose|k: int| 0 <= k < l1.len() && (#[trigger] l1[k]).1 == n && l1[k].2 == i;
                assert(l[k] == l1[k]);
            }
        }
    }
}

/// No key occurs twice at any level of `s`.
pub open spec fn agents_wf<V>(s: Seq<(String, KeyedList<KeyedList<V>>)>) -> bool {
    &&& keys_unique(s)
    &&& forall|x: int| 0 <= x < s.len() ==> names_wf((#[trigger] s[x]).1.entries@)
}

/// `v` is stored in `s` under the names `a`, `n` and `i`.
pub open spec fn stored3<V>(
    s: Seq<(String, KeyedList<KeyedList<V>>)>,
    a: Seq<char>,
    n: Seq<char>,
    i: Seq<char>,
    v: V,
) -> bool {
    entries_map(s).contains_key(a) && stored2(entries_map(s)[a].entries@, n, i, v)
}

/// Something is stored in `s` under the names `a`, `n` and `i`.
pub open spec fn has3<V>(s: Seq<(String, KeyedList<KeyedList<V>>)>, a: Seq<char>, n: Seq<char>, i: Seq<char>) -> bool {
    entries_map(s).contains_key(a) && has2(entries_map(s)[a].entries@, n, i)
}

proof fn lemma_flat_agents_each_once<V>(s: Seq<(String, KeyedList<KeyedList<V>>)>)
    requires
        agents_wf(s),
    ensures
        forall|k: int|
            0 <= k < flat_agents(s).len() ==> stored3(
                s,
                (#[trigger] flat_agents(s)[k]).0,
                flat_agents(s)[k].1,
                flat_agents(s)[k].2,
                flat_agents(s)[k].3,
            ),
        forall|j: int, k: int|
            0 <= j < k < flat_agents(s).len() ==> !(#[trigger] flat_agents(s)[j].0 == #[trigger] flat_agents(
                s,
            )[k].0 && flat_agents(s)[j].1 == flat_agents(s)[k].1 && flat_agents(s)[j].2
                == flat_agents(s)[k].2),
        forall|a: Seq<char>, n: Seq<char>, i: Seq<char>|
            #[trigger] has3(s, a, n, i) ==> exists|k: int|
                0 <= k < flat_agents(s).len() && (#[trigger] flat_agents(s)[k]).0 == a
                    && flat_agents(s)[k].1 == n && flat_agents(s)[k].2 == i,
    decreases s.len(),
{
    if s.len() == 0 {
        assert forall|a: Seq<char>, n: Seq<char>, i: Seq<char>| #[trigger] has3(s, a, n, i) implies false by {
            assert(!has_key(s, a));
        }
    } else {
        let p = s.drop_last();
        let e = s.last();
        assert(agents_wf(p)) by {
            assert forall|x: int| 0 <= x < p.len() implies names_wf((#[trigger] p[x]).1.entries@) by {
                assert(p[x] == s[x]);
            }
        }
        lemma_last_entry_map(s);
        lemma_flat_agents_each_once(p);
        let l1 = flat_agents(p);
        let l2 = flat_names(e.0@, e.1.entries@);
        let l = flat_agents(s);
        assert(l == l1 + l2);
        assert(names_wf(e.1.entries@)) by {
            assert(s[s.len() - 1] == e);
        }
        lemma_flat_names_each_once(e.0@, e.1.entries@);
        assert forall|k: int| 0 <= k < l.len() implies stored3(
            s,
            (#[trigger] l[k]).0,
            l[k].1,
            l[k].2,
            l[k].3,
        ) by {
            if k < l1.len() {
                assert(l[k] == l1[k]);
                assert(stored3(p, l1[k].0, l1[k].1, l1[k].2, l1[k].3));
                assert(has_key(p, l1[k].0));
            } else {
                let z = k - l1.len();
                assert(l[k] == l2[z]);
            }
        }
        assert forall|j: int, k: int| 0 <= j < k < l.len() implies !(#[trigger] l[j].0 == #[trigger] l[k].0
            && l[j].1 == l[k].1 && l[j].2 == l[k].2) by {
            if k < l1.len() {
                assert(l[j] == l1[j]);
                assert(l[k] == l1[k]);
            } else if j < l1.len() {
                assert(l[j] == l1[j]);
                assert(stored3(p, l1[j].0, l1[j].1, l1[j].2, l1[j].3));
                assert(has_key(p, l1[j].0));
                assert(l[k] == l2[k - l1.len()]);
            } else {
                assert(l[j] == l2[j - l1.len()]);
                assert(l[k] == l2[k - l1.len()]);
            }
        }
        assert forall|a: Seq<char>, n: Seq<char>, i: Seq<char>| #[trigger] has3(s, a, n, i) implies exists|
            k: int,
        | 0 <= k < l.len() && (#[trigger] l[k]).0 == a && l[k].1 == n && l[k].2 == i by {
            if a == e.0@ {
                assert(has2(e.1.entries@, n, i));
                let z = choose|z: int| 0 <= z < l2.len() && (#[trigger] l2[z]).1 == n && l2[z].2 == i;
                let k = l1.len() + z;
                assert(l[k] == l2[z]);
            } else {
                assert(has3(p, a, n, i));
                let k = choose|k: int|
                    0 <= k < l1.len() && (#[trigger] l1[k]).0 == a && l1[k].1 == n && l1[k].2 == i;
                assert(l[k] == l1[k]);
            }
        }
    }
}

/// The entries of a three-level keyed list without repeated names, flattened
/// in order, hold each stored value exactly once: each entry is the value
/// stored under its names, no two entries have the same names, and each
/// value stored under some names has an entry.
pub proof fn law_flat_agents_each_once<V>(m: KeyedList<KeyedList<KeyedList<V>>>)
    requires
        wf3(m),
    ensures
        forall|k: int|
            0 <= k < flat_agents(m.entries@).len() ==> lookup3(
                m,
                (#[trigger] flat_agents(m.entries@)[k]).0,
                flat_agents(m.entries@)[k].1,
                flat_agents(m.entries@)[k].2,
            ) == Some(flat_agents(m.entries@)[k].3),
        forall|j: int, k: int|
            0 <= j < k < flat_agents(m.entries@).len() ==> !(#[trigger] flat_agents(m.entries@)[j].0
                == #[trigger] flat_agents(m.entries@)[k].0 && flat_agents(m.entries@)[j].1
                == flat_agents(m.entries@)[k].1 && flat_agents(m.entries@)[j].2 == flat_agents(
                m.entries@,
            )[k].2),
        forall|a: Seq<char>, n: Seq<char>, i: Seq<char>|
            #[trigger] lookup3(m, a, n, i) is Some ==> exists|k: int|
                0 <= k < flat_agents(m.entries@).len() && (#[trigger] flat_agents(m.entries@)[k]).0 == a
                    && flat_agents(m.entries@)[k].1 == n && flat_agents(m.entries@)[k].2 == i,
{
    let s = m.entries@;
    assert(agents_wf(s)) by {
        assert forall|x: int| 0 <= x < s.len() implies names_wf((#[trigger] s[x]).1.entries@) by {
            assert(m.entries@[x].1.wf());
            assert forall|y: int| 0 <= y < s[x].1.entries@.len() implies (#[trigger] s[x].1.entries@[y]).1.wf() by {
                assert(m.entries@[x].1.entries@[y].1.wf());
            }
        }
    }
    lemma_flat_agents_each_once(s);
    assert forall|a: Seq<char>, n: Seq<char>, i: Seq<char>| #[trigger] lookup3(m, a, n, i) is Some implies has3(
        s,
        a,
        n,
        i,
    ) by {}
}

/// A position at which two entry lists with the same keys agree on `k`.
pub proof fn lemma_related_key<V, W>(s: Seq<(String, V)>, t: Seq<(String, W)>, k: Seq<char>) -> (j:
    int)
    requires
        same_keys(s, t),
        keys_unique(s),
        has_key(s, k),
    ensures
        0 <= j < s.len(),
        s[j].0@ == k,
        entries_map(s).contains_key(k),
        entries_map(t).contains_key(k),
        entries_map(s)[k] == s[j].1,
        entries_map(t)[k] == t[j].1,
{
    lemma_same_keys(s, t);
    let j = lemma_key_at(s, k);
    lemma_index_of_key(t, j);
    j
}

/// Taking one more entry of a list without repeated keys adds that entry to
/// the map.
pub proof fn lemma_take_push_map<V>(s: Seq<(String, V)>, j: int)
    requires
        keys_unique(s),
        0 <= j < s.len(),
    ensures
        keys_unique(s.take(j + 1)),
        entries_map(s.take(j + 1)) == entries_map(s.take(j)).insert(s[j].0@, s[j].1),
{
    let t = s.take(j);
    assert(s.take(j + 1) =~= t.push(s[j]));
    assert(keys_unique(t));
    assert(!has_key(t, s[j].0@)) by {
        if has_key(t, s[j].0@) {
            let i = choose|i: int| 0 <= i < t.len() && t[i].0@ == s[j].0@;
            assert(s[i].0@ == s[j].0@);
        }
    }
    lemma_push_map(t, s[j].0, s[j].1);
}

impl<V> KeyedList<V> {
    /// The entries as a mathematical map.
    pub open spec fn map(&self) -> Map<Seq<char>, V> {
        entries_map(self.entries@)
    }

    /// No name occurs twice.
    pub open spec fn wf(&self) -> bool {
        keys_unique(self.entries@)
    }

    /// An empty list.
    pub fn new() -> (r: Self)
        ensures
            r.wf(),
            r.entries@.len() == 0,
            r.map() =~= Map::<Seq<char>, V>::empty(),
    {
        KeyedList { entries: Vec::new() }
    }

    /// Whether no name occurs twice.
    pub fn has_unique_keys(&self) -> (r: bool)
        ensures
            r == self.wf(),
    {
        let n = self.entries.len();
        let mut i: usize = 0;
        while i < n
            invariant
                n == self.entries@.len(),
                i <= n,
                keys_unique(self.entries@.take(i as int)),
            decreases n - i,
        {
            let mut j: usize = 0;
            while j < i
                invariant
                    n == self.entries@.len(),
                    j <= i,
                    i < n,
                    forall|y: int| 0 <= y < j ==> self.entries@[y].0@ != self.entries@[i as int].0@,
                decreases i - j,
            {
                if self.entries[j].0 == self.entries[i].0 {
                    proof {
                        assert(self.entries@[j as int].0@ == self.entries@[i as int].0@);
                    }
                    return false;
                }
                j = j + 1;
            }
            proof {
                let t = self.entries@.take(i + 1);
                assert forall|x: int, y: int|
                    0 <= x < t.len() && 0 <= y < t.len() && x != y implies #[trigger] t[x].0@
                    != #[trigger] t[y].0@ by {
                    let u = self.entries@.take(i as int);
                    if x < i && y < i {
                        assert(t[x] == u[x] && t[y] == u[y]);
                    }
                }
            }
            i = i + 1;
        }
        proof {
            assert(self.entries@.take(n as int) =~= self.entries@);
        }
        true
    }

    /// The number of entries.
    pub fn len(&self) -> (n: usize)
        ensures
            n == self.entries@.len(),
    {
        self.entries.len()
    }

    /// The position of `key`, if it occurs.
    pub fn find(&self, key: &String) -> (r: Option<usize>)
        requires
            self.wf(),
        ensures
            match r {
                Some(i) => i < self.entries@.len() && self.entries@[i as int].0@ == key@,
                None => !has_key(self.entries@, key@),
            },
    {
        let n = self.entries.len();
        let mut i: usize = 0;
        while i < n
            invariant
                n == self.entries@.len(),
                i <= n,
                forall|j: int| 0 <= j < i ==> self.entries@[j].0@ != key@,
            decreases n - i,
        {
            if self.entries[i].0 == *key {
                return Some(i);
            }
            i = i + 1;
        }
        None
    }

    /// Removes and returns the entry at position `i`.
    pub fn take_at(&mut self, i: usize) -> (e: (String, V))
        requires
            i < old(self).entries@.len(),
        ensures
            e == old(self).entries@[i as int],
            final(self).entries@ == old(self).entries@.remove(i as int),
    {
        self.entries.remove(i)
    }

    /// Puts an entry back at position `i`.
    pub fn put_at(&mut self, i: usize, e: (String, V))
        requires
            i <= old(self).entries@.len(),
        ensures
            final(self).entries@ == old(self).entries@.insert(i as int, e),
    {
        self.entries.insert(i, e);
    }

    /// The value stored under `key`.
    pub fn get(&self, key: &String) -> (r: Option<&V>)
        requires
            self.wf(),
        ensures
            match r {
                Some(v) => self.map().contains_key(key@) && self.map()[key@] == *v,
                None => !self.map().contains_key(key@),
            },
    {
        match self.find(key) {
            Some(i) => {
                proof {
                    lemma_index_of_key(self.entries@, i as int);
                }
                Some(&self.entries[i].1)
            },
            None => None,
        }
    }

    /// Stores `value` under `key`, replacing a value already stored there
    /// (in place) or appending a new entry.
    pub fn insert(&mut self, key: String, value: V)
        requires
            old(self).wf(),
        ensures
            final(self).wf(),
            final(self).map() =~= old(self).map().insert(key@, value),
            has_key(old(self).entries@, key@) ==> final(self).entries@.len() == old(self).entries@.len()
                && keys_of(final(self).entries@) =~= keys_of(old(self).entries@),
            !has_key(old(self).entries@, key@) ==> final(self).entries@ =~= old(self).entries@.push(
                (key, value),
            ),
    {
        match self.find(&key) {
            Some(i) => {
                proof {
                    lemma_update_map(self.entries@, i as int, key, value);
                }
                self.entries.set(i, (key, value));
                proof {
                    assert(keys_of(self.entries@) =~= keys_of(old(self).entries@));
                }
            },
            None => {
                proof {
                    lemma_push_map(self.entries@, key, value);
                }
                self.entries.push((key, value));
            },
        }
    }
}

} // verus!
