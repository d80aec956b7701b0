//! Sequences of `(name, value)` entries and the maps they describe.

use vstd::prelude::*;

verus! {

/// The map that a sequence of named entries describes: each name maps to
/// the value of its last entry.
pub open spec fn keyed<V>(s: Seq<(String, V)>) -> Map<Seq<char>, V>
    decreases s.len(),
{
    if s.len() == 0 {
        Map::empty()
    } else {
        keyed(s.drop_last()).insert(s.last().0@, s.last().1)
    }
}

/// No two entries share a name.
pub open spec fn distinct_names<V>(s: Seq<(String, V)>) -> bool {
    forall|i: int, j: int| 0 <= i < j < s.len() ==> s[i].0@ != s[j].0@
}

/// The names of the entries, in order.
pub open spec fn names_of<V>(s: Seq<(String, V)>) -> Seq<Seq<char>> {
    s.map_values(|e: (String, V)| e.0@)
}

/// Appending an entry sets its name to its value.
pub proof fn lemma_keyed_push<V>(s: Seq<(String, V)>, e: (String, V))
    ensures
        keyed(s.push(e)) == keyed(s).insert(e.0@, e.1),
{
    assert(s.push(e).drop_last() =~= s);
}

/// The names in the map are exactly the names of the entries.
pub proof fn lemma_keyed_dom<V>(s: Seq<(String, V)>)
    ensures
        keyed(s).dom().finite(),
        forall|k: Seq<char>|
            #![trigger keyed(s).dom().contains(k)]
            keyed(s).dom().contains(k) <==> exists|i: int| 0 <= i < s.len() && s[i].0@ == k,
    decreases s.len(),
{
    if s.len() > 0 {
        let t = s.drop_last();
        lemma_keyed_dom(t);
        assert forall|k: Seq<char>| keyed(s).dom().contains(k) <==> exists|i: int|
            0 <= i < s.len() && s[i].0@ == k by {
            if keyed(s).dom().contains(k) && k != s.last().0@ {
                let i = choose|i: int| 0 <= i < t.len() && t[i].0@ == k;
                assert(s[i] == t[i]);
            }
            if exists|i: int| 0 <= i < s.len() && s[i].0@ == k {
                let i = choose|i: int| 0 <= i < s.len() && s[i].0@ == k;
                if i < t.len() {
                    assert(t[i] == s[i]);
                }
            }
        }
    }
}

/// Where the names are distinct, the entry at `i` gives its name's value.
pub proof fn lemma_keyed_index<V>(s: Seq<(String, V)>, i: int)
    requires
        distinct_names(s),
        0 <= i < s.len(),
    ensures
        keyed(s).contains_key(s[i].0@),
        keyed(s)[s[i].0@] == s[i].1,
    decreases s.len(),
{
    if i < s.len() - 1 {
        let t = s.drop_last();
        assert(t[i] == s[i]);
        lemma_keyed_index(t, i);
    }
}

/// Where the names are distinct, the map has one key per entry.
pub proof fn lemma_keyed_len<V>(s: Seq<(String, V)>)
    requires
        distinct_names(s),
    ensures
        keyed(s).len() == s.len(),
    decreases s.len(),
{
    if s.len() > 0 {
        let t = s.drop_last();
        lemma_keyed_len(t);
        lemma_keyed_dom(t);
        assert(!keyed(t).dom().contains(s.last().0@)) by {
            if keyed(t).dom().contains(s.last().0@) {
                let i = choose|i: int| 0 <= i < t.len() && t[i].0@ == s.last().0@;
                assert(s[i].0@ == s[s.len() - 1].0@);
            }
        }
    }
}

/// Giving a new value to the entry at `i` gives that value to its name.
pub proof fn lemma_keyed_update<V>(s: Seq<(String, V)>, i: int, e: (String, V))
    requires
        distinct_names(s),
        0 <= i < s.len(),
        e.0@ == s[i].0@,
    ensures
        keyed(s.update(i, e)) == keyed(s).insert(e.0@, e.1),
    decreases s.len(),
{
    let u = s.update(i, e);
    let t = s.drop_last();
    if i == s.len() - 1 {
        assert(u.drop_last() =~= t);
        assert(keyed(t).insert(e.0@, s.last().1).insert(e.0@, e.1) =~= keyed(t).insert(e.0@, e.1));
    } else {
        assert(u.drop_last() =~= t.update(i, e));
        lemma_keyed_update(t, i, e);
        assert(s.last().0@ != e.0@);
        assert(keyed(u) =~= keyed(s).insert(e.0@, e.1));
    }
}

/// Entries that keep the names of `s` in order, with values that `g` sends
/// where `f` sends those of `s`, describe a map that `g` sends where `f`
/// sends the map of `s`.
pub proof fn lemma_keyed_map_values<V, W, X>(
    s: Seq<(String, V)>,
    t: Seq<(String, W)>,
    f: spec_fn(V) -> X,
    g: spec_fn(W) -> X,
)
    requires
        t.len() == s.len(),
        forall|j: int| 0 <= j < s.len() ==> #[trigger] t[j].0@ == s[j].0@ && g(t[j].1) == f(s[j].1),
    ensures
        keyed(t).map_values(g) == keyed(s).map_values(f),
    decreases s.len(),
{
    if s.len() > 0 {
        let s0 = s.drop_last();
        let t0 = t.drop_last();
        assert forall|j: int| 0 <= j < s0.len() implies #[trigger] t0[j].0@ == s0[j].0@ && g(t0[j].1) == f(s0[j].1) by {
            assert(t0[j] == t[j] && s0[j] == s[j]);
        }
        lemma_keyed_map_values(s0, t0, f, g);
        let k = s.last().0@;
        assert(t[t.len() - 1].0@ == s[s.len() - 1].0@);
        assert(g(t.last().1) == f(s.last().1));
        let mt = keyed(t0).insert(k, t.last().1);
        let ms = keyed(s0).insert(k, s.last().1);
        assert(keyed(t) == mt);
        assert(keyed(s) == ms);
        assert(mt.map_values(g) =~= keyed(t0).map_values(g).insert(k, g(t.last().1)));
        assert(ms.map_values(f) =~= keyed(s0).map_values(f).insert(k, f(s.last().1)));
    }
}

/// Entries that keep the names of a sequence with distinct names have
/// distinct names too.
pub proof fn lemma_distinct_same_names<V, W>(s: Seq<(String, V)>, t: Seq<(String, W)>)
    requires
        distinct_names(s),
        t.len() == s.len(),
        forall|j: int| 0 <= j < s.len() ==> #[trigger] t[j].0@ == s[j].0@,
    ensures
        distinct_names(t),
{
    assert forall|i: int, j: int| 0 <= i < j < t.len() implies t[i].0@ != t[j].0@ by {
        assert(t[i].0@ == s[i].0@);
        assert(t[j].0@ == s[j].0@);
    }
}

} // verus!
