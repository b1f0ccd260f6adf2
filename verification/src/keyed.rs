//! Values kept under string keys in a vector, seen as a map in which a later
//! entry for a key replaces an earlier one.
use vstd::prelude::*;
use crate::model::str_eq;

verus! {

/// The map of a keyed sequence: each entry inserted in order.
pub open spec fn keyed_view<V: View>(s: Seq<(String, V)>) -> Map<Seq<char>, V::V>
    decreases s.len(),
{
    if s.len() == 0 {
        Map::empty()
    } else {
        keyed_view(s.drop_last()).insert(s.last().0@, s.last().1@)
    }
}

/// No key occurs twice.
pub open spec fn keys_unique<V>(s: Seq<(String, V)>) -> bool {
    forall|i: int, j: int| 0 <= i < j < s.len() ==> (#[trigger] s[i]).0@ != (#[trigger] s[j]).0@
}

/// A key is in the map exactly when an entry has it, and with unique keys
/// the map holds that entry's value.
pub proof fn lemma_keyed_lookup<V: View>(s: Seq<(String, V)>, k: Seq<char>)
    ensures
        keyed_view(s).contains_key(k) <==> exists|i: int| 0 <= i < s.len() && (#[trigger] s[i]).0@ == k,
        keys_unique(s) ==> forall|i: int|
            0 <= i < s.len() && (#[trigger] s[i]).0@ == k ==> keyed_view(s)[k] == s[i].1@,
    decreases s.len(),
{
    if s.len() > 0 {
        let t = s.drop_last();
        lemma_keyed_lookup(t, k);
        if keyed_view(s).contains_key(k) && s.last().0@ != k {
            let i = choose|i: int| 0 <= i < t.len() && (#[trigger] t[i]).0@ == k;
            assert(s[i] == t[i]);
        }
        if exists|i: int| 0 <= i < s.len() && (#[trigger] s[i]).0@ == k {
            let i = choose|i: int| 0 <= i < s.len() && (#[trigger] s[i]).0@ == k;
            if i < s.len() - 1 {
                assert(t[i] == s[i]);
            }
        }
        if keys_unique(s) {
            assert(keys_unique(t)) by {
                assert forall|i: int, j: int| 0 <= i < j < t.len() implies (#[trigger] t[i]).0@
                    != (#[trigger] t[j]).0@ by {
                    assert(t[i] == s[i] && t[j] == s[j]);
                }
            }
            assert forall|i: int| 0 <= i < s.len() && (#[trigger] s[i]).0@ == k implies keyed_view(
                s,
            )[k] == s[i].1@ by {
                if i < s.len() - 1 {
                    assert(t[i] == s[i]);
                    assert(s[i].0@ != s[s.len() - 1].0@);
                }
            }
        }
    }
}

/// Replacing the entry at `i` by one with the same key replaces the key's value.
pub proof fn lemma_keyed_update<V: View>(s: Seq<(String, V)>, i: int, x: (String, V))
    requires
        keys_unique(s),
        0 <= i < s.len(),
        x.0@ == s[i].0@,
    ensures
        keyed_view(s.update(i, x)) == keyed_view(s).insert(x.0@, x.1@),
        keys_unique(s.update(i, x)),
    decreases s.len(),
{
    let u = s.update(i, x);
    assert forall|a: int, b: int| 0 <= a < b < u.len() implies (#[trigger] u[a]).0@
        != (#[trigger] u[b]).0@ by {
        assert(s[a].0@ != s[b].0@);
    }
    let t = s.drop_last();
    if i == s.len() - 1 {
        assert(u.drop_last() =~= t);
        assert(keyed_view(u) =~= keyed_view(s).insert(x.0@, x.1@));
    } else {
        assert(keys_unique(t)) by {
            assert forall|a: int, b: int| 0 <= a < b < t.len() implies (#[trigger] t[a]).0@
                != (#[trigger] t[b]).0@ by {
                assert(t[a] == s[a] && t[b] == s[b]);
            }
        }
        lemma_keyed_update(t, i, x);
        assert(u.drop_last() =~= t.update(i, x));
        assert(s.last().0@ != x.0@) by {
            assert(s[i].0@ != s[s.len() - 1].0@);
        }
        assert(keyed_view(u) =~= keyed_view(s).insert(x.0@, x.1@));
    }
}

/// Appending an entry with a new key inserts it.
pub proof fn lemma_keyed_push<V: View>(s: Seq<(String, V)>, x: (String, V))
    requires
        keys_unique(s),
        !keyed_view(s).contains_key(x.0@),
    ensures
        keyed_view(s.push(x)) == keyed_view(s).insert(x.0@, x.1@),
        keys_unique(s.push(x)),
{
    let u = s.push(x);
    assert(u.drop_last() =~= s);
    lemma_keyed_lookup(s, x.0@);
    assert forall|a: int, b: int| 0 <= a < b < u.len() implies (#[trigger] u[a]).0@
        != (#[trigger] u[b]).0@ by {
        if b == s.len() {
            assert(u[a] == s[a]);
        } else {
            assert(u[a] == s[a] && u[b] == s[b]);
        }
    }
}

/// The index of the entry with key `key`, if any.
pub fn find_key<V>(s: &Vec<(String, V)>, key: &str) -> (r: Option<usize>)
    ensures
        match r {
            Some(i) => i < s@.len() && s@[i as int].0@ == key@,
            None => forall|i: int| 0 <= i < s@.len() ==> (#[trigger] s@[i]).0@ != key@,
        },
{
    let mut i: usize = 0;
    while i < s.len()
        invariant
            i <= s@.len(),
            forall|j: int| 0 <= j < i ==> (#[trigger] s@[j]).0@ != key@,
        decreases s.len() - i,
    {
        if str_eq(s[i].0.as_str(), key) {
            return Some(i);
        }
        i = i + 1;
    }
    None
}

/// The value that the last entry with key `k` holds is the map's value.
pub proof fn lemma_keyed_last<V: View>(s: Seq<(String, V)>, k: Seq<char>, j: int)
    requires
        0 <= j < s.len(),
        s[j].0@ == k,
        forall|m: int| j < m < s.len() ==> (#[trigger] s[m]).0@ != k,
    ensures
        keyed_view(s).contains_key(k),
        keyed_view(s)[k] == s[j].1@,
    decreases s.len(),
{
    if j < s.len() - 1 {
        let t = s.drop_last();
        assert(t[j] == s[j]);
        assert forall|m: int| j < m < t.len() implies (#[trigger] t[m]).0@ != k by {
            assert(t[m] == s[m]);
        }
        lemma_keyed_last(t, k, j);
        assert(s[s.len() - 1].0@ != k);
    }
}

/// Values compared by their views.
pub trait ViewEq: View + Sized {
    fn view_eq(&self, other: &Self) -> (r: bool)
        ensures
            r == (self@ == other@),
    ;
}

/// The index of the last entry with key `key`, if any.
pub fn find_last_key<V>(s: &Vec<(String, V)>, key: &str) -> (r: Option<usize>)
    ensures
        match r {
            Some(j) => j < s@.len() && s@[j as int].0@ == key@ && forall|m: int|
                j < m < s@.len() ==> (#[trigger] s@[m]).0@ != key@,
            None => forall|i: int| 0 <= i < s@.len() ==> (#[trigger] s@[i]).0@ != key@,
        },
{
    let mut i: usize = s.len();
    while i > 0
        invariant
            i <= s@.len(),
            forall|m: int| i <= m < s@.len() ==> (#[trigger] s@[m]).0@ != key@,
        decreases i,
    {
        if str_eq(s[i - 1].0.as_str(), key) {
            return Some(i - 1);
        }
        i = i - 1;
    }
    None
}

/// Whether two keyed vectors describe the same map.
pub fn keyed_equal<V: ViewEq>(a: &Vec<(String, V)>, b: &Vec<(String, V)>) -> (r: bool)
    requires
        keys_unique(a@),
    ensures
        r == (keyed_view(a@) == keyed_view(b@)),
{
    let mut i: usize = 0;
    while i < a.len()
        invariant
            keys_unique(a@),
            i <= a@.len(),
            forall|m: int|
                0 <= m < i ==> keyed_view(b@).contains_key((#[trigger] a@[m]).0@) && keyed_view(
                    b@,
                )[a@[m].0@] == a@[m].1@,
        decreases a.len() - i,
    {
        let found = find_last_key(b, a[i].0.as_str());
        proof {
            lemma_keyed_lookup(a@, a@[i as int].0@);
            lemma_keyed_lookup(b@, a@[i as int].0@);
        }
        match found {
            None => {
                assert(!keyed_view(b@).contains_key(a@[i as int].0@));
                return false;
            },
            Some(j) => {
                proof {
                    lemma_keyed_last(b@, a@[i as int].0@, j as int);
                }
                if !a[i].1.view_eq(&b[j].1) {
                    assert(keyed_view(a@)[a@[i as int].0@] != keyed_view(b@)[a@[i as int].0@]);
                    return false;
                }
            },
        }
        i = i + 1;
    }
    let mut j: usize = 0;
    while j < b.len()
        invariant
            keys_unique(a@),
            j <= b@.len(),
            forall|m: int|
                0 <= m < a@.len() ==> keyed_view(b@).contains_key((#[trigger] a@[m]).0@) && keyed_view(
                    b@,
                )[a@[m].0@] == a@[m].1@,
            forall|m: int| 0 <= m < j ==> keyed_view(a@).contains_key((#[trigger] b@[m]).0@),
        decreases b.len() - j,
    {
        let found = find_key(a, b[j].0.as_str());
        proof {
            lemma_keyed_lookup(a@, b@[j as int].0@);
            lemma_keyed_lookup(b@, b@[j as int].0@);
        }
        if found.is_none() {
            assert(!keyed_view(a@).contains_key(b@[j as int].0@));
            return false;
        }
        j = j + 1;
    }
    proof {
        assert forall|k: Seq<char>| #[trigger] keyed_view(a@).contains_key(k) implies keyed_view(
            b@,
        ).contains_key(k) && keyed_view(b@)[k] == keyed_view(a@)[k] by {
            lemma_keyed_lookup(a@, k);
            let m = choose|m: int| 0 <= m < a@.len() && (#[trigger] a@[m]).0@ == k;
        }
        assert forall|k: Seq<char>| #[trigger] keyed_view(b@).contains_key(k) implies keyed_view(
            a@,
        ).contains_key(k) by {
            lemma_keyed_lookup(b@, k);
            let m = choose|m: int| 0 <= m < b@.len() && (#[trigger] b@[m]).0@ == k;
        }
        assert(keyed_view(a@) =~= keyed_view(b@));
    }
    true
}

} // verus!
