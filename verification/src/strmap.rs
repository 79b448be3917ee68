//! A map keyed by text, with the entries kept in ascending key order.

use crate::text::{self, str_eq, str_less};
use vstd::prelude::*;

verus! {

/// Entries by key, one per key.
#[derive(Debug)]
pub struct StrMap<V> {
    entries: Vec<(String, V)>,
}

/// Keys are strictly ascending.
spec fn sorted_keys<V>(e: Seq<(String, V)>) -> bool {
    forall|i: int, j: int| 0 <= i < j < e.len() ==> text::text_less(#[trigger] e[i].0@, #[trigger] e[j].0@)
}

spec fn has_key<V>(e: Seq<(String, V)>, k: Seq<char>) -> bool {
    exists|i: int| 0 <= i < e.len() && #[trigger] e[i].0@ == k
}

spec fn index_of_key<V>(e: Seq<(String, V)>, k: Seq<char>) -> int {
    choose|i: int| 0 <= i < e.len() && #[trigger] e[i].0@ == k
}

spec fn as_map<V>(e: Seq<(String, V)>) -> Map<Seq<char>, V> {
    Map::new(|k: Seq<char>| has_key(e, k), |k: Seq<char>| e[index_of_key(e, k)].1)
}

proof fn lemma_at<V>(e: Seq<(String, V)>, i: int)
    requires
        sorted_keys(e),
        0 <= i < e.len(),
    ensures
        as_map(e).contains_key(e[i].0@),
        as_map(e)[e[i].0@] == e[i].1,
        forall|j: int| 0 <= j < e.len() && #[trigger] e[j].0@ == e[i].0@ ==> j == i,
{
    let k = e[i].0@;
    assert(has_key(e, k));
    let j = index_of_key(e, k);
    text::text_less_is_total(k, k);
    if j < i {
        assert(text::text_less(e[j].0@, e[i].0@));
    } else if i < j {
        assert(text::text_less(e[i].0@, e[j].0@));
    }
    assert forall|j: int| 0 <= j < e.len() && #[trigger] e[j].0@ == e[i].0@ implies j == i by {
        if j < i {
            assert(text::text_less(e[j].0@, e[i].0@));
        } else if i < j {
            assert(text::text_less(e[i].0@, e[j].0@));
        }
    }
}

impl<V> View for StrMap<V> {
    type V = Map<Seq<char>, V>;

    closed spec fn view(&self) -> Map<Seq<char>, V> {
        as_map(self.entries@)
    }
}

impl<V> StrMap<V> {
    #[verifier::type_invariant]
    spec fn ordered(self) -> bool {
        sorted_keys(self.entries@)
    }

    pub fn new() -> (r: Self)
        ensures
            r@ == Map::<Seq<char>, V>::empty(),
    {
        let r = StrMap { entries: Vec::new() };
        assert(r@ =~= Map::<Seq<char>, V>::empty());
        r
    }

    /// First position whose key is not below `k`.
    fn position(&self, k: &str) -> (n: usize)
        ensures
            n <= self.entries@.len(),
            forall|i: int| 0 <= i < n ==> text::text_less(#[trigger] self.entries@[i].0@, k@),
            n < self.entries@.len() ==> !text::text_less(self.entries@[n as int].0@, k@),
    {
        let mut n: usize = 0;
        while n < self.entries.len()
            invariant
                n <= self.entries@.len(),
                forall|i: int| 0 <= i < n ==> text::text_less(#[trigger] self.entries@[i].0@, k@),
            decreases self.entries.len() - n,
        {
            if !str_less(self.entries[n].0.as_str(), k) {
                return n;
            }
            n = n + 1;
        }
        n
    }

    proof fn lemma_position(e: Seq<(String, V)>, n: int, k: Seq<char>)
        requires
            sorted_keys(e),
            0 <= n <= e.len(),
            forall|i: int| 0 <= i < n ==> text::text_less(#[trigger] e[i].0@, k),
            n < e.len() ==> !text::text_less(e[n].0@, k),
        ensures
            has_key(e, k) <==> n < e.len() && e[n].0@ == k,
            n < e.len() && e[n].0@ != k ==> text::text_less(k, e[n].0@),
    {
        text::text_less_is_total(k, k);
        if n < e.len() {
            text::text_less_is_total(e[n].0@, k);
        }
        if has_key(e, k) {
            let i = index_of_key(e, k);
            assert(e[i].0@ == k);
            if i < n {
                assert(text::text_less(e[i].0@, k));
            }
            if n < i {
                assert(text::text_less(e[n].0@, e[i].0@));
            }
        }
    }

    pub fn len(&self) -> (n: usize)
        ensures
            n == self@.dom().len(),
            self@.dom().finite(),
    {
        proof {
            use_type_invariant(self);
            lemma_dom_len(self.entries@);
        }
        self.entries.len()
    }

    pub fn is_empty(&self) -> (r: bool)
        ensures
            r == (self@ == Map::<Seq<char>, V>::empty()),
    {
        proof {
            use_type_invariant(self);
            if self.entries@.len() > 0 {
                lemma_at(self.entries@, 0);
            } else {
                assert(self@ =~= Map::<Seq<char>, V>::empty());
            }
        }
        self.entries.len() == 0
    }

    pub fn get(&self, k: &str) -> (r: Option<&V>)
        ensures
            match r {
                Some(v) => self@.contains_key(k@) && *v == self@[k@],
                None => !self@.contains_key(k@),
            },
    {
        let n: usize = self.position(k);
        proof {
            use_type_invariant(self);
            Self::lemma_position(self.entries@, n as int, k@);
            if n < self.entries@.len() {
                lemma_at(self.entries@, n as int);
            }
        }
        if n < self.entries.len() && str_eq(self.entries[n].0.as_str(), k) {
            Some(&self.entries[n].1)
        } else {
            None
        }
    }

    pub fn contains_key(&self, k: &str) -> (r: bool)
        ensures
            r == self@.contains_key(k@),
    {
        self.get(k).is_some()
    }

    /// Sets the value of `k` and hands back the one it replaces.
    pub fn insert(&mut self, k: String, v: V) -> (r: Option<V>)
        ensures
            final(self)@ == old(self)@.insert(k@, v),
            match r {
                Some(prev) => old(self)@.contains_key(k@) && prev == old(self)@[k@],
                None => !old(self)@.contains_key(k@),
            },
    {
        let n: usize = self.position(k.as_str());
        proof {
            use_type_invariant(&*self);
            Self::lemma_position(self.entries@, n as int, k@);
            if n < self.entries@.len() {
                lemma_at(self.entries@, n as int);
            }
        }
        let ghost before = self.entries@;
        let mut entries: Vec<(String, V)> = Vec::new();
        std::mem::swap(&mut entries, &mut self.entries);
        let mut prev: Option<V> = None;
        if n < entries.len() && str_eq(entries[n].0.as_str(), k.as_str()) {
            prev = Some(entries.remove(n).1);
        }
        let ghost rest = entries@;
        entries.insert(n, (k, v));
        proof {
            let after = entries@;
            let replaced = has_key(before, k@);
            assert(rest =~= if replaced {
                before.remove(n as int)
            } else {
                before
            });
            assert forall|i: int, j: int| 0 <= i < j < after.len() implies text::text_less(
                #[trigger] after[i].0@,
                #[trigger] after[j].0@,
            ) by {
                let d: int = if replaced {
                    0
                } else {
                    1
                };
                if i < n && j == n {
                    assert(after[i] == before[i]);
                } else if i == n {
                    assert(after[j] == before[j - d]);
                    if replaced {
                        assert(text::text_less(before[n as int].0@, before[j - d].0@));
                    } else if j - d > n {
                        text::text_less_is_transitive(
                            k@,
                            before[n as int].0@,
                            before[j - d].0@,
                        );
                    }
                } else if j < n {
                    assert(after[i] == before[i] && after[j] == before[j]);
                } else if i < n {
                    assert(after[i] == before[i] && after[j] == before[j - d]);
                } else {
                    assert(after[i] == before[i - d] && after[j] == before[j - d]);
                }
            }
            assert forall|q: Seq<char>| #[trigger]
                has_key(after, q) <==> has_key(before, q) || q == k@ by {
                assert(after[n as int].0@ == k@);
                if has_key(before, q) && q != k@ {
                    let i = index_of_key(before, q);
                    assert(before[i].0@ == q);
                    if i < n {
                        assert(after[i].0@ == q);
                    } else if replaced {
                        assert(after[i].0@ == q);
                    } else {
                        assert(after[i + 1].0@ == q);
                    }
                }
                if has_key(after, q) && q != k@ {
                    let i = index_of_key(after, q);
                    assert(after[i].0@ == q);
                    if i < n {
                        assert(before[i].0@ == q);
                    } else if replaced {
                        assert(before[i].0@ == q);
                    } else {
                        assert(before[i - 1].0@ == q);
                    }
                }
            }
            assert forall|q: Seq<char>| has_key(after, q) implies #[trigger] as_map(after)[q]
                == as_map(before).insert(k@, v)[q] by {
                if q == k@ {
                    lemma_at(after, n as int);
                } else {
                    let i = index_of_key(after, q);
                    assert(after[i].0@ == q);
                    lemma_at(after, i);
                    if i < n || replaced {
                        lemma_at(before, i);
                    } else {
                        lemma_at(before, i - 1);
                    }
                }
            }
            assert(as_map(after) =~= as_map(before).insert(k@, v));
        }
        self.entries = entries;
        prev
    }

    /// Takes the entry of `k` out of the map.
    pub fn remove(&mut self, k: &str) -> (r: Option<V>)
        ensures
            final(self)@ == old(self)@.remove(k@),
            match r {
                Some(prev) => old(self)@.contains_key(k@) && prev == old(self)@[k@],
                None => !old(self)@.contains_key(k@),
            },
    {
        let n: usize = self.position(k);
        proof {
            use_type_invariant(&*self);
            Self::lemma_position(self.entries@, n as int, k@);
            if n < self.entries@.len() {
                lemma_at(self.entries@, n as int);
            }
        }
        let ghost before = self.entries@;
        if n < self.entries.len() && str_eq(self.entries[n].0.as_str(), k) {
            let mut entries: Vec<(String, V)> = Vec::new();
            std::mem::swap(&mut entries, &mut self.entries);
            let prev = entries.remove(n).1;
            proof {
                let after = entries@;
                assert forall|i: int, j: int| 0 <= i < j < after.len() implies text::text_less(
                    #[trigger] after[i].0@,
                    #[trigger] after[j].0@,
                ) by {
                    let a = if i < n {
                        i
                    } else {
                        i + 1
                    };
                    let b = if j < n {
                        j
                    } else {
                        j + 1
                    };
                    assert(after[i] == before[a] && after[j] == before[b]);
                }
                assert forall|q: Seq<char>| #[trigger]
                    has_key(after, q) <==> has_key(before, q) && q != k@ by {
                    if has_key(before, q) && q != k@ {
                        let i = index_of_key(before, q);
                        assert(before[i].0@ == q);
                        if i < n {
                            assert(after[i].0@ == q);
                        } else {
                            assert(after[i - 1].0@ == q);
                        }
                    }
                    if has_key(after, q) {
                        let i = index_of_key(after, q);
                        assert(after[i].0@ == q);
                        if i < n {
                            assert(before[i].0@ == q);
                        } else {
                            assert(before[i + 1].0@ == q);
                        }
                    }
                }
                assert forall|q: Seq<char>| has_key(after, q) implies #[trigger] as_map(after)[q]
                    == as_map(before).remove(k@)[q] by {
                    let i = index_of_key(after, q);
                    assert(after[i].0@ == q);
                    lemma_at(after, i);
                    if i < n {
                        lemma_at(before, i);
                    } else {
                        lemma_at(before, i + 1);
                    }
                }
                assert(as_map(after) =~= as_map(before).remove(k@));
            }
            self.entries = entries;
            Some(prev)
        } else {
            assert(self@.remove(k@) =~= self@);
            None
        }
    }

    /// The keys in ascending order.
    pub fn keys(&self) -> (out: Vec<String>)
        ensures
            forall|i: int, j: int|
                0 <= i < j < out@.len() ==> text::text_less(#[trigger] out@[i]@, #[trigger] out@[j]@),
            forall|i: int| 0 <= i < out@.len() ==> self@.contains_key(#[trigger] out@[i]@),
            forall|k: Seq<char>| #[trigger]
                self@.contains_key(k) ==> exists|i: int| 0 <= i < out@.len() && #[trigger] out@[i]@ == k,
            out@.len() == self@.dom().len(),
    {
        proof {
            use_type_invariant(self);
            lemma_dom_len(self.entries@);
        }
        let ghost e = self.entries@;
        let mut out: Vec<String> = Vec::new();
        let mut n: usize = 0;
        while n < self.entries.len()
            invariant
                n <= self.entries@.len(),
                e == self.entries@,
                out@.len() == n,
                forall|i: int| 0 <= i < n ==> #[trigger] out@[i] == e[i].0,
            decreases self.entries.len() - n,
        {
            out.push(self.entries[n].0.clone());
            n = n + 1;
        }
        proof {
            assert forall|i: int| 0 <= i < out@.len() implies self@.contains_key(
                #[trigger] out@[i]@,
            ) by {
                lemma_at(e, i);
            }
            assert forall|k: Seq<char>| #[trigger] self@.contains_key(k) implies exists|i: int|
                0 <= i < out@.len() && #[trigger] out@[i]@ == k by {
                let i = index_of_key(e, k);
                assert(e[i].0@ == k);
                assert(out@[i]@ == k);
            }
            assert forall|i: int, j: int| 0 <= i < j < out@.len() implies text::text_less(
                #[trigger] out@[i]@,
                #[trigger] out@[j]@,
            ) by {
                assert(out@[i] == e[i].0 && out@[j] == e[j].0);
            }
        }
        out
    }
}

proof fn lemma_dom_len<V>(e: Seq<(String, V)>)
    requires
        sorted_keys(e),
    ensures
        as_map(e).dom().finite(),
        as_map(e).dom().len() == e.len(),
    decreases e.len(),
{
    if e.len() == 0 {
        assert(as_map(e).dom() =~= Set::<Seq<char>>::empty());
    } else {
        let rest = e.drop_last();
        let k = e.last().0@;
        assert forall|i: int, j: int| 0 <= i < j < rest.len() implies text::text_less(
            #[trigger] rest[i].0@,
            #[trigger] rest[j].0@,
        ) by {
            assert(rest[i] == e[i] && rest[j] == e[j]);
        }
        lemma_dom_len(rest);
        assert(!has_key(rest, k)) by {
            if has_key(rest, k) {
                let i = index_of_key(rest, k);
                assert(rest[i].0@ == k && rest[i] == e[i]);
                lemma_at(e, e.len() - 1);
            }
        }
        assert forall|q: Seq<char>| #[trigger] has_key(e, q) <==> has_key(rest, q) || q == k by {
            assert(e[e.len() - 1].0@ == k);
            if has_key(rest, q) {
                let i = index_of_key(rest, q);
                assert(rest[i].0@ == q);
                assert(e[i].0@ == q);
            }
            if has_key(e, q) && q != k {
                let i = index_of_key(e, q);
                assert(e[i].0@ == q);
                assert(rest[i].0@ == q);
            }
        }
        assert(as_map(e).dom() =~= as_map(rest).dom().insert(k));
    }
}

/// A text-to-text map by what it reads.
pub open spec fn kv_text(m: Map<Seq<char>, String>) -> Map<Seq<char>, Seq<char>> {
    Map::new(|k: Seq<char>| m.contains_key(k), |k: Seq<char>| m[k]@)
}

/// What a list of key/value pairs reads.
pub open spec fn pairs_text(v: Seq<(String, String)>) -> Seq<(Seq<char>, Seq<char>)> {
    Seq::new(v.len(), |i: int| (v[i].0@, v[i].1@))
}

/// `pairs` lists exactly the entries of `m`, in ascending key order.
pub open spec fn lists_sorted(
    pairs: Seq<(Seq<char>, Seq<char>)>,
    m: Map<Seq<char>, Seq<char>>,
) -> bool {
    &&& forall|i: int, j: int|
        0 <= i < j < pairs.len() ==> text::text_less(#[trigger] pairs[i].0, #[trigger] pairs[j].0)
    &&& forall|i: int|
        0 <= i < pairs.len() ==> m.contains_key((#[trigger] pairs[i]).0) && m[pairs[i].0]
            == pairs[i].1
    &&& forall|k: Seq<char>| #[trigger]
        m.contains_key(k) ==> exists|i: int| 0 <= i < pairs.len() && (#[trigger] pairs[i]).0 == k
}

/// Setting an entry sets what is read.
pub broadcast proof fn kv_text_of_insert(m: Map<Seq<char>, String>, k: Seq<char>, v: String)
    ensures
        #[trigger] kv_text(m.insert(k, v)) == kv_text(m).insert(k, v@),
{
    assert(kv_text(m.insert(k, v)) =~= kv_text(m).insert(k, v@));
}

/// Removing an entry removes what is read.
pub broadcast proof fn kv_text_of_remove(m: Map<Seq<char>, String>, k: Seq<char>)
    ensures
        #[trigger] kv_text(m.remove(k)) == kv_text(m).remove(k),
{
    assert(kv_text(m.remove(k)) =~= kv_text(m).remove(k));
}

/// The entries of `m` in ascending key order.
pub open spec fn sorted_list(m: Map<Seq<char>, Seq<char>>) -> Seq<(Seq<char>, Seq<char>)> {
    choose|p: Seq<(Seq<char>, Seq<char>)>| lists_sorted(p, m)
}

/// Where a new key belongs in an ascending list.
proof fn lemma_place(p: Seq<(Seq<char>, Seq<char>)>, k: Seq<char>, i: int) -> (r: int)
    requires
        0 <= i <= p.len(),
        forall|a: int, b: int|
            0 <= a < b < p.len() ==> text::text_less(#[trigger] p[a].0, #[trigger] p[b].0),
        forall|a: int| 0 <= a < p.len() ==> (#[trigger] p[a]).0 != k,
        forall|a: int| 0 <= a < i ==> text::text_less((#[trigger] p[a]).0, k),
    ensures
        0 <= r <= p.len(),
        forall|a: int| 0 <= a < r ==> text::text_less((#[trigger] p[a]).0, k),
        forall|a: int| r <= a < p.len() ==> text::text_less(k, (#[trigger] p[a]).0),
    decreases p.len() - i,
{
    if i < p.len() && text::text_less(p[i].0, k) {
        lemma_place(p, k, i + 1)
    } else {
        if i < p.len() {
            text::text_less_is_total(p[i].0, k);
            assert forall|a: int| i <= a < p.len() implies text::text_less(k, (#[trigger] p[a]).0) by {
                if a > i {
                    text::text_less_is_transitive(k, p[i].0, p[a].0);
                }
            }
        }
        i
    }
}

/// Every finite map has an ascending list of its entries.
pub proof fn sorted_list_lists_the_map(m: Map<Seq<char>, Seq<char>>)
    requires
        m.dom().finite(),
    ensures
        lists_sorted(sorted_list(m), m),
    decreases m.dom().len(),
{
    if m.dom().len() == 0 {
        assert forall|k: Seq<char>| !m.contains_key(k) by {
            if m.dom().contains(k) {
                assert(m.dom().remove(k).len() + 1 == m.dom().len());
            }
        }
        assert(lists_sorted(Seq::empty(), m));
    } else {
        let k = m.dom().choose();
        let rest = m.remove(k);
        assert(rest.dom() =~= m.dom().remove(k));
        sorted_list_lists_the_map(rest);
        let p = sorted_list(rest);
        assert forall|a: int| 0 <= a < p.len() implies (#[trigger] p[a]).0 != k by {
            assert(rest.contains_key(p[a].0));
        }
        let i = lemma_place(p, k, 0);
        let q = p.insert(i, (k, m[k]));
        assert forall|a: int, b: int| 0 <= a < b < q.len() implies text::text_less(
            #[trigger] q[a].0,
            #[trigger] q[b].0,
        ) by {
            let pa = p[if a < i { a } else { a - 1 }];
            let pb = p[if b < i { b } else { b - 1 }];
            assert(a != i ==> q[a] == pa);
            assert(b != i ==> q[b] == pb);
        }
        assert forall|a: int| 0 <= a < q.len() implies m.contains_key((#[trigger] q[a]).0)
            && m[q[a].0] == q[a].1 by {
            if a != i {
                assert(q[a] == p[if a < i { a } else { a - 1 }]);
            }
        }
        assert forall|x: Seq<char>| #[trigger] m.contains_key(x) implies exists|a: int|
            0 <= a < q.len() && (#[trigger] q[a]).0 == x by {
            if x == k {
                assert(q[i].0 == x);
            } else {
                assert(rest.contains_key(x));
                let a = choose|a: int| 0 <= a < p.len() && (#[trigger] p[a]).0 == x;
                assert(q[if a < i { a } else { a + 1 }].0 == x);
            }
        }
        assert(lists_sorted(q, m));
    }
}

/// There is only one ascending list of the entries of a map.
pub proof fn lists_sorted_is_unique(
    a: Seq<(Seq<char>, Seq<char>)>,
    b: Seq<(Seq<char>, Seq<char>)>,
    m: Map<Seq<char>, Seq<char>>,
)
    requires
        lists_sorted(a, m),
        lists_sorted(b, m),
    ensures
        a == b,
    decreases a.len(),
{
    if a.len() == 0 || b.len() == 0 {
        if a.len() > 0 {
            assert(m.contains_key(a[0].0));
        }
        if b.len() > 0 {
            assert(m.contains_key(b[0].0));
        }
        assert(a =~= b);
    } else {
        let la = a.len() - 1;
        let lb = b.len() - 1;
        assert(m.contains_key(a[la].0) && m.contains_key(b[lb].0));
        let j = choose|j: int| 0 <= j < b.len() && (#[trigger] b[j]).0 == a[la].0;
        let i = choose|i: int| 0 <= i < a.len() && (#[trigger] a[i]).0 == b[lb].0;
        assert(a[la].0 == b[lb].0) by {
            if j < lb && i < la {
                assert(text::text_less(b[j].0, b[lb].0));
                assert(text::text_less(a[i].0, a[la].0));
                text::text_less_is_total(a[la].0, b[lb].0);
            }
        }
        let k = a[la].0;
        assert(a[la] == b[lb]);
        lemma_without_last(a, m);
        lemma_without_last(b, m);
        lists_sorted_is_unique(a.drop_last(), b.drop_last(), m.remove(k));
        assert(a =~= a.drop_last().push(a[la]));
        assert(b =~= b.drop_last().push(b[lb]));
    }
}

proof fn lemma_without_last(a: Seq<(Seq<char>, Seq<char>)>, m: Map<Seq<char>, Seq<char>>)
    requires
        lists_sorted(a, m),
        a.len() > 0,
    ensures
        lists_sorted(a.drop_last(), m.remove(a.last().0)),
{
    let r = a.drop_last();
    let k = a.last().0;
    let n = m.remove(k);
    assert forall|i: int| 0 <= i < r.len() implies n.contains_key((#[trigger] r[i]).0)
        && n[r[i].0] == r[i].1 by {
        assert(r[i] == a[i]);
        assert(text::text_less(a[i].0, a[a.len() - 1].0));
        text::text_less_is_total(k, k);
    }
    assert forall|q: Seq<char>| #[trigger] n.contains_key(q) implies exists|i: int|
        0 <= i < r.len() && (#[trigger] r[i]).0 == q by {
        assert(m.contains_key(q));
        let i = choose|i: int| 0 <= i < a.len() && (#[trigger] a[i]).0 == q;
        assert(r[i].0 == q);
    }
    assert forall|i: int, j: int| 0 <= i < j < r.len() implies text::text_less(
        #[trigger] r[i].0,
        #[trigger] r[j].0,
    ) by {
        assert(r[i] == a[i] && r[j] == a[j]);
    }
}

impl StrMap<String> {
    pub fn copy(&self) -> (r: Self)
        ensures
            r@ == self@,
    {
        proof {
            use_type_invariant(self);
        }
        let mut entries: Vec<(String, String)> = Vec::new();
        let mut n: usize = 0;
        while n < self.entries.len()
            invariant
                n <= self.entries@.len(),
                entries@ == self.entries@.take(n as int),
            decreases self.entries.len() - n,
        {
            entries.push((self.entries[n].0.clone(), self.entries[n].1.clone()));
            n = n + 1;
            assert(entries@ =~= self.entries@.take(n as int));
        }
        assert(entries@ =~= self.entries@);
        StrMap { entries }
    }

    /// Key/value pairs in ascending key order.
    pub fn sorted_pairs(&self) -> (out: Vec<(String, String)>)
        ensures
            lists_sorted(pairs_text(out@), kv_text(self@)),
            pairs_text(out@) == sorted_list(kv_text(self@)),
            out@.len() == self@.dom().len(),
    {
        proof {
            use_type_invariant(self);
            lemma_dom_len(self.entries@);
        }
        let ghost e = self.entries@;
        let mut out: Vec<(String, String)> = Vec::new();
        let mut n: usize = 0;
        while n < self.entries.len()
            invariant
                n <= self.entries@.len(),
                e == self.entries@,
                out@ == e.take(n as int),
            decreases self.entries.len() - n,
        {
            out.push((self.entries[n].0.clone(), self.entries[n].1.clone()));
            n = n + 1;
            assert(out@ =~= e.take(n as int));
        }
        assert(out@ =~= e);
        proof {
            let pairs = pairs_text(out@);
            assert forall|i: int| 0 <= i < pairs.len() implies kv_text(self@).contains_key(
                (#[trigger] pairs[i]).0,
            ) && kv_text(self@)[pairs[i].0] == pairs[i].1 by {
                lemma_at(e, i);
            }
            assert forall|k: Seq<char>| #[trigger] kv_text(self@).contains_key(k) implies exists|
                i: int,
            | 0 <= i < pairs.len() && (#[trigger] pairs[i]).0 == k by {
                let i = index_of_key(e, k);
                assert(e[i].0@ == k);
                assert(pairs[i].0 == k);
            }
            assert forall|i: int, j: int| 0 <= i < j < pairs.len() implies text::text_less(
                #[trigger] pairs[i].0,
                #[trigger] pairs[j].0,
            ) by {
                assert(pairs[i].0 == e[i].0@ && pairs[j].0 == e[j].0@);
            }
            lists_sorted_is_unique(pairs, sorted_list(kv_text(self@)), kv_text(self@));
        }
        out
    }

    /// Whether two maps read the same.
    pub fn same_as(&self, other: &Self) -> (r: bool)
        ensures
            r == (kv_text(self@) == kv_text(other@)),
    {
        proof {
            use_type_invariant(self);
            use_type_invariant(other);
            lemma_dom_len(self.entries@);
            lemma_dom_len(other.entries@);
        }
        let ghost a = kv_text(self@);
        let ghost b = kv_text(other@);
        if self.entries.len() != other.entries.len() {
            proof {
                assert(a.dom() =~= self@.dom());
                assert(b.dom() =~= other@.dom());
            }
            return false;
        }
        let mut n: usize = 0;
        while n < self.entries.len()
            invariant
                n <= self.entries@.len(),
                sorted_keys(self.entries@),
                a == kv_text(self@),
                b == kv_text(other@),
                forall|i: int|
                    0 <= i < n ==> b.contains_key(#[trigger] self.entries@[i].0@)
                        && b[self.entries@[i].0@] == self.entries@[i].1@,
            decreases self.entries.len() - n,
        {
            proof {
                lemma_at(self.entries@, n as int);
            }
            assert(a.contains_key(self.entries@[n as int].0@));
            assert(a[self.entries@[n as int].0@] == self.entries@[n as int].1@);
            match other.get(self.entries[n].0.as_str()) {
                Some(v) => {
                    if *v != self.entries[n].1 {
                        return false;
                    }
                },
                None => {
                    return false;
                },
            }
            n = n + 1;
        }
        proof {
            assert forall|k: Seq<char>| #[trigger] a.contains_key(k) implies b.contains_key(k)
                && a[k] == b[k] by {
                let i = index_of_key(self.entries@, k);
                assert(self.entries@[i].0@ == k);
                lemma_at(self.entries@, i);
            }
            assert(a.dom() =~= self@.dom());
            assert(b.dom() =~= other@.dom());
            assert(a.dom().subset_of(b.dom()));
            vstd::set_lib::lemma_subset_equality(a.dom(), b.dom());
            assert(a =~= b);
        }
        true
    }
}

} // verus!
