//! An ordered table from text keys to values.
//!
//! Keys are kept in strictly increasing order, so a key occurs once and walking
//! the entries walks the keys in lexicographic order.

use vstd::prelude::*;
use vstd::string::*;

use crate::text::to_chars;

verus! {

/// Lexicographic order on texts, by code point.
pub open spec fn less(a: Seq<char>, b: Seq<char>) -> bool
    decreases a.len(),
{
    if b.len() == 0 {
        false
    } else if a.len() == 0 {
        true
    } else if a[0] == b[0] {
        less(a.drop_first(), b.drop_first())
    } else {
        a[0] < b[0]
    }
}

/// No text is below itself.
pub proof fn lemma_less_irreflexive(a: Seq<char>)
    ensures
        !less(a, a),
    decreases a.len(),
{
    if a.len() > 0 {
        lemma_less_irreflexive(a.drop_first());
    }
}

/// The order is transitive.
pub proof fn lemma_less_transitive(a: Seq<char>, b: Seq<char>, c: Seq<char>)
    requires
        less(a, b),
        less(b, c),
    ensures
        less(a, c),
    decreases a.len(),
{
    if a.len() > 0 && a[0] == b[0] && b[0] == c[0] {
        lemma_less_transitive(a.drop_first(), b.drop_first(), c.drop_first());
    }
}

/// Of two different texts one is below the other.
pub proof fn lemma_less_total(a: Seq<char>, b: Seq<char>)
    ensures
        a == b || less(a, b) || less(b, a),
    decreases a.len(),
{
    if a.len() > 0 && b.len() > 0 && a[0] == b[0] {
        lemma_less_total(a.drop_first(), b.drop_first());
        if a.drop_first() == b.drop_first() {
            assert(a =~= seq![a[0]] + a.drop_first());
            assert(b =~= seq![b[0]] + b.drop_first());
        }
    } else if a.len() == 0 && b.len() == 0 {
        assert(a =~= b);
    }
}

/// Decides [`less`].
pub fn is_less(a: &str, b: &str) -> (r: bool)
    ensures
        r == less(a@, b@),
{
    let av = to_chars(a);
    let bv = to_chars(b);
    let mut i: usize = 0;
    assert(av@.skip(0) =~= av@);
    assert(bv@.skip(0) =~= bv@);
    while i < av.len() && i < bv.len()
        invariant
            av@ == a@,
            bv@ == b@,
            i <= av@.len(),
            i <= bv@.len(),
            less(av@.skip(i as int), bv@.skip(i as int)) == less(a@, b@),
        decreases av@.len() - i,
    {
        let x: char = av[i];
        let y: char = bv[i];
        assert(av@.skip(i as int)[0] == x);
        assert(bv@.skip(i as int)[0] == y);
        if x != y {
            return x < y;
        }
        assert(av@.skip(i as int).drop_first() =~= av@.skip(i + 1));
        assert(bv@.skip(i as int).drop_first() =~= bv@.skip(i + 1));
        i += 1;
    }
    i < bv.len()
}

/// A table from texts to values.
#[derive(Debug, PartialEq, Eq)]
pub struct Table<V> {
    /// The entries, in strictly increasing key order.
    entries: Vec<(String, V)>,
}

impl<V> Table<V> {
    /// The entries, in order.
    pub closed spec fn list(&self) -> Seq<(String, V)> {
        self.entries@
    }

    /// Key of entry `i`.
    pub open spec fn key(&self, i: int) -> Seq<char> {
        self.list()[i].0@
    }

    /// The keys are strictly increasing.
    pub open spec fn wf(&self) -> bool {
        forall|i: int, j: int|
            #![trigger self.key(i), self.key(j)]
            0 <= i < j < self.list().len() ==> less(self.key(i), self.key(j))
    }

    /// Does entry `i` hold the key `k`?
    pub open spec fn is_at(&self, k: Seq<char>, i: int) -> bool {
        0 <= i < self.list().len() && self.key(i) == k
    }

    /// Does the table hold the key `k`?
    pub open spec fn has(&self, k: Seq<char>) -> bool {
        exists|i: int| self.is_at(k, i)
    }

    /// The value under `k`.
    pub open spec fn at(&self, k: Seq<char>) -> V {
        self.list()[choose|i: int| self.is_at(k, i)].1
    }

    /// In a well-formed table a key has one place.
    pub proof fn lemma_unique(&self, k: Seq<char>, i: int)
        requires
            self.wf(),
            self.is_at(k, i),
        ensures
            self.has(k),
            self.at(k) == self.list()[i].1,
    {
        let c = choose|j: int| self.is_at(k, j);
        assert(self.is_at(k, c));
        lemma_less_irreflexive(k);
        if c < i {
            assert(less(self.key(c), self.key(i)));
        } else if i < c {
            assert(less(self.key(i), self.key(c)));
        }
    }

    /// The empty table.
    pub fn new() -> (t: Table<V>)
        ensures
            t.wf(),
            t@ == Map::<Seq<char>, V>::empty(),
            t.list().len() == 0,
    {
        let t = Table { entries: Vec::new() };
        assert(t@ =~= Map::<Seq<char>, V>::empty());
        t
    }

    /// Index of the first entry whose key is not below `k`.
    fn position(&self, k: &str) -> (r: usize)
        requires
            self.wf(),
        ensures
            r <= self.list().len(),
            forall|i: int| 0 <= i < r ==> less(#[trigger] self.key(i), k@),
            forall|i: int| r <= i < self.list().len() ==> !less(#[trigger] self.key(i), k@),
    {
        let mut i: usize = 0;
        while i < self.entries.len() && is_less(self.entries[i].0.as_str(), k)
            invariant
                i <= self.list().len(),
                forall|j: int| 0 <= j < i ==> less(#[trigger] self.key(j), k@),
            decreases self.list().len() - i,
        {
            i += 1;
        }
        proof {
            assert forall|j: int| i <= j < self.list().len() implies !less(
                #[trigger] self.key(j),
                k@,
            ) by {
                assert(!less(self.key(i as int), k@));
                if i < j && less(self.key(j), k@) {
                    lemma_less_transitive(self.key(i as int), self.key(j), k@);
                }
            }
        }
        i
    }

    /// The value under `k`, if there is one.
    pub fn get(&self, k: &str) -> (r: Option<&V>)
        requires
            self.wf(),
        ensures
            match r {
                Some(v) => self@.dom().contains(k@) && *v == self@[k@],
                None => !self@.dom().contains(k@),
            },
    {
        let i = self.position(k);
        if i < self.entries.len() && crate::text::eq(self.entries[i].0.as_str(), k) {
            proof {
                assert(self.is_at(k@, i as int));
                self.lemma_unique(k@, i as int);
            }
            Some(&self.entries[i].1)
        } else {
            proof {
                if self.has(k@) {
                    let c = choose|j: int| self.is_at(k@, j);
                    assert(self.is_at(k@, c));
                    lemma_less_irreflexive(k@);
                    assert(i <= c);
                    if i < c {
                        assert(less(self.key(i as int), self.key(c)));
                    }
                }
            }
            None
        }
    }

    /// The entries, in order.
    pub fn entries(&self) -> (r: &Vec<(String, V)>)
        ensures
            r@ == self.list(),
    {
        &self.entries
    }

    /// Is the table empty?
    pub fn is_empty(&self) -> (r: bool)
        requires
            self.wf(),
        ensures
            r == (self.list().len() == 0),
            r == (self@ == Map::<Seq<char>, V>::empty()),
    {
        let r = self.entries.len() == 0;
        proof {
            if r {
                assert(self@ =~= Map::<Seq<char>, V>::empty());
            } else {
                assert(self.is_at(self.key(0), 0));
                assert(self@.dom().contains(self.key(0)));
            }
        }
        r
    }

    /// Puts `v` under `k`, in place of what was there.
    pub fn insert(&mut self, k: String, v: V)
        requires
            old(self).wf(),
        ensures
            final(self).wf(),
            final(self)@ == old(self)@.insert(k@, v),
    {
        let i = self.position(k.as_str());
        let ghost before = *self;
        let ghost key = k@;
        if i < self.entries.len() && crate::text::eq(self.entries[i].0.as_str(), k.as_str()) {
            self.entries.set(i, (k, v));
            proof {
                assert(forall|j: int|
                    0 <= j < before.list().len() ==> #[trigger] self.key(j) == before.key(j));
                assert(self.wf());
                assert forall|q: Seq<char>| #[trigger]
                    self@.dom().contains(q) == before@.insert(key, v).dom().contains(q) by {
                    if self.has(q) {
                        let c = choose|j: int| self.is_at(q, j);
                        assert(before.is_at(q, c));
                    }
                    if before.has(q) {
                        let c = choose|j: int| before.is_at(q, j);
                        assert(self.is_at(q, c));
                    }
                    if q == key {
                        assert(self.is_at(q, i as int));
                    }
                }
                assert forall|q: Seq<char>| #[trigger] self@.dom().contains(q) implies self@[q]
                    == before@.insert(key, v)[q] by {
                    let c = choose|j: int| self.is_at(q, j);
                    self.lemma_unique(q, c);
                    assert(before.is_at(q, c));
                    before.lemma_unique(q, c);
                    if q == key {
                        assert(self.is_at(q, i as int));
                        self.lemma_unique(q, i as int);
                    }
                }
                assert(self@ =~= before@.insert(key, v));
            }
        } else {
            self.entries.insert(i, (k, v));
            proof {
                let n = before.list().len() as int;
                assert(forall|j: int| 0 <= j < i ==> #[trigger] self.key(j) == before.key(j));
                assert(forall|j: int| i < j <= n ==> #[trigger] self.key(j) == before.key(j - 1));
                assert(self.key(i as int) == key);
                assert forall|a: int, b: int|
                    #![trigger self.key(a), self.key(b)]
                    0 <= a < b < self.list().len() implies less(self.key(a), self.key(b)) by {
                    if b == i {
                        assert(less(before.key(a), key));
                    } else if a == i {
                        assert(!less(before.key(b - 1), key));
                        lemma_less_total(key, before.key(b - 1));
                        if before.key(b - 1) == key {
                            assert(!less(before.key(i as int), key));
                            assert(before.key(i as int) != key);
                            lemma_less_total(key, before.key(i as int));
                            if i < b - 1 {
                                assert(less(before.key(i as int), before.key(b - 1)));
                                lemma_less_irreflexive(key);
                            }
                        }
                    } else if a < i && b < i {
                        assert(less(before.key(a), before.key(b)));
                    } else if a < i {
                        assert(less(before.key(a), before.key(b - 1)));
                    } else {
                        assert(less(before.key(a - 1), before.key(b - 1)));
                    }
                }
                assert(self.wf());
                assert forall|q: Seq<char>| #[trigger]
                    self@.dom().contains(q) == before@.insert(key, v).dom().contains(q) by {
                    if self.has(q) {
                        let c = choose|j: int| self.is_at(q, j);
                        if c < i {
                            assert(before.is_at(q, c));
                        } else if c > i {
                            assert(before.is_at(q, c - 1));
                        }
                    }
                    if before.has(q) {
                        let c = choose|j: int| before.is_at(q, j);
                        if c < i {
                            assert(self.is_at(q, c));
                        } else {
                            assert(self.is_at(q, c + 1));
                        }
                    }
                    if q == key {
                        assert(self.is_at(q, i as int));
                    }
                }
                assert forall|q: Seq<char>| #[trigger] self@.dom().contains(q) implies self@[q]
                    == before@.insert(key, v)[q] by {
                    let c = choose|j: int| self.is_at(q, j);
                    self.lemma_unique(q, c);
                    if c < i {
                        assert(before.is_at(q, c));
                        before.lemma_unique(q, c);
                    } else if c > i {
                        assert(before.is_at(q, c - 1));
                        before.lemma_unique(q, c - 1);
                    }
                    if q == key {
                        assert(self.is_at(q, i as int));
                        self.lemma_unique(q, i as int);
                    }
                }
                assert(self@ =~= before@.insert(key, v));
            }
        }
    }
}

impl<V> View for Table<V> {
    type V = Map<Seq<char>, V>;

    open spec fn view(&self) -> Map<Seq<char>, V> {
        Map::new(|k: Seq<char>| self.has(k), |k: Seq<char>| self.at(k))
    }
}

} // verus!
