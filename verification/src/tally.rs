//! Counting byte strings: how often each distinct one was seen, listed
//! in dictionary order.

use vstd::prelude::*;

use crate::bytes::copy_range;

verus! {

/// `a` comes before `b` in dictionary order: at the first byte where they
/// differ `a` has the smaller one, or `a` is a proper prefix of `b`.
pub open spec fn lex_lt(a: Seq<u8>, b: Seq<u8>) -> bool
    decreases a.len(),
{
    if a.len() == 0 {
        b.len() > 0
    } else if b.len() == 0 {
        false
    } else if a[0] < b[0] {
        true
    } else if a[0] > b[0] {
        false
    } else {
        lex_lt(a.drop_first(), b.drop_first())
    }
}

/// No string comes before itself.
pub proof fn lemma_lex_irreflexive(a: Seq<u8>)
    ensures
        !lex_lt(a, a),
    decreases a.len(),
{
    if a.len() > 0 {
        lemma_lex_irreflexive(a.drop_first());
    }
}

/// Dictionary order is transitive.
pub proof fn lemma_lex_transitive(a: Seq<u8>, b: Seq<u8>, c: Seq<u8>)
    requires
        lex_lt(a, b),
        lex_lt(b, c),
    ensures
        lex_lt(a, c),
    decreases a.len(),
{
    if a.len() > 0 && b.len() > 0 && c.len() > 0 && a[0] == b[0] && b[0] == c[0] {
        lemma_lex_transitive(a.drop_first(), b.drop_first(), c.drop_first());
    }
}

/// Of two different strings, one comes before the other.
pub proof fn lemma_lex_total(a: Seq<u8>, b: Seq<u8>)
    requires
        a != b,
    ensures
        lex_lt(a, b) || lex_lt(b, a),
    decreases a.len(),
{
    if a.len() == 0 && b.len() == 0 {
        assert(a =~= b);
    }
    if a.len() > 0 && b.len() > 0 && a[0] == b[0] {
        if a.drop_first() =~= b.drop_first() {
            assert(a =~= b) by {
                assert forall|i: int| 0 <= i < a.len() implies a[i] == b[i] by {
                    if i > 0 {
                        assert(a[i] == a.drop_first()[i - 1]);
                        assert(b[i] == b.drop_first()[i - 1]);
                    }
                }
            }
        } else {
            lemma_lex_total(a.drop_first(), b.drop_first());
        }
    }
}

/// Compares two byte strings in dictionary order.
pub fn lex_less(a: &[u8], b: &[u8]) -> (lt: bool)
    ensures
        lt == lex_lt(a@, b@),
{
    let mut i: usize = 0;
    assert(a@.skip(0) =~= a@ && b@.skip(0) =~= b@);
    while i < a.len() && i < b.len()
        invariant
            i <= a@.len(),
            i <= b@.len(),
            lex_lt(a@, b@) == lex_lt(a@.skip(i as int), b@.skip(i as int)),
        decreases a@.len() - i,
    {
        let ghost (x, y) = (a@.skip(i as int), b@.skip(i as int));
        if a[i] < b[i] {
            return true;
        }
        if a[i] > b[i] {
            return false;
        }
        assert(x.drop_first() =~= a@.skip(i + 1));
        assert(y.drop_first() =~= b@.skip(i + 1));
        i = i + 1;
    }
    i < b.len()
}

/// Character-wise equality of two byte strings.
pub fn bytes_equal(a: &[u8], b: &[u8]) -> (eq: bool)
    ensures
        eq == (a@ == b@),
{
    if a.len() != b.len() {
        return false;
    }
    let mut i: usize = 0;
    while i < a.len()
        invariant
            i <= a@.len(),
            a@.len() == b@.len(),
            forall|j: int| 0 <= j < i ==> a@[j] == b@[j],
        decreases a@.len() - i,
    {
        if a[i] != b[i] {
            return false;
        }
        i = i + 1;
    }
    assert(a@ =~= b@);
    true
}

/// Counts of distinct byte strings, kept in dictionary order.
pub struct Tally {
    entries: Vec<(Vec<u8>, usize)>,
    total: usize,
}

/// The entries as plain values.
pub open spec fn entry_views(e: Seq<(Vec<u8>, usize)>) -> Seq<(Seq<u8>, usize)> {
    e.map_values(|p: (Vec<u8>, usize)| (p.0@, p.1))
}

/// Keys strictly increasing in dictionary order.
pub open spec fn keys_increasing(s: Seq<(Seq<u8>, usize)>) -> bool {
    forall|i: int, j: int| 0 <= i < j < s.len() ==> lex_lt(#[trigger] s[i].0, #[trigger] s[j].0)
}

/// The sum of the counts.
pub open spec fn sum_counts(s: Seq<(Seq<u8>, usize)>) -> nat
    decreases s.len(),
{
    if s.len() == 0 {
        0
    } else {
        s[0].1 as nat + sum_counts(s.drop_first())
    }
}

/// `k` is one of the keys.
pub open spec fn has_key(s: Seq<(Seq<u8>, usize)>, k: Seq<u8>) -> bool {
    exists|i: int| 0 <= i < s.len() && s[i].0 == k
}

/// Where key `k` is.
pub open spec fn key_index(s: Seq<(Seq<u8>, usize)>, k: Seq<u8>) -> int {
    choose|i: int| 0 <= i < s.len() && s[i].0 == k
}

/// The entries as a map from key to count.
pub open spec fn tally_map(s: Seq<(Seq<u8>, usize)>) -> Map<Seq<u8>, usize> {
    Map::new(|k: Seq<u8>| has_key(s, k), |k: Seq<u8>| s[key_index(s, k)].1)
}

proof fn lemma_key_index(s: Seq<(Seq<u8>, usize)>, p: int)
    requires
        keys_increasing(s),
        0 <= p < s.len(),
    ensures
        has_key(s, s[p].0),
        key_index(s, s[p].0) == p,
{
    let k = s[p].0;
    assert(0 <= p < s.len() && s[p].0 == k);
    let j = key_index(s, k);
    if j < p {
        assert(lex_lt(s[j].0, s[p].0));
        lemma_lex_irreflexive(k);
    } else if j > p {
        assert(lex_lt(s[p].0, s[j].0));
        lemma_lex_irreflexive(k);
    }
}

proof fn lemma_sum_update(s: Seq<(Seq<u8>, usize)>, p: int, v: (Seq<u8>, usize))
    requires
        0 <= p < s.len(),
    ensures
        sum_counts(s.update(p, v)) == sum_counts(s) - s[p].1 + v.1,
        s[p].1 <= sum_counts(s),
    decreases p,
{
    if p > 0 {
        assert(s.update(p, v).drop_first() =~= s.drop_first().update(p - 1, v));
        lemma_sum_update(s.drop_first(), p - 1, v);
    } else {
        assert(s.update(p, v).drop_first() =~= s.drop_first());
    }
}

proof fn lemma_sum_insert(s: Seq<(Seq<u8>, usize)>, p: int, v: (Seq<u8>, usize))
    requires
        0 <= p <= s.len(),
    ensures
        sum_counts(s.insert(p, v)) == sum_counts(s) + v.1,
    decreases p,
{
    if p == 0 {
        assert(s.insert(p, v).drop_first() =~= s);
    } else {
        assert(s.insert(p, v).drop_first() =~= s.drop_first().insert(p - 1, v));
        lemma_sum_insert(s.drop_first(), p - 1, v);
    }
}

impl Tally {
    #[verifier::type_invariant]
    spec fn well_formed(self) -> bool {
        let s = entry_views(self.entries@);
        &&& keys_increasing(s)
        &&& forall|i: int| 0 <= i < s.len() ==> #[trigger] s[i].1 >= 1
        &&& sum_counts(s) == self.total
    }

    /// The entries in key order.
    pub closed spec fn entries_spec(&self) -> Seq<(Seq<u8>, usize)> {
        entry_views(self.entries@)
    }

    /// How many strings were counted.
    pub closed spec fn total_spec(&self) -> nat {
        self.total as nat
    }

    /// An empty tally.
    pub fn new() -> (t: Self)
        ensures
            t.entries_spec().len() == 0,
            t.total_spec() == 0,
    {
        let t = Tally { entries: Vec::new(), total: 0 };
        assert(entry_views(t.entries@) =~= Seq::<(Seq<u8>, usize)>::empty());
        t
    }

    /// How many strings were counted.
    pub fn total(&self) -> (n: usize)
        ensures
            n == self.total_spec(),
    {
        self.total
    }

    /// Counts one more `key`: its count goes up by one, or it is added in
    /// its place with a count of one.
    pub fn record(&mut self, key: Vec<u8>)
        requires
            old(self).total_spec() < usize::MAX,
        ensures
            final(self).total_spec() == old(self).total_spec() + 1,
            tally_map(final(self).entries_spec()) == tally_map(old(self).entries_spec()).insert(
                key@,
                if has_key(old(self).entries_spec(), key@) {
                    (tally_map(old(self).entries_spec())[key@] + 1) as usize
                } else {
                    1usize
                },
            ),
    {
        proof {
            use_type_invariant(&*self);
        }
        let mut taken = Tally { entries: Vec::new(), total: 0 };
        proof {
            assert(entry_views(taken.entries@) =~= Seq::<(Seq<u8>, usize)>::empty());
        }
        std::mem::swap(&mut taken, self);
        let Tally { entries: mut entries, total } = taken;
        let ghost s = entry_views(entries@);
        let ghost k = key@;
        let mut p: usize = 0;
        while p < entries.len() && lex_less(entries[p].0.as_slice(), key.as_slice())
            invariant
                p <= entries@.len(),
                s == entry_views(entries@),
                k == key@,
                forall|i: int| 0 <= i < p ==> lex_lt(#[trigger] s[i].0, k),
            decreases entries@.len() - p,
        {
            p = p + 1;
        }
        let found = p < entries.len() && bytes_equal(entries[p].0.as_slice(), key.as_slice());
        if found {
            let c = entries[p].1;
            proof {
                lemma_sum_update(s, p as int, (k, (c + 1) as usize));
            }
            entries[p] = (key, c + 1);
            let ghost n = entry_views(entries@);
            proof {
                assert(n =~= s.update(p as int, (k, (c + 1) as usize)));
                lemma_key_index(s, p as int);
                assert forall|i: int, j: int| 0 <= i < j < n.len() implies lex_lt(
                    #[trigger] n[i].0,
                    #[trigger] n[j].0,
                ) by {
                    assert(n[i].0 == s[i].0 && n[j].0 == s[j].0);
                }
                lemma_key_index(n, p as int);
                assert forall|kk: Seq<u8>| #![auto] has_key(n, kk) == has_key(s, kk) by {
                    if has_key(s, kk) {
                        let j = key_index(s, kk);
                        assert(n[j].0 == kk);
                    }
                    if has_key(n, kk) {
                        let j = key_index(n, kk);
                        assert(s[j].0 == kk);
                    }
                }
                assert forall|kk: Seq<u8>| kk != k && has_key(s, kk) implies n[key_index(n, kk)].1
                    == s[key_index(s, kk)].1 by {
                    let j = key_index(s, kk);
                    lemma_key_index(s, j);
                    assert(n[j].0 == kk);
                    lemma_key_index(n, j);
                }
                assert(tally_map(n) =~= tally_map(s).insert(k, (c + 1) as usize));
            }
            *self = Tally { entries, total: total + 1 };
        } else {
            proof {
                lemma_sum_insert(s, p as int, (k, 1usize));
            }
            entries.insert(p, (key, 1));
            let ghost n = entry_views(entries@);
            proof {
                assert(n =~= s.insert(p as int, (k, 1usize)));
                if p < s.len() {
                    assert(!lex_lt(s[p as int].0, k));
                    assert(s[p as int].0 != k);
                    lemma_lex_total(s[p as int].0, k);
                }
                assert forall|i: int, j: int| 0 <= i < j < n.len() implies lex_lt(
                    #[trigger] n[i].0,
                    #[trigger] n[j].0,
                ) by {
                    if j < p {
                        assert(n[i] == s[i] && n[j] == s[j]);
                    } else if j == p {
                        assert(n[i] == s[i]);
                    } else if i == p {
                        assert(n[j] == s[j - 1]);
                        if j - 1 > p {
                            assert(lex_lt(s[p as int].0, s[j - 1].0));
                            lemma_lex_transitive(k, s[p as int].0, s[j - 1].0);
                        }
                    } else if i < p {
                        assert(n[i] == s[i] && n[j] == s[j - 1]);
                        if i < j - 1 {
                            assert(lex_lt(s[i].0, s[j - 1].0));
                        }
                    } else {
                        assert(n[i] == s[i - 1] && n[j] == s[j - 1]);
                    }
                }
                lemma_key_index(n, p as int);
                assert(!has_key(s, k)) by {
                    if has_key(s, k) {
                        let j = key_index(s, k);
                        if j < p {
                            lemma_lex_irreflexive(k);
                        } else {
                            if j > p {
                                assert(lex_lt(s[p as int].0, s[j].0));
                                lemma_lex_transitive(k, s[p as int].0, s[j].0);
                            }
                            lemma_lex_irreflexive(k);
                        }
                    }
                }
                assert forall|kk: Seq<u8>| #![auto] kk != k ==> has_key(n, kk) == has_key(s, kk) by {
                    if has_key(s, kk) {
                        let j = key_index(s, kk);
                        if j < p {
                            assert(n[j].0 == kk);
                        } else {
                            assert(n[j + 1].0 == kk);
                        }
                    }
                    if has_key(n, kk) && kk != k {
                        let j = key_index(n, kk);
                        if j < p {
                            assert(s[j].0 == kk);
                        } else {
                            assert(j != p);
                            assert(s[j - 1].0 == kk);
                        }
                    }
                }
                assert forall|kk: Seq<u8>| kk != k && has_key(s, kk) implies n[key_index(n, kk)].1
                    == s[key_index(s, kk)].1 by {
                    let j = key_index(s, kk);
                    lemma_key_index(s, j);
                    if j < p {
                        assert(n[j] == s[j]);
                        lemma_key_index(n, j);
                    } else {
                        assert(n[j + 1] == s[j]);
                        lemma_key_index(n, j + 1);
                    }
                }
                assert(tally_map(n) =~= tally_map(s).insert(k, 1usize));
                assert forall|i: int| 0 <= i < n.len() implies #[trigger] n[i].1 >= 1 by {
                    if i < p {
                        assert(n[i] == s[i]);
                    } else if i > p {
                        assert(n[i] == s[i - 1]);
                    }
                }
            }
            *self = Tally { entries, total: total + 1 };
        }
    }

    /// The distinct strings with their counts, in dictionary order.
    pub fn entries(&self) -> (out: Vec<(Vec<u8>, usize)>)
        ensures
            entry_views(out@) == self.entries_spec(),
            keys_increasing(self.entries_spec()),
            forall|i: int| 0 <= i < self.entries_spec().len() ==> #[trigger] self.entries_spec()[i].1 >= 1,
            sum_counts(self.entries_spec()) == self.total_spec(),
    {
        proof {
            use_type_invariant(self);
        }
        let mut out: Vec<(Vec<u8>, usize)> = Vec::new();
        let mut i: usize = 0;
        while i < self.entries.len()
            invariant
                i <= self.entries@.len(),
                entry_views(out@) == entry_views(self.entries@).take(i as int),
            decreases self.entries@.len() - i,
        {
            let key = &self.entries[i].0;
            let copy = copy_range(key.as_slice(), 0, key.len());
            proof {
                assert(copy@ =~= key@);
            }
            let ghost before = entry_views(out@);
            let count = self.entries[i].1;
            out.push((copy, count));
            proof {
                assert(entry_views(out@) =~= before.push((copy@, count)));
                assert(entry_views(self.entries@).take(i + 1) =~= entry_views(self.entries@).take(
                    i as int,
                ).push(entry_views(self.entries@)[i as int]));
            }
            i = i + 1;
        }
        proof {
            assert(entry_views(self.entries@).take(i as int) =~= entry_views(self.entries@));
        }
        out
    }
}

} // verus!
