//! Association maps from identifier names to values.  One flat namespace of
//! this shape backs both the evaluator's store and the type checker's
//! environment.

use vstd::prelude::*;

verus! {

/// Relies on `str`'s `==` (its `PartialEq` impl): string slices compare
/// equal exactly when their character sequences are equal.
#[verifier::external_body]
pub(crate) fn str_eq(a: &str, b: &str) -> (r: bool)
    ensures
        r == (a@ == b@),
{
    a == b
}

/// A map from names to values of kind `V`, backed by a vector of pairs whose
/// keys are pairwise distinct.  Its mathematical view is a
/// `Map<Seq<char>, V>`.
#[derive(Debug)]
pub struct NameMap<V> {
    entries: Vec<(String, V)>,
}

spec fn distinct_keys<V>(s: Seq<(String, V)>) -> bool {
    forall|i: int, j: int| 0 <= i < j < s.len() ==> s[i].0@ != s[j].0@
}

spec fn assoc_map<V>(s: Seq<(String, V)>) -> Map<Seq<char>, V>
    decreases s.len(),
{
    if s.len() == 0 {
        Map::empty()
    } else {
        assoc_map(s.drop_last()).insert(s.last().0@, s.last().1)
    }
}

proof fn lemma_assoc_contains<V>(s: Seq<(String, V)>, k: Seq<char>)
    ensures
        assoc_map(s).contains_key(k) <==> exists|i: int| 0 <= i < s.len() && s[i].0@ == k,
    decreases s.len(),
{
    if s.len() > 0 {
        lemma_assoc_contains(s.drop_last(), k);
        if s.last().0@ == k {
            assert(s[s.len() - 1].0@ == k);
        } else {
            if assoc_map(s).contains_key(k) {
                let i = choose|i: int|
                    0 <= i < s.drop_last().len() && s.drop_last()[i].0@ == k;
                assert(s[i].0@ == k);
            }
            if exists|i: int| 0 <= i < s.len() && s[i].0@ == k {
                let i = choose|i: int| 0 <= i < s.len() && s[i].0@ == k;
                assert(s.drop_last()[i].0@ == k);
            }
        }
    }
}

proof fn lemma_distinct_drop_last<V>(s: Seq<(String, V)>)
    requires
        distinct_keys(s),
        s.len() > 0,
    ensures
        distinct_keys(s.drop_last()),
{
    assert forall|i: int, j: int|
        0 <= i < j < s.drop_last().len() implies s.drop_last()[i].0@ != s.drop_last()[j].0@ by {
        assert(s[i].0@ != s[j].0@);
    }
}

proof fn lemma_assoc_index<V>(s: Seq<(String, V)>, i: int)
    requires
        distinct_keys(s),
        0 <= i < s.len(),
    ensures
        assoc_map(s).contains_key(s[i].0@),
        assoc_map(s)[s[i].0@] == s[i].1,
    decreases s.len(),
{
    if i == s.len() - 1 {
        assert(s.last() == s[i]);
    } else {
        lemma_distinct_drop_last(s);
        assert(s.drop_last()[i] == s[i]);
        lemma_assoc_index(s.drop_last(), i);
        assert(s.last().0@ != s[i].0@);
    }
}

proof fn lemma_assoc_update<V>(s: Seq<(String, V)>, i: int, p: (String, V))
    requires
        distinct_keys(s),
        0 <= i < s.len(),
        p.0@ == s[i].0@,
    ensures
        assoc_map(s.update(i, p)) == assoc_map(s).insert(p.0@, p.1),
    decreases s.len(),
{
    let t = s.update(i, p);
    if i == s.len() - 1 {
        assert(t.drop_last() =~= s.drop_last());
        assert(t.last() == p);
        assert(assoc_map(t) =~= assoc_map(s).insert(p.0@, p.1));
    } else {
        lemma_distinct_drop_last(s);
        assert(s.drop_last()[i] == s[i]);
        lemma_assoc_update(s.drop_last(), i, p);
        assert(t.drop_last() =~= s.drop_last().update(i, p));
        assert(t.last() == s.last());
        assert(s.last().0@ != p.0@);
        assert(assoc_map(t) =~= assoc_map(s).insert(p.0@, p.1));
    }
}

proof fn lemma_assoc_push<V>(s: Seq<(String, V)>, p: (String, V))
    ensures
        assoc_map(s.push(p)) == assoc_map(s).insert(p.0@, p.1),
{
    assert(s.push(p).drop_last() =~= s);
    assert(s.push(p).last() == p);
}

impl<V> NameMap<V> {
    /// Well-formedness: the backing vector binds each name at most once.
    pub closed spec fn wf(self) -> bool {
        distinct_keys(self.entries@)
    }
}

impl<V> View for NameMap<V> {
    type V = Map<Seq<char>, V>;

    closed spec fn view(&self) -> Map<Seq<char>, V> {
        assoc_map(self.entries@)
    }
}

impl<V> NameMap<V> {
    /// The empty map.
    pub fn new() -> (r: Self)
        ensures
            r@ == Map::<Seq<char>, V>::empty(),
            r.wf(),
    {
        NameMap { entries: Vec::new() }
    }

    /// Look a name up.
    pub fn get<'a>(&'a self, name: &str) -> (r: Option<&'a V>)
        requires
            self.wf(),
        ensures
            (match r {
                Some(v) => self@.contains_key(name@) && *v == self@[name@],
                None => !self@.contains_key(name@),
            }),
    {
        let n = self.entries.len();
        let mut i: usize = 0;
        while i < n
            invariant
                n == self.entries@.len(),
                i <= n,
                forall|j: int| 0 <= j < i ==> self.entries@[j].0@ != name@,
                distinct_keys(self.entries@),
            decreases n - i,
        {
            if str_eq(self.entries[i].0.as_str(), name) {
                proof {
                    lemma_assoc_index(self.entries@, i as int);
                }
                return Some(&self.entries[i].1);
            }
            i += 1;
        }
        proof {
            lemma_assoc_contains(self.entries@, name@);
        }
        None
    }

    /// Bind a name, replacing any previous binding of the same name.
    pub fn insert(&mut self, name: String, value: V)
        requires
            old(self).wf(),
        ensures
            final(self)@ == old(self)@.insert(name@, value),
            final(self).wf(),
    {
        let n = self.entries.len();
        let mut i: usize = 0;
        while i < n
            invariant
                n == self.entries@.len(),
                i <= n,
                forall|j: int| 0 <= j < i ==> self.entries@[j].0@ != name@,
                distinct_keys(self.entries@),
                self.entries@ == old(self).entries@,
            decreases n - i,
        {
            if str_eq(self.entries[i].0.as_str(), name.as_str()) {
                proof {
                    lemma_assoc_update(self.entries@, i as int, (name, value));
                }
                self.entries.set(i, (name, value));
                return ;
            }
            i += 1;
        }
        proof {
            lemma_assoc_push(self.entries@, (name, value));
        }
        self.entries.push((name, value));
    }
}

/// The bindings on which two maps agree: the keys present in both with the
/// same value, each kept with that value.
pub open spec fn map_intersect<V>(a: Map<Seq<char>, V>, b: Map<Seq<char>, V>) -> Map<
    Seq<char>,
    V,
> {
    Map::new(|k: Seq<char>| a.contains_key(k) && b.contains_key(k) && a[k] == b[k], |k: Seq<char>| a[k])
}

impl NameMap<crate::typechecker::Type> {
    /// The bindings on which `self` and `other` agree.
    pub fn intersect(&self, other: &Self) -> (r: Self)
        requires
            self.wf(),
            other.wf(),
        ensures
            r@ == map_intersect(self@, other@),
            r.wf(),
    {
        let n = self.entries.len();
        let mut r = NameMap::new();
        let mut i: usize = 0;
        while i < n
            invariant
                n == self.entries@.len(),
                i <= n,
                distinct_keys(self.entries@),
                other.wf(),
                r.wf(),
                forall|k: Seq<char>| #[trigger]
                    r@.contains_key(k) ==> exists|j: int|
                        0 <= j < i && self.entries@[j].0@ == k && other@.contains_key(k)
                            && other@[k] == self.entries@[j].1 && r@[k] == self.entries@[j].1,
                forall|j: int|
                    0 <= j < i && other@.contains_key(#[trigger] self.entries@[j].0@)
                        && other@[self.entries@[j].0@] == self.entries@[j].1 ==> r@.contains_key(
                        self.entries@[j].0@,
                    ),
            decreases n - i,
        {
            let hit = match other.get(self.entries[i].0.as_str()) {
                Some(v2) => *v2 == self.entries[i].1,
                None => false,
            };
            if hit {
                let key = self.entries[i].0.clone();
                let val = self.entries[i].1;
                r.insert(key, val);
            }
            i += 1;
        }
        proof {
            assert forall|k: Seq<char>| #[trigger]
                map_intersect(self@, other@).contains_key(k) implies r@.contains_key(k)
                && r@[k] == self@[k] by {
                lemma_assoc_contains(self.entries@, k);
                let j = choose|j: int| 0 <= j < self.entries@.len() && self.entries@[j].0@ == k;
                lemma_assoc_index(self.entries@, j);
            }
            assert forall|k: Seq<char>| #[trigger]
                r@.contains_key(k) implies map_intersect(self@, other@).contains_key(k) by {
                let j = choose|j: int|
                    0 <= j < self.entries@.len() && self.entries@[j].0@ == k && other@.contains_key(
                        k,
                    ) && other@[k] == self.entries@[j].1 && r@[k] == self.entries@[j].1;
                lemma_assoc_index(self.entries@, j);
            }
            assert(r@ =~= map_intersect(self@, other@));
        }
        r
    }
}

impl<V: Copy> NameMap<V> {
    /// An independent copy of the map.
    pub fn duplicate(&self) -> (r: Self)
        requires
            self.wf(),
        ensures
            r@ == self@,
            r.wf(),
    {
        let n = self.entries.len();
        let mut copied: Vec<(String, V)> = Vec::new();
        let mut i: usize = 0;
        while i < n
            invariant
                n == self.entries@.len(),
                i <= n,
                copied@.len() == i,
                forall|j: int| 0 <= j < i ==> copied@[j] == self.entries@[j],
                distinct_keys(self.entries@),
            decreases n - i,
        {
            copied.push((self.entries[i].0.clone(), self.entries[i].1));
            i += 1;
        }
        proof {
            assert(copied@ =~= self.entries@);
        }
        NameMap { entries: copied }
    }
}

} // verus!
