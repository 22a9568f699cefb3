//! A registry: a name-keyed mapping from strings to owned values, scoped to
//! one owning object. Names are unique within a registry; inserting under a
//! name that is already present is refused and leaves the registry unchanged.
use vstd::prelude::*;

verus! {

/// What an attempted insertion does to a registry, as a map: it succeeds
/// exactly when the key is absent, and a refused insertion changes nothing.
pub open spec fn spec_try_insert<V>(
    m: Map<Seq<char>, V>,
    k: Seq<char>,
    v: V,
) -> (bool, Map<Seq<char>, V>) {
    if m.contains_key(k) {
        (false, m)
    } else {
        (true, m.insert(k, v))
    }
}

/// A name-keyed registry of values, backed by an association list whose keys
/// are pairwise distinct.
#[derive(Clone)]
pub struct Registry<V> {
    entries: Vec<(String, V)>,
}

spec fn entries_map<V>(s: Seq<(String, V)>) -> Map<Seq<char>, V>
    decreases s.len(),
{
    if s.len() == 0 {
        Map::empty()
    } else {
        entries_map(s.drop_last()).insert(s.last().0@, s.last().1)
    }
}

proof fn lemma_entries_map_contains<V>(s: Seq<(String, V)>, k: Seq<char>)
    ensures
        entries_map(s).contains_key(k) <==> exists|i: int|
            0 <= i < s.len() && #[trigger] s[i].0@ == k,
    decreases s.len(),
{
    if s.len() > 0 {
        lemma_entries_map_contains(s.drop_last(), k);
        if s.last().0@ == k {
            assert(s[s.len() - 1].0@ == k);
        } else if entries_map(s).contains_key(k) {
            let i = choose|i: int| 0 <= i < s.drop_last().len() && #[trigger] s.drop_last()[i].0@ == k;
            assert(s[i].0@ == k);
        } else {
            assert(forall|i: int| 0 <= i < s.len() - 1 ==> s.drop_last()[i] == #[trigger] s[i]);
        }
    }
}

proof fn lemma_entries_map_index<V>(s: Seq<(String, V)>, i: int)
    requires
        0 <= i < s.len(),
        forall|p: int, q: int|
            0 <= p < q < s.len() ==> (#[trigger] s[p]).0@ != (#[trigger] s[q]).0@,
    ensures
        entries_map(s).contains_key(s[i].0@),
        entries_map(s)[s[i].0@] == s[i].1,
    decreases s.len(),
{
    if i == s.len() - 1 {
        lemma_entries_map_contains(s, s[i].0@);
    } else {
        assert(forall|p: int| 0 <= p < s.len() - 1 ==> s.drop_last()[p] == #[trigger] s[p]);
        lemma_entries_map_index(s.drop_last(), i);
        assert(s.last().0@ != s[i].0@);
    }
}

impl<V> Registry<V> {
    /// The registry as a map from names to the values stored under them.
    pub closed spec fn as_map(&self) -> Map<Seq<char>, V> {
        entries_map(self.entries@)
    }

    /// Well-formedness: no two entries share a name.
    pub closed spec fn wf(&self) -> bool {
        forall|p: int, q: int|
            0 <= p < q < self.entries@.len()
                ==> (#[trigger] self.entries@[p]).0@ != (#[trigger] self.entries@[q]).0@
    }

    /// An empty registry.
    pub fn new() -> (r: Self)
        ensures
            r.wf(),
            r.as_map() == Map::<Seq<char>, V>::empty(),
    {
        Registry { entries: Vec::new() }
    }

    /// Inserts `v` under `name` only if no entry already exists for that
    /// name, and reports whether the insertion happened. A refused insertion
    /// leaves the registry exactly as it was.
    pub fn try_insert(&mut self, name: String, v: V) -> (inserted: bool)
        requires
            old(self).wf(),
        ensures
            final(self).wf(),
            (inserted, final(self).as_map()) == spec_try_insert(old(self).as_map(), name@, v),
    {
        let n = self.entries.len();
        let mut i: usize = 0;
        while i < n
            invariant
                *self == *old(self),
                old(self).wf(),
                n == self.entries@.len(),
                i <= n,
                forall|j: int| 0 <= j < i ==> (#[trigger] self.entries@[j]).0@ != name@,
            decreases n - i,
        {
            if self.entries[i].0.eq(&name) {
                proof {
                    lemma_entries_map_index(self.entries@, i as int);
                }
                return false;
            }
            i += 1;
        }
        proof {
            lemma_entries_map_contains(self.entries@, name@);
            assert(self.entries@.push((name, v)).drop_last() =~= self.entries@);
        }
        self.entries.push((name, v));
        proof {
            assert(forall|j: int|
                0 <= j < old(self).entries@.len()
                    ==> (#[trigger] self.entries@[j]) == old(self).entries@[j]);
        }
        true
    }

    /// Looks a name up, returning the value registered under it, if any.
    pub fn get(&self, name: &String) -> (r: Option<&V>)
        requires
            self.wf(),
        ensures
            match r {
                Some(v) => self.as_map().contains_key(name@) && *v == self.as_map()[name@],
                None => !self.as_map().contains_key(name@),
            },
    {
        let n = self.entries.len();
        let mut i: usize = 0;
        while i < n
            invariant
                n == self.entries@.len(),
                i <= n,
                self.wf(),
                forall|j: int| 0 <= j < i ==> (#[trigger] self.entries@[j]).0@ != name@,
            decreases n - i,
        {
            if self.entries[i].0.eq(name) {
                proof {
                    lemma_entries_map_index(self.entries@, i as int);
                }
                return Some(&self.entries[i].1);
            }
            i += 1;
        }
        proof {
            lemma_entries_map_contains(self.entries@, name@);
        }
        None
    }

    /// How many names are registered.
    pub fn len(&self) -> (n: usize)
        requires
            self.wf(),
        ensures
            n == self.as_map().len(),
    {
        proof {
            lemma_entries_len(self.entries@);
        }
        self.entries.len()
    }
}

proof fn lemma_entries_len<V>(s: Seq<(String, V)>)
    requires
        forall|p: int, q: int|
            0 <= p < q < s.len() ==> (#[trigger] s[p]).0@ != (#[trigger] s[q]).0@,
    ensures
        entries_map(s).len() == s.len(),
    decreases s.len(),
{
    if s.len() > 0 {
        assert(forall|p: int| 0 <= p < s.len() - 1 ==> s.drop_last()[p] == #[trigger] s[p]);
        lemma_entries_len(s.drop_last());
        lemma_entries_map_contains(s.drop_last(), s.last().0@);
        assert(!entries_map(s.drop_last()).contains_key(s.last().0@));
        lemma_entries_map_finite(s.drop_last());
        assert(entries_map(s).dom() =~= entries_map(s.drop_last()).dom().insert(s.last().0@));
        vstd::set::axiom_set_insert_len(entries_map(s.drop_last()).dom(), s.last().0@);
    }
}

proof fn lemma_entries_map_finite<V>(s: Seq<(String, V)>)
    ensures
        entries_map(s).dom().finite(),
    decreases s.len(),
{
    if s.len() > 0 {
        lemma_entries_map_finite(s.drop_last());
    }
}

/// Law: registering a fresh name succeeds, and a second insertion under the
/// same name is refused and leaves the registry's entry for that name
/// unchanged — it still holds the first value.
pub proof fn lemma_insert_then_duplicate<V>(
    m: Map<Seq<char>, V>,
    name: Seq<char>,
    first: V,
    second: V,
)
    requires
        !m.contains_key(name),
    ensures
        ({
            let (ok1, m1) = spec_try_insert(m, name, first);
            let (ok2, m2) = spec_try_insert(m1, name, second);
            ok1 && !ok2 && m2 == m1 && m2[name] == first
        }),
{
}

} // verus!
