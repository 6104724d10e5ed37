//! The alias mapping: unique string keys bound to base path text, with
//! later insertions overriding earlier ones.
use vstd::prelude::*;

verus! {

/// The map induced by a key-value pair sequence, later pairs overriding
/// earlier ones with the same key.
pub open spec fn pairs_map(s: Seq<(Seq<char>, Seq<char>)>) -> Map<Seq<char>, Seq<char>>
    decreases s.len(),
{
    if s.len() == 0 {
        Map::empty()
    } else {
        pairs_map(s.drop_last()).insert(s.last().0, s.last().1)
    }
}

/// The views of an owned pair sequence.
pub open spec fn pair_views(s: Seq<(String, String)>) -> Seq<(Seq<char>, Seq<char>)> {
    s.map_values(|p: (String, String)| (p.0@, p.1@))
}

pub proof fn lemma_pairs_map_dom(s: Seq<(Seq<char>, Seq<char>)>, k: Seq<char>)
    ensures
        pairs_map(s).contains_key(k) <==> exists|i: int| 0 <= i < s.len() && s[i].0 == k,
    decreases s.len(),
{
    if s.len() > 0 {
        lemma_pairs_map_dom(s.drop_last(), k);
        if s.last().0 == k {
            assert(s[s.len() - 1].0 == k);
        } else if pairs_map(s).contains_key(k) {
            let i = choose|i: int| 0 <= i < s.len() - 1 && s.drop_last()[i].0 == k;
            assert(s[i].0 == k);
        } else {
            assert(forall|i: int| 0 <= i < s.len() - 1 ==> s.drop_last()[i] == s[i]);
        }
    }
}

pub proof fn lemma_pairs_map_last_match(s: Seq<(Seq<char>, Seq<char>)>, i: int)
    requires
        0 <= i < s.len(),
        forall|j: int| i < j < s.len() ==> s[j].0 != s[i].0,
    ensures
        pairs_map(s).contains_key(s[i].0),
        pairs_map(s)[s[i].0] == s[i].1,
    decreases s.len(),
{
    if i < s.len() - 1 {
        assert(forall|j: int| i < j < s.len() - 1 ==> s.drop_last()[j] == s[j]);
        assert(s.drop_last()[i] == s[i]);
        lemma_pairs_map_last_match(s.drop_last(), i);
    }
}

pub proof fn lemma_pairs_map_update(s: Seq<(Seq<char>, Seq<char>)>, i: int, v: Seq<char>)
    requires
        0 <= i < s.len(),
        forall|a: int, b: int| 0 <= a < b < s.len() ==> s[a].0 != s[b].0,
    ensures
        pairs_map(s.update(i, (s[i].0, v))) == pairs_map(s).insert(s[i].0, v),
    decreases s.len(),
{
    let t = s.update(i, (s[i].0, v));
    if i == s.len() - 1 {
        assert(t.drop_last() =~= s.drop_last());
        assert(pairs_map(t) =~= pairs_map(s).insert(s[i].0, v));
    } else {
        assert(t.drop_last() =~= s.drop_last().update(i, (s[i].0, v)));
        assert(forall|a: int, b: int|
            0 <= a < b < s.len() - 1 ==> s.drop_last()[a].0 != s.drop_last()[b].0);
        assert(s.drop_last()[i] == s[i]);
        lemma_pairs_map_update(s.drop_last(), i, v);
        // the final pair's key differs from the updated one
        assert(s[s.len() - 1].0 != s[i].0);
        assert(pairs_map(t) =~= pairs_map(s).insert(s[i].0, v));
    }
}

/// The alias mapping of a resolution mode: alias keys bound to base paths.
pub struct AliasMap {
    entries: Vec<(String, String)>,
}

impl View for AliasMap {
    type V = Map<Seq<char>, Seq<char>>;

    closed spec fn view(&self) -> Map<Seq<char>, Seq<char>> {
        pairs_map(pair_views(self.entries@))
    }
}

impl AliasMap {
    /// Keys are pairwise distinct.
    pub closed spec fn wf(&self) -> bool {
        forall|a: int, b: int|
            0 <= a < b < self.entries@.len() ==> self.entries@[a].0@ != self.entries@[b].0@
    }

    /// The entries as key-value pairs, in insertion order.
    pub closed spec fn spec_entries(&self) -> Seq<(Seq<char>, Seq<char>)> {
        pair_views(self.entries@)
    }

    pub fn new() -> (r: AliasMap)
        ensures
            r.wf(),
            r@ == Map::<Seq<char>, Seq<char>>::empty(),
    {
        AliasMap { entries: Vec::new() }
    }

    /// Binds `key` to `value`, overriding any earlier binding of the same key.
    pub fn insert(&mut self, key: String, value: String)
        requires
            old(self).wf(),
        ensures
            final(self).wf(),
            final(self)@ == old(self)@.insert(key@, value@),
    {
        let n: usize = self.entries.len();
        let mut i: usize = 0;
        while i < n
            invariant
                0 <= i <= n,
                n == self.entries@.len(),
                self == old(self),
                old(self).wf(),
                forall|j: int| 0 <= j < i ==> self.entries@[j].0@ != key@,
            decreases n - i,
        {
            let hit = text_parts_eq(&self.entries[i].0, &key);
            if hit {
                let ghost s0 = pair_views(self.entries@);
                let ghost idx = i as int;
                proof {
                    assert(s0.len() == n);
                    assert(s0[idx].0 == self.entries@[idx].0@);
                    assert(forall|a: int, b: int| 0 <= a < b < s0.len() ==> s0[a].0 != s0[b].0);
                }
                self.entries.set(i, (key, value));
                proof {
                    assert(pair_views(self.entries@) =~= s0.update(idx, (s0[idx].0, value@)));
                    lemma_pairs_map_update(s0, idx, value@);
                }
                return ;
            }
            i = i + 1;
        }
        let ghost s0 = pair_views(self.entries@);
        self.entries.push((key, value));
        proof {
            assert(pair_views(self.entries@).drop_last() =~= s0);
            assert(pair_views(self.entries@).last() == (key@, value@));
        }
    }

    /// The mapping holding exactly the given pairs, a later pair overriding
    /// an earlier one with the same key.
    pub fn from_pairs(pairs: &Vec<(String, String)>) -> (r: AliasMap)
        ensures
            r.wf(),
            r@ == pairs_map(pair_views(pairs@)),
    {
        let mut m = AliasMap::new();
        let n: usize = pairs.len();
        let mut i: usize = 0;
        while i < n
            invariant
                0 <= i <= n,
                n == pairs@.len(),
                m.wf(),
                m@ == pairs_map(pair_views(pairs@.take(i as int))),
            decreases n - i,
        {
            m.insert(pairs[i].0.clone(), pairs[i].1.clone());
            proof {
                assert(pair_views(pairs@.take(i + 1)).drop_last() =~= pair_views(
                    pairs@.take(i as int),
                ));
                assert(pair_views(pairs@.take(i + 1)).last() == (
                    pairs@[i as int].0@,
                    pairs@[i as int].1@,
                ));
            }
            i = i + 1;
        }
        proof {
            assert(pairs@.take(n as int) =~= pairs@);
        }
        m
    }

    /// Looks a key up: the bound value, or nothing when the key is absent.
    pub fn get(&self, name: &str) -> (r: Option<&String>)
        requires
            self.wf(),
        ensures
            match r {
                Some(v) => self@.contains_key(name@) && v@ == self@[name@],
                None => !self@.contains_key(name@),
            },
    {
        let n: usize = self.entries.len();
        let mut i: usize = 0;
        while i < n
            invariant
                0 <= i <= n,
                n == self.entries@.len(),
                self.wf(),
                forall|j: int| 0 <= j < i ==> self.entries@[j].0@ != name@,
            decreases n - i,
        {
            if crate::text::text_eq(self.entries[i].0.as_str(), name) {
                proof {
                    lemma_pairs_map_last_match(pair_views(self.entries@), i as int);
                }
                return Some(&self.entries[i].1);
            }
            i = i + 1;
        }
        proof {
            lemma_pairs_map_dom(pair_views(self.entries@), name@);
        }
        None
    }

    /// The number of bindings held.
    pub fn len(&self) -> (r: usize)
        ensures
            r == self.spec_entries().len(),
    {
        self.entries.len()
    }

    /// The entries, in insertion order.
    pub fn entries(&self) -> (r: &Vec<(String, String)>)
        ensures
            pair_views(r@) == self.spec_entries(),
    {
        &self.entries
    }
}

/// Whether two owned strings hold the same characters.
fn text_parts_eq(a: &String, b: &String) -> (r: bool)
    ensures
        r == (a@ == b@),
{
    crate::text::text_eq(a.as_str(), b.as_str())
}

} // verus!
