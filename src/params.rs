use vstd::prelude::*;
use vstd::string::*;

verus! {

/// The map that a list of name/value pairs denotes: a later pair overrides an
/// earlier one with the same name.
pub open spec fn map_of(s: Seq<(Seq<char>, Seq<char>)>) -> Map<Seq<char>, Seq<char>>
    decreases s.len(),
{
    if s.len() == 0 {
        Map::empty()
    } else {
        map_of(s.drop_last()).insert(s.last().0, s.last().1)
    }
}

/// The abstract form of a list of owned name/value pairs.
pub open spec fn pairs_view(v: Seq<(String, String)>) -> Seq<(Seq<char>, Seq<char>)> {
    v.map_values(|p: (String, String)| (p.0@, p.1@))
}

pub open spec fn distinct_names(s: Seq<(Seq<char>, Seq<char>)>) -> bool {
    forall|i: int, j: int| 0 <= i < s.len() && 0 <= j < s.len() && i != j ==> s[i].0 != s[j].0
}

pub proof fn lemma_map_of_domain(s: Seq<(Seq<char>, Seq<char>)>, k: Seq<char>)
    ensures
        map_of(s).contains_key(k) <==> exists|i: int| 0 <= i < s.len() && s[i].0 == k,
    decreases s.len(),
{
    if s.len() > 0 {
        lemma_map_of_domain(s.drop_last(), k);
        if map_of(s.drop_last()).contains_key(k) {
            let i = choose|i: int| 0 <= i < s.drop_last().len() && s.drop_last()[i].0 == k;
            assert(s[i].0 == k);
        }
        if exists|i: int| 0 <= i < s.len() && s[i].0 == k {
            let i = choose|i: int| 0 <= i < s.len() && s[i].0 == k;
            if i < s.len() - 1 {
                assert(s.drop_last()[i].0 == k);
            }
        }
    }
}

pub proof fn lemma_map_of_at(s: Seq<(Seq<char>, Seq<char>)>, i: int)
    requires
        distinct_names(s),
        0 <= i < s.len(),
    ensures
        map_of(s).contains_key(s[i].0),
        map_of(s)[s[i].0] == s[i].1,
    decreases s.len(),
{
    if i < s.len() - 1 {
        let t = s.drop_last();
        assert(t[i] == s[i]);
        lemma_map_of_at(t, i);
        assert(s.last().0 != s[i].0);
    }
}

pub proof fn lemma_map_of_update(s: Seq<(Seq<char>, Seq<char>)>, j: int, p: (Seq<char>, Seq<char>))
    requires
        distinct_names(s),
        0 <= j < s.len(),
        s[j].0 == p.0,
    ensures
        map_of(s.update(j, p)) == map_of(s).insert(p.0, p.1),
    decreases s.len(),
{
    let u = s.update(j, p);
    if j == s.len() - 1 {
        assert(u.drop_last() =~= s.drop_last());
        assert(map_of(u) =~= map_of(s).insert(p.0, p.1));
    } else {
        let t = s.drop_last();
        assert(u.drop_last() =~= t.update(j, p));
        lemma_map_of_update(t, j, p);
        assert(s.last().0 != p.0);
        assert(map_of(u) =~= map_of(s).insert(p.0, p.1));
    }
}

/// Named parameters captured while routing one request, by name.
pub struct Params {
    entries: Vec<(String, String)>,
}

impl Params {
    pub closed spec fn pairs(&self) -> Seq<(Seq<char>, Seq<char>)> {
        pairs_view(self.entries@)
    }

    /// Each name is held once.
    pub closed spec fn wf(&self) -> bool {
        distinct_names(self.pairs())
    }

    pub open spec fn view(&self) -> Map<Seq<char>, Seq<char>> {
        map_of(self.pairs())
    }

    pub fn new() -> (r: Params)
        ensures
            r.wf(),
            r@ == Map::<Seq<char>, Seq<char>>::empty(),
    {
        let r = Params { entries: Vec::new() };
        assert(r.pairs() =~= Seq::empty());
        r
    }

    /// The value captured under `name`, if any.
    pub fn get(&self, name: &str) -> (r: Option<String>)
        requires
            self.wf(),
        ensures
            match r {
                Some(v) => self@.contains_key(name@) && self@[name@] == v@,
                None => !self@.contains_key(name@),
            },
    {
        let key = String::from_str(name);
        let mut i: usize = 0;
        while i < self.entries.len()
            invariant
                0 <= i <= self.entries@.len(),
                self.wf(),
                key@ == name@,
                forall|j: int| 0 <= j < i ==> self.pairs()[j].0 != name@,
            decreases self.entries@.len() - i,
        {
            if self.entries[i].0 == key {
                proof {
                    lemma_map_of_at(self.pairs(), i as int);
                }
                return Some(self.entries[i].1.clone());
            }
            i = i + 1;
        }
        proof {
            lemma_map_of_domain(self.pairs(), name@);
        }
        None
    }

    /// Number of distinct names held.
    pub fn len(&self) -> (r: usize)
        requires
            self.wf(),
        ensures
            r == self@.len(),
    {
        proof {
            lemma_len_distinct(self.pairs());
        }
        self.entries.len()
    }

    /// Sets `name` to `value`, replacing an earlier value of the same name.
    pub fn insert(&mut self, name: String, value: String)
        requires
            old(self).wf(),
        ensures
            final(self).wf(),
            final(self)@ == old(self)@.insert(name@, value@),
    {
        let mut i: usize = 0;
        while i < self.entries.len()
            invariant
                0 <= i <= self.entries@.len(),
                self.wf(),
                self == old(self),
                forall|j: int| 0 <= j < i ==> self.pairs()[j].0 != name@,
            decreases self.entries@.len() - i,
        {
            if self.entries[i].0 == name {
                let ghost before = self.pairs();
                self.entries.set(i, (name, value));
                proof {
                    lemma_map_of_update(before, i as int, (name@, value@));
                    assert(self.pairs() =~= before.update(i as int, (name@, value@)));
                }
                return;
            }
            i = i + 1;
        }
        let ghost before = self.pairs();
        self.entries.push((name, value));
        assert(self.pairs() =~= before.push((name@, value@)));
        assert(self.pairs().drop_last() =~= before);
    }

    /// The pairs held, in no particular order.
    pub fn to_vec(&self) -> (r: Vec<(String, String)>)
        ensures
            pairs_view(r@) == self.pairs(),
    {
        let mut r: Vec<(String, String)> = Vec::new();
        let mut i: usize = 0;
        while i < self.entries.len()
            invariant
                0 <= i <= self.entries@.len(),
                pairs_view(r@) == self.pairs().take(i as int),
            decreases self.entries@.len() - i,
        {
            let name = self.entries[i].0.clone();
            let value = self.entries[i].1.clone();
            let ghost before = r@;
            r.push((name, value));
            assert(r@ == before.push((name, value)));
            assert(self.pairs()[i as int] == (name@, value@));
            assert(pairs_view(r@) =~= pairs_view(before).push((name@, value@)));
            assert(pairs_view(r@) =~= self.pairs().take(i + 1));
            i = i + 1;
        }
        assert(self.pairs().take(i as int) =~= self.pairs());
        r
    }
}

pub proof fn lemma_len_distinct(s: Seq<(Seq<char>, Seq<char>)>)
    requires
        distinct_names(s),
    ensures
        map_of(s).len() == s.len(),
        map_of(s).dom().finite(),
    decreases s.len(),
{
    if s.len() > 0 {
        let t = s.drop_last();
        assert(distinct_names(t));
        lemma_len_distinct(t);
        lemma_map_of_domain(t, s.last().0);
        assert(!map_of(t).contains_key(s.last().0)) by {
            if map_of(t).contains_key(s.last().0) {
                let i = choose|i: int| 0 <= i < t.len() && t[i].0 == s.last().0;
                assert(s[i].0 == s[s.len() - 1].0);
            }
        }
    }
}

} // verus!
