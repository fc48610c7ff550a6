use vstd::prelude::*;
use vstd::string::*;

use crate::keyed::{
    keys_sorted, last_with, lemma_table_at, lemma_table_domain, lemma_table_insert, lemma_table_update,
    lemma_text_lt_total, lemma_text_lt_transitive, table, text_lt,
};

verus! {

/// The key/value pairs of a list of string pairs, as character sequences.
pub open spec fn pair_views(s: Seq<(String, String)>) -> Seq<(Seq<char>, Seq<char>)> {
    s.map_values(|p: (String, String)| (p.0@, p.1@))
}

/// Whether `a` orders before `b` by code point.
fn text_less(a: &String, b: &String) -> (r: bool)
    ensures
        r == text_lt(a@, b@),
{
    let x = crate::text::chars_of(a.as_str());
    let y = crate::text::chars_of(b.as_str());
    let mut i: usize = 0;
    assert(a@.skip(0) =~= a@);
    assert(b@.skip(0) =~= b@);
    while i < x.len() && i < y.len()
        invariant
            x@ == a@,
            y@ == b@,
            i <= x@.len(),
            i <= y@.len(),
            text_lt(a@, b@) == text_lt(a@.skip(i as int), b@.skip(i as int)),
        decreases x@.len() - i,
    {
        if x[i] != y[i] {
            let r = x[i] < y[i];
            assert(a@.skip(i as int)[0] == x@[i as int]);
            assert(b@.skip(i as int)[0] == y@[i as int]);
            return r;
        }
        assert(a@.skip(i as int).drop_first() =~= a@.skip(i + 1));
        assert(b@.skip(i as int).drop_first() =~= b@.skip(i + 1));
        i = i + 1;
    }
    i < y.len()
}

/// A map from names to text values, kept in the order of its names; a later
/// insertion of a name replaces its value.
#[derive(Debug)]
pub struct TextMap {
    entries: Vec<(String, String)>,
}

impl View for TextMap {
    type V = Map<Seq<char>, Seq<char>>;

    closed spec fn view(&self) -> Map<Seq<char>, Seq<char>> {
        table(pair_views(self.entries@))
    }
}

impl TextMap {
    /// The pairs, in the order of their names.
    pub closed spec fn pairs(&self) -> Seq<(Seq<char>, Seq<char>)> {
        pair_views(self.entries@)
    }

    /// Creates an empty map.
    pub fn new() -> (r: TextMap)
        ensures
            r@ == Map::<Seq<char>, Seq<char>>::empty(),
            r.pairs().len() == 0,
            keys_sorted(r.pairs()),
    {
        let r = TextMap { entries: Vec::new() };
        assert(pair_views(r.entries@) =~= Seq::empty());
        r
    }

    /// Index of the last entry named `key`, if any.
    fn position(&self, key: &String) -> (r: Option<usize>)
        ensures
            r matches Some(i) ==> last_with(self.pairs(), i as int, key@),
            r is None ==> forall|i: int| 0 <= i < self.pairs().len() ==> self.pairs()[i].0 != key@,
    {
        let mut i: usize = self.entries.len();
        while i > 0
            invariant
                i <= self.entries@.len(),
                forall|j: int| i <= j < self.pairs().len() ==> self.pairs()[j].0 != key@,
            decreases i,
        {
            if self.entries[i - 1].0 == *key {
                return Some(i - 1);
            }
            i = i - 1;
        }
        None
    }

    /// Binds `key` to `value`, replacing any earlier value of `key`; a new
    /// name takes its place in order.
    pub fn insert(&mut self, key: String, value: String)
        ensures
            final(self)@ == old(self)@.insert(key@, value@),
            keys_sorted(old(self).pairs()) ==> keys_sorted(final(self).pairs()),
    {
        match self.position(&key) {
            Some(i) => {
                let ghost s = pair_views(self.entries@);
                proof {
                    lemma_table_update(s, i as int, key@, value@);
                }
                self.entries.set(i, (key, value));
                assert(pair_views(self.entries@) =~= s.update(i as int, (s[i as int].0, value@)));
            },
            None => {
                let ghost s = pair_views(self.entries@);
                let n = self.entries.len();
                assert(s == self.pairs());
                assert forall|j: int| 0 <= j < s.len() implies s[j].0 != key@ by {
                    assert(self.pairs()[j].0 != key@);
                }
                let mut p: usize = 0;
                let mut found = false;
                while !found && p < n
                    invariant
                        n == s.len(),
                        s == pair_views(self.entries@),
                        p <= n,
                        forall|j: int| 0 <= j < s.len() ==> s[j].0 != key@,
                        forall|j: int| 0 <= j < p ==> text_lt(#[trigger] s[j].0, key@),
                        found ==> p < n && !text_lt(s[p as int].0, key@),
                    decreases n - p + (if found { 0int } else { 1int }),
                {
                    if text_less(&self.entries[p].0, &key) {
                        p = p + 1;
                    } else {
                        found = true;
                    }
                }
                proof {
                    lemma_table_insert(s, p as int, key@, value@);
                    if keys_sorted(s) && p < n {
                        lemma_text_lt_total(s[p as int].0, key@);
                        assert forall|j: int| p <= j < s.len() implies text_lt(key@, #[trigger] s[j].0) by {
                            if j > p {
                                lemma_text_lt_transitive(key@, s[p as int].0, s[j].0);
                            }
                        }
                    }
                }
                self.entries.insert(p, (key, value));
                assert(pair_views(self.entries@) =~= s.insert(p as int, (key@, value@)));
                proof {
                    let t = s.insert(p as int, (key@, value@));
                    if keys_sorted(s) {
                        assert forall|i: int, j: int| 0 <= i < j < t.len() implies text_lt(t[i].0, t[j].0) by {
                            if i < p && j == p {
                            } else if i < p && j > p {
                                assert(t[j] == s[j - 1]);
                                if j - 1 >= p {
                                    lemma_text_lt_transitive(s[i].0, key@, s[j - 1].0);
                                }
                            } else if i == p {
                                assert(t[j] == s[j - 1]);
                            } else if i > p {
                                assert(t[i] == s[i - 1]);
                                assert(t[j] == s[j - 1]);
                            }
                        }
                    }
                }
            },
        }
    }

    /// The value bound to `key`.
    pub fn get(&self, key: &str) -> (r: Option<&String>)
        ensures
            r is Some <==> self@.contains_key(key@),
            r matches Some(v) ==> v@ == self@[key@],
    {
        proof {
            lemma_table_domain(self.pairs(), key@);
        }
        let k = String::from_str(key);
        match self.position(&k) {
            Some(i) => {
                proof {
                    lemma_table_at(self.pairs(), i as int, key@);
                }
                Some(&self.entries[i].1)
            },
            None => None,
        }
    }

    /// Number of entries.
    pub fn len(&self) -> (r: usize)
        ensures
            r == self.pairs().len(),
    {
        self.entries.len()
    }

    /// The `i`-th pair in insertion order.
    pub fn entry(&self, i: usize) -> (r: (&String, &String))
        requires
            i < self.pairs().len(),
        ensures
            r.0@ == self.pairs()[i as int].0,
            r.1@ == self.pairs()[i as int].1,
    {
        (&self.entries[i].0, &self.entries[i].1)
    }
}

} // verus!
