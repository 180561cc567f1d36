//! A header mapping from header names to header values. Keys are unique and
//! insertion order is kept, though no caller may rely on the order: contracts
//! that speak of the contents go through the derived map.

use vstd::prelude::*;

verus! {

/// The mapping denoted by a sequence of key/value pairs; later pairs win.
pub open spec fn seq_as_map(s: Seq<(Seq<char>, Seq<char>)>) -> Map<Seq<char>, Seq<char>>
    decreases s.len(),
{
    if s.len() == 0 {
        Map::empty()
    } else {
        seq_as_map(s.drop_last()).insert(s.last().0, s.last().1)
    }
}

/// Whether some pair of the sequence carries the key.
pub open spec fn has_key(s: Seq<(Seq<char>, Seq<char>)>, k: Seq<char>) -> bool {
    exists|i: int| 0 <= i < s.len() && s[i].0 == k
}

/// The position of the pair carrying the key, when one exists.
pub open spec fn key_index(s: Seq<(Seq<char>, Seq<char>)>, k: Seq<char>) -> int {
    choose|i: int| 0 <= i < s.len() && s[i].0 == k
}

/// No two pairs of the sequence carry the same key.
pub open spec fn distinct_keys(s: Seq<(Seq<char>, Seq<char>)>) -> bool {
    forall|i: int, j: int| 0 <= i < j < s.len() ==> s[i].0 != s[j].0
}

/// Appending one pair inserts its key into the denoted mapping.
proof fn lemma_seq_as_map_push(s: Seq<(Seq<char>, Seq<char>)>, k: Seq<char>, v: Seq<char>)
    ensures
        seq_as_map(s.push((k, v))) == seq_as_map(s).insert(k, v),
{
    let t = s.push((k, v));
    assert(t.drop_last() =~= s);
    assert(t.last() == (k, v));
}

/// Overwriting the pair that carries a key — provided no later pair carries
/// it too — inserts the new value into the denoted mapping.
proof fn lemma_seq_as_map_update(s: Seq<(Seq<char>, Seq<char>)>, i: int, k: Seq<char>, v: Seq<char>)
    requires
        0 <= i < s.len(),
        s[i].0 == k,
        forall|j: int| i < j < s.len() ==> s[j].0 != k,
    ensures
        seq_as_map(s.update(i, (k, v))) == seq_as_map(s).insert(k, v),
    decreases s.len(),
{
    let t = s.update(i, (k, v));
    if i == s.len() - 1 {
        assert(t.drop_last() =~= s.drop_last());
        assert(t.last() == (k, v));
        assert(seq_as_map(t) == seq_as_map(s.drop_last()).insert(k, v));
        assert(seq_as_map(s.drop_last()).insert(k, s[i].1).insert(k, v) =~= seq_as_map(
            s.drop_last(),
        ).insert(k, v));
    } else {
        lemma_seq_as_map_update(s.drop_last(), i, k, v);
        assert(t.drop_last() =~= s.drop_last().update(i, (k, v)));
        assert(t.last() == s.last());
        assert(s.last().0 != k);
        assert(seq_as_map(s.drop_last()).insert(k, v).insert(s.last().0, s.last().1)
            =~= seq_as_map(s.drop_last()).insert(s.last().0, s.last().1).insert(k, v));
    }
}

/// A key no pair carries is not in the denoted mapping.
proof fn lemma_seq_as_map_no_key(s: Seq<(Seq<char>, Seq<char>)>, k: Seq<char>)
    requires
        !has_key(s, k),
    ensures
        !seq_as_map(s).dom().contains(k),
    decreases s.len(),
{
    if s.len() > 0 {
        assert(!has_key(s.drop_last(), k)) by {
            assert(forall|i: int| 0 <= i < s.drop_last().len() ==> s.drop_last()[i] == s[i]);
        }
        lemma_seq_as_map_no_key(s.drop_last(), k);
        assert(s.last() == s[s.len() - 1]);
        assert(s.last().0 != k);
    }
}

/// The denoted mapping holds exactly the keys that some pair carries.
proof fn lemma_seq_as_map_dom(s: Seq<(Seq<char>, Seq<char>)>)
    ensures
        forall|k: Seq<char>| #[trigger] seq_as_map(s).dom().contains(k) <==> has_key(s, k),
    decreases s.len(),
{
    if s.len() > 0 {
        lemma_seq_as_map_dom(s.drop_last());
        assert(forall|i: int| 0 <= i < s.drop_last().len() ==> s.drop_last()[i] == s[i]);
        assert(s.last() == s[s.len() - 1]);
        assert forall|k: Seq<char>| #[trigger] seq_as_map(s).dom().contains(k) implies has_key(
            s,
            k,
        ) by {
            if k == s.last().0 {
                assert(s[s.len() - 1].0 == k);
            } else {
                assert(seq_as_map(s.drop_last()).dom().contains(k));
                assert(has_key(s.drop_last(), k));
                let i = choose|i: int| 0 <= i < s.drop_last().len() && s.drop_last()[i].0 == k;
                assert(s[i].0 == k);
            }
        }
        assert forall|k: Seq<char>| has_key(s, k) implies #[trigger] seq_as_map(s).dom().contains(
            k,
        ) by {
            let i = choose|i: int| 0 <= i < s.len() && s[i].0 == k;
            if i < s.len() - 1 {
                assert(s.drop_last()[i].0 == k);
                assert(has_key(s.drop_last(), k));
                assert(seq_as_map(s.drop_last()).dom().contains(k));
                assert(seq_as_map(s).dom() == seq_as_map(s.drop_last()).dom().insert(s.last().0));
            } else {
                assert(k == s.last().0);
            }
        }
    }
}

/// With distinct keys, the denoted mapping holds each pair's value at its key.
proof fn lemma_seq_as_map_value(s: Seq<(Seq<char>, Seq<char>)>, i: int)
    requires
        distinct_keys(s),
        0 <= i < s.len(),
    ensures
        seq_as_map(s).dom().contains(s[i].0),
        seq_as_map(s)[s[i].0] == s[i].1,
    decreases s.len(),
{
    if i < s.len() - 1 {
        assert(distinct_keys(s.drop_last())) by {
            assert(forall|j: int| 0 <= j < s.drop_last().len() ==> s.drop_last()[j] == s[j]);
        }
        lemma_seq_as_map_value(s.drop_last(), i);
        assert(s.drop_last()[i] == s[i]);
        assert(s.last() == s[s.len() - 1]);
        assert(s.last().0 != s[i].0);
    } else {
        assert(s.last() == s[i]);
    }
}

/// With distinct keys, the denoted mapping has as many keys as pairs.
proof fn lemma_seq_as_map_card(s: Seq<(Seq<char>, Seq<char>)>)
    requires
        distinct_keys(s),
    ensures
        seq_as_map(s).dom().finite(),
        seq_as_map(s).dom().len() == s.len(),
    decreases s.len(),
{
    if s.len() > 0 {
        assert(distinct_keys(s.drop_last())) by {
            assert(forall|j: int| 0 <= j < s.drop_last().len() ==> s.drop_last()[j] == s[j]);
        }
        lemma_seq_as_map_card(s.drop_last());
        assert(s.last() == s[s.len() - 1]);
        assert(!has_key(s.drop_last(), s.last().0)) by {
            assert(forall|j: int| 0 <= j < s.drop_last().len() ==> s.drop_last()[j] == s[j]);
        }
        lemma_seq_as_map_no_key(s.drop_last(), s.last().0);
        vstd::set::axiom_set_insert_len(seq_as_map(s.drop_last()).dom(), s.last().0);
    }
}

/// A mapping from header names to header values with unique keys.
#[derive(Debug)]
pub struct HeaderMap {
    entries: Vec<(String, String)>,
}

/// The position of the first pair whose key equals the one sought.
fn find_key(entries: &Vec<(String, String)>, key: &String) -> (r: Option<usize>)
    ensures
        match r {
            Some(i) => i < entries@.len() && entries@[i as int].0@ == key@ && (forall|j: int|
                0 <= j < i ==> entries@[j].0@ != key@),
            None => forall|j: int| 0 <= j < entries@.len() ==> entries@[j].0@ != key@,
        },
{
    let n = entries.len();
    let mut i: usize = 0;
    while i < n
        invariant
            i <= n,
            n == entries@.len(),
            forall|j: int| 0 <= j < i ==> entries@[j].0@ != key@,
        decreases n - i,
    {
        if entries[i].0 == *key {
            return Some(i);
        }
        i += 1;
    }
    None
}

impl View for HeaderMap {
    type V = Seq<(Seq<char>, Seq<char>)>;

    closed spec fn view(&self) -> Seq<(Seq<char>, Seq<char>)> {
        Seq::new(self.entries@.len(), |i: int| (self.entries@[i].0@, self.entries@[i].1@))
    }
}

impl HeaderMap {
    #[verifier::type_invariant]
    spec fn wf(self) -> bool {
        distinct_keys(self@)
    }

    /// The mapping the entries denote.
    pub open spec fn as_map(self) -> Map<Seq<char>, Seq<char>> {
        seq_as_map(self@)
    }

    /// An empty mapping.
    pub fn new() -> (r: HeaderMap)
        ensures
            r@ == Seq::<(Seq<char>, Seq<char>)>::empty(),
    {
        let r = HeaderMap { entries: Vec::new() };
        proof {
            assert(r@ =~= Seq::<(Seq<char>, Seq<char>)>::empty());
        }
        r
    }

    /// How many headers are held.
    pub fn len(&self) -> (n: usize)
        ensures
            n == self@.len(),
    {
        self.entries.len()
    }

    /// Sets the value for a key: the pair carrying the key is overwritten in
    /// place, and a fresh key is appended.
    pub fn insert(&mut self, key: String, value: String)
        ensures
            final(self).as_map() == old(self).as_map().insert(key@, value@),
            has_key(old(self)@, key@) ==> final(self)@ == old(self)@.update(
                key_index(old(self)@, key@),
                (key@, value@),
            ),
            !has_key(old(self)@, key@) ==> final(self)@ == old(self)@.push((key@, value@)),
    {
        proof {
            use_type_invariant(&*self);
        }
        let ghost prior = self@;
        let mut entries: Vec<(String, String)> = Vec::new();
        core::mem::swap(&mut entries, &mut self.entries);
        assert(self@ =~= Seq::<(Seq<char>, Seq<char>)>::empty());
        match find_key(&entries, &key) {
            Some(i) => {
                let ghost ki = key_index(prior, key@);
                assert(prior[i as int].0 == key@);
                assert(ki == i as int);
                entries[i] = (key, value);
                proof {
                    let upd = prior.update(i as int, (key@, value@));
                    assert(Seq::new(entries@.len(), |j: int| (entries@[j].0@, entries@[j].1@))
                        =~= upd);
                    assert(forall|j: int| 0 <= j < upd.len() ==> upd[j].0 == prior[j].0);
                    assert(distinct_keys(upd));
                }
                self.entries = entries;
                proof {
                    assert(self@ =~= prior.update(i as int, (key@, value@)));
                    lemma_seq_as_map_update(prior, i as int, key@, value@);
                }
            },
            None => {
                entries.push((key, value));
                proof {
                    let app = prior.push((key@, value@));
                    assert(Seq::new(entries@.len(), |j: int| (entries@[j].0@, entries@[j].1@))
                        =~= app);
                    assert(forall|j: int| 0 <= j < prior.len() ==> app[j].0 == prior[j].0);
                    assert(distinct_keys(app));
                }
                self.entries = entries;
                proof {
                    assert(self@ =~= prior.push((key@, value@)));
                    lemma_seq_as_map_push(prior, key@, value@);
                }
            },
        }
    }

    /// Merges another mapping in; for a key present in both, the other
    /// mapping's value wins.
    pub fn merge(&mut self, other: &HeaderMap)
        ensures
            final(self).as_map() == old(self).as_map().union_prefer_right(other.as_map()),
    {
        let n = other.len();
        let mut i: usize = 0;
        while i < n
            invariant
                i <= n,
                n == other@.len(),
                self.as_map() == old(self).as_map().union_prefer_right(
                    seq_as_map(other@.take(i as int)),
                ),
            decreases n - i,
        {
            let (k, v) = other.entry_at(i);
            let key = k.clone();
            let value = v.clone();
            let ghost before = self.as_map();
            self.insert(key, value);
            proof {
                assert(other@.take(i + 1).drop_last() =~= other@.take(i as int));
                assert(other@.take(i + 1).last() == other@[i as int]);
                assert(seq_as_map(other@.take(i + 1)) == seq_as_map(other@.take(i as int)).insert(
                    other@[i as int].0,
                    other@[i as int].1,
                ));
                assert(old(self).as_map().union_prefer_right(seq_as_map(other@.take(i + 1)))
                    =~= before.insert(other@[i as int].0, other@[i as int].1));
            }
            i += 1;
        }
        proof {
            assert(other@.take(n as int) =~= other@);
        }
    }

    /// The value held for a key, when the key is held at all.
    pub fn get(&self, key: &String) -> (r: Option<&String>)
        ensures
            match r {
                Some(v) => self.as_map().dom().contains(key@) && v@ == self.as_map()[key@],
                None => !self.as_map().dom().contains(key@),
            },
    {
        proof {
            use_type_invariant(&*self);
        }
        match find_key(&self.entries, key) {
            Some(i) => {
                proof {
                    assert(self@[i as int].0 == key@);
                    lemma_seq_as_map_value(self@, i as int);
                }
                Some(&self.entries[i].1)
            },
            None => {
                proof {
                    assert(!has_key(self@, key@));
                    lemma_seq_as_map_no_key(self@, key@);
                }
                None
            },
        }
    }

    /// The key and value at a position.
    pub fn entry_at(&self, i: usize) -> (r: (&String, &String))
        requires
            i < self@.len(),
        ensures
            r.0@ == self@[i as int].0,
            r.1@ == self@[i as int].1,
    {
        let p = &self.entries[i];
        (&p.0, &p.1)
    }
}

impl PartialEq for HeaderMap {
    /// Two mappings are equal when they denote the same mapping, whatever
    /// the order their pairs were staged in.
    fn eq(&self, other: &HeaderMap) -> (r: bool) {
        proof {
            use_type_invariant(&*self);
            use_type_invariant(&*other);
            lemma_seq_as_map_card(self@);
            lemma_seq_as_map_card(other@);
        }
        let n = self.entries.len();
        if n != other.entries.len() {
            proof {
                assert(self.as_map().dom().len() != other.as_map().dom().len());
            }
            return false;
        }
        let mut i: usize = 0;
        while i < n
            invariant
                i <= n,
                n == self@.len(),
                n == other@.len(),
                distinct_keys(self@),
                forall|j: int|
                    0 <= j < i ==> other.as_map().dom().contains(#[trigger] self@[j].0)
                        && other.as_map()[self@[j].0] == self@[j].1,
            decreases n - i,
        {
            let (k, v) = self.entry_at(i);
            proof {
                lemma_seq_as_map_value(self@, i as int);
            }
            match other.get(k) {
                Some(w) => {
                    if !(*v == *w) {
                        proof {
                            assert(self.as_map()[self@[i as int].0] != other.as_map()[self@[
                                i as int].0]);
                        }
                        return false;
                    }
                },
                None => {
                    proof {
                        assert(self.as_map().dom().contains(self@[i as int].0));
                    }
                    return false;
                },
            }
            i += 1;
        }
        proof {
            assert forall|e: Seq<char>| #[trigger] self.as_map().dom().contains(e)
                implies other.as_map().dom().contains(e) && other.as_map()[e] == self.as_map()[
                e] by {
                lemma_seq_as_map_dom(self@);
                let j = choose|j: int| 0 <= j < self@.len() && self@[j].0 == e;
                lemma_seq_as_map_value(self@, j);
            }
            assert(self.as_map().dom().subset_of(other.as_map().dom()));
            assert forall|e: Seq<char>| other.as_map().dom().contains(e) implies self.as_map()
                .dom().contains(e) by {
                if !self.as_map().dom().contains(e) {
                    self.as_map().dom().lemma_subset_not_in_lt(other.as_map().dom(), e);
                }
            }
            assert(self.as_map().dom() =~= other.as_map().dom());
            assert(self.as_map() =~= other.as_map());
        }
        true
    }
}

impl vstd::std_specs::cmp::PartialEqSpecImpl for HeaderMap {
    open spec fn obeys_eq_spec() -> bool {
        true
    }

    open spec fn eq_spec(&self, other: &HeaderMap) -> bool {
        self.as_map() == other.as_map()
    }
}

} // verus!
