use vstd::prelude::*;

use crate::strings::str_equals;

verus! {

/// Where the entity tags of downloaded dumps are kept.
#[derive(Debug, Clone)]
pub struct EtagStoreage {
    path: String,
}

impl EtagStoreage {
    pub closed spec fn spec_path(self) -> Seq<char> {
        self.path@
    }

    pub fn new(path: &str) -> (res: EtagStoreage)
        ensures
            res.spec_path() == path@,
    {
        EtagStoreage { path: String::from_str(path) }
    }

    pub fn path(&self) -> (res: &str)
        ensures
            res@ == self.spec_path(),
    {
        self.path.as_str()
    }
}

/// Pairs of key and value as a map; a later pair wins over an earlier one.
pub open spec fn pairs_to_map<K, V>(e: Seq<(K, V)>) -> Map<K, V>
    decreases e.len(),
{
    if e.len() == 0 {
        Map::empty()
    } else {
        pairs_to_map(e.drop_last()).insert(e.last().0, e.last().1)
    }
}

/// No key occurs twice.
pub open spec fn keys_unique<K, V>(e: Seq<(K, V)>) -> bool {
    forall|i: int, j: int| 0 <= i < j < e.len() ==> e[i].0 != e[j].0
}

proof fn lemma_pairs_contains<K, V>(e: Seq<(K, V)>, k: K)
    ensures
        pairs_to_map(e).contains_key(k) <==> exists|i: int| 0 <= i < e.len() && e[i].0 == k,
    decreases e.len(),
{
    if e.len() > 0 {
        lemma_pairs_contains(e.drop_last(), k);
        if exists|i: int| 0 <= i < e.len() && e[i].0 == k {
            let i = choose|i: int| 0 <= i < e.len() && e[i].0 == k;
            if i < e.len() - 1 {
                assert(e.drop_last()[i].0 == k);
            }
        }
        if exists|i: int| 0 <= i < e.drop_last().len() && e.drop_last()[i].0 == k {
            let i = choose|i: int| 0 <= i < e.drop_last().len() && e.drop_last()[i].0 == k;
            assert(e[i].0 == k);
        }
    }
}

proof fn lemma_pairs_index<K, V>(e: Seq<(K, V)>, i: int)
    requires
        keys_unique(e),
        0 <= i < e.len(),
    ensures
        pairs_to_map(e).contains_key(e[i].0),
        pairs_to_map(e)[e[i].0] == e[i].1,
    decreases e.len(),
{
    if i < e.len() - 1 {
        lemma_pairs_index(e.drop_last(), i);
        assert(e.drop_last()[i] == e[i]);
    }
}

proof fn lemma_pairs_update<K, V>(e: Seq<(K, V)>, i: int, v: V)
    requires
        keys_unique(e),
        0 <= i < e.len(),
    ensures
        keys_unique(e.update(i, (e[i].0, v))),
        pairs_to_map(e.update(i, (e[i].0, v))) == pairs_to_map(e).insert(e[i].0, v),
    decreases e.len(),
{
    let u = e.update(i, (e[i].0, v));
    assert(u.drop_last() == if i < e.len() - 1 {
        e.drop_last().update(i, (e[i].0, v))
    } else {
        e.drop_last()
    });
    if i < e.len() - 1 {
        lemma_pairs_update(e.drop_last(), i, v);
        assert(e.drop_last()[i] == e[i]);
        assert(e.last().0 != e[i].0);
        assert(pairs_to_map(u) =~= pairs_to_map(e).insert(e[i].0, v));
    } else {
        assert(pairs_to_map(u) =~= pairs_to_map(e).insert(e[i].0, v));
    }
}

proof fn lemma_pairs_remove<K, V>(e: Seq<(K, V)>, i: int)
    requires
        keys_unique(e),
        0 <= i < e.len(),
    ensures
        keys_unique(e.remove(i)),
        pairs_to_map(e.remove(i)) == pairs_to_map(e).remove(e[i].0),
    decreases e.len(),
{
    let r = e.remove(i);
    let k = e[i].0;
    if i == e.len() - 1 {
        assert(r == e.drop_last());
        lemma_pairs_contains(e.drop_last(), k);
        assert(!pairs_to_map(e.drop_last()).contains_key(k));
        assert(pairs_to_map(r) =~= pairs_to_map(e).remove(k));
    } else {
        lemma_pairs_remove(e.drop_last(), i);
        assert(e.drop_last()[i] == e[i]);
        assert(r.drop_last() == e.drop_last().remove(i));
        assert(r.last() == e.last());
        assert(e.last().0 != k);
        assert(pairs_to_map(r) =~= pairs_to_map(e).remove(k));
    }
}

/// The HTTP status of a reply that leaves the copy already downloaded as it is.
pub const NOT_MODIFIED: u16 = 304;

/// Whether a reply with this HTTP status means the copy already downloaded is
/// current, so nothing is downloaded.
pub fn is_not_modified(status: u16) -> (res: bool)
    ensures
        res == (status == NOT_MODIFIED),
{
    status == NOT_MODIFIED
}

/// The entity tags of downloaded dumps, by URL. The pairs are held in a list
/// with each URL once: vstd states what a `BTreeMap` does only for keys it knows
/// to be ordered, and it gives `String` no such law.
#[derive(Debug)]
pub struct EtagTable {
    entries: Vec<(String, String)>,
}

impl EtagTable {
    /// The pairs as views.
    pub closed spec fn pairs(self) -> Seq<(Seq<char>, Seq<char>)> {
        self.entries@.map_values(|p: (String, String)| (p.0@, p.1@))
    }

    /// The tag of each URL.
    pub closed spec fn spec_map(self) -> Map<Seq<char>, Seq<char>> {
        pairs_to_map(self.pairs())
    }

    #[verifier::type_invariant]
    closed spec fn inv(self) -> bool {
        keys_unique(self.pairs())
    }

    pub fn new() -> (res: EtagTable)
        ensures
            res.spec_map() == Map::<Seq<char>, Seq<char>>::empty(),
    {
        let res = EtagTable { entries: Vec::new() };
        assert(res.pairs() =~= Seq::<(Seq<char>, Seq<char>)>::empty());
        res
    }

    /// Where `url` stands in the list, if it does.
    fn find(&self, url: &str) -> (res: Option<usize>)
        ensures
            match res {
                Some(i) => i < self.pairs().len() && self.pairs()[i as int].0 == url@,
                None => !self.spec_map().contains_key(url@),
            },
    {
        let n = self.entries.len();
        let mut i: usize = 0;
        while i < n
            invariant
                n == self.pairs().len(),
                0 <= i <= n,
                forall|j: int| 0 <= j < i ==> self.pairs()[j].0 != url@,
            decreases n - i,
        {
            if str_equals(self.entries[i].0.as_str(), url) {
                return Some(i);
            }
            i += 1;
        }
        proof {
            lemma_pairs_contains(self.pairs(), url@);
        }
        None
    }

    /// The tag kept for `url`.
    pub fn get(&self, url: &str) -> (res: Option<String>)
        ensures
            match res {
                Some(tag) => self.spec_map().contains_key(url@) && tag@ == self.spec_map()[url@],
                None => !self.spec_map().contains_key(url@),
            },
    {
        proof {
            use_type_invariant(self);
        }
        match self.find(url) {
            Some(i) => {
                proof {
                    lemma_pairs_index(self.pairs(), i as int);
                }
                Some(self.entries[i].1.clone())
            },
            None => None,
        }
    }

    /// Keeps `tag` as the tag of `url`.
    pub fn save(&mut self, url: &str, tag: &str)
        ensures
            final(self).spec_map() == old(self).spec_map().insert(url@, tag@),
    {
        let found = self.find(url);
        let mut taken = EtagTable::new();
        std::mem::swap(self, &mut taken);
        proof {
            use_type_invariant(&taken);
        }
        let EtagTable { mut entries } = taken;
        let ghost before = entries@.map_values(|p: (String, String)| (p.0@, p.1@));
        match found {
            Some(i) => {
                entries.set(i, (String::from_str(url), String::from_str(tag)));
                proof {
                    lemma_pairs_update(before, i as int, tag@);
                    assert(entries@.map_values(|p: (String, String)| (p.0@, p.1@)) =~= before.update(
                        i as int,
                        (before[i as int].0, tag@),
                    ));
                }
            },
            None => {
                entries.push((String::from_str(url), String::from_str(tag)));
                proof {
                    lemma_pairs_contains(before, url@);
                    assert(entries@.map_values(|p: (String, String)| (p.0@, p.1@)) =~= before.push(
                        (url@, tag@),
                    ));
                    assert(before.push((url@, tag@)).drop_last() == before);
                }
            },
        }
        *self = EtagTable { entries };
    }

    /// Forgets the tag of `url`.
    pub fn remove(&mut self, url: &str)
        ensures
            final(self).spec_map() == old(self).spec_map().remove(url@),
    {
        let found = self.find(url);
        let mut taken = EtagTable::new();
        std::mem::swap(self, &mut taken);
        proof {
            use_type_invariant(&taken);
        }
        let EtagTable { mut entries } = taken;
        let ghost before = entries@.map_values(|p: (String, String)| (p.0@, p.1@));
        match found {
            Some(i) => {
                entries.remove(i);
                proof {
                    lemma_pairs_remove(before, i as int);
                    assert(entries@.map_values(|p: (String, String)| (p.0@, p.1@)) =~= before.remove(
                        i as int,
                    ));
                }
            },
            None => {
                assert(old(self).spec_map().remove(url@) =~= old(self).spec_map());
            },
        }
        *self = EtagTable { entries };
    }

    /// After a download: keeps the tag the server sent, or forgets the old one when
    /// it sent none.
    pub fn record_response(&mut self, url: &str, tag: Option<&str>)
        ensures
            final(self).spec_map() == match tag {
                Some(t) => old(self).spec_map().insert(url@, t@),
                None => old(self).spec_map().remove(url@),
            },
    {
        match tag {
            Some(t) => self.save(url, t),
            None => self.remove(url),
        }
    }

    /// The URLs and their tags.
    pub fn entries(&self) -> (res: &Vec<(String, String)>)
        ensures
            res@.map_values(|p: (String, String)| (p.0@, p.1@)) == self.pairs(),
            keys_unique(self.pairs()),
            pairs_to_map(self.pairs()) == self.spec_map(),
    {
        proof {
            use_type_invariant(self);
        }
        &self.entries
    }
}

/// After saving a tag for a URL, reading that URL gives the tag, and every other
/// URL reads as before.
pub proof fn lemma_read_after_save(before: EtagTable, after: EtagTable, url: Seq<char>, tag: Seq<char>)
    requires
        after.spec_map() == before.spec_map().insert(url, tag),
    ensures
        after.spec_map().contains_key(url),
        after.spec_map()[url] == tag,
        forall|other: Seq<char>|
            other != url ==> (after.spec_map().contains_key(other) == before.spec_map().contains_key(other)
                && after.spec_map()[other] == before.spec_map()[other]),
{
}

/// After removing a URL, it reads as absent, and every other URL reads as before.
pub proof fn lemma_read_after_remove(before: EtagTable, after: EtagTable, url: Seq<char>)
    requires
        after.spec_map() == before.spec_map().remove(url),
    ensures
        !after.spec_map().contains_key(url),
        forall|other: Seq<char>|
            other != url ==> (after.spec_map().contains_key(other) == before.spec_map().contains_key(other)
                && after.spec_map()[other] == before.spec_map()[other]),
{
}

} // verus!
