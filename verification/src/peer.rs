//! Public metadata of a peer, as the discovery layer exchanges it: a small
//! string-keyed table with a name and an optional version.
//!
//! The table is modeled as a vector of entries with pairwise distinct keys,
//! viewed as a map from key characters to value characters.

use vstd::prelude::*;

verus! {

/// Identifier of a discovered peer; its text stands in for a missing name.
#[derive(Debug, Clone, PartialEq, Eq)]
pub struct PeerId {
    pub id: String,
}

/// A string-keyed metadata table with pairwise distinct keys.
pub struct MetadataMap {
    entries: Vec<(String, String)>,
}

/// The map a sequence of entries denotes, later entries winning.
pub open spec fn map_of(entries: Seq<(String, String)>) -> Map<Seq<char>, Seq<char>>
    decreases entries.len(),
{
    if entries.len() == 0 {
        Map::empty()
    } else {
        map_of(entries.drop_last()).insert(entries.last().0@, entries.last().1@)
    }
}

/// Every key the map holds is held by exactly one entry, and maps to that
/// entry's value.
proof fn lemma_map_of_entries(entries: Seq<(String, String)>)
    requires
        forall|i: int, j: int|
            0 <= i < j < entries.len() ==> (#[trigger] entries[i]).0@ != (#[trigger] entries[j]).0@,
    ensures
        forall|k: Seq<char>|
            #[trigger] map_of(entries).contains_key(k) <==> exists|i: int|
                0 <= i < entries.len() && (#[trigger] entries[i]).0@ == k,
        forall|i: int|
            0 <= i < entries.len() ==> map_of(entries)[(#[trigger] entries[i]).0@]
                == entries[i].1@,
    decreases entries.len(),
{
    if entries.len() > 0 {
        let front = entries.drop_last();
        lemma_map_of_entries(front);
        assert forall|k: Seq<char>| #[trigger]
            map_of(entries).contains_key(k) implies exists|i: int|
            0 <= i < entries.len() && (#[trigger] entries[i]).0@ == k by {
            if k == entries.last().0@ {
                assert(entries[entries.len() - 1].0@ == k);
            } else {
                assert(map_of(front).contains_key(k));
                let i = choose|i: int| 0 <= i < front.len() && (#[trigger] front[i]).0@ == k;
                assert(front[i] == entries[i]);
                assert(entries[i].0@ == k);
            }
        }
        assert forall|k: Seq<char>|
            (exists|i: int| 0 <= i < entries.len() && (#[trigger] entries[i]).0@ == k) implies
            #[trigger] map_of(entries).contains_key(k) by {
            let i = choose|i: int| 0 <= i < entries.len() && (#[trigger] entries[i]).0@ == k;
            if i < entries.len() - 1 {
                assert(front[i] == entries[i]);
                assert(front[i].0@ == k);
                assert(map_of(front).contains_key(k));
            } else {
                assert(entries.last().0@ == k);
            }
        }
        assert forall|i: int| 0 <= i < entries.len() implies map_of(entries)[(
        #[trigger] entries[i]).0@] == entries[i].1@ by {
            if i < entries.len() - 1 {
                assert(front[i] == entries[i]);
                assert(entries[i].0@ != entries.last().0@);
            }
        }
    }
}

impl MetadataMap {
    /// The table as a map from key characters to value characters.
    pub closed spec fn view(&self) -> Map<Seq<char>, Seq<char>> {
        map_of(self.entries@)
    }

    /// Keys are pairwise distinct.
    pub closed spec fn wf(&self) -> bool {
        forall|i: int, j: int|
            0 <= i < j < self.entries@.len() ==> (#[trigger] self.entries@[i]).0@ != (
            #[trigger] self.entries@[j]).0@
    }

    /// An empty table.
    pub fn new() -> (m: Self)
        ensures
            m.wf(),
            m@ == Map::<Seq<char>, Seq<char>>::empty(),
    {
        MetadataMap { entries: Vec::new() }
    }

    /// Adds a binding for a key the table does not hold yet.
    pub fn insert(&mut self, key: String, value: String)
        requires
            old(self).wf(),
            !old(self)@.contains_key(key@),
        ensures
            final(self).wf(),
            final(self)@ == old(self)@.insert(key@, value@),
    {
        proof {
            lemma_map_of_entries(self.entries@);
        }
        self.entries.push((key, value));
        proof {
            assert(self.entries@.drop_last() =~= old(self).entries@);
            assert forall|i: int, j: int|
                0 <= i < j < self.entries@.len() implies (#[trigger] self.entries@[i]).0@ != (
            #[trigger] self.entries@[j]).0@ by {
                if j == self.entries@.len() - 1 {
                    assert(old(self).entries@[i].0@ == self.entries@[i].0@);
                }
            }
        }
    }

    /// Looks a key up.
    pub fn get(&self, key: &String) -> (r: Option<&String>)
        requires
            self.wf(),
        ensures
            match r {
                Some(v) => self@.contains_key(key@) && v@ == self@[key@],
                None => !self@.contains_key(key@),
            },
    {
        proof {
            lemma_map_of_entries(self.entries@);
        }
        let mut j: usize = 0;
        while j < self.entries.len()
            invariant
                j <= self.entries@.len(),
                self.wf(),
                map_of(self.entries@) == self@,
                forall|i: int| 0 <= i < j ==> (#[trigger] self.entries@[i]).0@ != key@,
            decreases self.entries@.len() - j,
        {
            if self.entries[j].0 == *key {
                proof {
                    lemma_map_of_entries(self.entries@);
                }
                return Some(&self.entries[j].1);
            }
            j = j + 1;
        }
        proof {
            lemma_map_of_entries(self.entries@);
        }
        None
    }
}

/// Public metadata of a peer.
#[derive(Debug, Clone, PartialEq, Eq)]
pub struct PeerMetadata {
    pub name: String,
    pub version: Option<String>,
}

impl PeerMetadata {
    /// Reads a peer's metadata out of the table the discovery process found:
    /// the `name` binding, with the peer identifier's text standing in for a
    /// missing one, and the optional `version` binding.
    pub fn from_hashmap(peer_id: &PeerId, hashmap: &MetadataMap) -> (r: Self)
        requires
            hashmap.wf(),
        ensures
            r.name@ == if hashmap@.contains_key("name"@) {
                hashmap@["name"@]
            } else {
                peer_id.id@
            },
            match r.version {
                Some(v) => hashmap@.contains_key("version"@) && v@ == hashmap@["version"@],
                None => !hashmap@.contains_key("version"@),
            },
    {
        let name_key: String = "name".to_owned();
        let version_key: String = "version".to_owned();
        let name = match hashmap.get(&name_key) {
            Some(v) => v.clone(),
            None => peer_id.id.clone(),
        };
        let version = match hashmap.get(&version_key) {
            Some(v) => Some(v.clone()),
            None => None,
        };
        PeerMetadata { name, version }
    }

    /// Writes the metadata back into a table: the name under `name`, and the
    /// version under `version` when there is one.
    pub fn to_hashmap(self) -> (r: MetadataMap)
        ensures
            r.wf(),
            r@ == match self.version {
                Some(v) => Map::<Seq<char>, Seq<char>>::empty().insert("name"@, self.name@).insert(
                    "version"@,
                    v@,
                ),
                None => Map::<Seq<char>, Seq<char>>::empty().insert("name"@, self.name@),
            },
    {
        proof {
            reveal_strlit("name");
            reveal_strlit("version");
        }
        let mut hashmap = MetadataMap::new();
        hashmap.insert("name".to_owned(), self.name);
        if let Some(version) = self.version {
            assert("name"@.len() == 4 && "version"@.len() == 7);
            hashmap.insert("version".to_owned(), version);
        }
        hashmap
    }
}

} // verus!
