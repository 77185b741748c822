//! The records of a manifest, found by identifier.

use crate::manifest::{Media, MediaView};
use vstd::hash_map::StringHashMap;
use vstd::prelude::*;

verus! {

/// What the records hold, in their order.
pub open spec fn views(records: Seq<Media>) -> Seq<MediaView> {
    records.map_values(|m: Media| m@)
}

/// The record at index `k` has the identifier `id`, and no later one has.
pub open spec fn is_last_with(records: Seq<MediaView>, id: Seq<char>, k: int) -> bool {
    &&& 0 <= k < records.len()
    &&& records[k].id == id
    &&& forall|j: int| k < j < records.len() ==> records[j].id != id
}

/// The record that an identifier stands for: the last of the records that
/// have it.
pub open spec fn lookup(records: Seq<MediaView>, id: Seq<char>) -> Option<MediaView> {
    if exists|k: int| is_last_with(records, id, k) {
        Some(records[choose|k: int| is_last_with(records, id, k)])
    } else {
        None
    }
}

/// What a map from identifiers to records holds for `id`.
pub open spec fn held(map: Map<Seq<char>, Media>, id: Seq<char>) -> Option<MediaView> {
    if map.contains_key(id) {
        Some(map[id]@)
    } else {
        None
    }
}

/// The records of one manifest, to be found by identifier. It is built
/// once and never changed.
pub struct RecordIndex {
    map: StringHashMap<Media>,
    entries: Ghost<Seq<MediaView>>,
}

impl RecordIndex {
    #[verifier::type_invariant]
    spec fn consistent(&self) -> bool {
        forall|id: Seq<char>| #[trigger] held(self.map@, id) == lookup(self.entries@, id)
    }

    /// The records that the index was built from, in their order.
    pub closed spec fn entries(&self) -> Seq<MediaView> {
        self.entries@
    }

    /// Builds the index of `records`. Where two records share an
    /// identifier, the later one is found.
    pub fn build(records: Vec<Media>) -> (r: RecordIndex)
        ensures
            r.entries() == views(records@),
    {
        let ghost all = views(records@);
        let mut map: StringHashMap<Media> = StringHashMap::new();
        proof {
            assert forall|id: Seq<char>| #[trigger] held(map@, id) == lookup(all.take(0), id) by {
                lemma_lookup_none(all.take(0), id);
            }
        }
        for media in it: records
            invariant
                it.seq() == records@,
                all == views(records@),
                forall|id: Seq<char>|
                    #[trigger] held(map@, id) == lookup(all.take(it.index() as int), id),
        {
            let ghost before = map@;
            let ghost n = it.index() as int;
            let key = media.id.clone();
            proof {
                assert(all.take(n + 1) =~= all.take(n).push(media@));
                assert forall|id: Seq<char>| #[trigger]
                    held(before.insert(key@, media), id) == lookup(all.take(n + 1), id) by {
                    lemma_lookup_push(all.take(n), media@, id);
                    assert(held(before, id) == lookup(all.take(n), id));
                }
            }
            map.insert(key, media);
        }
        proof {
            assert(all.take(records@.len() as int) =~= all);
        }
        RecordIndex { map, entries: Ghost(all) }
    }

    /// The record that `id` stands for, if there is one.
    pub fn get(&self, id: &str) -> (r: Option<&Media>)
        ensures
            match r {
                Some(m) => lookup(self.entries(), id@) == Some(m@),
                None => lookup(self.entries(), id@) is None,
            },
    {
        proof {
            use_type_invariant(self);
            assert(held(self.map@, id@) == lookup(self.entries@, id@));
        }
        self.map.get(id)
    }
}

/// There is one last record with an identifier at most.
pub proof fn lemma_lookup(records: Seq<MediaView>, id: Seq<char>, k: int)
    requires
        is_last_with(records, id, k),
    ensures
        lookup(records, id) == Some(records[k]),
{
}

/// No record is found for an identifier that none of them has.
pub proof fn lemma_lookup_none(records: Seq<MediaView>, id: Seq<char>)
    requires
        forall|j: int| 0 <= j < records.len() ==> records[j].id != id,
    ensures
        lookup(records, id) is None,
{
}

/// The last record wins: a record that is added is the one found for its
/// identifier from then on, and what is found for any other identifier
/// stays as it was.
pub proof fn lemma_lookup_push(records: Seq<MediaView>, m: MediaView, id: Seq<char>)
    ensures
        lookup(records.push(m), id) == if id == m.id {
            Some(m)
        } else {
            lookup(records, id)
        },
{
    let more = records.push(m);
    let n = records.len() as int;
    if id == m.id {
        lemma_lookup(more, id, n);
    } else if exists|k: int| is_last_with(records, id, k) {
        let k = choose|k: int| is_last_with(records, id, k);
        lemma_lookup(more, id, k);
    } else {
        if exists|k: int| is_last_with(more, id, k) {
            let k = choose|k: int| is_last_with(more, id, k);
            assert forall|j: int| k < j < records.len() implies records[j].id != id by {
                assert(more[j] == records[j]);
            }
            assert(is_last_with(records, id, k));
        }
    }
}

/// A record is found for an identifier exactly if some record has it.
pub proof fn lemma_lookup_some(records: Seq<MediaView>, id: Seq<char>)
    ensures
        lookup(records, id) is Some <==> exists|k: int|
            0 <= k < records.len() && (#[trigger] records[k]).id == id,
        lookup(records, id) matches Some(m) ==> m.id == id,
    decreases records.len(),
{
    if records.len() == 0 {
        lemma_lookup_none(records, id);
    } else {
        let front = records.drop_last();
        let m = records.last();
        assert(records =~= front.push(m));
        lemma_lookup_push(front, m, id);
        lemma_lookup_some(front, id);
    }
}

/// Where no two records share an identifier, each record is the one found
/// for its own identifier.
pub proof fn lemma_lookup_unique(records: Seq<MediaView>, k: int)
    requires
        0 <= k < records.len(),
        forall|i: int, j: int|
            0 <= i < j < records.len() ==> (#[trigger] records[i]).id != (#[trigger] records[j]).id,
    ensures
        lookup(records, records[k].id) == Some(records[k]),
{
    lemma_lookup(records, records[k].id, k);
}

} // verus!
