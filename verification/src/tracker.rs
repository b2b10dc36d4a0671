//! Incremental-update bookkeeping: a persisted map from file path to
//! content hash, used to skip files whose bytes have not changed.

use vstd::prelude::*;
use crate::text;

verus! {

/// The hex digest that the hash function assigns to a byte sequence.
pub uninterp spec fn blake3_hex_of(data: Seq<u8>) -> Seq<char>;

/// Relies on blake3::hash and Hash::to_hex: the digest is a function of the
/// bytes alone, rendered as 64 hex characters.
#[verifier::external_body]
pub fn compute_content_hash(data: &[u8]) -> (r: String)
    ensures
        r@ == blake3_hex_of(data@),
        r@.len() == 64,
{
    blake3::hash(data).to_hex().to_string()
}

/// The mapping that an association list of `(path, hash)` pairs denotes;
/// a later pair for the same path wins.
pub open spec fn spec_pairs_map(ps: Seq<(String, String)>) -> Map<Seq<char>, Seq<char>>
    decreases ps.len(),
{
    if ps.len() == 0 {
        Map::empty()
    } else {
        spec_pairs_map(ps.drop_last()).insert(ps.last().0@, ps.last().1@)
    }
}

/// A recorded `(path, hash)` pair still matches the hash just computed for
/// the path: the file need not be processed again. A failed hash
/// (`None`) never counts as unchanged.
pub open spec fn spec_is_unchanged(
    m: Map<Seq<char>, Seq<char>>,
    path: Seq<char>,
    hash: Option<Seq<char>>,
) -> bool {
    hash is Some && m.contains_key(path) && m[path] == hash->0
}

/// The paths of `entries` whose hash is missing, unrecorded or different:
/// exactly the files that must be processed, in their given order.
pub open spec fn spec_changed_paths(
    m: Map<Seq<char>, Seq<char>>,
    entries: Seq<(Seq<char>, Option<Seq<char>>)>,
) -> Seq<Seq<char>>
    decreases entries.len(),
{
    if entries.len() == 0 {
        Seq::empty()
    } else {
        let rest = spec_changed_paths(m, entries.drop_last());
        if spec_is_unchanged(m, entries.last().0, entries.last().1) {
            rest
        } else {
            rest.push(entries.last().0)
        }
    }
}

/// The map after every pair of `entries` is recorded, in order.
pub open spec fn spec_updated(
    m: Map<Seq<char>, Seq<char>>,
    entries: Seq<(Seq<char>, Seq<char>)>,
) -> Map<Seq<char>, Seq<char>>
    decreases entries.len(),
{
    if entries.len() == 0 {
        m
    } else {
        spec_updated(m, entries.drop_last()).insert(entries.last().0, entries.last().1)
    }
}

/// Metadata of the indexed files: each path with the hash of the content
/// last processed.
#[derive(Debug, Clone, Default)]
pub struct IndexMetadata {
    /// Path and content hash of every file the index covers.
    pub files: Vec<(String, String)>,
}

impl IndexMetadata {
    /// Well-formed: no path recorded twice.
    pub open spec fn wf(&self) -> bool {
        forall|i: int, j: int|
            0 <= i < j < self.files@.len() ==> #[trigger] self.files@[i].0@ != #[trigger] self.files@[j].0@
    }

    /// The recorded mapping from path to hash.
    pub open spec fn as_map(&self) -> Map<Seq<char>, Seq<char>> {
        spec_pairs_map(self.files@)
    }

    /// Empty metadata: nothing recorded.
    pub fn new() -> (r: IndexMetadata)
        ensures
            r.wf(),
            r.as_map() == Map::<Seq<char>, Seq<char>>::empty(),
            r.files@.len() == 0,
    {
        IndexMetadata { files: Vec::new() }
    }

    /// Rebuilds metadata from loaded `(path, hash)` pairs; a later pair for
    /// the same path wins.
    pub fn from_pairs(pairs: Vec<(String, String)>) -> (r: IndexMetadata)
        ensures
            r.wf(),
            r.as_map() == spec_updated(Map::empty(), pairs.deep_view()),
    {
        let mut r = IndexMetadata::new();
        let ghost all = pairs.deep_view();
        proof {
            assert(all.take(0) =~= Seq::<(Seq<char>, Seq<char>)>::empty());
        }
        for i in 0..pairs.len()
            invariant
                r.wf(),
                all == pairs.deep_view(),
                all.len() == pairs.len(),
                forall|j: int|
                    0 <= j < all.len() ==> all[j] == (#[trigger] pairs[j].0@, pairs[j].1@),
                r.as_map() == spec_updated(Map::empty(), all.take(i as int)),
        {
            r.record_hash(pairs[i].0.clone(), pairs[i].1.clone());
            proof {
                assert(all.take(i + 1).drop_last() =~= all.take(i as int));
            }
        }
        proof {
            assert(all.take(pairs.len() as int) =~= all);
        }
        r
    }

    /// Index of the pair recording `path`, when one exists.
    fn find_path(&self, path: &str) -> (r: Option<usize>)
        ensures
            match r {
                Some(i) => i < self.files@.len() && self.files@[i as int].0@ == path@,
                None => forall|i: int| 0 <= i < self.files@.len() ==> self.files@[i].0@ != path@,
            },
    {
        for i in 0..self.files.len()
            invariant
                forall|j: int| 0 <= j < i ==> self.files@[j].0@ != path@,
        {
            if text::str_eq(self.files[i].0.as_str(), path) {
                return Some(i);
            }
        }
        None
    }

    /// Records `hash` for `path`, replacing any earlier record.
    pub fn record_hash(&mut self, path: String, hash: String)
        requires
            old(self).wf(),
        ensures
            final(self).wf(),
            final(self).as_map() == old(self).as_map().insert(path@, hash@),
    {
        let found = self.find_path(path.as_str());
        match found {
            Some(i) => {
                let ghost prev = self.files@;
                let kept_path = self.files[i].0.clone();
                self.files.set(i, (kept_path, hash));
                proof {
                    lemma_pairs_map_update_value(prev, self.files@, i as int);
                }
            },
            None => {
                let ghost prev = self.files@;
                self.files.push((path, hash));
                proof {
                    assert(self.files@.drop_last() =~= prev);
                }
            },
        }
    }

    /// Splits freshly hashed paths into those that must be processed and a
    /// count of those left alone: a path is processed exactly when its hash
    /// is missing, unrecorded, or different from the recorded one.
    pub fn filter_changed(&self, hashed: Vec<(String, Option<String>)>) -> (r: (Vec<String>, usize))
        requires
            self.wf(),
        ensures
            r.0.deep_view() == spec_changed_paths(self.as_map(), hashed.deep_view()),
            r.1 == hashed@.len() - r.0@.len(),
    {
        let ghost all = hashed.deep_view();
        let ghost m = self.as_map();
        let mut to_process: Vec<String> = Vec::new();
        let mut unchanged: usize = 0;
        proof {
            assert(all.take(0) =~= Seq::<(Seq<char>, Option<Seq<char>>)>::empty());
        }
        for i in 0..hashed.len()
            invariant
                self.wf(),
                m == self.as_map(),
                all == hashed.deep_view(),
                all.len() == hashed.len(),
                forall|j: int|
                    0 <= j < all.len() ==> all[j] == (
                    #[trigger] hashed[j].0@,
                    hashed[j].1.deep_view(),
                ),
                to_process.deep_view() == spec_changed_paths(m, all.take(i as int)),
                unchanged == i - to_process@.len(),
        {
            let ghost prev = to_process.deep_view();
            let same: bool = match &hashed[i].1 {
                Some(h) => {
                    let found = self.find_path(hashed[i].0.as_str());
                    match found {
                        Some(k) => {
                            proof {
                                lemma_pairs_map_lookup(self.files@, k as int);
                            }
                            text::str_eq(self.files[k].1.as_str(), h.as_str())
                        },
                        None => {
                            proof {
                                lemma_pairs_map_absent(self.files@, hashed[i as int].0@);
                            }
                            false
                        },
                    }
                },
                None => false,
            };
            proof {
                assert(same == spec_is_unchanged(m, all[i as int].0, all[i as int].1));
            }
            if same {
                unchanged = unchanged + 1;
            } else {
                to_process.push(hashed[i].0.clone());
                proof {
                    assert(to_process.deep_view() =~= prev.push(all[i as int].0));
                }
            }
            proof {
                assert(all.take(i + 1).drop_last() =~= all.take(i as int));
                assert(to_process.deep_view() =~= spec_changed_paths(m, all.take(i + 1)));
            }
        }
        proof {
            assert(all.take(hashed.len() as int) =~= all);
        }
        (to_process, unchanged)
    }

    /// Records the fresh hashes of the processed paths.
    pub fn update_hashes(&mut self, entries: &Vec<(String, String)>)
        requires
            old(self).wf(),
        ensures
            final(self).wf(),
            final(self).as_map() == spec_updated(old(self).as_map(), entries.deep_view()),
    {
        let ghost all = entries.deep_view();
        let ghost m0 = self.as_map();
        proof {
            assert(all.take(0) =~= Seq::<(Seq<char>, Seq<char>)>::empty());
        }
        for i in 0..entries.len()
            invariant
                self.wf(),
                all == entries.deep_view(),
                all.len() == entries.len(),
                forall|j: int|
                    0 <= j < all.len() ==> all[j] == (#[trigger] entries[j].0@, entries[j].1@),
                self.as_map() == spec_updated(m0, all.take(i as int)),
        {
            self.record_hash(entries[i].0.clone(), entries[i].1.clone());
            proof {
                assert(all.take(i + 1).drop_last() =~= all.take(i as int));
            }
        }
        proof {
            assert(all.take(entries.len() as int) =~= all);
        }
    }

    /// Drops every record whose path is not among the paths that still
    /// exist.
    pub fn remove_deleted(&mut self, existing: &Vec<String>)
        requires
            old(self).wf(),
        ensures
            final(self).wf(),
            final(self).as_map() == old(self).as_map().restrict(existing.deep_view().to_set()),
    {
        let ghost prev = self.files@;
        let ghost keep = existing.deep_view().to_set();
        let mut kept: Vec<(String, String)> = Vec::new();
        proof {
            assert(prev.take(0) =~= Seq::<(String, String)>::empty());
            assert(spec_pairs_map(kept@) =~= spec_pairs_map(prev.take(0)).restrict(keep));
        }
        for i in 0..self.files.len()
            invariant
                prev == self.files@,
                keep == existing.deep_view().to_set(),
                forall|i0: int, j0: int|
                    0 <= i0 < j0 < prev.len() ==> #[trigger] prev[i0].0@ != #[trigger] prev[j0].0@,
                forall|j: int|
                    0 <= j < kept@.len() ==> exists|t: int|
                        0 <= t < i && #[trigger] kept@[j] == prev[t],
                forall|j0: int, j1: int|
                    0 <= j0 < j1 < kept@.len() ==> #[trigger] kept@[j0].0@ != #[trigger] kept@[j1].0@,
                spec_pairs_map(kept@) == spec_pairs_map(prev.take(i as int)).restrict(keep),
        {
            let ghost kprev = kept@;
            let ghost entry = prev[i as int];
            proof {
                assert(prev.take(i + 1).drop_last() =~= prev.take(i as int));
            }
            if text::vec_contains_str(existing, self.files[i].0.as_str()) {
                kept.push((self.files[i].0.clone(), self.files[i].1.clone()));
                proof {
                    assert(kept@.last() == entry);
                    assert(kept@.drop_last() =~= kprev);
                    assert forall|j: int| 0 <= j < kprev.len() implies kprev[j].0@ != entry.0@ by {
                        let t = choose|t: int| 0 <= t < i && kprev[j] == prev[t];
                        assert(prev[t].0@ != prev[i as int].0@);
                    }
                    assert(spec_pairs_map(kept@) == spec_pairs_map(kprev).insert(
                        entry.0@,
                        entry.1@,
                    ));
                    assert(spec_pairs_map(kprev).insert(entry.0@, entry.1@) =~= spec_pairs_map(
                        prev.take(i + 1),
                    ).restrict(keep));
                }
            } else {
                proof {
                    assert(!keep.contains(entry.0@));
                    assert(spec_pairs_map(kprev) =~= spec_pairs_map(prev.take(i + 1)).restrict(
                        keep,
                    ));
                }
            }
        }
        proof {
            assert(prev.take(prev.len() as int) =~= prev);
        }
        self.files = kept;
    }
}



/// Replacing the value at one index replaces exactly that key's entry in
/// the denoted map.
proof fn lemma_pairs_map_update_value(prev: Seq<(String, String)>, now: Seq<(String, String)>, i: int)
    requires
        0 <= i < prev.len(),
        now.len() == prev.len(),
        forall|j: int| 0 <= j < prev.len() && j != i ==> now[j] == prev[j],
        now[i].0@ == prev[i].0@,
        forall|i0: int, j0: int|
            0 <= i0 < j0 < prev.len() ==> #[trigger] prev[i0].0@ != #[trigger] prev[j0].0@,
    ensures
        spec_pairs_map(now) == spec_pairs_map(prev).insert(prev[i].0@, now[i].1@),
    decreases prev.len(),
{
    if prev.len() == 0 {
    } else if i == prev.len() - 1 {
        assert(now.drop_last() =~= prev.drop_last());
        assert(spec_pairs_map(now) == spec_pairs_map(prev.drop_last()).insert(
            now.last().0@,
            now.last().1@,
        ));
        assert(spec_pairs_map(prev).insert(prev[i].0@, now[i].1@) =~= spec_pairs_map(
            prev.drop_last(),
        ).insert(prev[i].0@, now[i].1@));
    } else {
        lemma_pairs_map_update_value(prev.drop_last(), now.drop_last(), i);
        assert(now.last() == prev.last());
        assert(spec_pairs_map(prev.drop_last()).insert(prev[i].0@, now[i].1@).insert(
            prev.last().0@,
            prev.last().1@,
        ) =~= spec_pairs_map(prev.drop_last()).insert(prev.last().0@, prev.last().1@).insert(
            prev[i].0@,
            now[i].1@,
        ));
    }
}

/// Any listed pair is in the denoted map, with its own value, as long as
/// no path is listed twice.
proof fn lemma_pairs_map_lookup(ps: Seq<(String, String)>, i: int)
    requires
        0 <= i < ps.len(),
        forall|i0: int, j0: int|
            0 <= i0 < j0 < ps.len() ==> #[trigger] ps[i0].0@ != #[trigger] ps[j0].0@,
    ensures
        spec_pairs_map(ps).contains_key(ps[i].0@),
        spec_pairs_map(ps)[ps[i].0@] == ps[i].1@,
    decreases ps.len(),
{
    if i < ps.len() - 1 {
        lemma_pairs_map_lookup(ps.drop_last(), i);
    }
}

/// A path listed nowhere is not in the denoted map.
proof fn lemma_pairs_map_absent(ps: Seq<(String, String)>, k: Seq<char>)
    requires
        forall|i: int| 0 <= i < ps.len() ==> ps[i].0@ != k,
    ensures
        !spec_pairs_map(ps).contains_key(k),
    decreases ps.len(),
{
    if ps.len() > 0 {
        lemma_pairs_map_absent(ps.drop_last(), k);
    }
}



/// Under consistent hashing (one hash per path), every recorded entry can
/// be looked up in the updated map with its own hash.
proof fn lemma_updated_lookup(
    m: Map<Seq<char>, Seq<char>>,
    entries: Seq<(Seq<char>, Seq<char>)>,
    i: int,
)
    requires
        0 <= i < entries.len(),
        forall|a: int, b: int|
            0 <= a < entries.len() && 0 <= b < entries.len() && (#[trigger] entries[a]).0 == (
            #[trigger] entries[b]).0 ==> entries[a].1 == entries[b].1,
    ensures
        spec_updated(m, entries).contains_key(entries[i].0),
        spec_updated(m, entries)[entries[i].0] == entries[i].1,
    decreases entries.len(),
{
    if i < entries.len() - 1 {
        lemma_updated_lookup(m, entries.drop_last(), i);
        if entries.last().0 == entries[i].0 {
            assert(entries[entries.len() - 1].1 == entries[i].1);
        }
    }
}

/// When every entry is unchanged under `m`, the filter reports nothing.
proof fn lemma_changed_paths_all_unchanged(
    m: Map<Seq<char>, Seq<char>>,
    es: Seq<(Seq<char>, Option<Seq<char>>)>,
)
    requires
        forall|i: int| 0 <= i < es.len() ==> spec_is_unchanged(m, (#[trigger] es[i]).0, es[i].1),
    ensures
        spec_changed_paths(m, es).len() == 0,
    decreases es.len(),
{
    if es.len() > 0 {
        lemma_changed_paths_all_unchanged(m, es.drop_last());
    }
}

/// Law, first half of incremental-build soundness: a path the filter does
/// not report carries exactly its recorded hash.
pub proof fn lemma_unreported_path_unchanged(
    m: Map<Seq<char>, Seq<char>>,
    entries: Seq<(Seq<char>, Option<Seq<char>>)>,
    i: int,
)
    requires
        0 <= i < entries.len(),
        !spec_changed_paths(m, entries).contains(entries[i].0),
    ensures
        spec_is_unchanged(m, entries[i].0, entries[i].1),
    decreases entries.len(),
{
    let rest = spec_changed_paths(m, entries.drop_last());
    if i == entries.len() - 1 {
        if !spec_is_unchanged(m, entries[i].0, entries[i].1) {
            assert(spec_changed_paths(m, entries) == rest.push(entries[i].0));
            assert(rest.push(entries[i].0)[rest.len() as int] == entries[i].0);
            assert(spec_changed_paths(m, entries).contains(entries[i].0));
        }
    } else {
        if rest.contains(entries[i].0) {
            let k = choose|k: int| 0 <= k < rest.len() && rest[k] == entries[i].0;
            if !spec_is_unchanged(m, entries.last().0, entries.last().1) {
                assert(spec_changed_paths(m, entries)[k] == entries[i].0);
            } else {
                assert(spec_changed_paths(m, entries)[k] == entries[i].0);
            }
            assert(spec_changed_paths(m, entries).contains(entries[i].0));
        }
        lemma_unreported_path_unchanged(m, entries.drop_last(), i);
    }
}

/// Law, second half of incremental-build soundness: recording the fresh
/// hashes of the processed paths and rescanning with those same hashes
/// leaves nothing to process.
pub proof fn lemma_rescan_after_update_is_clean(
    m: Map<Seq<char>, Seq<char>>,
    entries: Seq<(Seq<char>, Seq<char>)>,
)
    requires
        forall|a: int, b: int|
            0 <= a < entries.len() && 0 <= b < entries.len() && (#[trigger] entries[a]).0 == (
            #[trigger] entries[b]).0 ==> entries[a].1 == entries[b].1,
    ensures
        spec_changed_paths(
            spec_updated(m, entries),
            entries.map_values(|e: (Seq<char>, Seq<char>)| (e.0, Some(e.1))),
        ).len() == 0,
{
    let m2 = spec_updated(m, entries);
    let es = entries.map_values(|e: (Seq<char>, Seq<char>)| (e.0, Some(e.1)));
    assert forall|i: int| 0 <= i < es.len() implies spec_is_unchanged(
        m2,
        (#[trigger] es[i]).0,
        es[i].1,
    ) by {
        lemma_updated_lookup(m, entries, i);
    }
    lemma_changed_paths_all_unchanged(m2, es);
}

} // verus!
