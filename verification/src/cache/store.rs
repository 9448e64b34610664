//! The cache store model: a key-value table of cache entries
//! (metadata and body under one storage key, with a TTL) and a
//! set-valued tag index used for bulk invalidation. Shard scoping is
//! purely key-prefix partitioning, so the table itself is flat.
//!
//! This is the swappable backend interface of the caching logic: the
//! contracts below are stated over map and set views, and an outside
//! backing store used by a host program must honor the same layout.

use vstd::prelude::*;

use crate::text::str_eq;

verus! {

/// Which tag family a purge addresses.
#[derive(Clone, Copy, Debug, PartialEq, Eq, Structural)]
pub enum CachePurgeVariant {
    Auth,
    Bucket,
}

/// Why a store operation failed. The in-memory table never fails; the
/// variant exists so that callers are written against a fallible
/// interface, as a networked backend requires.
#[derive(Clone, Copy, Debug, PartialEq, Eq, Structural)]
pub enum CacheStoreError {
    Unavailable,
}

/// Metadata of one cache entry: the content fingerprint used as its
/// entity tag, and the TTL it was written with.
pub struct CacheMeta {
    pub fingerprint: String,
    pub ttl: u64,
}

/// One stored entry: metadata and serialized body under a storage key.
pub struct CacheEntry {
    pub key: String,
    pub fingerprint: String,
    pub body: String,
    pub ttl: u64,
}

/// One tag: the tag's own storage key and the storage keys registered
/// under it.
pub struct CacheTag {
    pub key: String,
    pub members: Vec<String>,
}

/// The mathematical value of one entry.
pub struct EntryModel {
    pub fingerprint: Seq<char>,
    pub body: Seq<char>,
    pub ttl: u64,
}

impl CacheEntry {
    pub open spec fn model(self) -> EntryModel {
        EntryModel { fingerprint: self.fingerprint@, body: self.body@, ttl: self.ttl }
    }
}

pub open spec fn unique_entry_keys(s: Seq<CacheEntry>) -> bool {
    forall|i: int, j: int| 0 <= i < j < s.len() ==> s[i].key@ != s[j].key@
}

pub open spec fn unique_tag_keys(s: Seq<CacheTag>) -> bool {
    forall|i: int, j: int| 0 <= i < j < s.len() ==> s[i].key@ != s[j].key@
}

pub open spec fn unique_members(s: Seq<String>) -> bool {
    forall|i: int, j: int| 0 <= i < j < s.len() ==> s[i]@ != s[j]@
}

/// The entry table as a map from storage key to entry value.
pub open spec fn entries_map_of(s: Seq<CacheEntry>) -> Map<Seq<char>, EntryModel>
    decreases s.len(),
{
    if s.len() == 0 {
        Map::empty()
    } else {
        entries_map_of(s.drop_last()).insert(s.last().key@, s.last().model())
    }
}

/// A member list as a set of storage keys.
pub open spec fn members_set_of(s: Seq<String>) -> Set<Seq<char>>
    decreases s.len(),
{
    if s.len() == 0 {
        Set::empty()
    } else {
        members_set_of(s.drop_last()).insert(s.last()@)
    }
}

/// The tag index as a map from tag key to its set of members.
pub open spec fn tags_map_of(s: Seq<CacheTag>) -> Map<Seq<char>, Set<Seq<char>>>
    decreases s.len(),
{
    if s.len() == 0 {
        Map::empty()
    } else {
        tags_map_of(s.drop_last()).insert(s.last().key@, members_set_of(s.last().members@))
    }
}

/// Registers `key` under tag `t` in a tag index.
pub open spec fn add_member(
    m: Map<Seq<char>, Set<Seq<char>>>,
    t: Seq<char>,
    key: Seq<char>,
) -> Map<Seq<char>, Set<Seq<char>>> {
    m.insert(
        t,
        (if m.contains_key(t) {
            m[t]
        } else {
            Set::empty()
        }).insert(key),
    )
}

/// Registers `key` under each tag of `tags`, in order.
pub open spec fn register_tags(
    m: Map<Seq<char>, Set<Seq<char>>>,
    tags: Seq<Seq<char>>,
    key: Seq<char>,
) -> Map<Seq<char>, Set<Seq<char>>>
    decreases tags.len(),
{
    if tags.len() == 0 {
        m
    } else {
        add_member(register_tags(m, tags.drop_last(), key), tags.last(), key)
    }
}

/// How many of `ms` are present as keys of `m`.
pub open spec fn purge_count_of(ms: Seq<String>, m: Map<Seq<char>, EntryModel>) -> nat
    decreases ms.len(),
{
    if ms.len() == 0 {
        0
    } else {
        purge_count_of(ms.drop_last(), m) + (if m.contains_key(ms.last()@) {
            1nat
        } else {
            0nat
        })
    }
}

/// The in-memory cache store.
pub struct CacheStore {
    pub entries: Vec<CacheEntry>,
    pub tags: Vec<CacheTag>,
}

/// Whether a store holds exactly what another held.
pub open spec fn spec_unchanged(pre: CacheStore, post: CacheStore) -> bool {
    &&& post.entries_model() == pre.entries_model()
    &&& post.tags_model() == pre.tags_model()
}

/// How a store relates to its former self once one tag key is purged:
/// nothing changes when the tag was unknown; otherwise the entries
/// registered under it and the tag itself are gone.
pub open spec fn spec_purged(pre: CacheStore, post: CacheStore, key: Seq<char>) -> bool {
    if !pre.tags_model().contains_key(key) {
        spec_unchanged(pre, post)
    } else {
        &&& post.entries_model() == pre.entries_model().remove_keys(pre.tags_model()[key])
        &&& post.tags_model() == pre.tags_model().remove(key)
    }
}

proof fn lemma_entries_map_contains(s: Seq<CacheEntry>, k: Seq<char>)
    ensures
        entries_map_of(s).contains_key(k) <==> exists|i: int| 0 <= i < s.len() && s[i].key@ == k,
    decreases s.len(),
{
    if s.len() > 0 {
        lemma_entries_map_contains(s.drop_last(), k);
        if s.last().key@ == k {
            assert(s[s.len() - 1].key@ == k);
        } else if entries_map_of(s).contains_key(k) {
            let i = choose|i: int| 0 <= i < s.drop_last().len() && s.drop_last()[i].key@ == k;
            assert(s[i].key@ == k);
        } else {
            assert forall|i: int| 0 <= i < s.len() implies s[i].key@ != k by {
                if i < s.len() - 1 {
                    assert(s.drop_last()[i] == s[i]);
                }
            }
        }
    }
}

proof fn lemma_entries_map_get(s: Seq<CacheEntry>, i: int, k: Seq<char>)
    requires
        unique_entry_keys(s),
        0 <= i < s.len(),
        s[i].key@ == k,
    ensures
        entries_map_of(s).contains_key(k),
        entries_map_of(s)[k] == s[i].model(),
    decreases s.len(),
{
    if i == s.len() - 1 {
    } else {
        assert(s.drop_last()[i] == s[i]);
        lemma_entries_map_get(s.drop_last(), i, k);
        assert(s.last().key@ != k);
    }
}

proof fn lemma_entries_map_update(s: Seq<CacheEntry>, i: int, e: CacheEntry)
    requires
        unique_entry_keys(s),
        0 <= i < s.len(),
        e.key@ == s[i].key@,
    ensures
        entries_map_of(s.update(i, e)) == entries_map_of(s).insert(e.key@, e.model()),
    decreases s.len(),
{
    let t = s.update(i, e);
    if i == s.len() - 1 {
        assert(t.drop_last() =~= s.drop_last());
        assert(t.last() == e);
        assert(entries_map_of(t) =~= entries_map_of(s).insert(e.key@, e.model()));
    } else {
        assert(t.drop_last() =~= s.drop_last().update(i, e));
        assert(s.drop_last()[i] == s[i]);
        lemma_entries_map_update(s.drop_last(), i, e);
        assert(t.last() == s.last());
        assert(e.key@ != s.last().key@);
        assert(entries_map_of(t) =~= entries_map_of(s).insert(e.key@, e.model()));
    }
}

proof fn lemma_entries_map_remove(s: Seq<CacheEntry>, i: int)
    requires
        unique_entry_keys(s),
        0 <= i < s.len(),
    ensures
        entries_map_of(s.remove(i)) == entries_map_of(s).remove(s[i].key@),
    decreases s.len(),
{
    let k = s[i].key@;
    let t = s.remove(i);
    if i == s.len() - 1 {
        assert(t =~= s.drop_last());
        lemma_entries_map_contains(s.drop_last(), k);
        assert(forall|j: int| 0 <= j < s.len() - 1 ==> s.drop_last()[j] == s[j]);
        assert(!entries_map_of(s.drop_last()).contains_key(k));
        assert(entries_map_of(t) =~= entries_map_of(s).remove(k));
    } else {
        assert(t.drop_last() =~= s.drop_last().remove(i));
        assert(s.drop_last()[i] == s[i]);
        lemma_entries_map_remove(s.drop_last(), i);
        assert(t.last() == s.last());
        assert(k != s.last().key@);
        assert(entries_map_of(t) =~= entries_map_of(s).remove(k));
    }
}

proof fn lemma_entries_map_dom_finite(s: Seq<CacheEntry>)
    ensures
        entries_map_of(s).dom().finite(),
    decreases s.len(),
{
    if s.len() > 0 {
        lemma_entries_map_dom_finite(s.drop_last());
    }
}

proof fn lemma_tags_map_contains(s: Seq<CacheTag>, k: Seq<char>)
    ensures
        tags_map_of(s).contains_key(k) <==> exists|i: int| 0 <= i < s.len() && s[i].key@ == k,
    decreases s.len(),
{
    if s.len() > 0 {
        lemma_tags_map_contains(s.drop_last(), k);
        if s.last().key@ == k {
            assert(s[s.len() - 1].key@ == k);
        } else if tags_map_of(s).contains_key(k) {
            let i = choose|i: int| 0 <= i < s.drop_last().len() && s.drop_last()[i].key@ == k;
            assert(s[i].key@ == k);
        } else {
            assert forall|i: int| 0 <= i < s.len() implies s[i].key@ != k by {
                if i < s.len() - 1 {
                    assert(s.drop_last()[i] == s[i]);
                }
            }
        }
    }
}

proof fn lemma_tags_map_get(s: Seq<CacheTag>, i: int, k: Seq<char>)
    requires
        unique_tag_keys(s),
        0 <= i < s.len(),
        s[i].key@ == k,
    ensures
        tags_map_of(s).contains_key(k),
        tags_map_of(s)[k] == members_set_of(s[i].members@),
    decreases s.len(),
{
    if i == s.len() - 1 {
    } else {
        assert(s.drop_last()[i] == s[i]);
        lemma_tags_map_get(s.drop_last(), i, k);
        assert(s.last().key@ != k);
    }
}

proof fn lemma_tags_map_update(s: Seq<CacheTag>, i: int, e: CacheTag)
    requires
        unique_tag_keys(s),
        0 <= i < s.len(),
        e.key@ == s[i].key@,
    ensures
        tags_map_of(s.update(i, e)) == tags_map_of(s).insert(e.key@, members_set_of(e.members@)),
    decreases s.len(),
{
    let t = s.update(i, e);
    if i == s.len() - 1 {
        assert(t.drop_last() =~= s.drop_last());
        assert(t.last() == e);
        assert(tags_map_of(t) =~= tags_map_of(s).insert(e.key@, members_set_of(e.members@)));
    } else {
        assert(t.drop_last() =~= s.drop_last().update(i, e));
        assert(s.drop_last()[i] == s[i]);
        lemma_tags_map_update(s.drop_last(), i, e);
        assert(t.last() == s.last());
        assert(e.key@ != s.last().key@);
        assert(tags_map_of(t) =~= tags_map_of(s).insert(e.key@, members_set_of(e.members@)));
    }
}

proof fn lemma_tags_map_remove(s: Seq<CacheTag>, i: int)
    requires
        unique_tag_keys(s),
        0 <= i < s.len(),
    ensures
        tags_map_of(s.remove(i)) == tags_map_of(s).remove(s[i].key@),
    decreases s.len(),
{
    let k = s[i].key@;
    let t = s.remove(i);
    if i == s.len() - 1 {
        assert(t =~= s.drop_last());
        lemma_tags_map_contains(s.drop_last(), k);
        assert(forall|j: int| 0 <= j < s.len() - 1 ==> s.drop_last()[j] == s[j]);
        assert(!tags_map_of(s.drop_last()).contains_key(k));
        assert(tags_map_of(t) =~= tags_map_of(s).remove(k));
    } else {
        assert(t.drop_last() =~= s.drop_last().remove(i));
        assert(s.drop_last()[i] == s[i]);
        lemma_tags_map_remove(s.drop_last(), i);
        assert(t.last() == s.last());
        assert(k != s.last().key@);
        assert(tags_map_of(t) =~= tags_map_of(s).remove(k));
    }
}

proof fn lemma_members_set_contains(s: Seq<String>, k: Seq<char>)
    ensures
        members_set_of(s).contains(k) <==> exists|i: int| 0 <= i < s.len() && s[i]@ == k,
    decreases s.len(),
{
    if s.len() > 0 {
        lemma_members_set_contains(s.drop_last(), k);
        if s.last()@ == k {
            assert(s[s.len() - 1]@ == k);
        } else if members_set_of(s).contains(k) {
            let i = choose|i: int| 0 <= i < s.drop_last().len() && s.drop_last()[i]@ == k;
            assert(s[i]@ == k);
        } else {
            assert forall|i: int| 0 <= i < s.len() implies s[i]@ != k by {
                if i < s.len() - 1 {
                    assert(s.drop_last()[i] == s[i]);
                }
            }
        }
    }
}

proof fn lemma_members_set_finite(s: Seq<String>)
    ensures
        members_set_of(s).finite(),
    decreases s.len(),
{
    if s.len() > 0 {
        lemma_members_set_finite(s.drop_last());
    }
}

/// On a list without repeats, counting the members present in a map is
/// counting the intersection of the member set with the map's domain.
proof fn lemma_purge_count(ms: Seq<String>, m: Map<Seq<char>, EntryModel>)
    requires
        unique_members(ms),
        m.dom().finite(),
    ensures
        purge_count_of(ms, m) == members_set_of(ms).intersect(m.dom()).len(),
    decreases ms.len(),
{
    if ms.len() == 0 {
        assert(members_set_of(ms).intersect(m.dom()) =~= Set::empty());
    } else {
        let s0 = members_set_of(ms.drop_last());
        let x = ms.last()@;
        assert(forall|i: int, j: int|
            0 <= i < j < ms.len() - 1 ==> ms.drop_last()[i]@ != ms.drop_last()[j]@);
        lemma_purge_count(ms.drop_last(), m);
        lemma_members_set_contains(ms.drop_last(), x);
        assert(forall|i: int| 0 <= i < ms.len() - 1 ==> ms.drop_last()[i] == ms[i]);
        assert(!s0.contains(x));
        lemma_members_set_finite(ms.drop_last());
        vstd::set_lib::lemma_len_subset(s0.intersect(m.dom()), s0);
        if m.dom().contains(x) {
            assert(s0.insert(x).intersect(m.dom()) =~= s0.intersect(m.dom()).insert(x));
            assert(!s0.intersect(m.dom()).contains(x));
        } else {
            assert(s0.insert(x).intersect(m.dom()) =~= s0.intersect(m.dom()));
        }
    }
}

impl CacheStore {
    /// The entry table, as a map from storage key to entry.
    pub open spec fn entries_model(self) -> Map<Seq<char>, EntryModel> {
        entries_map_of(self.entries@)
    }

    /// The tag index, as a map from tag key to registered storage keys.
    pub open spec fn tags_model(self) -> Map<Seq<char>, Set<Seq<char>>> {
        tags_map_of(self.tags@)
    }

    /// Well-formedness: no duplicate entry keys, tag keys, or members.
    pub open spec fn wf(self) -> bool {
        &&& unique_entry_keys(self.entries@)
        &&& unique_tag_keys(self.tags@)
        &&& forall|t: int| 0 <= t < self.tags@.len() ==> unique_members(#[trigger] self.tags@[t].members@)
    }

    /// An empty store.
    pub fn new() -> (r: CacheStore)
        ensures
            r.wf(),
            r.entries_model() == Map::<Seq<char>, EntryModel>::empty(),
            r.tags_model() == Map::<Seq<char>, Set<Seq<char>>>::empty(),
    {
        CacheStore { entries: Vec::new(), tags: Vec::new() }
    }

    fn find_entry(&self, key: &str) -> (r: Option<usize>)
        ensures
            match r {
                Some(i) => i < self.entries@.len() && self.entries@[i as int].key@ == key@,
                None => forall|i: int| 0 <= i < self.entries@.len() ==> self.entries@[i].key@ != key@,
            },
    {
        let n = self.entries.len();
        let mut i: usize = 0;
        while i < n
            invariant
                n == self.entries@.len(),
                i <= n,
                forall|j: int| 0 <= j < i ==> self.entries@[j].key@ != key@,
            decreases n - i,
        {
            if str_eq(self.entries[i].key.as_str(), key) {
                return Some(i);
            }
            i += 1;
        }
        None
    }

    fn find_tag(&self, key: &str) -> (r: Option<usize>)
        ensures
            match r {
                Some(i) => i < self.tags@.len() && self.tags@[i as int].key@ == key@,
                None => forall|i: int| 0 <= i < self.tags@.len() ==> self.tags@[i].key@ != key@,
            },
    {
        let n = self.tags.len();
        let mut i: usize = 0;
        while i < n
            invariant
                n == self.tags@.len(),
                i <= n,
                forall|j: int| 0 <= j < i ==> self.tags@[j].key@ != key@,
            decreases n - i,
        {
            if str_eq(self.tags[i].key.as_str(), key) {
                return Some(i);
            }
            i += 1;
        }
        None
    }

    /// Reads the metadata stored under a key. Shard scoping is carried
    /// by the key prefix itself.
    pub fn get_meta(&self, shard: u8, key: &str) -> (r: Option<CacheMeta>)
        requires
            self.wf(),
        ensures
            match r {
                Some(m) => self.entries_model().contains_key(key@) && m.fingerprint@
                    == self.entries_model()[key@].fingerprint && m.ttl
                    == self.entries_model()[key@].ttl,
                None => !self.entries_model().contains_key(key@),
            },
    {
        match self.find_entry(key) {
            Some(i) => {
                proof {
                    lemma_entries_map_get(self.entries@, i as int, key@);
                }
                Some(
                    CacheMeta {
                        fingerprint: self.entries[i].fingerprint.clone(),
                        ttl: self.entries[i].ttl,
                    },
                )
            },
            None => {
                proof {
                    lemma_entries_map_contains(self.entries@, key@);
                }
                None
            },
        }
    }

    /// Reads the serialized body stored under a key.
    pub fn get_body(&self, key: &str) -> (r: Option<String>)
        requires
            self.wf(),
        ensures
            match r {
                Some(b) => self.entries_model().contains_key(key@) && b@
                    == self.entries_model()[key@].body,
                None => !self.entries_model().contains_key(key@),
            },
    {
        match self.find_entry(key) {
            Some(i) => {
                proof {
                    lemma_entries_map_get(self.entries@, i as int, key@);
                }
                Some(self.entries[i].body.clone())
            },
            None => {
                proof {
                    lemma_entries_map_contains(self.entries@, key@);
                }
                None
            },
        }
    }

    fn member_list_contains(ms: &Vec<String>, key: &str) -> (r: bool)
        ensures
            r == members_set_of(ms@).contains(key@),
    {
        let n = ms.len();
        let mut i: usize = 0;
        while i < n
            invariant
                n == ms@.len(),
                i <= n,
                forall|j: int| 0 <= j < i ==> ms@[j]@ != key@,
            decreases n - i,
        {
            if str_eq(ms[i].as_str(), key) {
                proof {
                    lemma_members_set_contains(ms@, key@);
                }
                return true;
            }
            i += 1;
        }
        proof {
            lemma_members_set_contains(ms@, key@);
        }
        false
    }

    fn register_tag(&mut self, tag: &String, key: &str)
        requires
            old(self).wf(),
        ensures
            final(self).wf(),
            final(self).entries@ == old(self).entries@,
            final(self).tags_model() == add_member(old(self).tags_model(), tag@, key@),
    {
        match self.find_tag(tag.as_str()) {
            Some(ti) => {
                proof {
                    lemma_tags_map_get(self.tags@, ti as int, tag@);
                }
                let present = Self::member_list_contains(&self.tags[ti].members, key);
                if present {
                    proof {
                        let m = old(self).tags_model();
                        assert(m[tag@].insert(key@) =~= m[tag@]);
                        assert(m.insert(tag@, m[tag@]) =~= m);
                    }
                } else {
                    let ghost old_tags = self.tags@;
                    let ghost old_tag = self.tags@[ti as int];
                    self.tags[ti].members.push(String::from_str(key));
                    proof {
                        let new_tag = self.tags@[ti as int];
                        assert(new_tag.key@ == tag@);
                        assert(new_tag.members@.len() == old_tag.members@.len() + 1);
                        assert(new_tag.members@.drop_last() =~= old_tag.members@);
                        assert(new_tag.members@.last()@ == key@);
                        assert(members_set_of(new_tag.members@) == members_set_of(
                            old_tag.members@,
                        ).insert(key@));
                        assert(self.tags@ =~= old_tags.update(ti as int, new_tag));
                        lemma_tags_map_update(old_tags, ti as int, new_tag);
                        assert(self.tags_model() =~= add_member(
                            old(self).tags_model(),
                            tag@,
                            key@,
                        ));
                        assert forall|t: int| 0 <= t < self.tags@.len() implies unique_members(
                            #[trigger] self.tags@[t].members@,
                        ) by {
                            if t == ti as int {
                                lemma_members_set_contains(old_tag.members@, key@);
                                assert(forall|j: int|
                                    0 <= j < old_tag.members@.len()
                                        ==> old_tag.members@[j]@ != key@);
                            } else {
                                assert(self.tags@[t] == old_tags[t]);
                            }
                        }
                    }
                }
            },
            None => {
                proof {
                    lemma_tags_map_contains(self.tags@, tag@);
                }
                let mut members: Vec<String> = Vec::new();
                members.push(String::from_str(key));
                let ghost members_view = members@;
                let ghost old_tags = self.tags@;
                self.tags.push(CacheTag { key: tag.clone(), members });
                proof {
                    assert(self.tags@.drop_last() =~= old_tags);
                    assert(members_view.len() == 1);
                    assert(members_view.last()@ == key@);
                    assert(members_view.drop_last() =~= Seq::<String>::empty());
                    assert(members_set_of(members_view) == members_set_of(
                        members_view.drop_last(),
                    ).insert(members_view.last()@));
                    assert(members_set_of(Seq::<String>::empty()) == Set::<Seq<char>>::empty());
                    assert(members_set_of(members_view) == Set::<Seq<char>>::empty().insert(
                        key@,
                    ));
                    assert(self.tags_model() =~= add_member(
                        old(self).tags_model(),
                        tag@,
                        key@,
                    ));
                    assert forall|t: int| 0 <= t < self.tags@.len() implies unique_members(
                        #[trigger] self.tags@[t].members@,
                    ) by {
                        if t < self.tags@.len() - 1 {
                            assert(self.tags@[t] == old_tags[t]);
                        }
                    }
                }
            },
        }
    }

    /// Writes an entry under a key and registers it under each given
    /// tag. Replaces any previous entry under the same key.
    pub fn set(
        &mut self,
        key: &str,
        fingerprint: &str,
        body: &str,
        ttl: u64,
        tags: &Vec<String>,
    ) -> (r: Result<(), CacheStoreError>)
        requires
            old(self).wf(),
        ensures
            final(self).wf(),
            r is Ok,
            final(self).entries_model() == old(self).entries_model().insert(
                key@,
                EntryModel { fingerprint: fingerprint@, body: body@, ttl },
            ),
            final(self).tags_model() == register_tags(
                old(self).tags_model(),
                tags@.map_values(|t: String| t@),
                key@,
            ),
    {
        let ghost tag_views = tags@.map_values(|t: String| t@);
        let n = tags.len();
        let mut i: usize = 0;
        while i < n
            invariant
                old(self).wf(),
                self.wf(),
                n == tags@.len(),
                i <= n,
                tag_views == tags@.map_values(|t: String| t@),
                self.entries@ == old(self).entries@,
                self.tags_model() == register_tags(
                    old(self).tags_model(),
                    tag_views.take(i as int),
                    key@,
                ),
            decreases n - i,
        {
            self.register_tag(&tags[i], key);
            proof {
                assert(tag_views.take(i + 1).drop_last() =~= tag_views.take(i as int));
                assert(tag_views.take(i + 1).last() == tags@[i as int]@);
            }
            i += 1;
        }
        proof {
            assert(tag_views.take(n as int) =~= tag_views);
        }
        let e = CacheEntry {
            key: String::from_str(key),
            fingerprint: String::from_str(fingerprint),
            body: String::from_str(body),
            ttl,
        };
        let ghost mid_entries = self.entries@;
        match self.find_entry(key) {
            Some(ei) => {
                self.entries[ei] = e;
                proof {
                    lemma_entries_map_update(mid_entries, ei as int, self.entries@[ei as int]);
                    assert forall|a: int, b: int|
                        0 <= a < b < self.entries@.len() implies self.entries@[a].key@
                        != self.entries@[b].key@ by {
                        assert(mid_entries[a].key@ != mid_entries[b].key@);
                    }
                }
            },
            None => {
                self.entries.push(e);
                proof {
                    assert(self.entries@.drop_last() =~= mid_entries);
                    assert forall|a: int, b: int|
                        0 <= a < b < self.entries@.len() implies self.entries@[a].key@
                        != self.entries@[b].key@ by {
                        if b < self.entries@.len() - 1 {
                            assert(mid_entries[a].key@ != mid_entries[b].key@);
                        } else {
                            assert(mid_entries[a].key@ != key@);
                        }
                    }
                }
            },
        }
        Ok(())
    }

    /// Purges a tag: deletes every storage key registered under the
    /// pattern, then the tag itself, and reports how many entries were
    /// actually removed. A pattern with no registered entries yields
    /// zero and succeeds; keys whose entries are already gone are
    /// skipped.
    pub fn purge_tag(&mut self, variant: &CachePurgeVariant, shard: u8, pattern: &str) -> (r:
        Result<usize, CacheStoreError>)
        requires
            old(self).wf(),
        ensures
            final(self).wf(),
            r is Ok,
            !old(self).tags_model().contains_key(pattern@) ==> {
                &&& final(self).entries_model() == old(self).entries_model()
                &&& final(self).tags_model() == old(self).tags_model()
                &&& (r matches Ok(c) && c == 0)
            },
            old(self).tags_model().contains_key(pattern@) ==> {
                &&& final(self).entries_model() == old(self).entries_model().remove_keys(
                    old(self).tags_model()[pattern@],
                )
                &&& final(self).tags_model() == old(self).tags_model().remove(pattern@)
                &&& (r matches Ok(c) && c == old(self).tags_model()[pattern@].intersect(
                    old(self).entries_model().dom(),
                ).len())
            },
    {
        let ti = match self.find_tag(pattern) {
            None => {
                proof {
                    lemma_tags_map_contains(self.tags@, pattern@);
                }
                return Ok(0);
            },
            Some(ti) => ti,
        };
        proof {
            lemma_tags_map_get(self.tags@, ti as int, pattern@);
            lemma_tags_map_remove(self.tags@, ti as int);
        }
        let tag = self.tags.remove(ti);
        proof {
            assert forall|a: int, b: int|
                0 <= a < b < self.tags@.len() implies self.tags@[a].key@ != self.tags@[b].key@ by {
                let s = old(self).tags@;
                if a < ti as int {
                    if b < ti as int {
                        assert(s[a].key@ != s[b].key@);
                    } else {
                        assert(s[a].key@ != s[b + 1].key@);
                    }
                } else {
                    assert(s[a + 1].key@ != s[b + 1].key@);
                }
            }
            assert forall|t: int| 0 <= t < self.tags@.len() implies unique_members(
                #[trigger] self.tags@[t].members@,
            ) by {
                let s = old(self).tags@;
                if t < ti as int {
                    assert(self.tags@[t] == s[t]);
                } else {
                    assert(self.tags@[t] == s[t + 1]);
                }
            }
        }
        let ghost entries0 = self.entries_model();
        let ghost members = tag.members@;
        let mut count: usize = 0;
        let n = tag.members.len();
        let mut i: usize = 0;
        while i < n
            invariant
                old(self).wf(),
                self.wf(),
                n == members.len(),
                members == tag.members@,
                unique_members(members),
                i <= n,
                count <= i,
                self.tags@ == old(self).tags@.remove(ti as int),
                self.entries_model() == entries0.remove_keys(
                    members_set_of(members.take(i as int)),
                ),
                count == purge_count_of(members.take(i as int), entries0),
            decreases n - i,
        {
            let ghost pre = self.entries@;
            proof {
                lemma_members_set_contains(members.take(i as int), members[i as int]@);
                assert(forall|j: int|
                    0 <= j < i ==> members.take(i as int)[j]@ != members[i as int]@);
                assert(!members_set_of(members.take(i as int)).contains(members[i as int]@));
                assert(members.take(i + 1).drop_last() =~= members.take(i as int));
                assert(members.take(i + 1).last() == members[i as int]);
            }
            match self.find_entry(tag.members[i].as_str()) {
                Some(ei) => {
                    proof {
                        lemma_entries_map_get(pre, ei as int, members[i as int]@);
                        lemma_entries_map_remove(pre, ei as int);
                    }
                    self.entries.remove(ei);
                    count += 1;
                    proof {
                        assert forall|a: int, b: int|
                            0 <= a < b < self.entries@.len() implies self.entries@[a].key@
                            != self.entries@[b].key@ by {
                            if a < ei as int {
                                if b < ei as int {
                                    assert(pre[a].key@ != pre[b].key@);
                                } else {
                                    assert(pre[a].key@ != pre[b + 1].key@);
                                }
                            } else {
                                assert(pre[a + 1].key@ != pre[b + 1].key@);
                            }
                        }
                        assert(entries0.contains_key(members[i as int]@));
                        assert(self.entries_model() =~= entries0.remove_keys(
                            members_set_of(members.take(i + 1)),
                        ));
                    }
                },
                None => {
                    proof {
                        lemma_entries_map_contains(pre, members[i as int]@);
                        assert(!self.entries_model().contains_key(members[i as int]@));
                        assert(!entries0.contains_key(members[i as int]@));
                        assert(self.entries_model() =~= entries0.remove_keys(
                            members_set_of(members.take(i + 1)),
                        ));
                    }
                },
            }
            i += 1;
        }
        proof {
            assert(members.take(n as int) =~= members);
            lemma_entries_map_dom_finite(old(self).entries@);
            lemma_purge_count(members, entries0);
        }
        Ok(count)
    }
}

} // verus!
