//! The answers of the last database queries, kept until the database changes: each cache
//! holds one answer, for one query, from one generation of the database.
use crate::tag_names::{NameSetView, TagSet as NameSet};
use crate::text::{owned, str_eq};
use vstd::prelude::*;

verus! {

/// One cached answer: the database generation it was read in, the query, and the answer.
pub struct Cached<K, V> {
    pub db_gen: u64,
    pub key: K,
    pub value: V,
}

/// The answers of the last queries of each kind, with the database generation they belong
/// to. `T` is a row of the tags listing, `W` a work.
///
/// The plugins of each tag are cached in a list with no tag twice, not a hash map: the map
/// is keyed by tag name, and vstd proves nothing of a hash map keyed by `String`.
pub struct CachingPool<T, W> {
    database_generation: u64,
    tag_count: Option<Cached<String, i64>>,
    tags_list: Option<Cached<(String, usize, usize), Vec<T>>>,
    tag_plugins: Vec<Cached<String, Vec<String>>>,
    works_count: Option<Cached<NameSet, i64>>,
    works_list: Option<Cached<(usize, usize, NameSet), Vec<W>>>,
    works_lookup: Option<Cached<i64, W>>,
}

/// The abstract pool: the current generation and, for each kind of query, the answers kept
/// with the generation and the query they came from.
pub ghost struct CachingPoolView<T, W> {
    pub generation: u64,
    pub tag_count: Option<(u64, Seq<char>, i64)>,
    pub tags_list: Option<(u64, Seq<char>, usize, usize, Seq<T>)>,
    pub tag_plugins: Seq<(Seq<char>, u64, Seq<Seq<char>>)>,
    pub works_count: Option<(u64, NameSetView, i64)>,
    pub works_list: Option<(u64, usize, usize, NameSetView, Seq<W>)>,
    pub works_lookup: Option<(u64, i64, W)>,
}

impl<T, W> View for CachingPool<T, W> {
    type V = CachingPoolView<T, W>;

    closed spec fn view(&self) -> CachingPoolView<T, W> {
        CachingPoolView {
            generation: self.database_generation,
            tag_count: match self.tag_count {
                Some(c) => Some((c.db_gen, c.key@, c.value)),
                None => None,
            },
            tags_list: match self.tags_list {
                Some(c) => Some((c.db_gen, c.key.0@, c.key.1, c.key.2, c.value@)),
                None => None,
            },
            tag_plugins: Seq::new(
                self.tag_plugins@.len(),
                |i: int|
                    (
                        self.tag_plugins@[i].key@,
                        self.tag_plugins@[i].db_gen,
                        crate::db::strings_view(self.tag_plugins@[i].value@),
                    ),
            ),
            works_count: match self.works_count {
                Some(c) => Some((c.db_gen, c.key@, c.value)),
                None => None,
            },
            works_list: match self.works_list {
                Some(c) => Some((c.db_gen, c.key.0, c.key.1, c.key.2@, c.value@)),
                None => None,
            },
            works_lookup: match self.works_lookup {
                Some(c) => Some((c.db_gen, c.key, c.value)),
                None => None,
            },
        }
    }
}

/// The answer kept for the plugins of `tag`, if it is current: the first entry for the tag.
pub open spec fn plugins_answer(
    entries: Seq<(Seq<char>, u64, Seq<Seq<char>>)>,
    generation: u64,
    tag: Seq<char>,
) -> Option<Seq<Seq<char>>> {
    if exists|i: int| 0 <= i < entries.len() && entries[i].0 == tag {
        let i = choose|i: int|
            0 <= i < entries.len() && entries[i].0 == tag && forall|j: int|
                0 <= j < i ==> entries[j].0 != tag;
        if entries[i].1 == generation {
            Some(entries[i].2)
        } else {
            None
        }
    } else {
        None
    }
}

/// The tags in the entries are distinct.
pub open spec fn distinct_tags(entries: Seq<(Seq<char>, u64, Seq<Seq<char>>)>) -> bool {
    forall|i: int, j: int| 0 <= i < j < entries.len() ==> entries[i].0 != entries[j].0
}

impl<T, W> CachingPool<T, W> {
    /// The pool's invariant: no answer is from a generation after the current one, and each
    /// tag has at most one plugins answer.
    pub closed spec fn wf(&self) -> bool {
        let v = self@;
        &&& (v.tag_count matches Some(c) ==> c.0 <= v.generation)
        &&& (v.tags_list matches Some(c) ==> c.0 <= v.generation)
        &&& (v.works_count matches Some(c) ==> c.0 <= v.generation)
        &&& (v.works_list matches Some(c) ==> c.0 <= v.generation)
        &&& (v.works_lookup matches Some(c) ==> c.0 <= v.generation)
        &&& forall|i: int| 0 <= i < v.tag_plugins.len() ==> v.tag_plugins[i].1 <= v.generation
        &&& distinct_tags(v.tag_plugins)
    }

    /// An empty pool at generation zero.
    pub fn new() -> (r: Self)
        ensures
            r.wf(),
            r@.generation == 0,
            r@.tag_count is None,
            r@.tags_list is None,
            r@.tag_plugins.len() == 0,
            r@.works_count is None,
            r@.works_list is None,
            r@.works_lookup is None,
    {
        CachingPool {
            database_generation: 0,
            tag_count: None,
            tags_list: None,
            tag_plugins: Vec::new(),
            works_count: None,
            works_list: None,
            works_lookup: None,
        }
    }

    /// The database changed: every answer kept is out of date.
    pub fn bump_generation(&mut self)
        requires
            old(self).wf(),
            old(self)@.generation < u64::MAX,
        ensures
            final(self).wf(),
            final(self)@ == (CachingPoolView { generation: (old(self)@.generation + 1) as u64, ..old(self)@ }),
    {
        self.database_generation = self.database_generation + 1;
    }

    /// The tag count kept for `filter`, if current.
    pub fn cached_tag_count(&self, filter: &str) -> (r: Option<i64>)
        ensures
            r == match self@.tag_count {
                Some(c) => if c.0 == self@.generation && c.1 == filter@ {
                    Some(c.2)
                } else {
                    None
                },
                None => None,
            },
    {
        match &self.tag_count {
            Some(c) => if c.db_gen == self.database_generation && str_eq(c.key.as_str(), filter) {
                Some(c.value)
            } else {
                None
            },
            None => None,
        }
    }

    /// Keeps the tag count read for `filter`.
    pub fn store_tag_count(&mut self, filter: &str, count: i64)
        requires
            old(self).wf(),
        ensures
            final(self).wf(),
            final(self)@ == (CachingPoolView {
                tag_count: Some((old(self)@.generation, filter@, count)),
                ..old(self)@
            }),
    {
        self.tag_count = Some(Cached { db_gen: self.database_generation, key: owned(filter), value: count });
    }

    /// The tags listing kept for `filter` and rows `start..end`, if current.
    pub fn cached_tags_list(&self, filter: &str, start: usize, end: usize) -> (r: Option<&Vec<T>>)
        ensures
            match r {
                Some(v) => self@.tags_list matches Some(c) && c.0 == self@.generation && c.1
                    == filter@ && c.2 == start && c.3 == end && c.4 == v@,
                None => !(self@.tags_list matches Some(c) && c.0 == self@.generation && c.1
                    == filter@ && c.2 == start && c.3 == end),
            },
    {
        match &self.tags_list {
            Some(c) => if c.db_gen == self.database_generation && str_eq(c.key.0.as_str(), filter)
                && c.key.1 == start && c.key.2 == end {
                Some(&c.value)
            } else {
                None
            },
            None => None,
        }
    }

    /// Keeps the tags listing read for `filter` and rows `start..end`.
    pub fn store_tags_list(&mut self, filter: &str, start: usize, end: usize, tags: Vec<T>)
        requires
            old(self).wf(),
        ensures
            final(self).wf(),
            final(self)@ == (CachingPoolView {
                tags_list: Some((old(self)@.generation, filter@, start, end, tags@)),
                ..old(self)@
            }),
    {
        self.tags_list = Some(
            Cached { db_gen: self.database_generation, key: (owned(filter), start, end), value: tags },
        );
    }

    /// The position of the plugins answer for `tag`, if any.
    fn plugins_position(&self, tag: &str) -> (r: Option<usize>)
        requires
            self.wf(),
        ensures
            match r {
                Some(i) => i < self@.tag_plugins.len() && self@.tag_plugins[i as int].0 == tag@,
                None => forall|i: int|
                    0 <= i < self@.tag_plugins.len() ==> self@.tag_plugins[i].0 != tag@,
            },
    {
        let mut i: usize = 0;
        while i < self.tag_plugins.len()
            invariant
                0 <= i <= self@.tag_plugins.len(),
                self@.tag_plugins.len() == self.tag_plugins@.len(),
                forall|j: int| 0 <= j < i ==> self@.tag_plugins[j].0 != tag@,
            decreases self.tag_plugins@.len() - i,
        {
            assert(self@.tag_plugins[i as int].0 == self.tag_plugins@[i as int].key@);
            if str_eq(self.tag_plugins[i].key.as_str(), tag) {
                return Some(i);
            }
            i = i + 1;
        }
        None
    }

    /// The names of the plugins a tag came from, kept for `tag`, if current.
    pub fn cached_plugins_for_tag(&self, tag: &str) -> (r: Option<&Vec<String>>)
        requires
            self.wf(),
        ensures
            match r {
                Some(v) => plugins_answer(self@.tag_plugins, self@.generation, tag@) == Some(
                    crate::db::strings_view(v@),
                ),
                None => plugins_answer(self@.tag_plugins, self@.generation, tag@) is None,
            },
    {
        let ghost e = self@.tag_plugins;
        match self.plugins_position(tag) {
            None => None,
            Some(i) => {
                proof {
                    let k = choose|k: int|
                        0 <= k < e.len() && e[k].0 == tag@ && forall|j: int|
                            0 <= j < k ==> e[j].0 != tag@;
                    assert(0 <= i < e.len() && e[i as int].0 == tag@);
                    if k != i {
                        assert(e[k].0 == e[i as int].0);
                    }
                }
                if self.tag_plugins[i].db_gen == self.database_generation {
                    Some(&self.tag_plugins[i].value)
                } else {
                    None
                }
            },
        }
    }

    /// Keeps the names of the plugins read for `tag`, replacing any answer for it.
    pub fn store_plugins_for_tag(&mut self, tag: &str, plugins: Vec<String>)
        requires
            old(self).wf(),
        ensures
            final(self).wf(),
            plugins_answer(final(self)@.tag_plugins, final(self)@.generation, tag@) == Some(
                crate::db::strings_view(plugins@),
            ),
            forall|other: Seq<char>|
                other != tag@ ==> plugins_answer(final(self)@.tag_plugins, final(self)@.generation, other)
                    == plugins_answer(old(self)@.tag_plugins, old(self)@.generation, other),
            final(self)@.generation == old(self)@.generation,
            final(self)@.tag_count == old(self)@.tag_count,
            final(self)@.tags_list == old(self)@.tags_list,
            final(self)@.works_count == old(self)@.works_count,
            final(self)@.works_list == old(self)@.works_list,
            final(self)@.works_lookup == old(self)@.works_lookup,
    {
        let ghost before = self@.tag_plugins;
        let entry = Cached { db_gen: self.database_generation, key: owned(tag), value: plugins };
        match self.plugins_position(tag) {
            Some(i) => {
                self.tag_plugins.set(i, entry);
                proof {
                    let after = self@.tag_plugins;
                    assert(after =~= before.update(i as int, after[i as int]));
                    assert forall|a: int, b: int| 0 <= a < b < after.len() implies after[a].0 != after[b].0 by {
                        if a != i && b != i {
                            assert(after[a] == before[a] && after[b] == before[b]);
                        } else if a == i {
                            assert(after[b] == before[b]);
                        } else {
                            assert(after[a] == before[a]);
                        }
                    }
                    lemma_plugins_answer_update(before, i as int, after, self@.generation, tag@);
                }
            },
            None => {
                self.tag_plugins.push(entry);
                proof {
                    let after = self@.tag_plugins;
                    assert(after =~= before.push(after[before.len() as int]));
                    lemma_plugins_answer_push(before, after, self@.generation, tag@);
                }
            },
        }
    }

    /// The work count kept for `selection`, if current.
    pub fn cached_works_count(&self, selection: &NameSet) -> (r: Option<i64>)
        requires
            selection.wf(),
            self.key_sets_wf(),
        ensures
            r == match self@.works_count {
                Some(c) => if c.0 == self@.generation && c.1 == selection@ {
                    Some(c.2)
                } else {
                    None
                },
                None => None,
            },
    {
        match &self.works_count {
            Some(c) => if c.db_gen == self.database_generation && c.key.same_selection(selection) {
                Some(c.value)
            } else {
                None
            },
            None => None,
        }
    }

    /// The selections kept as keys are well formed.
    pub closed spec fn key_sets_wf(&self) -> bool {
        &&& (self.works_count matches Some(c) ==> c.key.wf())
        &&& (self.works_list matches Some(c) ==> c.key.2.wf())
    }

    /// Keeps the work count read for `selection`.
    pub fn store_works_count(&mut self, selection: &NameSet, count: i64)
        requires
            old(self).wf(),
            old(self).key_sets_wf(),
            selection.wf(),
        ensures
            final(self).wf(),
            final(self).key_sets_wf(),
            final(self)@ == (CachingPoolView {
                works_count: Some((old(self)@.generation, selection@, count)),
                ..old(self)@
            }),
    {
        self.works_count = Some(
            Cached { db_gen: self.database_generation, key: selection.copy(), value: count },
        );
    }

    /// The works listing kept for `selection` and rows `start..end`, if current.
    pub fn cached_works_list(&self, start: usize, end: usize, selection: &NameSet) -> (r: Option<&Vec<W>>)
        requires
            selection.wf(),
            self.key_sets_wf(),
        ensures
            match r {
                Some(v) => self@.works_list matches Some(c) && c.0 == self@.generation && c.1
                    == start && c.2 == end && c.3 == selection@ && c.4 == v@,
                None => !(self@.works_list matches Some(c) && c.0 == self@.generation && c.1
                    == start && c.2 == end && c.3 == selection@),
            },
    {
        match &self.works_list {
            Some(c) => if c.db_gen == self.database_generation && c.key.0 == start && c.key.1 == end
                && c.key.2.same_selection(selection) {
                Some(&c.value)
            } else {
                None
            },
            None => None,
        }
    }

    /// Keeps the works listing read for `selection` and rows `start..end`.
    pub fn store_works_list(&mut self, start: usize, end: usize, selection: &NameSet, works: Vec<W>)
        requires
            old(self).wf(),
            old(self).key_sets_wf(),
            selection.wf(),
        ensures
            final(self).wf(),
            final(self).key_sets_wf(),
            final(self)@ == (CachingPoolView {
                works_list: Some((old(self)@.generation, start, end, selection@, works@)),
                ..old(self)@
            }),
    {
        self.works_list = Some(
            Cached {
                db_gen: self.database_generation,
                key: (start, end, selection.copy()),
                value: works,
            },
        );
    }

    /// The work kept for `work_id`, if current.
    pub fn cached_work(&self, work_id: i64) -> (r: Option<&W>)
        ensures
            match r {
                Some(w) => self@.works_lookup == Some((self@.generation, work_id, *w)),
                None => !(self@.works_lookup matches Some(c) && c.0 == self@.generation && c.1
                    == work_id),
            },
    {
        match &self.works_lookup {
            Some(c) => if c.db_gen == self.database_generation && c.key == work_id {
                Some(&c.value)
            } else {
                None
            },
            None => None,
        }
    }

    /// Keeps the work read for `work_id`.
    pub fn store_work(&mut self, work_id: i64, work: W)
        requires
            old(self).wf(),
        ensures
            final(self).wf(),
            final(self)@ == (CachingPoolView {
                works_lookup: Some((old(self)@.generation, work_id, work)),
                ..old(self)@
            }),
    {
        self.works_lookup = Some(Cached { db_gen: self.database_generation, key: work_id, value: work });
    }
}

proof fn lemma_plugins_answer_update(
    before: Seq<(Seq<char>, u64, Seq<Seq<char>>)>,
    i: int,
    after: Seq<(Seq<char>, u64, Seq<Seq<char>>)>,
    generation: u64,
    tag: Seq<char>,
)
    requires
        distinct_tags(before),
        distinct_tags(after),
        0 <= i < before.len(),
        before[i].0 == tag,
        after == before.update(i, after[i]),
        after[i].0 == tag,
        after[i].1 == generation,
    ensures
        plugins_answer(after, generation, tag) == Some(after[i].2),
        forall|other: Seq<char>|
            other != tag ==> plugins_answer(after, generation, other) == plugins_answer(
                before,
                generation,
                other,
            ),
{
    assert(0 <= i < after.len() && after[i].0 == tag && forall|j: int| 0 <= j < i ==> after[j].0 != tag);
    assert forall|other: Seq<char>| other != tag implies plugins_answer(after, generation, other)
        == plugins_answer(before, generation, other) by {
        if exists|k: int| 0 <= k < after.len() && after[k].0 == other {
            let k = choose|k: int| 0 <= k < after.len() && after[k].0 == other;
            assert(k != i);
            assert(before[k].0 == other);
            assert(0 <= k < before.len() && before[k].0 == other && forall|j: int| 0 <= j < k ==> before[j].0 != other);
            assert(0 <= k < after.len() && after[k].0 == other && forall|j: int| 0 <= j < k ==> after[j].0 != other);
        }
        if exists|k: int| 0 <= k < before.len() && before[k].0 == other {
            let k = choose|k: int| 0 <= k < before.len() && before[k].0 == other;
            assert(after[k].0 == other);
        }
    }
}

proof fn lemma_plugins_answer_push(
    before: Seq<(Seq<char>, u64, Seq<Seq<char>>)>,
    after: Seq<(Seq<char>, u64, Seq<Seq<char>>)>,
    generation: u64,
    tag: Seq<char>,
)
    requires
        distinct_tags(before),
        forall|j: int| 0 <= j < before.len() ==> before[j].0 != tag,
        after == before.push(after[before.len() as int]),
        after[before.len() as int].0 == tag,
        after[before.len() as int].1 == generation,
    ensures
        distinct_tags(after),
        plugins_answer(after, generation, tag) == Some(after[before.len() as int].2),
        forall|other: Seq<char>|
            other != tag ==> plugins_answer(after, generation, other) == plugins_answer(
                before,
                generation,
                other,
            ),
{
    let n = before.len() as int;
    assert forall|a: int, b: int| 0 <= a < b < after.len() implies after[a].0 != after[b].0 by {
        if b < n {
            assert(after[a] == before[a] && after[b] == before[b]);
        } else {
            assert(after[a] == before[a]);
        }
    }
    assert(0 <= n < after.len() && after[n].0 == tag && forall|j: int| 0 <= j < n ==> after[j].0 != tag);
    assert forall|other: Seq<char>| other != tag implies plugins_answer(after, generation, other)
        == plugins_answer(before, generation, other) by {
        if exists|k: int| 0 <= k < after.len() && after[k].0 == other {
            let k = choose|k: int| 0 <= k < after.len() && after[k].0 == other;
            assert(k != n);
            assert(before[k].0 == other);
            let f = choose|f: int| 0 <= f < before.len() && before[f].0 == other && forall|j: int| 0 <= j < f ==> before[j].0 != other;
            assert(0 <= f < before.len() && before[f].0 == other && forall|j: int| 0 <= j < f ==> before[j].0 != other) by {
                assert(0 <= k < before.len() && before[k].0 == other && forall|j: int| 0 <= j < k ==> before[j].0 != other);
            }
            assert(after[f] == before[f]);
            assert(0 <= f < after.len() && after[f].0 == other && forall|j: int| 0 <= j < f ==> after[j].0 != other);
        }
        if exists|k: int| 0 <= k < before.len() && before[k].0 == other {
            let k = choose|k: int| 0 <= k < before.len() && before[k].0 == other;
            assert(after[k].0 == other);
        }
    }
}

/// What the pool keeps, it gives back until the database changes: a stored answer is found
/// for the same query, and after the generation moves on no answer is found.
pub proof fn lemma_stored_answer_lives_until_bump<T, W>(
    pool: CachingPoolView<T, W>,
    filter: Seq<char>,
    count: i64,
)
    ensures
        ({
            let stored = CachingPoolView { tag_count: Some((pool.generation, filter, count)), ..pool };
            &&& (stored.tag_count matches Some(c) && c.0 == stored.generation && c.1 == filter && c.2
                == count)
            &&& (pool.generation < u64::MAX ==> {
                let bumped = CachingPoolView { generation: (stored.generation + 1) as u64, ..stored };
                !(bumped.tag_count matches Some(c) && c.0 == bumped.generation)
            })
        }),
{
}

} // verus!
