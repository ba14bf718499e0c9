//! The works that the gallery has fetched, by id.
use crate::db::{DbWork, DbWorkView, WorkId};
use crate::gallery::{distinct_work_ids, works_view};
use vstd::prelude::*;

verus! {

/// The works of a sequence as a map by id; a later work replaces an earlier one with the
/// same id.
pub open spec fn works_by_id(s: Seq<DbWorkView>) -> Map<WorkId, DbWorkView>
    decreases s.len(),
{
    if s.len() == 0 {
        Map::empty()
    } else {
        works_by_id(s.drop_last()).insert(s.last().id, s.last())
    }
}

proof fn lemma_works_by_id_index(s: Seq<DbWorkView>, i: int)
    requires
        distinct_work_ids(s),
        0 <= i < s.len(),
    ensures
        works_by_id(s).contains_key(s[i].id),
        works_by_id(s)[s[i].id] == s[i],
    decreases s.len(),
{
    if i < s.len() - 1 {
        lemma_works_by_id_index(s.drop_last(), i);
        assert(s[i].id != s.last().id);
    }
}

proof fn lemma_works_by_id_keys(s: Seq<DbWorkView>, id: WorkId)
    ensures
        works_by_id(s).contains_key(id) <==> exists|i: int| 0 <= i < s.len() && s[i].id == id,
    decreases s.len(),
{
    if s.len() > 0 {
        lemma_works_by_id_keys(s.drop_last(), id);
        if works_by_id(s.drop_last()).contains_key(id) {
            let i = choose|i: int| 0 <= i < s.drop_last().len() && s.drop_last()[i].id == id;
            assert(s[i].id == id);
        }
        if exists|i: int| 0 <= i < s.len() && s[i].id == id {
            let i = choose|i: int| 0 <= i < s.len() && s[i].id == id;
            if i < s.len() - 1 {
                assert(s.drop_last()[i].id == id);
            }
        }
    }
}

proof fn lemma_works_by_id_update(s: Seq<DbWorkView>, i: int, w: DbWorkView)
    requires
        distinct_work_ids(s),
        0 <= i < s.len(),
        w.id == s[i].id,
    ensures
        distinct_work_ids(s.update(i, w)),
        works_by_id(s.update(i, w)) == works_by_id(s).insert(w.id, w),
    decreases s.len(),
{
    let u = s.update(i, w);
    if i == s.len() - 1 {
        assert(u.drop_last() =~= s.drop_last());
    } else {
        assert(u.drop_last() =~= s.drop_last().update(i, w));
        lemma_works_by_id_update(s.drop_last(), i, w);
        assert(s[i].id != s.last().id);
    }
    assert(works_by_id(u) =~= works_by_id(s).insert(w.id, w));
}

/// The works fetched for the gallery, each id once.
pub struct WorkTable {
    works: Vec<DbWork>,
}

impl View for WorkTable {
    type V = Map<WorkId, DbWorkView>;

    closed spec fn view(&self) -> Map<WorkId, DbWorkView> {
        works_by_id(works_view(self.works@))
    }
}

/// The map after adding each work of `s` in turn, a later one replacing an earlier one with
/// the same id.
pub open spec fn with_works(m: Map<WorkId, DbWorkView>, s: Seq<DbWorkView>) -> Map<
    WorkId,
    DbWorkView,
>
    decreases s.len(),
{
    if s.len() == 0 {
        m
    } else {
        with_works(m, s.drop_last()).insert(s.last().id, s.last())
    }
}

impl WorkTable {
    /// The table's invariant: no id appears twice.
    pub closed spec fn wf(&self) -> bool {
        distinct_work_ids(works_view(self.works@))
    }

    /// The table's works in storage order.
    pub closed spec fn entries(&self) -> Seq<DbWorkView> {
        works_view(self.works@)
    }

    /// The entries are exactly the table's contents, each id once.
    pub proof fn lemma_entries(&self)
        requires
            self.wf(),
        ensures
            distinct_work_ids(self.entries()),
            forall|i: int|
                0 <= i < self.entries().len() ==> #[trigger] self@.contains_key(
                    self.entries()[i].id,
                ) && self@[self.entries()[i].id] == self.entries()[i],
            forall|id: WorkId|
                #[trigger] self@.contains_key(id) ==> exists|i: int|
                    0 <= i < self.entries().len() && self.entries()[i].id == id,
    {
        assert forall|i: int| 0 <= i < self.entries().len() implies #[trigger] self@.contains_key(
            self.entries()[i].id,
        ) && self@[self.entries()[i].id] == self.entries()[i] by {
            lemma_works_by_id_index(self.entries(), i);
        }
        assert forall|id: WorkId| #[trigger] self@.contains_key(id) implies exists|i: int|
            0 <= i < self.entries().len() && self.entries()[i].id == id by {
            lemma_works_by_id_keys(self.entries(), id);
        }
    }

    /// An empty table.
    pub fn new() -> (r: Self)
        ensures
            r.wf(),
            r@ == Map::<WorkId, DbWorkView>::empty(),
    {
        let r = WorkTable { works: Vec::new() };
        assert(works_view(r.works@) =~= Seq::empty());
        r
    }

    /// The position of the work with id `id`, if any.
    fn position(&self, id: WorkId) -> (r: Option<usize>)
        requires
            self.wf(),
        ensures
            match r {
                Some(i) => i < self.works@.len() && self.works@[i as int]@.id == id,
                None => !self@.contains_key(id),
            },
    {
        let mut i: usize = 0;
        while i < self.works.len()
            invariant
                0 <= i <= self.works@.len(),
                forall|j: int| 0 <= j < i ==> self.works@[j]@.id != id,
            decreases self.works@.len() - i,
        {
            if self.works[i].id() == id {
                return Some(i);
            }
            i = i + 1;
        }
        proof {
            lemma_works_by_id_keys(works_view(self.works@), id);
        }
        None
    }

    /// The work with id `id`, if any.
    pub fn get(&self, id: WorkId) -> (r: Option<&DbWork>)
        requires
            self.wf(),
        ensures
            match r {
                Some(w) => self@.contains_key(id) && self@[id] == w@ && w@.id == id,
                None => !self@.contains_key(id),
            },
    {
        match self.position(id) {
            Some(i) => {
                proof {
                    lemma_works_by_id_index(works_view(self.works@), i as int);
                }
                Some(&self.works[i])
            },
            None => None,
        }
    }

    /// Adds a work, replacing any work with the same id.
    pub fn insert(&mut self, work: DbWork)
        requires
            old(self).wf(),
        ensures
            final(self).wf(),
            final(self)@ == old(self)@.insert(work@.id, work@),
    {
        let id = work.id();
        let ghost wv = work@;
        match self.position(id) {
            Some(i) => {
                let ghost before = works_view(self.works@);
                self.works.set(i, work);
                proof {
                    assert(works_view(self.works@) =~= before.update(i as int, wv));
                    lemma_works_by_id_update(before, i as int, wv);
                }
            },
            None => {
                let ghost before = works_view(self.works@);
                self.works.push(work);
                proof {
                    assert(works_view(self.works@) =~= before.push(wv));
                    assert(works_view(self.works@).drop_last() =~= before);
                    assert forall|j: int| 0 <= j < before.len() implies before[j].id != id by {
                        lemma_works_by_id_index(before, j);
                    }
                }
            },
        }
    }

    /// Adds each work in turn, a later one replacing an earlier one with the same id.
    pub fn extend(&mut self, works: Vec<DbWork>)
        requires
            old(self).wf(),
        ensures
            final(self).wf(),
            final(self)@ == with_works(old(self)@, works_view(works@)),
    {
        let ghost start = self@;
        let ghost all = works_view(works@);
        let n: usize = works.len();
        assert(all.len() == n);
        let mut works = works;
        let mut rest: Vec<DbWork> = Vec::new();
        // Take the works from the back, then add them from the front.
        while works.len() > 0
            invariant
                works_view(works@) + works_view(rest@).reverse() == all,
            decreases works@.len(),
        {
            let ghost before_w = works_view(works@);
            let ghost before_r = works_view(rest@);
            let w = works.pop().unwrap();
            rest.push(w);
            proof {
                assert(works_view(works@) =~= before_w.drop_last());
                assert(works_view(rest@) =~= before_r.push(before_w.last()));
                assert(works_view(rest@).reverse() =~= seq![before_w.last()] + before_r.reverse());
                assert(works_view(works@) + works_view(rest@).reverse() =~= before_w.drop_last()
                    + (seq![before_w.last()] + before_r.reverse()));
                assert(before_w =~= before_w.drop_last() + seq![before_w.last()]);
            }
        }
        assert(works_view(rest@).reverse() =~= all);
        let mut done: usize = 0;
        while rest.len() > 0
            invariant
                self.wf(),
                all.len() <= usize::MAX,
                works_view(rest@).reverse().len() + done == all.len(),
                works_view(rest@).reverse() =~= all.subrange(done as int, all.len() as int),
                self@ == with_works(start, all.subrange(0, done as int)),
            decreases rest@.len(),
        {
            let ghost before_r = works_view(rest@);
            let w = rest.pop().unwrap();
            let ghost wv = w@;
            proof {
                assert(works_view(rest@) =~= before_r.drop_last());
                assert(before_r.reverse()[0] == before_r.last());
                assert(wv == all[done as int]);
                assert(all.subrange(0, done + 1).drop_last() =~= all.subrange(0, done as int));
                assert(works_view(rest@).reverse() =~= before_r.reverse().drop_first());
            }
            self.insert(w);
            done = done + 1;
        }
        assert(all.subrange(0, done as int) =~= all);
    }

    /// The works, each once, in storage order.
    pub fn works(&self) -> (r: &[DbWork])
        requires
            self.wf(),
        ensures
            works_view(r@) == self.entries(),
    {
        self.works.as_slice()
    }

    /// The number of works.
    pub fn len(&self) -> (r: usize)
        requires
            self.wf(),
        ensures
            r == self.entries().len(),
    {
        self.works.len()
    }

    /// Records the downloaded files of the work with id `id`; returns whether there is such a
    /// work.
    pub fn set_paths(
        &mut self,
        id: WorkId,
        preview_path: String,
        screen_path: String,
        archive_path: Option<String>,
    ) -> (r: bool)
        requires
            old(self).wf(),
        ensures
            final(self).wf(),
            r == old(self)@.contains_key(id),
            final(self)@ == if r {
                old(self)@.insert(
                    id,
                    DbWorkView {
                        preview_path: Some(preview_path@),
                        screen_path: Some(screen_path@),
                        archive_path: crate::text::opt_string_view(archive_path),
                        ..old(self)@[id]
                    },
                )
            } else {
                old(self)@
            },
    {
        match self.position(id) {
            Some(i) => {
                let ghost before = works_view(self.works@);
                proof {
                    lemma_works_by_id_index(before, i as int);
                }
                self.works[i].set_paths(preview_path, screen_path, archive_path);
                proof {
                    assert(works_view(self.works@) =~= before.update(
                        i as int,
                        self.works@[i as int]@,
                    ));
                    lemma_works_by_id_update(before, i as int, self.works@[i as int]@);
                }
                true
            },
            None => false,
        }
    }

    /// Sets the favorite flag of the work with id `id`; no effect when there is none.
    pub fn set_favorite(&mut self, id: WorkId, favorite: bool)
        requires
            old(self).wf(),
        ensures
            final(self).wf(),
            final(self)@ == if old(self)@.contains_key(id) {
                old(self)@.insert(id, DbWorkView { favorite: favorite, ..old(self)@[id] })
            } else {
                old(self)@
            },
    {
        match self.position(id) {
            Some(i) => {
                let ghost before = works_view(self.works@);
                proof {
                    lemma_works_by_id_index(before, i as int);
                }
                self.works[i].set_favorite(favorite);
                proof {
                    assert(works_view(self.works@) =~= before.update(
                        i as int,
                        self.works@[i as int]@,
                    ));
                    lemma_works_by_id_update(before, i as int, self.works@[i as int]@);
                }
            },
            None => {},
        }
    }

    /// Sets the hidden flag of the work with id `id`; no effect when there is none.
    pub fn set_hidden(&mut self, id: WorkId, hidden: bool)
        requires
            old(self).wf(),
        ensures
            final(self).wf(),
            final(self)@ == if old(self)@.contains_key(id) {
                old(self)@.insert(id, DbWorkView { hidden: hidden, ..old(self)@[id] })
            } else {
                old(self)@
            },
    {
        match self.position(id) {
            Some(i) => {
                let ghost before = works_view(self.works@);
                proof {
                    lemma_works_by_id_index(before, i as int);
                }
                self.works[i].set_hidden(hidden);
                proof {
                    assert(works_view(self.works@) =~= before.update(
                        i as int,
                        self.works@[i as int]@,
                    ));
                    lemma_works_by_id_update(before, i as int, self.works@[i as int]@);
                }
            },
            None => {},
        }
    }
}

} // verus!
