//! The works gallery: which of the fetched works are shown, in what order, and how the
//! selection moves through them.
use crate::db::{date_lt, CivilDate, DbTagView, DbWork, DbWorkView, OrderDir, TagId, TagTable, WorkId};
use crate::tag_set::{selection_matches, TagSet, TagSetView};
use crate::db::opt_table_view;
use vstd::prelude::*;

verus! {

/// The column the gallery sorts by.
#[derive(Clone, Copy, Debug, PartialEq, Eq, Structural)]
pub enum WorkSortCol {
    Date,
}

/// The gallery's sort order: a column and a direction.
#[derive(Clone, Copy, Debug, PartialEq, Eq, Structural)]
pub struct WorkOrder {
    pub column: WorkSortCol,
    pub order: OrderDir,
}

impl WorkOrder {
    /// Sorting by date, ascending.
    pub fn new() -> (r: Self)
        ensures
            r == (WorkOrder { column: WorkSortCol::Date, order: OrderDir::Asc }),
    {
        WorkOrder { column: WorkSortCol::Date, order: OrderDir::Asc }
    }
}

/// Which works the gallery shows, by their favorite and hidden flags.
#[derive(Clone, Copy, Debug, PartialEq, Eq, Structural)]
pub enum WorkVisibility {
    /// Every work that is not hidden.
    All,
    /// Only favorites.
    Favorites,
    /// Only hidden works.
    Hidden,
}

/// How the gallery should scroll to keep the selection in view.
#[derive(Clone, Copy, Debug, PartialEq, Eq, Structural)]
pub enum ScrollRequestKind {
    /// No movement requested.
    NoMovement,
    /// The selection moved: scroll as little as keeps it in view.
    Movement,
    /// The user left the slideshow: center the selection if it is out of view.
    LeaveSlideshow,
}

/// The sort key of a work: its date, then its id.
pub open spec fn work_key(w: DbWorkView) -> (CivilDate, WorkId) {
    (w.date, w.id)
}

/// Ascending key order: by date, then by id.
pub open spec fn key_lt(a: (CivilDate, WorkId), b: (CivilDate, WorkId)) -> bool {
    date_lt(a.0, b.0) || (a.0 == b.0 && a.1@ < b.1@)
}

/// `a` comes before `b` in the gallery for the given direction.
pub open spec fn key_before(dir: OrderDir, a: (CivilDate, WorkId), b: (CivilDate, WorkId)) -> bool {
    match dir {
        OrderDir::Asc => key_lt(a, b),
        OrderDir::Desc => key_lt(b, a),
    }
}

/// The work passes the visibility filter.
pub open spec fn visibility_allows(showing: WorkVisibility, w: DbWorkView) -> bool {
    (showing == WorkVisibility::All && !w.hidden) || (showing == WorkVisibility::Favorites
        && w.favorite) || (showing == WorkVisibility::Hidden && w.hidden)
}

/// The work carries a tag that the table marks hidden.
pub open spec fn has_hidden_tag(tags: Option<Map<TagId, DbTagView>>, w: DbWorkView) -> bool {
    match tags {
        None => false,
        Some(m) => exists|i: int|
            0 <= i < w.tags.len() && m.contains_key(w.tags[i]) && #[trigger] m[w.tags[i]].hidden,
    }
}

/// The gallery shows the work: its full-screen media is downloaded, it passes the visibility
/// filter and the tag selection, and none of its tags is hidden.
pub open spec fn shown(
    showing: WorkVisibility,
    selection: TagSetView,
    tags: Option<Map<TagId, DbTagView>>,
    w: DbWorkView,
) -> bool {
    &&& w.screen_path is Some
    &&& visibility_allows(showing, w)
    &&& selection_matches(selection, w)
    &&& !has_hidden_tag(tags, w)
}

/// The ids of a sequence of works are distinct.
pub open spec fn distinct_work_ids(works: Seq<DbWorkView>) -> bool {
    forall|i: int, j: int| 0 <= i < j < works.len() ==> works[i].id != works[j].id
}

/// The keys are in strict gallery order.
pub open spec fn keys_sorted(dir: OrderDir, ks: Seq<(CivilDate, WorkId)>) -> bool {
    forall|i: int, j: int| 0 <= i < j < ks.len() ==> key_before(dir, ks[i], ks[j])
}

/// The views of a sequence of works.
pub open spec fn works_view(ws: Seq<DbWork>) -> Seq<DbWorkView> {
    Seq::new(ws.len(), |i: int| ws[i]@)
}

/// The keys of the works that are shown.
pub open spec fn shown_keys(
    works: Seq<DbWorkView>,
    showing: WorkVisibility,
    selection: TagSetView,
    tags: Option<Map<TagId, DbTagView>>,
) -> Set<(CivilDate, WorkId)> {
    Set::new(
        |k: (CivilDate, WorkId)|
            exists|i: int|
                0 <= i < works.len() && shown(showing, selection, tags, works[i]) && k == work_key(
                    #[trigger] works[i],
                ),
    )
}

/// `out` is the gallery's list for `ks`: the ids of the keys, in order.
pub open spec fn ids_of_keys(ks: Seq<(CivilDate, WorkId)>) -> Seq<WorkId> {
    Seq::new(ks.len(), |i: int| ks[i].1)
}

/// The position of `id` in `ids`, as `selected` becomes after filtering again.
pub open spec fn position_of(ids: Seq<WorkId>, id: Option<WorkId>, pos: Option<usize>) -> bool {
    match id {
        None => pos is None,
        Some(x) => match pos {
            Some(p) => p < ids.len() && ids[p as int] == x,
            None => !ids.contains(x),
        },
    }
}

proof fn lemma_key_lt_total(a: (CivilDate, WorkId), b: (CivilDate, WorkId))
    requires
        a.1 != b.1,
    ensures
        key_lt(a, b) || key_lt(b, a),
        !(key_lt(a, b) && key_lt(b, a)),
{
    crate::db::lemma_work_id_view_injective(a.1, b.1);
}

proof fn lemma_key_lt_transitive(a: (CivilDate, WorkId), b: (CivilDate, WorkId), c: (CivilDate, WorkId))
    requires
        key_lt(a, b),
        key_lt(b, c),
    ensures
        key_lt(a, c),
{
}

proof fn lemma_key_before_transitive(
    dir: OrderDir,
    a: (CivilDate, WorkId),
    b: (CivilDate, WorkId),
    c: (CivilDate, WorkId),
)
    requires
        key_before(dir, a, b),
        key_before(dir, b, c),
    ensures
        key_before(dir, a, c),
{
    match dir {
        OrderDir::Asc => lemma_key_lt_transitive(a, b, c),
        OrderDir::Desc => lemma_key_lt_transitive(c, b, a),
    }
}

/// `a` comes before `b` in the gallery for the given direction.
fn key_before_exec(dir: OrderDir, a: (CivilDate, WorkId), b: (CivilDate, WorkId)) -> (r: bool)
    ensures
        r == key_before(dir, a, b),
{
    let (x, y) = match dir {
        OrderDir::Asc => (a, b),
        OrderDir::Desc => (b, a),
    };
    x.0.is_before(&y.0) || (x.0 == y.0 && x.1.to_i64() < y.1.to_i64())
}

/// Whether the work passes the visibility filter.
fn visibility_allows_exec(showing: WorkVisibility, w: &DbWork) -> (r: bool)
    ensures
        r == visibility_allows(showing, w@),
{
    match showing {
        WorkVisibility::All => !w.hidden(),
        WorkVisibility::Favorites => w.favorite(),
        WorkVisibility::Hidden => w.hidden(),
    }
}

/// Whether one of the work's tags is hidden in the table.
fn has_hidden_tag_exec(tags: Option<&TagTable>, w: &DbWork) -> (r: bool)
    requires
        tags matches Some(t) ==> t.wf(),
    ensures
        r == has_hidden_tag(
            opt_table_view(tags),
            w@,
        ),
{
    match tags {
        None => false,
        Some(table) => {
            let ids = w.tags();
            let mut i: usize = 0;
            while i < ids.len()
                invariant
                    0 <= i <= ids@.len(),
                    ids@ == w@.tags,
                    table.wf(),
                    opt_table_view(tags) == Some(table@),
                    forall|j: int|
                        0 <= j < i ==> !(table@.contains_key(ids@[j]) && #[trigger] table@[ids@[j]].hidden),
                decreases ids@.len() - i,
            {
                match table.get(ids[i]) {
                    Some(t) => {
                        if t.hidden() {
                            assert(table@.contains_key(w@.tags[i as int]) && table@[w@.tags[i as int]].hidden);
                            assert(exists|j: int|
                                0 <= j < w@.tags.len() && table@.contains_key(w@.tags[j])
                                    && #[trigger] table@[w@.tags[j]].hidden);
                            return true;
                        }
                    },
                    None => {},
                }
                i = i + 1;
            }
            false
        },
    }
}

/// The position of `id` in `ids`.
fn position_in(ids: &Vec<WorkId>, id: WorkId) -> (r: Option<usize>)
    ensures
        position_of(ids@, Some(id), r),
{
    let mut k: usize = 0;
    while k < ids.len()
        invariant
            0 <= k <= ids@.len(),
            forall|a: int| 0 <= a < k ==> ids@[a] != id,
        decreases ids@.len() - k,
    {
        if ids[k] == id {
            return Some(k);
        }
        k = k + 1;
    }
    None
}

/// Filters and orders the fetched works for the gallery, and finds where the previously
/// selected work landed. The result lists, in gallery order (by date then id, reversed for a
/// descending order), the id of every work whose media is downloaded, that passes the
/// visibility filter and the tag selection, and that carries no hidden tag; the selection is
/// the new position of the selected work, or `None` when it is no longer shown.
pub fn reproject_works(
    works: &[DbWork],
    showing: WorkVisibility,
    selection: &TagSet,
    tags: Option<&TagTable>,
    order: WorkOrder,
    selected: Option<WorkId>,
) -> (r: (Vec<WorkId>, Option<usize>))
    requires
        distinct_work_ids(works_view(works@)),
        tags matches Some(t) ==> t.wf(),
    ensures
        exists|ks: Seq<(CivilDate, WorkId)>|
            {
                &&& r.0@ == ids_of_keys(ks)
                &&& keys_sorted(order.order, ks)
                &&& ks.to_set() == shown_keys(
                    works_view(works@),
                    showing,
                    selection@,
                    opt_table_view(tags),
                )
            },
        r.0@.no_duplicates(),
        position_of(r.0@, selected, r.1),
{
    let ghost tv = opt_table_view(tags);
    let ghost wv = works_view(works@);
    let dir = order.order;
    let mut keys: Vec<(CivilDate, WorkId)> = Vec::new();
    let mut i: usize = 0;
    while i < works.len()
        invariant
            0 <= i <= works@.len(),
            wv == works_view(works@),
            distinct_work_ids(wv),
            tags matches Some(t) ==> t.wf(),
            tv == opt_table_view(tags),
            keys_sorted(dir, keys@),
            forall|a: int, b: int| 0 <= a < b < keys@.len() ==> keys@[a].1 != keys@[b].1,
            forall|k: (CivilDate, WorkId)|
                #[trigger] keys@.contains(k) <==> exists|j: int|
                    0 <= j < i && shown(showing, selection@, tv, wv[j]) && k == work_key(
                        #[trigger] wv[j],
                    ),
        decreases works@.len() - i,
    {
        let w = &works[i];
        let keep = w.screen_path().is_some() && visibility_allows_exec(showing, w)
            && selection.matches(w) && !has_hidden_tag_exec(tags, w);
        assert(wv[i as int] == w@);
        if keep {
            let key = (*w.date(), w.id());
            assert(key == work_key(wv[i as int]));
            // The new id is not among the keys so far: the ids of the works are distinct.
            assert forall|a: int| 0 <= a < keys@.len() implies keys@[a].1 != key.1 by {
                assert(keys@.contains(keys@[a]));
                let j = choose|j: int|
                    0 <= j < i && shown(showing, selection@, tv, wv[j]) && keys@[a] == work_key(
                        #[trigger] wv[j],
                    );
                assert(wv[j].id != wv[i as int].id);
            }
            let mut p: usize = 0;
            while p < keys.len() && !key_before_exec(dir, key, keys[p])
                invariant
                    0 <= p <= keys@.len(),
                    forall|a: int| 0 <= a < p ==> !key_before(dir, key, keys@[a]),
                decreases keys@.len() - p,
            {
                p = p + 1;
            }
            let ghost before = keys@;
            keys.insert(p, key);
            proof {
                assert(keys@ =~= before.insert(p as int, key));
                // Every key before the insertion point sorts before the new key.
                assert forall|a: int| 0 <= a < p implies key_before(dir, before[a], key) by {
                    lemma_key_lt_total(before[a], key);
                }
                // Every key from the insertion point on sorts after it.
                assert forall|a: int| p <= a < before.len() implies key_before(dir, key, before[a]) by {
                    if a > p {
                        lemma_key_before_transitive(dir, key, before[p as int], before[a]);
                    }
                }
                assert forall|a: int, b: int| 0 <= a < b < keys@.len() implies key_before(
                    dir,
                    keys@[a],
                    keys@[b],
                ) by {
                    if b < p {
                    } else if a < p && b == p {
                    } else if a < p && b > p {
                        assert(keys@[b] == before[b - 1]);
                    } else if a == p {
                        assert(keys@[b] == before[b - 1]);
                    } else {
                        assert(keys@[a] == before[a - 1]);
                        assert(keys@[b] == before[b - 1]);
                    }
                }
                assert forall|a: int, b: int| 0 <= a < b < keys@.len() implies keys@[a].1 != keys@[b].1 by {
                    if a < p && b > p {
                        assert(keys@[b] == before[b - 1]);
                    } else if a > p {
                        assert(keys@[a] == before[a - 1]);
                        assert(keys@[b] == before[b - 1]);
                    } else if a == p {
                        assert(keys@[b] == before[b - 1]);
                    }
                }
                assert forall|k: (CivilDate, WorkId)| #[trigger] keys@.contains(k) <==> exists|j: int|
                    0 <= j < i + 1 && shown(showing, selection@, tv, wv[j]) && k == work_key(
                        #[trigger] wv[j],
                    ) by {
                    if keys@.contains(k) {
                        let a = choose|a: int| 0 <= a < keys@.len() && keys@[a] == k;
                        if a != p {
                            let b = if a < p { a } else { a - 1 };
                            assert(before[b] == k);
                            assert(before.contains(k));
                        }
                    }
                    if exists|j: int|
                        0 <= j < i + 1 && shown(showing, selection@, tv, wv[j]) && k == work_key(
                            #[trigger] wv[j],
                        ) {
                        let j = choose|j: int|
                            0 <= j < i + 1 && shown(showing, selection@, tv, wv[j]) && k == work_key(
                                #[trigger] wv[j],
                            );
                        if j < i {
                            assert(before.contains(k));
                            let b = choose|b: int| 0 <= b < before.len() && before[b] == k;
                            if b < p {
                                assert(keys@[b] == k);
                            } else {
                                assert(keys@[b + 1] == k);
                            }
                        } else {
                            assert(keys@[p as int] == k);
                        }
                    }
                }
            }
        } else {
            proof {
                assert forall|k: (CivilDate, WorkId)| #[trigger] keys@.contains(k) <==> exists|j: int|
                    0 <= j < i + 1 && shown(showing, selection@, tv, wv[j]) && k == work_key(
                        #[trigger] wv[j],
                    ) by {
                    if exists|j: int|
                        0 <= j < i + 1 && shown(showing, selection@, tv, wv[j]) && k == work_key(
                            #[trigger] wv[j],
                        ) {
                        let j = choose|j: int|
                            0 <= j < i + 1 && shown(showing, selection@, tv, wv[j]) && k == work_key(
                                #[trigger] wv[j],
                            );
                        assert(j != i);
                    }
                }
            }
        }
        i = i + 1;
    }
    // The ids, in order.
    let mut ids: Vec<WorkId> = Vec::new();
    let mut q: usize = 0;
    while q < keys.len()
        invariant
            0 <= q <= keys@.len(),
            ids@ == ids_of_keys(keys@.subrange(0, q as int)),
        decreases keys@.len() - q,
    {
        ids.push(keys[q].1);
        assert(ids_of_keys(keys@.subrange(0, q + 1)) =~= ids_of_keys(keys@.subrange(0, q as int)).push(
            keys@[q as int].1,
        ));
        q = q + 1;
    }
    assert(keys@.subrange(0, keys@.len() as int) =~= keys@);
    assert(keys@.to_set() =~= shown_keys(wv, showing, selection@, tv)) by {
        assert forall|k: (CivilDate, WorkId)| keys@.to_set().contains(k) == shown_keys(
            wv,
            showing,
            selection@,
            tv,
        ).contains(k) by {
            assert(keys@.to_set().contains(k) == keys@.contains(k));
        }
    }
    // Where the selected work landed.
    let pos = match selected {
        Some(sel) => position_in(&ids, sel),
        None => None,
    };
    (ids, pos)
}

} // verus!
