//! The tag selection that filters the works gallery: tags the user requires (enabled), tags
//! the user excludes (disabled), and the bookkeeping that decides what to fetch from the
//! database when the selection changes.
use crate::db::{DbTag, DbTagView, DbWork, DbWorkView, TagId, TagTable};
use crate::db::opt_table_view;
use vstd::prelude::*;

verus! {

/// How a tag takes part in the selection.
#[derive(Clone, Copy, Debug, PartialEq, Eq, Structural)]
pub enum TagStatus {
    Enabled,
    Disabled,
    Unselected,
}

impl TagStatus {
    /// The tag is required.
    pub fn enabled(&self) -> (r: bool)
        ensures
            r == (*self == TagStatus::Enabled),
    {
        match self {
            TagStatus::Enabled => true,
            _ => false,
        }
    }

    /// The tag is excluded.
    pub fn disabled(&self) -> (r: bool)
        ensures
            r == (*self == TagStatus::Disabled),
    {
        match self {
            TagStatus::Disabled => true,
            _ => false,
        }
    }
}

/// What the works view has to do to catch up with the selection.
#[derive(Clone, Copy, Debug, PartialEq, Eq, Structural)]
pub enum TagRefresh {
    /// Nothing changed.
    NoneNeeded,
    /// Nothing is required: show the favorites.
    Favorites,
    /// Fetch the works carrying this tag.
    NeedRefresh(TagId),
    /// The works already fetched cover the selection: filter them again.
    NeedReproject,
}

/// The abstract selection.
pub ghost struct TagSetView {
    pub enabled: Set<TagId>,
    pub disabled: Set<TagId>,
    pub last_fetched: Option<TagId>,
    pub changed: bool,
}

/// The tag selection of the works gallery.
///
/// The enabled and disabled ids are lists in which no id occurs twice, not hash sets: the
/// selection hands its enabled and disabled tags out as lists, and a hash set's walk order
/// is unspecified, so those lists could have no exact contract.
#[derive(Clone, Debug)]
pub struct TagSet {
    enabled: Vec<TagId>,
    disabled: Vec<TagId>,
    last_fetched: Option<TagId>,
    changed: bool,
}

/// The set of ids held in a sequence.
pub open spec fn id_set(s: Seq<TagId>) -> Set<TagId> {
    Set::new(|x: TagId| s.contains(x))
}

impl View for TagSet {
    type V = TagSetView;

    closed spec fn view(&self) -> TagSetView {
        TagSetView {
            enabled: id_set(self.enabled@),
            disabled: id_set(self.disabled@),
            last_fetched: self.last_fetched,
            changed: self.changed,
        }
    }
}

/// The status of `id` in a selection.
pub open spec fn status_of(v: TagSetView, id: TagId) -> TagStatus {
    if v.enabled.contains(id) {
        TagStatus::Enabled
    } else if v.disabled.contains(id) {
        TagStatus::Disabled
    } else {
        TagStatus::Unselected
    }
}

/// The selection after requiring `id`.
pub open spec fn spec_enable(v: TagSetView, id: TagId) -> TagSetView {
    TagSetView { enabled: v.enabled.insert(id), disabled: v.disabled.remove(id), changed: true, ..v }
}

/// The selection after excluding `id`.
pub open spec fn spec_disable(v: TagSetView, id: TagId) -> TagSetView {
    TagSetView { enabled: v.enabled.remove(id), disabled: v.disabled.insert(id), changed: true, ..v }
}

/// The selection after dropping `id` from both sets.
pub open spec fn spec_unselect(v: TagSetView, id: TagId) -> TagSetView {
    TagSetView { enabled: v.enabled.remove(id), disabled: v.disabled.remove(id), changed: true, ..v }
}

/// The selection after clearing both sets.
pub open spec fn spec_clear(v: TagSetView) -> TagSetView {
    TagSetView { enabled: Set::empty(), disabled: Set::empty(), changed: true, ..v }
}

/// The selection after a change on the database side: refresh from scratch when asked.
pub open spec fn spec_force_refresh(v: TagSetView) -> TagSetView {
    TagSetView { changed: true, last_fetched: None, ..v }
}

/// The order in which enabled tags are preferred for fetching: tags absent from the table
/// first, then tags whose local count is not known yet, then by local count.
pub open spec fn refresh_key(tags: Map<TagId, DbTagView>, id: TagId) -> int {
    if !tags.contains_key(id) {
        0
    } else {
        match tags[id].local_count {
            None => 1,
            Some(c) => 2 + c,
        }
    }
}

/// `result` and `post` are what `get_best_refresh` may give for selection `pre` and tag
/// table `tags`.
pub open spec fn best_refresh(
    pre: TagSetView,
    tags: Option<Map<TagId, DbTagView>>,
    post: TagSetView,
    result: TagRefresh,
) -> bool {
    if !pre.changed {
        result == TagRefresh::NoneNeeded && post == pre
    } else if pre.enabled == Set::<TagId>::empty() {
        result == TagRefresh::Favorites && post == (TagSetView {
            disabled: Set::empty(),
            last_fetched: None,
            changed: false,
            ..pre
        })
    } else if pre.last_fetched is Some && pre.enabled.contains(pre.last_fetched->0) {
        result == TagRefresh::NeedReproject && post == (TagSetView { changed: false, ..pre })
    } else {
        exists|t: TagId|
            {
                &&& result == TagRefresh::NeedRefresh(t)
                &&& pre.enabled.contains(t)
                &&& (tags matches Some(m) ==> forall|e: TagId|
                    #[trigger] pre.enabled.contains(e) ==> refresh_key(m, t) <= refresh_key(m, e))
                &&& post == (TagSetView { last_fetched: Some(t), changed: false, ..pre })
            }
    }
}

/// The tag ids of a work, as a set.
pub open spec fn work_tag_set(w: DbWorkView) -> Set<TagId> {
    Set::new(|x: TagId| w.tags.contains(x))
}

/// A work passes the selection: it carries every enabled tag and no disabled tag.
pub open spec fn selection_matches(v: TagSetView, w: DbWorkView) -> bool {
    &&& forall|t: TagId| #[trigger] v.enabled.contains(t) ==> w.tags.contains(t)
    &&& forall|t: TagId| #[trigger] v.disabled.contains(t) ==> !w.tags.contains(t)
}

/// Whether `id` occurs in `v`.
fn contains_id(v: &Vec<TagId>, id: TagId) -> (r: bool)
    ensures
        r == v@.contains(id),
{
    let mut i: usize = 0;
    while i < v.len()
        invariant
            0 <= i <= v@.len(),
            forall|j: int| 0 <= j < i ==> v@[j] != id,
        decreases v@.len() - i,
    {
        if v[i] == id {
            return true;
        }
        i = i + 1;
    }
    false
}

/// Whether `id` occurs in the slice `v`.
fn slice_contains_id(v: &[TagId], id: TagId) -> (r: bool)
    ensures
        r == v@.contains(id),
{
    let mut i: usize = 0;
    while i < v.len()
        invariant
            0 <= i <= v@.len(),
            forall|j: int| 0 <= j < i ==> v@[j] != id,
        decreases v@.len() - i,
    {
        if v[i] == id {
            return true;
        }
        i = i + 1;
    }
    false
}

/// Adds `id` unless it is already present.
fn insert_id(v: &mut Vec<TagId>, id: TagId)
    requires
        old(v)@.no_duplicates(),
    ensures
        final(v)@.no_duplicates(),
        id_set(final(v)@) == id_set(old(v)@).insert(id),
{
    if !contains_id(v, id) {
        v.push(id);
        assert forall|x: TagId| #[trigger] v@.contains(x) == (old(v)@.contains(x) || x == id) by {
            if v@.contains(x) && x != id {
                let k = choose|k: int| 0 <= k < v@.len() && v@[k] == x;
                assert(old(v)@[k] == x);
            }
            if old(v)@.contains(x) {
                let k = choose|k: int| 0 <= k < old(v)@.len() && old(v)@[k] == x;
                assert(v@[k] == x);
            }
            if x == id {
                assert(v@[v@.len() - 1] == id);
            }
        }
    }
    assert(id_set(v@) =~= id_set(old(v)@).insert(id));
}

proof fn lemma_seq_remove_distinct(s: Seq<TagId>, i: int, id: TagId)
    requires
        s.no_duplicates(),
        0 <= i < s.len(),
        s[i] == id,
    ensures
        s.remove(i).no_duplicates(),
        forall|x: TagId| #[trigger] s.remove(i).contains(x) == (s.contains(x) && x != id),
{
    let r = s.remove(i);
    assert forall|a: int, b: int| 0 <= a < b < r.len() implies r[a] != r[b] by {
        let sa = if a < i { a } else { a + 1 };
        let sb = if b < i { b } else { b + 1 };
        assert(r[a] == s[sa]);
        assert(r[b] == s[sb]);
    }
    assert forall|x: TagId| #[trigger] r.contains(x) == (s.contains(x) && x != id) by {
        if r.contains(x) {
            let k = choose|k: int| 0 <= k < r.len() && r[k] == x;
            let sk = if k < i { k } else { k + 1 };
            assert(s[sk] == x);
            assert(sk != i);
        }
        if s.contains(x) && x != id {
            let k = choose|k: int| 0 <= k < s.len() && s[k] == x;
            assert(k != i);
            if k < i {
                assert(r[k] == x);
            } else {
                assert(r[k - 1] == x);
            }
        }
    }
}

/// Removes `id` if it is present.
fn remove_id(v: &mut Vec<TagId>, id: TagId)
    requires
        old(v)@.no_duplicates(),
    ensures
        final(v)@.no_duplicates(),
        id_set(final(v)@) == id_set(old(v)@).remove(id),
{
    let mut i: usize = 0;
    while i < v.len()
        invariant
            0 <= i <= v@.len(),
            v@ == old(v)@,
            old(v)@.no_duplicates(),
            forall|j: int| 0 <= j < i ==> v@[j] != id,
        decreases v@.len() - i,
    {
        if v[i] == id {
            let ghost before = v@;
            v.remove(i);
            proof {
                lemma_seq_remove_distinct(before, i as int, id);
            }
            assert(id_set(v@) =~= id_set(old(v)@).remove(id));
            return;
        }
        i = i + 1;
    }
    assert(!v@.contains(id));
    assert(id_set(v@) =~= id_set(old(v)@).remove(id));
}

/// The preference key of `id` for fetching, computed from the table.
fn refresh_key_exec(tags: &TagTable, id: TagId) -> (k: u128)
    requires
        tags.wf(),
    ensures
        k == refresh_key(tags@, id),
{
    match tags.get(id) {
        None => 0,
        Some(t) => match t.local_count() {
            None => 1,
            Some(c) => 2 + (c as u128),
        },
    }
}

impl TagSet {
    /// The selection's invariant: no tag is both enabled and disabled, and neither list holds
    /// a tag twice.
    pub closed spec fn wf(&self) -> bool {
        &&& self.enabled@.no_duplicates()
        &&& self.disabled@.no_duplicates()
        &&& forall|t: TagId| self.enabled@.contains(t) ==> !self.disabled@.contains(t)
    }

    /// The enabled tags in the order they were enabled.
    pub closed spec fn enabled_order(&self) -> Seq<TagId> {
        self.enabled@
    }

    /// The disabled tags in the order they were disabled.
    pub closed spec fn disabled_order(&self) -> Seq<TagId> {
        self.disabled@
    }

    /// The order lists hold exactly the sets of the view, each tag once.
    pub proof fn lemma_orders(&self)
        requires
            self.wf(),
        ensures
            self.enabled_order().no_duplicates(),
            self.disabled_order().no_duplicates(),
            id_set(self.enabled_order()) == self@.enabled,
            id_set(self.disabled_order()) == self@.disabled,
            forall|t: TagId| #[trigger] self@.enabled.contains(t) ==> !self@.disabled.contains(t),
    {
    }

    /// Disjointness of the views' sets gives disjointness of the lists.
    proof fn lemma_disjoint_from_sets(&self)
        requires
            forall|t: TagId| #[trigger] self@.enabled.contains(t) ==> !self@.disabled.contains(t),
        ensures
            forall|t: TagId| self.enabled@.contains(t) ==> !self.disabled@.contains(t),
    {
        assert forall|t: TagId| self.enabled@.contains(t) implies !self.disabled@.contains(t) by {
            assert(id_set(self.enabled@).contains(t));
            assert(self@.enabled.contains(t));
            if self.disabled@.contains(t) {
                assert(id_set(self.disabled@).contains(t));
            }
        }
    }

    /// An empty selection, with nothing to refresh.
    pub fn new() -> (r: Self)
        ensures
            r.wf(),
            r@ == (TagSetView {
                enabled: Set::empty(),
                disabled: Set::empty(),
                last_fetched: None,
                changed: false,
            }),
    {
        let r = TagSet { enabled: Vec::new(), disabled: Vec::new(), last_fetched: None, changed: false };
        assert(id_set(r.enabled@) =~= Set::empty());
        assert(id_set(r.disabled@) =~= Set::empty());
        r
    }

    /// Whether a work passes the selection: it carries every enabled tag and no disabled one.
    pub fn matches(&self, work: &DbWork) -> (r: bool)
        ensures
            r == selection_matches(self@, work@),
    {
        let tags = work.tags();
        let mut i: usize = 0;
        while i < self.enabled.len()
            invariant
                0 <= i <= self.enabled@.len(),
                tags@ == work@.tags,
                forall|j: int| 0 <= j < i ==> tags@.contains(#[trigger] self.enabled@[j]),
            decreases self.enabled@.len() - i,
        {
            if !slice_contains_id(tags, self.enabled[i]) {
                assert(self@.enabled.contains(self.enabled@[i as int]));
                return false;
            }
            i = i + 1;
        }
        let mut k: usize = 0;
        while k < self.disabled.len()
            invariant
                0 <= k <= self.disabled@.len(),
                tags@ == work@.tags,
                forall|j: int| 0 <= j < k ==> !tags@.contains(#[trigger] self.disabled@[j]),
            decreases self.disabled@.len() - k,
        {
            if slice_contains_id(tags, self.disabled[k]) {
                assert(self@.disabled.contains(self.disabled@[k as int]));
                return false;
            }
            k = k + 1;
        }
        assert forall|t: TagId| #[trigger] self@.enabled.contains(t) implies work@.tags.contains(t) by {
            let j = choose|j: int| 0 <= j < self.enabled@.len() && self.enabled@[j] == t;
        }
        assert forall|t: TagId| #[trigger] self@.disabled.contains(t) implies !work@.tags.contains(t) by {
            let j = choose|j: int| 0 <= j < self.disabled@.len() && self.disabled@[j] == t;
        }
        true
    }

    /// The status of a tag in the selection.
    pub fn status(&self, tag: &DbTag) -> (r: TagStatus)
        requires
            self.wf(),
        ensures
            r == status_of(self@, tag@.id),
    {
        let id = tag.id();
        if contains_id(&self.enabled, id) {
            TagStatus::Enabled
        } else if contains_id(&self.disabled, id) {
            TagStatus::Disabled
        } else {
            TagStatus::Unselected
        }
    }

    /// Marks the selection for a refresh from scratch, after the database changed.
    pub fn force_refresh(&mut self)
        requires
            old(self).wf(),
        ensures
            final(self).wf(),
            final(self)@ == spec_force_refresh(old(self)@),
    {
        self.changed = true;
        self.last_fetched = None;
    }

    /// Decides what the works view must do to catch up with the selection; called every
    /// frame. Clears the change flag. With no enabled tag the disabled tags are dropped and
    /// favorites are shown; when the last fetched tag is still enabled the fetched works are
    /// filtered again; otherwise the enabled tag with the fewest downloaded works (by
    /// `refresh_key`) is fetched.
    pub fn get_best_refresh(&mut self, tags: Option<&TagTable>) -> (r: TagRefresh)
        requires
            old(self).wf(),
            tags matches Some(t) ==> t.wf(),
        ensures
            final(self).wf(),
            best_refresh(
                old(self)@,
                opt_table_view(tags),
                final(self)@,
                r,
            ),
    {
        if !self.changed {
            return TagRefresh::NoneNeeded;
        }
        self.changed = false;
        if self.enabled.len() == 0 {
            self.disabled.clear();
            self.last_fetched = None;
            assert(id_set(self.disabled@) =~= Set::empty());
            assert(old(self)@.enabled =~= Set::empty());
            return TagRefresh::Favorites;
        }
        assert(old(self)@.enabled.contains(self.enabled@[0]));
        assert(old(self)@.enabled != Set::<TagId>::empty());
        if let Some(prior) = self.last_fetched {
            if contains_id(&self.enabled, prior) {
                return TagRefresh::NeedReproject;
            }
        }
        match tags {
            Some(table) => {
                let mut best: TagId = self.enabled[0];
                let mut best_key: u128 = refresh_key_exec(table, best);
                let mut i: usize = 1;
                while i < self.enabled.len()
                    invariant
                        1 <= i <= self.enabled@.len(),
                        table.wf(),
                        self.enabled@ == old(self).enabled@,
                        self.enabled@.contains(best),
                        best_key == refresh_key(table@, best),
                        forall|j: int|
                            0 <= j < i ==> best_key <= refresh_key(
                                table@,
                                #[trigger] self.enabled@[j],
                            ),
                    decreases self.enabled@.len() - i,
                {
                    let k = refresh_key_exec(table, self.enabled[i]);
                    if k < best_key {
                        best = self.enabled[i];
                        best_key = k;
                    }
                    i = i + 1;
                }
                self.last_fetched = Some(best);
                assert forall|e: TagId| #[trigger] old(self)@.enabled.contains(e) implies refresh_key(
                    table@,
                    best,
                ) <= refresh_key(table@, e) by {
                    let j = choose|j: int| 0 <= j < self.enabled@.len() && self.enabled@[j] == e;
                }
                assert(id_set(old(self).enabled@).contains(best));
                assert(self@.enabled == old(self)@.enabled);
                assert(!(old(self)@.last_fetched is Some && old(self)@.enabled.contains(
                    old(self)@.last_fetched->0,
                ))) by {
                    if old(self)@.last_fetched is Some {
                        assert(!old(self).enabled@.contains(old(self).last_fetched->0));
                    }
                }
                assert(best_refresh(old(self)@, Some(table@), self@, TagRefresh::NeedRefresh(best)));
                TagRefresh::NeedRefresh(best)
            },
            None => {
                let first = self.enabled[0];
                self.last_fetched = Some(first);
                assert(id_set(old(self).enabled@).contains(first));
                assert(!(old(self)@.last_fetched is Some && old(self)@.enabled.contains(
                    old(self)@.last_fetched->0,
                ))) by {
                    if old(self)@.last_fetched is Some {
                        assert(!old(self).enabled@.contains(old(self).last_fetched->0));
                    }
                }
                assert(best_refresh(old(self)@, None, self@, TagRefresh::NeedRefresh(first)));
                TagRefresh::NeedRefresh(first)
            },
        }
    }

    /// Requires `tag`.
    pub fn enable(&mut self, tag: &DbTag)
        requires
            old(self).wf(),
        ensures
            final(self).wf(),
            final(self)@ == spec_enable(old(self)@, tag@.id),
    {
        let id = tag.id();
        insert_id(&mut self.enabled, id);
        remove_id(&mut self.disabled, id);
        self.changed = true;
        proof {
            assert forall|t: TagId| #[trigger] self@.enabled.contains(t) implies !self@.disabled.contains(t) by {
                if t != id && self@.enabled.contains(t) {
                    assert(old(self)@.enabled.contains(t));
                    assert(old(self).enabled@.contains(t));
                    assert(!old(self).disabled@.contains(t));
                    assert(!old(self)@.disabled.contains(t));
                }
            }
            self.lemma_disjoint_from_sets();
        }
    }

    /// Drops `tag` from the selection.
    pub fn unselect(&mut self, tag: &DbTag)
        requires
            old(self).wf(),
        ensures
            final(self).wf(),
            final(self)@ == spec_unselect(old(self)@, tag@.id),
    {
        let id = tag.id();
        remove_id(&mut self.enabled, id);
        remove_id(&mut self.disabled, id);
        self.changed = true;
        proof {
            assert forall|t: TagId| #[trigger] self@.enabled.contains(t) implies !self@.disabled.contains(t) by {
                if t != id && self@.enabled.contains(t) {
                    assert(old(self)@.enabled.contains(t));
                    assert(old(self).enabled@.contains(t));
                    assert(!old(self).disabled@.contains(t));
                    assert(!old(self)@.disabled.contains(t));
                }
            }
            self.lemma_disjoint_from_sets();
        }
    }

    /// Excludes `tag`.
    pub fn disable(&mut self, tag: &DbTag)
        requires
            old(self).wf(),
        ensures
            final(self).wf(),
            final(self)@ == spec_disable(old(self)@, tag@.id),
    {
        let id = tag.id();
        remove_id(&mut self.enabled, id);
        insert_id(&mut self.disabled, id);
        self.changed = true;
        proof {
            assert forall|t: TagId| #[trigger] self@.enabled.contains(t) implies !self@.disabled.contains(t) by {
                if t != id && self@.enabled.contains(t) {
                    assert(old(self)@.enabled.contains(t));
                    assert(old(self).enabled@.contains(t));
                    assert(!old(self).disabled@.contains(t));
                    assert(!old(self)@.disabled.contains(t));
                }
            }
            self.lemma_disjoint_from_sets();
        }
    }

    /// Empties the selection.
    pub fn clear(&mut self)
        requires
            old(self).wf(),
        ensures
            final(self).wf(),
            final(self)@ == spec_clear(old(self)@),
    {
        self.enabled.clear();
        self.disabled.clear();
        self.changed = true;
        assert(id_set(self.enabled@) =~= Set::empty());
        assert(id_set(self.disabled@) =~= Set::empty());
    }

    /// No tag is enabled.
    pub fn is_empty(&self) -> (r: bool)
        ensures
            r == (self@.enabled == Set::<TagId>::empty()),
    {
        if self.enabled.len() == 0 {
            assert(id_set(self.enabled@) =~= Set::empty());
            true
        } else {
            assert(id_set(self.enabled@).contains(self.enabled@[0]));
            false
        }
    }

    /// The selection is exactly "works carrying `tag`": `tag` is the only enabled tag and
    /// none is disabled.
    pub fn equals_single_tag(&self, tag: &DbTag) -> (r: bool)
        requires
            self.wf(),
        ensures
            r == (self@.disabled == Set::<TagId>::empty() && self@.enabled == Set::<TagId>::empty().insert(
                tag@.id,
            )),
    {
        let id = tag.id();
        let r = self.disabled.len() == 0 && self.enabled.len() == 1 && contains_id(&self.enabled, id);
        proof {
            if self.disabled@.len() == 0 {
                assert(id_set(self.disabled@) =~= Set::empty());
            } else {
                assert(id_set(self.disabled@).contains(self.disabled@[0]));
            }
            let single = Set::<TagId>::empty().insert(id);
            if r {
                assert(self.enabled@[0] == id);
                assert(id_set(self.enabled@) =~= single);
            } else if self.disabled@.len() == 0 && id_set(self.enabled@) == single {
                assert(id_set(self.enabled@).contains(id));
                assert(self.enabled@.contains(id));
                if self.enabled@.len() > 1 {
                    assert(id_set(self.enabled@).contains(self.enabled@[0]));
                    assert(id_set(self.enabled@).contains(self.enabled@[1]));
                    assert(self.enabled@[0] == id && self.enabled@[1] == id);
                }
                if self.enabled@.len() == 0 {
                    assert(false);
                }
            }
        }
        r
    }

    /// The tag fetched by the last refresh, if any.
    pub fn last_fetched(&self) -> (r: Option<TagId>)
        ensures
            r == self@.last_fetched,
    {
        self.last_fetched
    }

    /// The enabled tags, each once.
    pub fn enabled(&self) -> (r: &[TagId])
        ensures
            r@ == self.enabled_order(),
    {
        self.enabled.as_slice()
    }

    /// The enabled tags, each once, as a new vector.
    pub fn enabled_vec(&self) -> (r: Vec<TagId>)
        ensures
            r@ == self.enabled_order(),
    {
        self.enabled.clone()
    }

    /// The disabled tags, each once.
    pub fn disabled(&self) -> (r: &[TagId])
        ensures
            r@ == self.disabled_order(),
    {
        self.disabled.as_slice()
    }
}

impl Default for TagSet {
    fn default() -> (r: TagSet)
        ensures
            r.wf(),
            r@ == (TagSetView {
                enabled: Set::empty(),
                disabled: Set::empty(),
                last_fetched: None,
                changed: false,
            }),
    {
        TagSet::new()
    }
}

// ---------------------------------------------------------------------------------------------
// Laws
// ---------------------------------------------------------------------------------------------
/// After enabling, disabling or unselecting a tag, its status is Enabled, Disabled or
/// Unselected; the status of every other tag is unchanged.
pub proof fn lemma_selection_status(v: TagSetView, id: TagId, other: TagId)
    requires
        other != id,
    ensures
        status_of(spec_enable(v, id), id) == TagStatus::Enabled,
        status_of(spec_disable(v, id), id) == TagStatus::Disabled,
        status_of(spec_unselect(v, id), id) == TagStatus::Unselected,
        status_of(spec_enable(v, id), other) == status_of(v, other),
        status_of(spec_disable(v, id), other) == status_of(v, other),
        status_of(spec_unselect(v, id), other) == status_of(v, other),
{
}

/// Asking for the best refresh twice in a row: the second answer is NoneNeeded and leaves the
/// selection as it is.
pub proof fn lemma_refresh_settles(
    v: TagSetView,
    tags: Option<Map<TagId, DbTagView>>,
    v1: TagSetView,
    r1: TagRefresh,
    v2: TagSetView,
    r2: TagRefresh,
)
    requires
        best_refresh(v, tags, v1, r1),
        best_refresh(v1, tags, v2, r2),
    ensures
        r2 == TagRefresh::NoneNeeded,
        v2 == v1,
{
    if v.changed && v.enabled != Set::<TagId>::empty() && !(v.last_fetched is Some
        && v.enabled.contains(v.last_fetched->0)) {
        let t = choose|t: TagId|
            {
                &&& r1 == TagRefresh::NeedRefresh(t)
                &&& v.enabled.contains(t)
                &&& (tags matches Some(m) ==> forall|e: TagId|
                    #[trigger] v.enabled.contains(e) ==> refresh_key(m, t) <= refresh_key(m, e))
                &&& v1 == (TagSetView { last_fetched: Some(t), changed: false, ..v })
            };
    }
}

/// Every change of the selection makes the next refresh do something.
pub proof fn lemma_change_requests_refresh(
    v: TagSetView,
    id: TagId,
    tags: Option<Map<TagId, DbTagView>>,
    post: TagSetView,
    r: TagRefresh,
)
    requires
        best_refresh(spec_enable(v, id), tags, post, r) || best_refresh(
            spec_disable(v, id),
            tags,
            post,
            r,
        ) || best_refresh(spec_unselect(v, id), tags, post, r) || best_refresh(
            spec_clear(v),
            tags,
            post,
            r,
        ) || best_refresh(spec_force_refresh(v), tags, post, r),
    ensures
        r != TagRefresh::NoneNeeded,
{
}

/// Once the works of an enabled tag have been fetched, narrowing the selection (enabling any
/// tag, or disabling or unselecting a tag other than the fetched one) needs only a
/// re-filtering of the fetched works.
pub proof fn lemma_narrowing_reprojects(
    v: TagSetView,
    tags: Option<Map<TagId, DbTagView>>,
    v1: TagSetView,
    fetched: TagId,
    u: TagId,
    v2: TagSetView,
    r2: TagRefresh,
)
    requires
        best_refresh(v, tags, v1, TagRefresh::NeedRefresh(fetched)),
        u != fetched,
        best_refresh(spec_enable(v1, u), tags, v2, r2) || best_refresh(
            spec_disable(v1, u),
            tags,
            v2,
            r2,
        ) || best_refresh(spec_unselect(v1, u), tags, v2, r2) || best_refresh(
            spec_enable(v1, fetched),
            tags,
            v2,
            r2,
        ),
    ensures
        r2 == TagRefresh::NeedReproject,
{
    let t = choose|t: TagId|
        {
            &&& TagRefresh::NeedRefresh(fetched) == TagRefresh::NeedRefresh(t)
            &&& v.enabled.contains(t)
            &&& (tags matches Some(m) ==> forall|e: TagId|
                #[trigger] v.enabled.contains(e) ==> refresh_key(m, t) <= refresh_key(m, e))
            &&& v1 == (TagSetView { last_fetched: Some(t), changed: false, ..v })
        };
    assert(spec_enable(v1, u).enabled.contains(fetched));
    assert(spec_disable(v1, u).enabled.contains(fetched));
    assert(spec_unselect(v1, u).enabled.contains(fetched));
    assert(spec_enable(v1, fetched).enabled.contains(fetched));
}

/// Clearing the selection shows the favorites next, and drops every disabled tag.
pub proof fn lemma_clear_shows_favorites(
    v: TagSetView,
    tags: Option<Map<TagId, DbTagView>>,
    post: TagSetView,
    r: TagRefresh,
)
    requires
        best_refresh(spec_clear(v), tags, post, r),
    ensures
        r == TagRefresh::Favorites,
        post.enabled == Set::<TagId>::empty(),
        post.disabled == Set::<TagId>::empty(),
        post.last_fetched is None,
{
}

/// A work passes a selection that requires `id` only if it carries `id`, and one that
/// excludes `id` only if it does not.
pub proof fn lemma_selection_filters(v: TagSetView, id: TagId, w: DbWorkView)
    ensures
        selection_matches(spec_enable(v, id), w) ==> w.tags.contains(id),
        selection_matches(spec_disable(v, id), w) ==> !w.tags.contains(id),
{
    assert(spec_enable(v, id).enabled.contains(id));
    assert(spec_disable(v, id).disabled.contains(id));
}

/// "Replace filter": clearing then enabling a tag leaves a selection of exactly that tag.
pub proof fn lemma_replace_filter(v: TagSetView, id: TagId)
    ensures
        spec_enable(spec_clear(v), id).enabled == Set::<TagId>::empty().insert(id),
        spec_enable(spec_clear(v), id).disabled == Set::<TagId>::empty(),
{
    assert(spec_enable(spec_clear(v), id).enabled =~= Set::<TagId>::empty().insert(id));
    assert(spec_enable(spec_clear(v), id).disabled =~= Set::<TagId>::empty());
}

/// The tag fetched when the selection changed is an enabled tag with the fewest works known
/// locally, as the tag table says: first a tag missing from the table, then a tag whose local
/// count is not known yet, then the smallest local count.
pub proof fn lemma_refresh_prefers_fewest_local(
    pre: TagSetView,
    m: Map<TagId, DbTagView>,
    post: TagSetView,
    t: TagId,
)
    requires
        best_refresh(pre, Some(m), post, TagRefresh::NeedRefresh(t)),
    ensures
        pre.enabled.contains(t),
        forall|e: TagId|
            #[trigger] pre.enabled.contains(e) ==> {
                &&& (!m.contains_key(e) ==> !m.contains_key(t))
                &&& (m.contains_key(e) && m[e].local_count is None ==> !m.contains_key(t)
                    || m[t].local_count is None)
                &&& (m.contains_key(e) && m[e].local_count is Some ==> !m.contains_key(t)
                    || m[t].local_count is None || m[t].local_count->0 <= m[e].local_count->0)
            },
{
    let u = choose|u: TagId|
        {
            &&& TagRefresh::NeedRefresh(t) == TagRefresh::NeedRefresh(u)
            &&& pre.enabled.contains(u)
            &&& forall|e: TagId|
                #[trigger] pre.enabled.contains(e) ==> refresh_key(m, u) <= refresh_key(m, e)
            &&& post == (TagSetView { last_fetched: Some(u), changed: false, ..pre })
        };
    assert(u == t);
}

} // verus!
