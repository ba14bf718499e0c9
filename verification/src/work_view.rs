//! The state of the works gallery: the fetched works, the filtered and ordered listing, the
//! selection, and how each event and key press changes them.
use crate::db::{CivilDate, DbTagView, DbWork, DbWorkView, TagId, TagTable, WorkId, opt_table_view};
use crate::gallery::{
    ScrollRequestKind, WorkOrder, WorkVisibility, ids_of_keys, keys_sorted, position_of,
    reproject_works, shown, shown_keys, work_key, works_view,
};
use crate::navigation::{
    select_down, select_left, select_right, select_up, spec_select_down, spec_select_left,
    spec_select_right, spec_select_up,
};
use crate::tag_set::{TagRefresh, TagSet, TagSetView, best_refresh};
use crate::work_table::{WorkTable, with_works};
use vstd::prelude::*;

verus! {

/// The keys of the works of a table that the gallery shows.
pub open spec fn gallery_keys(
    m: Map<WorkId, DbWorkView>,
    showing: WorkVisibility,
    selection: TagSetView,
    tags: Option<Map<TagId, DbTagView>>,
) -> Set<(CivilDate, WorkId)> {
    Set::new(
        |k: (CivilDate, WorkId)|
            exists|id: WorkId|
                #[trigger] m.contains_key(id) && shown(showing, selection, tags, m[id]) && k
                    == work_key(m[id]),
    )
}

/// `ids` lists, in gallery order, the ids of the works of `m` that the gallery shows.
pub open spec fn is_listing(
    ids: Seq<WorkId>,
    m: Map<WorkId, DbWorkView>,
    showing: WorkVisibility,
    selection: TagSetView,
    tags: Option<Map<TagId, DbTagView>>,
    order: WorkOrder,
) -> bool {
    exists|ks: Seq<(CivilDate, WorkId)>|
        {
            &&& ids == ids_of_keys(ks)
            &&& keys_sorted(order.order, ks)
            &&& ks.to_set() == gallery_keys(m, showing, selection, tags)
        }
}

/// The abstract gallery.
pub ghost struct WorkGalleryView {
    /// The offset of the selected work in the listing.
    pub selected: Option<usize>,
    /// The thumbnail size, in pixels.
    pub thumb_size: u32,
    pub selection: TagSetView,
    pub order: WorkOrder,
    pub scroll: ScrollRequestKind,
    pub showing: WorkVisibility,
    /// The works fetched for the selection; `None` while a fetch is pending.
    pub works: Option<Map<WorkId, DbWorkView>>,
    /// The ids of the works shown, in gallery order.
    pub filtered: Seq<WorkId>,
}

/// The id of the selected work, when the selection points at a fetched work.
pub open spec fn selected_id(v: WorkGalleryView) -> Option<WorkId> {
    match v.selected {
        Some(s) => match v.works {
            Some(m) => if s < v.filtered.len() && m.contains_key(v.filtered[s as int]) {
                Some(v.filtered[s as int])
            } else {
                None
            },
            None => None,
        },
        None => None,
    }
}

/// `new` is `old` filtered and ordered again: the listing is recomputed from the fetched
/// works and the selection follows the selected work, or is dropped when it is no longer
/// shown. With no fetched works the listing is empty.
pub open spec fn reprojected(
    old: WorkGalleryView,
    new: WorkGalleryView,
    tags: Option<Map<TagId, DbTagView>>,
) -> bool {
    &&& new.thumb_size == old.thumb_size
    &&& new.selection == old.selection
    &&& new.order == old.order
    &&& new.scroll == old.scroll
    &&& new.showing == old.showing
    &&& new.works == old.works
    &&& match old.works {
        Some(m) => {
            &&& is_listing(new.filtered, m, old.showing, old.selection, tags, old.order)
            &&& new.filtered.no_duplicates()
            &&& position_of(new.filtered, selected_id(old), new.selected)
        },
        None => new.filtered == Seq::<WorkId>::empty() && new.selected == old.selected,
    }
}

/// `new` and `r` are what a refresh check of `old` gives: the selection decides (as
/// `best_refresh` says) between doing nothing, filtering again, and dropping the fetched
/// works to fetch a tag's works or the favorites.
pub open spec fn refreshed(
    old: WorkGalleryView,
    tags: Option<Map<TagId, DbTagView>>,
    new: WorkGalleryView,
    r: GalleryFetch,
) -> bool {
    exists|sel: TagSetView, t: TagRefresh|
        {
            &&& best_refresh(old.selection, tags, sel, t)
            &&& match t {
                TagRefresh::NoneNeeded => r == GalleryFetch::Nothing && new == (WorkGalleryView {
                    selection: sel,
                    ..old
                }),
                TagRefresh::NeedReproject => r == GalleryFetch::Nothing && reprojected(
                    WorkGalleryView { selection: sel, ..old },
                    new,
                    tags,
                ),
                TagRefresh::NeedRefresh(id) => r == GalleryFetch::WorksForTag(id) && new == (
                WorkGalleryView {
                    selection: sel,
                    works: None,
                    filtered: Seq::empty(),
                    selected: None,
                    ..old
                }),
                TagRefresh::Favorites => r == GalleryFetch::Favorites && new == (WorkGalleryView {
                    selection: sel,
                    works: None,
                    filtered: Seq::empty(),
                    selected: None,
                    ..old
                }),
            }
        }
}

/// The selection after the movement keys: each pressed key moves from the same starting
/// offset, the last of left, right, up and down winning.
pub open spec fn moved_selection(
    sel: int,
    left: bool,
    right: bool,
    up: bool,
    down: bool,
    n_wide: int,
    len: int,
) -> int {
    if down {
        spec_select_down(sel, n_wide, len)
    } else if up {
        spec_select_up(sel, n_wide)
    } else if right {
        spec_select_right(sel, len)
    } else if left {
        spec_select_left(sel, len)
    } else {
        sel
    }
}

/// A tag of the selection is named `name` in the table.
pub open spec fn enabled_tag_named(
    selection: TagSetView,
    tags: Option<Map<TagId, DbTagView>>,
    name: Seq<char>,
) -> bool {
    match tags {
        Some(m) => exists|id: TagId|
            #[trigger] selection.enabled.contains(id) && m.contains_key(id) && m[id].name == name,
        None => false,
    }
}

/// What the gallery asks the database for.
#[derive(Clone, Copy, Debug, PartialEq, Eq, Structural)]
pub enum GalleryFetch {
    /// Nothing.
    Nothing,
    /// The works carrying a tag.
    WorksForTag(TagId),
    /// The favorite works.
    Favorites,
}

/// A change of a work's flag that the database must record.
#[derive(Clone, Copy, Debug, PartialEq, Eq, Structural)]
pub enum WorkFlagChange {
    Favorite(WorkId, bool),
    Hidden(WorkId, bool),
}

/// The keys that act on the selected work.
#[derive(Clone, Copy, Debug, PartialEq, Eq, Structural)]
pub enum WorkKey {
    /// Mark the selected work as a favorite.
    Favorite,
    /// Clear the selected work's favorite mark.
    Unfavorite,
    /// Hide the selected work, or show it again.
    ToggleHidden,
}

/// The works gallery.
pub struct WorkGallery {
    selected: Option<usize>,
    thumb_size: u32,
    tag_selection: TagSet,
    order: WorkOrder,
    scroll_to_selected: ScrollRequestKind,
    showing: WorkVisibility,
    works: Option<WorkTable>,
    filtered: Vec<WorkId>,
}

/// The view of an optional work table.
pub open spec fn opt_works_view(o: Option<WorkTable>) -> Option<Map<WorkId, DbWorkView>> {
    match o {
        Some(t) => Some(t@),
        None => None,
    }
}

impl View for WorkGallery {
    type V = WorkGalleryView;

    closed spec fn view(&self) -> WorkGalleryView {
        WorkGalleryView {
            selected: self.selected,
            thumb_size: self.thumb_size,
            selection: self.tag_selection@,
            order: self.order,
            scroll: self.scroll_to_selected,
            showing: self.showing,
            works: opt_works_view(self.works),
            filtered: self.filtered@,
        }
    }
}

/// The shown keys of a table's entries are the shown keys of the table.
proof fn lemma_entries_keys(
    t: WorkTable,
    showing: WorkVisibility,
    selection: TagSetView,
    tags: Option<Map<TagId, DbTagView>>,
)
    requires
        t.wf(),
    ensures
        shown_keys(t.entries(), showing, selection, tags) == gallery_keys(
            t@,
            showing,
            selection,
            tags,
        ),
{
    t.lemma_entries();
    let e = t.entries();
    assert forall|k: (CivilDate, WorkId)|
        shown_keys(e, showing, selection, tags).contains(k) == gallery_keys(
            t@,
            showing,
            selection,
            tags,
        ).contains(k) by {
        if shown_keys(e, showing, selection, tags).contains(k) {
            let i = choose|i: int|
                0 <= i < e.len() && shown(showing, selection, tags, e[i]) && k == work_key(
                    #[trigger] e[i],
                );
            assert(t@.contains_key(e[i].id));
        }
        if gallery_keys(t@, showing, selection, tags).contains(k) {
            let id = choose|id: WorkId|
                #[trigger] t@.contains_key(id) && shown(showing, selection, tags, t@[id]) && k
                    == work_key(t@[id]);
            let i = choose|i: int| 0 <= i < e.len() && e[i].id == id;
            assert(t@.contains_key(e[i].id));
        }
    }
    assert(shown_keys(e, showing, selection, tags) =~= gallery_keys(t@, showing, selection, tags));
}

impl WorkGallery {
    /// The gallery's invariant: the tag selection and the fetched works are well formed.
    pub closed spec fn wf(&self) -> bool {
        &&& self.tag_selection.wf()
        &&& self.works matches Some(t) ==> t.wf()
    }

    /// The enabled tags of the selection, in the order they were enabled.
    pub closed spec fn enabled_order(&self) -> Seq<TagId> {
        self.tag_selection.enabled_order()
    }

    /// An empty gallery: nothing fetched or selected, 128 pixel thumbnails, sorted by date,
    /// showing every work that is not hidden.
    pub fn new() -> (r: Self)
        ensures
            r.wf(),
            r@ == (WorkGalleryView {
                selected: None,
                thumb_size: 128,
                selection: TagSetView {
                    enabled: Set::empty(),
                    disabled: Set::empty(),
                    last_fetched: None,
                    changed: false,
                },
                order: WorkOrder { column: crate::gallery::WorkSortCol::Date, order: crate::db::OrderDir::Asc },
                scroll: ScrollRequestKind::NoMovement,
                showing: WorkVisibility::All,
                works: None,
                filtered: Seq::empty(),
            }),
    {
        WorkGallery {
            selected: None,
            thumb_size: 128,
            tag_selection: TagSet::new(),
            order: WorkOrder::new(),
            scroll_to_selected: ScrollRequestKind::NoMovement,
            showing: WorkVisibility::All,
            works: None,
            filtered: Vec::new(),
        }
    }

    /// What to fetch at startup: the works of the first enabled tag, or the favorites when no
    /// tag is enabled.
    pub fn startup_fetch(&self) -> (r: GalleryFetch)
        requires
            self.wf(),
        ensures
            self.enabled_order().len() > 0 ==> r == GalleryFetch::WorksForTag(
                self.enabled_order()[0],
            ),
            self.enabled_order().len() == 0 ==> r == GalleryFetch::Favorites,
    {
        let enabled = self.tag_selection.enabled();
        if enabled.len() > 0 {
            GalleryFetch::WorksForTag(enabled[0])
        } else {
            GalleryFetch::Favorites
        }
    }

    /// Whether a work is selected.
    pub fn has_selection(&self) -> (r: bool)
        ensures
            r == self@.selected is Some,
    {
        self.selected.is_some()
    }

    /// The offset of the selected work in the listing.
    pub fn selected(&self) -> (r: Option<usize>)
        ensures
            r == self@.selected,
    {
        self.selected
    }

    /// Selects the work at `offset` in the listing.
    pub fn set_selected(&mut self, offset: usize)
        ensures
            final(self)@ == (WorkGalleryView { selected: Some(offset), ..old(self)@ }),
            final(self).wf() == old(self).wf(),
    {
        self.selected = Some(offset);
    }

    /// Drops the selection.
    pub fn clear_selected(&mut self)
        ensures
            final(self)@ == (WorkGalleryView { selected: None, ..old(self)@ }),
            final(self).wf() == old(self).wf(),
    {
        self.selected = None;
    }

    /// Asks for the selection to be centered on screen, after leaving the slideshow.
    pub fn on_leave_slideshow(&mut self)
        ensures
            final(self)@ == (WorkGalleryView { scroll: ScrollRequestKind::LeaveSlideshow, ..old(self)@ }),
            final(self).wf() == old(self).wf(),
    {
        self.scroll_to_selected = ScrollRequestKind::LeaveSlideshow;
    }

    /// The pending scroll request.
    pub fn scroll_request(&self) -> (r: ScrollRequestKind)
        ensures
            r == self@.scroll,
    {
        self.scroll_to_selected
    }

    /// Drops the pending scroll request, once it is served.
    pub fn clear_scroll_request(&mut self)
        ensures
            final(self)@ == (WorkGalleryView { scroll: ScrollRequestKind::NoMovement, ..old(self)@ }),
            final(self).wf() == old(self).wf(),
    {
        self.scroll_to_selected = ScrollRequestKind::NoMovement;
    }

    /// The thumbnail size, in pixels.
    pub fn thumb_size(&self) -> (r: u32)
        ensures
            r == self@.thumb_size,
    {
        self.thumb_size
    }

    /// Sets the thumbnail size, in pixels.
    pub fn set_thumb_size(&mut self, size: u32)
        ensures
            final(self)@ == (WorkGalleryView { thumb_size: size, ..old(self)@ }),
            final(self).wf() == old(self).wf(),
    {
        self.thumb_size = size;
    }

    /// The tag selection.
    pub fn tag_selection(&self) -> (r: &TagSet)
        ensures
            r@ == self@.selection,
            self.wf() ==> r.wf(),
    {
        &self.tag_selection
    }

    /// The tag selection, to change it.
    pub fn tag_selection_mut(&mut self) -> (r: &mut TagSet)
        ensures
            r@ == old(self)@.selection,
            old(self).wf() ==> r.wf(),
            final(self)@ == (WorkGalleryView { selection: final(r)@, ..old(self)@ }),
            old(self).wf() && final(r).wf() ==> final(self).wf(),
    {
        &mut self.tag_selection
    }

    /// The sort order.
    pub fn order(&self) -> (r: WorkOrder)
        ensures
            r == self@.order,
    {
        self.order
    }

    /// Which works are shown.
    pub fn showing(&self) -> (r: WorkVisibility)
        ensures
            r == self@.showing,
    {
        self.showing
    }

    /// The ids of the works shown, in gallery order.
    pub fn filtered(&self) -> (r: &[WorkId])
        ensures
            r@ == self@.filtered,
    {
        self.filtered.as_slice()
    }

    /// The fetched works, or `None` while a fetch is pending.
    pub fn works(&self) -> (r: Option<&WorkTable>)
        ensures
            match r {
                Some(t) => self@.works == Some(t@) && (self.wf() ==> t.wf()),
                None => self@.works is None,
            },
    {
        match &self.works {
            Some(t) => Some(t),
            None => None,
        }
    }

    /// The selected work, when the selection points at a fetched work.
    pub fn selected_work(&self) -> (r: Option<&DbWork>)
        requires
            self.wf(),
        ensures
            match r {
                Some(w) => selected_id(self@) == Some(w@.id) && (self@.works matches Some(m)
                    && m[w@.id] == w@),
                None => selected_id(self@) is None,
            },
    {
        match &self.works {
            None => None,
            Some(table) => match self.selected {
                None => None,
                Some(s) => {
                    if s < self.filtered.len() {
                        match table.get(self.filtered[s]) {
                            Some(w) => {
                                proof {
                                    let m = table@;
                                    assert(m.contains_key(self.filtered@[s as int]));
                                    assert(self@.works == Some(m));
                                }
                                Some(w)
                            },
                            None => None,
                        }
                    } else {
                        None
                    }
                },
            },
        }
    }

    /// The id of the selected work, when the selection points at a fetched work.
    fn selected_work_id(&self) -> (r: Option<WorkId>)
        requires
            self.wf(),
        ensures
            r == selected_id(self@),
    {
        match self.selected_work() {
            Some(w) => Some(w.id()),
            None => None,
        }
    }

    /// Filters and orders the fetched works again, keeping the selected work selected.
    pub fn reproject(&mut self, tags: Option<&TagTable>)
        requires
            old(self).wf(),
            tags matches Some(t) ==> t.wf(),
        ensures
            final(self).wf(),
            reprojected(old(self)@, final(self)@, opt_table_view(tags)),
    {
        let sel_id = self.selected_work_id();
        match &self.works {
            Some(table) => {
                proof {
                    table.lemma_entries();
                    lemma_entries_keys(*table, self.showing, self.tag_selection@, opt_table_view(tags));
                }
                let (ids, pos) = reproject_works(
                    table.works(),
                    self.showing,
                    &self.tag_selection,
                    tags,
                    self.order,
                    sel_id,
                );
                self.filtered = ids;
                self.selected = pos;
            },
            None => {
                self.filtered = Vec::new();
            },
        }
    }

    /// Changes the sort order; filters again when it changed. Returns whether it changed.
    pub fn set_order(&mut self, order: WorkOrder, tags: Option<&TagTable>) -> (r: bool)
        requires
            old(self).wf(),
            tags matches Some(t) ==> t.wf(),
        ensures
            final(self).wf(),
            r == (order != old(self)@.order),
            !r ==> final(self)@ == old(self)@,
            r ==> reprojected(
                WorkGalleryView { order: order, ..old(self)@ },
                final(self)@,
                opt_table_view(tags),
            ),
    {
        if order == self.order {
            false
        } else {
            self.order = order;
            self.reproject(tags);
            true
        }
    }

    /// Changes which works are shown; filters again when it changed. Returns whether it
    /// changed.
    pub fn set_showing(&mut self, showing: WorkVisibility, tags: Option<&TagTable>) -> (r: bool)
        requires
            old(self).wf(),
            tags matches Some(t) ==> t.wf(),
        ensures
            final(self).wf(),
            r == (showing != old(self)@.showing),
            !r ==> final(self)@ == old(self)@,
            r ==> reprojected(
                WorkGalleryView { showing: showing, ..old(self)@ },
                final(self)@,
                opt_table_view(tags),
            ),
    {
        if showing == self.showing {
            false
        } else {
            self.showing = showing;
            self.reproject(tags);
            true
        }
    }

    /// Checks the selection against what was fetched, as every frame does: filters again, or
    /// drops the fetched works and says what to fetch instead.
    pub fn refresh_if_needed(&mut self, tags: Option<&TagTable>) -> (r: GalleryFetch)
        requires
            old(self).wf(),
            tags matches Some(t) ==> t.wf(),
        ensures
            final(self).wf(),
            refreshed(old(self)@, opt_table_view(tags), final(self)@, r),
    {
        let ghost pre = self@;
        let t = self.tag_selection.get_best_refresh(tags);
        let ghost sel = self.tag_selection@;
        let ghost mid = self@;
        assert(mid == (WorkGalleryView { selection: sel, ..pre }));
        match t {
            TagRefresh::NoneNeeded => GalleryFetch::Nothing,
            TagRefresh::NeedReproject => {
                self.reproject(tags);
                GalleryFetch::Nothing
            },
            TagRefresh::NeedRefresh(id) => {
                self.works = None;
                self.filtered = Vec::new();
                self.selected = None;
                assert(self@.filtered =~= Seq::<WorkId>::empty());
                GalleryFetch::WorksForTag(id)
            },
            TagRefresh::Favorites => {
                self.works = None;
                self.filtered = Vec::new();
                self.selected = None;
                assert(self@.filtered =~= Seq::<WorkId>::empty());
                GalleryFetch::Favorites
            },
        }
    }

    /// Takes in a block of fetched works. They are kept only when they answer the last
    /// fetch: they are added to the works already fetched, and the gallery is filtered again.
    /// Returns whether they were kept.
    pub fn receive_works(
        &mut self,
        tag_id: Option<TagId>,
        works: Vec<DbWork>,
        tags: Option<&TagTable>,
    ) -> (r: bool)
        requires
            old(self).wf(),
            tags matches Some(t) ==> t.wf(),
        ensures
            final(self).wf(),
            r == (tag_id == old(self)@.selection.last_fetched),
            !r ==> final(self)@ == old(self)@,
            r ==> reprojected(
                WorkGalleryView {
                    works: Some(
                        with_works(
                            match old(self)@.works {
                                Some(m) => m,
                                None => Map::empty(),
                            },
                            works_view(works@),
                        ),
                    ),
                    ..old(self)@
                },
                final(self)@,
                opt_table_view(tags),
            ),
    {
        if tag_id != self.tag_selection.last_fetched() {
            return false;
        }
        let mut table = match self.works.take() {
            Some(t) => t,
            None => WorkTable::new(),
        };
        table.extend(works);
        self.works = Some(table);
        self.reproject(tags);
        true
    }

    /// The database was reloaded: fetch again from scratch.
    pub fn on_initial_tags(&mut self)
        requires
            old(self).wf(),
        ensures
            final(self).wf(),
            final(self)@ == (WorkGalleryView {
                selection: crate::tag_set::spec_force_refresh(old(self)@.selection),
                ..old(self)@
            }),
    {
        self.tag_selection.force_refresh();
    }

    /// The works of the tag named `for_tag` changed: fetch again from scratch when that tag
    /// is enabled. Returns whether a refresh was asked.
    pub fn on_works_updated_for_tag(&mut self, for_tag: &str, tags: Option<&TagTable>) -> (r: bool)
        requires
            old(self).wf(),
            tags matches Some(t) ==> t.wf(),
        ensures
            final(self).wf(),
            r == enabled_tag_named(old(self)@.selection, opt_table_view(tags), for_tag@),
            final(self)@ == if r {
                WorkGalleryView {
                    selection: crate::tag_set::spec_force_refresh(old(self)@.selection),
                    ..old(self)@
                }
            } else {
                old(self)@
            },
    {
        let hit = match tags {
            None => false,
            Some(table) => {
                let enabled = self.tag_selection.enabled();
                proof {
                    self.tag_selection.lemma_orders();
                }
                let mut found = false;
                let mut i: usize = 0;
                while i < enabled.len()
                    invariant
                        0 <= i <= enabled@.len(),
                        table.wf(),
                        opt_table_view(tags) == Some(table@),
                        crate::tag_set::id_set(enabled@) == self@.selection.enabled,
                        found == exists|j: int|
                            0 <= j < i && table@.contains_key(enabled@[j]) && #[trigger] table@[enabled@[j]].name
                                == for_tag@,
                    decreases enabled@.len() - i,
                {
                    match table.get(enabled[i]) {
                        Some(t) => {
                            if crate::text::str_eq(t.name(), for_tag) {
                                found = true;
                            }
                        },
                        None => {},
                    }
                    i = i + 1;
                }
                proof {
                    let m = table@;
                    if found {
                        let j = choose|j: int|
                            0 <= j < enabled@.len() && m.contains_key(enabled@[j]) && #[trigger] m[enabled@[j]].name
                                == for_tag@;
                        assert(crate::tag_set::id_set(enabled@).contains(enabled@[j]));
                        assert(self@.selection.enabled.contains(enabled@[j]));
                    }
                    if enabled_tag_named(self@.selection, opt_table_view(tags), for_tag@) {
                        let id = choose|id: TagId|
                            #[trigger] self@.selection.enabled.contains(id) && m.contains_key(id)
                                && m[id].name == for_tag@;
                        assert(crate::tag_set::id_set(enabled@).contains(id));
                        let j = choose|j: int| 0 <= j < enabled@.len() && enabled@[j] == id;
                        assert(m[enabled@[j]].name == for_tag@);
                    }
                }
                found
            },
        };
        if hit {
            self.tag_selection.force_refresh();
        }
        hit
    }

    /// A work's files finished downloading: record their paths. Returns whether the work is
    /// among the fetched works.
    pub fn on_download_completed(
        &mut self,
        id: WorkId,
        preview_path: String,
        screen_path: String,
        archive_path: Option<String>,
    ) -> (r: bool)
        requires
            old(self).wf(),
        ensures
            final(self).wf(),
            match old(self)@.works {
                None => !r && final(self)@ == old(self)@,
                Some(m) => {
                    &&& r == m.contains_key(id)
                    &&& final(self)@ == (WorkGalleryView {
                        works: Some(
                            if r {
                                m.insert(
                                    id,
                                    DbWorkView {
                                        preview_path: Some(preview_path@),
                                        screen_path: Some(screen_path@),
                                        archive_path: crate::text::opt_string_view(archive_path),
                                        ..m[id]
                                    },
                                )
                            } else {
                                m
                            },
                        ),
                        ..old(self)@
                    })
                },
            },
    {
        match self.works.take() {
            None => false,
            Some(mut table) => {
                let r = table.set_paths(id, preview_path, screen_path, archive_path);
                self.works = Some(table);
                r
            },
        }
    }

    /// Moves the selection for the movement keys pressed this frame, in a grid `n_wide`
    /// works wide, and asks for the gallery to scroll to it. Returns whether it moved.
    pub fn move_selection(&mut self, left: bool, right: bool, up: bool, down: bool, n_wide: usize) -> (r: bool)
        requires
            old(self)@.selected is Some ==> old(self)@.filtered.len() > 0,
        ensures
            final(self).wf() == old(self).wf(),
            r == (old(self)@.selected is Some && (left || right || up || down)),
            !r ==> final(self)@ == old(self)@,
            r ==> final(self)@ == (WorkGalleryView {
                selected: Some(
                    moved_selection(
                        old(self)@.selected->0 as int,
                        left,
                        right,
                        up,
                        down,
                        n_wide as int,
                        old(self)@.filtered.len() as int,
                    ) as usize,
                ),
                scroll: ScrollRequestKind::Movement,
                ..old(self)@
            }),
    {
        match self.selected {
            None => false,
            Some(sel) => {
                let len = self.filtered.len();
                let mut next = sel;
                if left {
                    next = select_left(sel, len);
                }
                if right {
                    next = select_right(sel, len);
                }
                if up {
                    next = select_up(sel, n_wide);
                }
                if down {
                    next = select_down(sel, n_wide, len);
                }
                if left || right || up || down {
                    self.selected = Some(next);
                    self.scroll_to_selected = ScrollRequestKind::Movement;
                    true
                } else {
                    false
                }
            },
        }
    }

    /// Acts on the selected work for a key: marks or unmarks it as a favorite, or hides it or
    /// shows it again. Hiding filters the gallery again but keeps the selection at the same
    /// offset. Returns the change for the database to record, or `None` when no fetched work
    /// is selected.
    pub fn apply_work_key(&mut self, key: WorkKey, tags: Option<&TagTable>) -> (r: Option<
        WorkFlagChange,
    >)
        requires
            old(self).wf(),
            tags matches Some(t) ==> t.wf(),
        ensures
            final(self).wf(),
            match selected_id(old(self)@) {
                None => r is None && final(self)@ == old(self)@,
                Some(id) => {
                    let m = old(self)@.works->0;
                    let w = m[id];
                    match key {
                        WorkKey::Favorite => r == Some(WorkFlagChange::Favorite(id, true))
                            && final(self)@ == (WorkGalleryView {
                            works: Some(m.insert(id, DbWorkView { favorite: true, ..w })),
                            ..old(self)@
                        }),
                        WorkKey::Unfavorite => r == Some(WorkFlagChange::Favorite(id, false))
                            && final(self)@ == (WorkGalleryView {
                            works: Some(m.insert(id, DbWorkView { favorite: false, ..w })),
                            ..old(self)@
                        }),
                        WorkKey::ToggleHidden => r == Some(WorkFlagChange::Hidden(id, !w.hidden))
                            && exists|mid: WorkGalleryView|
                            {
                                &&& reprojected(
                                    WorkGalleryView {
                                        works: Some(m.insert(id, DbWorkView { hidden: !w.hidden, ..w })),
                                        ..old(self)@
                                    },
                                    mid,
                                    opt_table_view(tags),
                                )
                                &&& final(self)@ == (WorkGalleryView {
                                    selected: old(self)@.selected,
                                    ..mid
                                })
                            },
                    }
                },
            },
    {
        let (id, hidden) = match self.selected_work() {
            None => {
                return None;
            },
            Some(w) => (w.id(), w.hidden()),
        };
        let selected = self.selected;
        let mut table = match self.works.take() {
            Some(t) => t,
            None => {
                return None;
            },
        };
        match key {
            WorkKey::Favorite => {
                table.set_favorite(id, true);
                self.works = Some(table);
                Some(WorkFlagChange::Favorite(id, true))
            },
            WorkKey::Unfavorite => {
                table.set_favorite(id, false);
                self.works = Some(table);
                Some(WorkFlagChange::Favorite(id, false))
            },
            WorkKey::ToggleHidden => {
                table.set_hidden(id, !hidden);
                self.works = Some(table);
                self.reproject(tags);
                let ghost mid = self@;
                self.selected = selected;
                assert(self@ == (WorkGalleryView { selected: selected, ..mid }));
                Some(WorkFlagChange::Hidden(id, !hidden))
            },
        }
    }
}

} // verus!
