use artchiver::db::{CivilDate, DbTag, DbWork, OrderDir, TagId, TagTable, WorkId};
use artchiver::gallery::{reproject_works, WorkOrder, WorkSortCol, WorkVisibility, ScrollRequestKind};
use artchiver::navigation::{
    gallery_windows, next_power_of_two, row_count, scroll_target, select_down, select_left,
    select_right, select_up, slideshow_prefetch,
};
use artchiver::tag_set::TagSet;
use artchiver::work_view::{GalleryFetch, WorkFlagChange, WorkGallery, WorkKey};

fn date(y: i16, m: i8, d: i8) -> CivilDate {
    CivilDate::new(y, m, d)
}

fn work(id: i64, d: CivilDate, downloaded: bool, favorite: bool, hidden: bool, tags: Vec<TagId>) -> DbWork {
    DbWork::new(
        id,
        &format!("work {id}"),
        0,
        d,
        favorite,
        hidden,
        "https://example.com/p.jpg",
        "https://example.com/s.jpg",
        None,
        if downloaded { Some("aa/bb/p.jpg") } else { None },
        if downloaded { Some("aa/bb/s.jpg") } else { None },
        None,
        tags,
    )
}

fn tag(id: i64, name: &str, hidden: bool) -> DbTag {
    DbTag::from_columns(id, name, "default", 5, hidden, false, None, "plugin")
}

#[test]
fn test_next_power_of_two() {
    assert_eq!(next_power_of_two(127.5f32.round() as u32), 128);
    assert_eq!(next_power_of_two(127.4f32.round() as u32), 128);
    assert_eq!(next_power_of_two(128.1f32.round() as u32), 128);
    assert_eq!(next_power_of_two(128.6f32.round() as u32), 256);
}

#[test]
fn next_power_of_two_edges() {
    assert_eq!(next_power_of_two(0), 1);
    assert_eq!(next_power_of_two(1), 1);
    assert_eq!(next_power_of_two(3), 4);
    assert_eq!(next_power_of_two(512), 512);
    assert_eq!(next_power_of_two(0x8000_0000), 0x8000_0000);
}

#[test]
fn moving_left_and_right_wraps_around() {
    assert_eq!(select_left(0, 5), 4);
    assert_eq!(select_left(3, 5), 2);
    assert_eq!(select_left(9, 5), 4);
    assert_eq!(select_right(4, 5), 0);
    assert_eq!(select_right(1, 5), 2);
    assert_eq!(select_right(usize::MAX, 5), usize::MAX % 5);
    for s in 0..5 {
        assert_eq!(select_right(select_left(s, 5), 5), s);
        assert_eq!(select_left(select_right(s, 5), 5), s);
    }
}

#[test]
fn moving_up_and_down_clamps() {
    assert_eq!(select_up(7, 4), 3);
    assert_eq!(select_up(2, 4), 0);
    assert_eq!(select_down(2, 4, 10), 6);
    assert_eq!(select_down(8, 4, 10), 9);
    assert_eq!(select_down(usize::MAX - 1, 4, 10), 9);
}

#[test]
fn grid_arithmetic() {
    assert_eq!(row_count(10, 4), 3);
    assert_eq!(row_count(8, 4), 2);
    assert_eq!(row_count(0, 3), 0);
    // Rows 2..5 of a grid 4 wide over 30 works: offsets 8..20 are visible, and twelve more
    // on each side are loaded ahead.
    assert_eq!(gallery_windows(2, 5, 4, 30), (8, 20, 0, 30));
    assert_eq!(gallery_windows(0, 1, 4, 30), (0, 4, 0, 14));
    assert_eq!(gallery_windows(7, 8, 4, 30), (28, 30, 18, 30));
    assert_eq!(slideshow_prefetch(15, 100), (5, 25));
    assert_eq!(slideshow_prefetch(3, 100), (0, 13));
    assert_eq!(slideshow_prefetch(98, 100), (88, 99));
    assert_eq!(slideshow_prefetch(0, 0), (0, 0));
}

#[test]
fn scrolling_to_the_selection() {
    // The selection is on row 5, below the rows fully on screen (0..3).
    assert_eq!(scroll_target(Some(21), true, false, 0, 4, 4), Some((5, false)));
    // On screen: nothing to do.
    assert_eq!(scroll_target(Some(5), true, true, 0, 4, 4), None);
    // No pending request, or no selection.
    assert_eq!(scroll_target(Some(21), false, false, 0, 4, 4), None);
    assert_eq!(scroll_target(None, true, false, 0, 4, 4), None);
}

#[test]
fn reprojection_filters_and_orders() {
    let t1 = TagId::wrap(1);
    let t2 = TagId::wrap(2);
    let works = vec![
        work(10, date(2001, 5, 1), true, false, false, vec![t1]),
        work(11, date(1999, 1, 1), true, true, false, vec![t1]),
        work(12, date(2001, 5, 1), true, false, false, vec![t1, t2]),
        work(13, date(1990, 1, 1), false, false, false, vec![t1]),
        work(14, date(1980, 1, 1), true, false, true, vec![t1]),
    ];
    let selection = TagSet::new();
    let asc = WorkOrder { column: WorkSortCol::Date, order: OrderDir::Asc };
    let (ids, sel) = reproject_works(&works, WorkVisibility::All, &selection, None, asc, Some(WorkId::wrap(12)));
    assert_eq!(ids, vec![WorkId::wrap(11), WorkId::wrap(10), WorkId::wrap(12)]);
    assert_eq!(sel, Some(2));

    let desc = WorkOrder { column: WorkSortCol::Date, order: OrderDir::Desc };
    let (ids, sel) = reproject_works(&works, WorkVisibility::All, &selection, None, desc, Some(WorkId::wrap(13)));
    assert_eq!(ids, vec![WorkId::wrap(12), WorkId::wrap(10), WorkId::wrap(11)]);
    assert_eq!(sel, None);

    let (ids, _) = reproject_works(&works, WorkVisibility::Favorites, &selection, None, asc, None);
    assert_eq!(ids, vec![WorkId::wrap(11)]);
    let (ids, _) = reproject_works(&works, WorkVisibility::Hidden, &selection, None, asc, None);
    assert_eq!(ids, vec![WorkId::wrap(14)]);

    // A hidden tag hides its works.
    let mut table = TagTable::new();
    table.insert(tag(1, "cat", false));
    table.insert(tag(2, "dog", true));
    let (ids, _) = reproject_works(&works, WorkVisibility::All, &selection, Some(&table), asc, None);
    assert_eq!(ids, vec![WorkId::wrap(11), WorkId::wrap(10)]);

    // A required tag keeps only the works carrying it.
    let mut selection = TagSet::new();
    selection.enable(&tag(2, "dog", false));
    let (ids, _) = reproject_works(&works, WorkVisibility::All, &selection, None, asc, None);
    assert_eq!(ids, vec![WorkId::wrap(12)]);
}

#[test]
fn gallery_fetches_and_moves() {
    let mut g = WorkGallery::new();
    assert_eq!(g.startup_fetch(), GalleryFetch::Favorites);
    assert_eq!(g.thumb_size(), 128);
    assert_eq!(g.scroll_request(), ScrollRequestKind::NoMovement);

    // Enabling a tag asks for its works.
    let cat = tag(1, "cat", false);
    g.tag_selection_mut().enable(&cat);
    assert_eq!(g.refresh_if_needed(None), GalleryFetch::WorksForTag(TagId::wrap(1)));
    assert_eq!(g.refresh_if_needed(None), GalleryFetch::Nothing);

    // Works for another tag are dropped; works for the fetched tag are taken in.
    let t1 = TagId::wrap(1);
    assert!(!g.receive_works(Some(TagId::wrap(7)), vec![work(1, date(2000, 1, 1), true, false, false, vec![t1])], None));
    assert!(g.receive_works(
        Some(t1),
        vec![
            work(1, date(2000, 1, 1), true, false, false, vec![t1]),
            work(2, date(2001, 1, 1), true, false, false, vec![t1]),
            work(3, date(2002, 1, 1), false, false, false, vec![t1]),
        ],
        None,
    ));
    assert_eq!(g.filtered().to_vec(), vec![WorkId::wrap(1), WorkId::wrap(2)]);

    // Work 3 finishes downloading: it shows after the next reprojection.
    assert!(g.on_download_completed(WorkId::wrap(3), "a".to_string(), "b".to_string(), None));
    assert!(!g.on_download_completed(WorkId::wrap(9), "a".to_string(), "b".to_string(), None));
    g.reproject(None);
    assert_eq!(g.filtered().to_vec(), vec![WorkId::wrap(1), WorkId::wrap(2), WorkId::wrap(3)]);

    g.set_selected(0);
    assert!(g.move_selection(true, false, false, false, 2));
    assert_eq!(g.selected(), Some(2));
    assert_eq!(g.scroll_request(), ScrollRequestKind::Movement);
    assert!(g.move_selection(false, true, false, false, 2));
    assert_eq!(g.selected(), Some(0));
    assert!(g.move_selection(false, false, false, true, 2));
    assert_eq!(g.selected(), Some(2));
    assert!(!g.move_selection(false, false, false, false, 2));
    g.clear_scroll_request();
    g.on_leave_slideshow();
    assert_eq!(g.scroll_request(), ScrollRequestKind::LeaveSlideshow);

    // Keys on the selected work.
    assert_eq!(g.apply_work_key(WorkKey::Favorite, None), Some(WorkFlagChange::Favorite(WorkId::wrap(3), true)));
    assert!(g.selected_work().unwrap().favorite());
    assert_eq!(g.apply_work_key(WorkKey::ToggleHidden, None), Some(WorkFlagChange::Hidden(WorkId::wrap(3), true)));
    assert_eq!(g.filtered().to_vec(), vec![WorkId::wrap(1), WorkId::wrap(2)]);
    assert_eq!(g.selected(), Some(2));
    assert!(g.selected_work().is_none());
    assert_eq!(g.apply_work_key(WorkKey::Unfavorite, None), None);

    // Showing the hidden works.
    assert!(g.set_showing(WorkVisibility::Hidden, None));
    assert_eq!(g.filtered().to_vec(), vec![WorkId::wrap(3)]);
    assert!(!g.set_showing(WorkVisibility::Hidden, None));
}

#[test]
fn works_updated_for_an_enabled_tag_refresh_the_gallery() {
    let mut table = TagTable::new();
    table.insert(tag(1, "cat", false));
    let mut g = WorkGallery::new();
    g.tag_selection_mut().enable(&tag(1, "cat", false));
    g.refresh_if_needed(Some(&table));
    assert!(!g.on_works_updated_for_tag("dog", Some(&table)));
    assert_eq!(g.refresh_if_needed(Some(&table)), GalleryFetch::Nothing);
    assert!(g.on_works_updated_for_tag("cat", Some(&table)));
    assert_eq!(g.refresh_if_needed(Some(&table)), GalleryFetch::WorksForTag(TagId::wrap(1)));
    g.on_initial_tags();
    assert_eq!(g.refresh_if_needed(Some(&table)), GalleryFetch::WorksForTag(TagId::wrap(1)));
}
