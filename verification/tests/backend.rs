use artchiver::db::{physical_from_columns, CivilDate, PluginId, TagId, WorkId};
use artchiver::db_writer::{chunk_ranges, download_paths_complete, pending_migrations, DbWriterRequest, WriteNotice};
use artchiver::query_cache::CachingPool;
use artchiver::sdk::{History, Location, PhysicalData, Tag};
use artchiver::tag_names::TagSet as NameSet;
use artchiver::work::Work;

fn names(enabled: &[&str], disabled: &[&str]) -> NameSet {
    let mut s = NameSet::new();
    for n in enabled {
        s.enable(n);
    }
    for n in disabled {
        s.disable(n);
    }
    s
}

#[test]
fn migrations_that_are_not_recorded_still_run() {
    assert_eq!(pending_migrations(4, &[]), vec![0, 1, 2, 3]);
    assert_eq!(pending_migrations(4, &[0, 2]), vec![1, 3]);
    assert_eq!(pending_migrations(3, &[0, 1, 2]), Vec::<usize>::new());
    assert_eq!(pending_migrations(0, &[5]), Vec::<usize>::new());
    // Once the pending ones are recorded, nothing is left to run.
    let first = pending_migrations(5, &[1, 3]);
    let mut done: Vec<i64> = vec![1, 3];
    done.extend(first.iter().map(|&n| n as i64));
    assert_eq!(pending_migrations(5, &done), Vec::<usize>::new());
}

#[test]
fn writes_are_cut_into_transactions() {
    assert_eq!(chunk_ranges(0, 1000), Vec::<(usize, usize)>::new());
    assert_eq!(chunk_ranges(10, 4), vec![(0, 4), (4, 8), (8, 10)]);
    assert_eq!(chunk_ranges(8, 4), vec![(0, 4), (4, 8)]);
    assert_eq!(chunk_ranges(3, 1000), vec![(0, 3)]);
}

#[test]
fn writer_notices() {
    assert!(DbWriterRequest::Shutdown.is_shutdown());
    let tags = DbWriterRequest::UpsertTags { plugin_id: PluginId::wrap(1), tags: vec![Tag::new("a", None, None)] };
    assert!(!tags.is_shutdown());
    assert_eq!(tags.notice(WorkId::wrap(0)), WriteNotice::TagsWereRefreshed);
    let works = DbWriterRequest::UpsertWorks { plugin_id: PluginId::wrap(1), for_tag: "sky".to_string(), works: vec![] };
    assert_eq!(works.notice(WorkId::wrap(0)), WriteNotice::WorksWereUpdatedForTag("sky".to_string()));
    let paths = DbWriterRequest::SetWorkDownloadPaths {
        screen_url: "https://x/s.jpg".to_string(),
        preview_path: "ab/cd.jpg".to_string(),
        screen_path: "ef/01.jpg".to_string(),
        archive_path: None,
    };
    assert_eq!(
        paths.notice(WorkId::wrap(42)),
        WriteNotice::WorkDownloadCompleted(WorkId::wrap(42), "ab/cd.jpg".to_string(), "ef/01.jpg".to_string(), None)
    );
    let fav = DbWriterRequest::SetWorkFavorite { work_id: WorkId::wrap(7), favorite: true };
    assert_eq!(fav.notice(WorkId::wrap(0)), WriteNotice::WorkFavoriteStatusChanged(WorkId::wrap(7), true));
    let hid = DbWriterRequest::SetWorkHidden { work_id: WorkId::wrap(7), hidden: false };
    assert_eq!(hid.notice(WorkId::wrap(0)), WriteNotice::WorkHiddenStatusChanged(WorkId::wrap(7), false));
    let tfav = DbWriterRequest::SetTagFavorite { tag_id: TagId::wrap(3), favorite: false };
    assert_eq!(tfav.notice(WorkId::wrap(0)), WriteNotice::TagFavoriteStatusChanged(TagId::wrap(3), false));
    let thid = DbWriterRequest::SetTagHidden { tag_id: TagId::wrap(3), hidden: true };
    assert_eq!(thid.notice(WorkId::wrap(0)), WriteNotice::TagHiddenStatusChanged(TagId::wrap(3), true));
    assert!(download_paths_complete("u", "p", "s"));
    assert!(!download_paths_complete("u", "", "s"));
    assert!(!download_paths_complete("", "p", "s"));
}

#[test]
fn cached_answers_last_until_the_database_changes() {
    let mut pool: CachingPool<String, u32> = CachingPool::new();
    assert_eq!(pool.cached_tag_count("a"), None);
    pool.store_tag_count("a", 12);
    assert_eq!(pool.cached_tag_count("a"), Some(12));
    assert_eq!(pool.cached_tag_count("b"), None);

    pool.store_tags_list("a", 0, 2, vec!["x".to_string(), "y".to_string()]);
    assert_eq!(pool.cached_tags_list("a", 0, 2), Some(&vec!["x".to_string(), "y".to_string()]));
    assert_eq!(pool.cached_tags_list("a", 0, 3), None);

    pool.store_plugins_for_tag("sky", vec!["Met".to_string()]);
    pool.store_plugins_for_tag("sea", vec![]);
    assert_eq!(pool.cached_plugins_for_tag("sky"), Some(&vec!["Met".to_string()]));
    assert_eq!(pool.cached_plugins_for_tag("sea"), Some(&vec![]));
    assert_eq!(pool.cached_plugins_for_tag("land"), None);

    let sel = names(&["sky"], &["sea"]);
    pool.store_works_count(&sel, 5);
    assert_eq!(pool.cached_works_count(&names(&["sky"], &["sea"])), Some(5));
    assert_eq!(pool.cached_works_count(&names(&["sky"], &[])), None);
    pool.store_works_list(0, 2, &sel, vec![10, 11]);
    assert_eq!(pool.cached_works_list(0, 2, &sel), Some(&vec![10, 11]));
    assert_eq!(pool.cached_works_list(1, 2, &sel), None);

    pool.store_work(9, 99);
    assert_eq!(pool.cached_work(9), Some(&99));
    assert_eq!(pool.cached_work(8), None);

    pool.bump_generation();
    assert_eq!(pool.cached_tag_count("a"), None);
    assert_eq!(pool.cached_tags_list("a", 0, 2), None);
    assert_eq!(pool.cached_plugins_for_tag("sky"), None);
    assert_eq!(pool.cached_works_count(&sel), None);
    assert_eq!(pool.cached_works_list(0, 2, &sel), None);
    assert_eq!(pool.cached_work(9), None);
}

#[test]
fn name_sets_copy_and_compare() {
    let a = names(&["b", "a"], &["c"]);
    let c = a.copy();
    assert!(a.same_selection(&c));
    assert_eq!(c.summary(), a.summary());
    assert!(!a.same_selection(&names(&["a"], &["c"])));
}

#[test]
fn works_carry_what_they_were_built_with() {
    let w = Work::new("Wheat", CivilDate::new(1889, 6, 1), "p.jpg", "s.jpg", vec!["wheat".to_string()])
        .with_remote_id("436535")
        .with_archive_url("a.tif")
        .with_history(History::new().with_begin_year(1889))
        .with_location(Location::new().with_room("822"));
    assert_eq!(w.name(), "Wheat");
    assert_eq!(w.date(), CivilDate::new(1889, 6, 1));
    assert_eq!(w.preview_url(), "p.jpg");
    assert_eq!(w.screen_url(), "s.jpg");
    assert_eq!(w.remote_id(), Some("436535"));
    assert_eq!(w.archive_url(), Some("a.tif"));
    assert_eq!(w.tags(), &["wheat".to_string()]);
    assert_eq!(w.history().unwrap().begin_year(), Some(1889));
    assert_eq!(w.location().unwrap().room(), Some("822"));
}

#[test]
fn demonstration_works_carry_the_tag() {
    let works = artchiver::demo::demo_works("sunset");
    assert_eq!(works.len(), 3);
    let names: Vec<&str> = works.iter().map(|w| w.name()).collect();
    assert_eq!(names, vec!["Demo Work 01", "Demo Work 02", "Demo Work 03"]);
    assert_eq!(works[2].date(), CivilDate::new(2022, 1, 3));
    assert_eq!(works[0].tags(), &["sunset".to_string(), "Nyan_Cat".to_string()]);
    assert!(works[1].preview_url().ends_with("/220"));
    assert!(works[1].screen_url().ends_with("/1024"));
}

#[test]
fn after_the_pending_migrations_every_one_is_recorded() {
    let finished: Vec<i64> = vec![4, 0];
    let pending = pending_migrations(6, &finished);
    assert_eq!(pending, vec![1, 2, 3, 5]);
    let mut recorded = finished.clone();
    recorded.extend(pending.iter().map(|&n| n as i64));
    for n in 0..6i64 {
        assert!(recorded.contains(&n));
    }
    assert!(pending_migrations(6, &recorded).is_empty());
}

#[test]
fn physical_data_of_a_work() {
    let p = PhysicalData::new().with_medium("Oil on canvas").with_dimensions_display("73.7 x 92.1 cm");
    assert_eq!(p.medium(), Some("Oil on canvas"));
    assert_eq!(p.dimensions_display(), Some("73.7 x 92.1 cm"));
    assert_eq!(p.inscription(), None);
    let mut q = PhysicalData::default();
    q.set_inscription("signed lower left");
    q.set_markings("stamp");
    q.set_watermarks("crown");
    assert_eq!(q.inscription(), Some("signed lower left"));
    assert_eq!(q.markings(), Some("stamp"));
    assert_eq!(q.watermarks(), Some("crown"));
    assert_eq!(q.medium(), None);
    let w = Work::new("Starry Night", CivilDate::new(1889, 6, 1), "p.jpg", "s.jpg", vec![]);
    assert!(w.physical_data().is_none());
    let w = w.with_physical_data(p);
    assert_eq!(w.physical_data().unwrap().medium(), Some("Oil on canvas"));
    assert!(physical_from_columns(None, None, None, None, None).is_none());
    let read = physical_from_columns(Some("Bronze"), None, None, Some(""), None).unwrap();
    assert_eq!(read.medium(), Some("Bronze"));
    assert_eq!(read.markings(), Some(""));
    assert_eq!(read.dimensions_display(), None);
}
