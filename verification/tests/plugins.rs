use artchiver::db::{CivilDate, DbPlugin, PluginId};
use artchiver::met::{
    after_object_fetch_error, build_object_work, get_record_tags, object_has_tag_exec, room_tag_for_gallery_number,
    trim_chars, work_date_for_year, MetObjectInfo, ObjectFetchStep,
};
use artchiver::plugin_state::{queue_works_refresh, LogLevel, PluginHandle, PluginRequest, PluginUpdate, Progress, UpdateSource, UxDb};
use artchiver::sdk::{PluginMetadata, TextFetchError};
use artchiver::throttle::{CallingThrottle, ThrottleStep};
use std::time::{Duration, Instant};

fn loaded(source: &str, id: i64, name: &str) -> PluginHandle {
    let mut h = PluginHandle::new(source.to_string());
    h.on_plugin_info(source, DbPlugin::new(id, name.to_string(), vec![]), PluginMetadata::new(name, "1.0", "desc"));
    h
}

#[test]
fn plugin_requests_describe_themselves() {
    assert_eq!(PluginRequest::RefreshTags.describe(), "Refresh Tags");
    assert_eq!(PluginRequest::Shutdown.describe(), "Shutdown");
    assert_eq!(PluginRequest::ApplyConfiguration { config: vec![] }.describe(), "Apply Configuration");
    let r = PluginRequest::RefreshWorksForTag { tag: "Cat".to_string() };
    assert_eq!(r.describe(), "Get Works for Tag Cat");
    assert!(r.same_as(&r.copy()));
    assert!(!r.same_as(&PluginRequest::RefreshTags));
    assert_eq!(LogLevel::from_plugin_level(0), LogLevel::Trace);
    assert_eq!(LogLevel::from_plugin_level(3), LogLevel::Warn);
    assert_eq!(LogLevel::from_plugin_level(9), LogLevel::Error);
}

#[test]
fn plugin_handles_work_one_request_at_a_time() {
    let mut h = PluginHandle::new("/plugins/nga.wasm".to_string());
    assert_eq!(h.name(), "/plugins/nga.wasm");
    assert_eq!(h.version(), "not yet loaded");
    assert_eq!(h.description(), "not yet loaded");
    assert_eq!(h.id(), None);
    h.on_plugin_info("/plugins/other.wasm", DbPlugin::new(1, "x".to_string(), vec![]), PluginMetadata::new("x", "1", "d"));
    assert_eq!(h.id(), None);
    h.on_plugin_info(
        "/plugins/nga.wasm",
        DbPlugin::new(7, "NGA".to_string(), vec![]),
        PluginMetadata::new("The National Gallery of Art", "0.2", "NGA open data").with_configuration("key"),
    );
    assert_eq!(h.id(), Some(PluginId::wrap(7)));
    assert_eq!(h.name(), "The National Gallery of Art");
    assert_eq!(h.version(), "0.2");

    h.refresh_tags();
    h.refresh_works_for_tag("Cat");
    assert_eq!(h.task_queue_len(), 2);
    let first = h.start_next_task().unwrap();
    assert_eq!(first.describe(), "Refresh Tags");
    assert_eq!(h.active_task().unwrap().describe(), "Refresh Tags");
    // Busy: nothing more starts until the plugin reports completion.
    assert!(h.start_next_task().is_none());
    h.on_completed_task(UpdateSource::Plugin(PluginId::wrap(8)));
    assert!(h.start_next_task().is_none());
    h.on_completed_task(UpdateSource::Plugin(PluginId::wrap(7)));
    assert!(h.active_task().is_none());
    assert_eq!(h.start_next_task().unwrap().describe(), "Get Works for Tag Cat");
    assert!(h.start_next_task().is_none());

    h.on_progress(UpdateSource::Plugin(PluginId::wrap(7)), Progress::Percent { current: 1, total: 4 });
    assert_eq!(h.progress(), Progress::Percent { current: 1, total: 4 });
    h.on_progress(UpdateSource::DbWriter, Progress::Spinner);
    assert_eq!(h.progress(), Progress::Percent { current: 1, total: 4 });

    match h.configuration_request() {
        PluginRequest::ApplyConfiguration { config } => assert_eq!(config, vec![("key".to_string(), String::new())]),
        _ => panic!("expected a configuration request"),
    }
}

#[test]
fn plugin_logs_keep_the_newest_fifty() {
    let mut h = loaded("/p/a.wasm", 3, "A");
    for i in 0..60 {
        h.on_log(UpdateSource::Plugin(PluginId::wrap(3)), LogLevel::Info, format!("line {i}"));
    }
    h.on_log(UpdateSource::Unknown, LogLevel::Info, "elsewhere".to_string());
    let log = h.log_messages();
    assert_eq!(log.len(), 50);
    assert_eq!(log[0].1, "line 59");
    assert_eq!(log[49].1, "line 10");
}

#[test]
fn editing_the_task_queue() {
    let mut h = loaded("/p/a.wasm", 3, "A");
    h.refresh_works_for_tag("a");
    h.refresh_works_for_tag("b");
    h.refresh_tags();
    h.swap_task_queue_items(0, 2);
    let labels: Vec<String> = h.task_queue().iter().map(|r| r.describe()).collect();
    assert_eq!(labels, vec!["Refresh Tags", "Get Works for Tag b", "Get Works for Tag a"]);
    h.remove_queued_request(&PluginRequest::RefreshWorksForTag { tag: "b".to_string() });
    h.remove_queued_task(5);
    assert_eq!(h.task_queue_len(), 2);
    h.remove_queued_task(0);
    assert_eq!(h.task_queue()[0].describe(), "Get Works for Tag a");
    h.clear_queued_tasks();
    assert_eq!(h.task_queue_len(), 0);
}

#[test]
fn works_refresh_goes_to_the_tags_plugins() {
    let mut plugins = vec![loaded("/p/a.wasm", 1, "A"), loaded("/p/b.wasm", 2, "B"), PluginHandle::new("/p/c.wasm".to_string())];
    queue_works_refresh(&mut plugins, "Cat", &[PluginId::wrap(2), PluginId::wrap(5)]);
    assert_eq!(plugins[0].task_queue_len(), 0);
    assert_eq!(plugins[1].task_queue_len(), 1);
    assert_eq!(plugins[1].task_queue()[0].describe(), "Get Works for Tag Cat");
    assert_eq!(plugins[2].task_queue_len(), 0);
}

#[test]
fn database_panel_keeps_twenty_writer_messages() {
    let mut db = UxDb::new();
    for i in 0..25 {
        db.on_log(UpdateSource::DbWriter, format!("m{i}"));
    }
    db.on_log(UpdateSource::DbReader, "ignored".to_string());
    assert_eq!(db.messages().len(), 20);
    assert_eq!(db.messages()[0], "m24");
    db.on_progress(UpdateSource::DbWriter, Progress::Spinner);
    assert_eq!(db.progress(), Progress::Spinner);
    db.on_progress(UpdateSource::Unknown, Progress::Idle);
    assert_eq!(db.progress(), Progress::Spinner);
}

/// Runs `calls` calls through a throttle on a simulated clock; returns the clock at the end.
fn simulate(throttle: &mut CallingThrottle, calls: usize) -> u64 {
    let mut now = 0u64;
    for _ in 0..calls {
        loop {
            match throttle.step(now) {
                ThrottleStep::Admitted => break,
                ThrottleStep::Wait(d) => now += d,
            }
        }
    }
    now
}

/// Runs one call through a throttle on the real clock, spinning while it must wait.
fn throttle_now(throttle: &mut CallingThrottle, start: Instant) {
    loop {
        let now = start.elapsed().as_nanos() as u64;
        match throttle.step(now) {
            ThrottleStep::Admitted => return,
            ThrottleStep::Wait(d) => {
                let until = Duration::from_nanos(now + d);
                while start.elapsed() < until {}
            }
        }
    }
}

#[test]
fn test_throttle() {
    let mut throttle = CallingThrottle::new(30, 1_000_000_000);
    let start = Instant::now();
    for _ in 0..100 {
        throttle_now(&mut throttle, start);
    }
    assert!(start.elapsed() > Duration::from_secs(3));
}

#[test]
fn test_throttle_window() {
    let mut throttle = CallingThrottle::new(1, 2_000_000_000);
    let start = Instant::now();
    for _ in 0..3 {
        throttle_now(&mut throttle, start);
    }
    assert!(start.elapsed() > Duration::from_secs(3));
}

#[test]
fn throttle_on_a_simulated_clock() {
    // Thirty calls per second: the hundredth call goes at the third second.
    assert_eq!(simulate(&mut CallingThrottle::new(30, 1_000_000_000), 100), 3_000_000_000);
    // One call per two seconds: the third goes at the fourth second.
    assert_eq!(simulate(&mut CallingThrottle::new(1, 2_000_000_000), 3), 4_000_000_000);
    let mut t = CallingThrottle::default_throttle();
    assert_eq!(simulate(&mut t, 10), 0);
    assert_eq!(t.step(500_000_000), ThrottleStep::Wait(500_000_000));
}

#[test]
fn met_room_and_record_tags() {
    assert_eq!(room_tag_for_gallery_number(""), None);
    assert_eq!(room_tag_for_gallery_number("822"), Some("The Met Room 822".to_string()));
    assert_eq!(room_tag_for_gallery_number("007"), Some("The Met Room 7".to_string()));
    assert_eq!(room_tag_for_gallery_number("-3"), Some("The Met Room -3".to_string()));
    assert_eq!(room_tag_for_gallery_number(" Great Hall "), Some("The Met Great Hall".to_string()));
    assert_eq!(room_tag_for_gallery_number("99999"), Some("The Met 99999".to_string()));
    let t: String = trim_chars(&"\t a b \u{3000}".chars().collect::<Vec<char>>()).into_iter().collect();
    assert_eq!(t, "a b");
    assert_eq!(
        get_record_tags("Cats|Dogs||Birds", "w1|w2|w3"),
        vec![
            ("Cats".to_string(), "w1".to_string()),
            ("Dogs".to_string(), "w2".to_string()),
            ("Birds".to_string(), "w3".to_string())
        ]
    );
    assert_eq!(get_record_tags("Cats|Dogs", "w1"), vec![("Cats".to_string(), "w1".to_string())]);
    assert!(object_has_tag_exec("On Display", "False", "False", "822", "", ""));
    assert!(!object_has_tag_exec("On Display", "False", "False", "", "", ""));
    assert!(object_has_tag_exec("Met Highlight", "True", "False", "", "", ""));
    assert!(object_has_tag_exec("Met Timeline", "False", "True", "", "", ""));
    assert!(object_has_tag_exec("The Met Room 822", "False", "False", "822", "", ""));
    assert!(object_has_tag_exec("Dogs", "False", "False", "", "Cats|Dogs", "w1|w2"));
    assert!(!object_has_tag_exec("Dogs", "False", "False", "", "Cats|Dogs", "w1"));
}

#[test]
fn met_objects_become_works() {
    let o = MetObjectInfo {
        object_id: 436535,
        is_highlight: true,
        is_timeline_work: false,
        primary_image: "https://images.metmuseum.org/a b.jpg".to_string(),
        primary_image_small: "https://images.metmuseum.org/small a b.jpg".to_string(),
        tags: vec!["Flowers".to_string()],
        title: "Wheat Field with Cypresses".to_string(),
        object_begin_date: 1889,
        object_end_date: 1889,
        artist_display_name: "Vincent van Gogh".to_string(),
        artist_alpha_sort: "Gogh, Vincent van".to_string(),
        object_date: "1889".to_string(),
        rights_and_reproduction: String::new(),
        credit_line: "Purchase, 1993".to_string(),
        gallery_number: "822".to_string(),
    };
    let w = build_object_work(436535, &o).unwrap();
    assert_eq!(w.name(), "Wheat Field with Cypresses");
    assert_eq!(w.date(), CivilDate::new(1889, 1, 1));
    assert_eq!(w.screen_url(), "https://images.metmuseum.org/a%20b.jpg");
    assert_eq!(w.preview_url(), "https://images.metmuseum.org/small%20a%20b.jpg");
    assert_eq!(w.remote_id(), Some("436535"));
    assert_eq!(
        w.tags().to_vec(),
        vec!["Flowers".to_string(), "Met Highlight".to_string(), "On Display".to_string(), "The Met Room 822".to_string()]
    );
    let h = w.history().unwrap();
    assert_eq!(h.begin_year(), Some(1889));
    assert_eq!(h.attribution(), Some("Vincent van Gogh"));
    assert_eq!(h.provenance(), None);
    assert_eq!(h.credit_line(), Some("Purchase, 1993"));
    let l = w.location().unwrap();
    assert_eq!(l.custody(), Some("The Metropolitan Gallery of Art"));
    assert_eq!(l.room(), Some("822"));

    let mut no_image = o;
    no_image.primary_image = String::new();
    assert!(build_object_work(1, &no_image).is_none());

    assert_eq!(work_date_for_year(-500), CivilDate::new(-500, 1, 1));
    assert_eq!(work_date_for_year(12345), CivilDate::new(0, 1, 1));
}

#[test]
fn updates_are_applied_in_order_then_the_next_request_starts() {
    let mut h = PluginHandle::new("/plugins/met.wasm".to_string());
    h.refresh_tags();
    h.refresh_works_for_tag("Boats");
    let me = UpdateSource::Plugin(PluginId::wrap(3));
    let started = h.handle_updates(vec![
        PluginUpdate::PluginInfo {
            source: "/plugins/met.wasm".to_string(),
            record: DbPlugin::new(3, "Met".to_string(), vec![]),
            metadata: PluginMetadata::new("The Met", "1", "d"),
        },
        PluginUpdate::Log { source: me, level: LogLevel::Info, message: "first".to_string() },
        PluginUpdate::Log { source: UpdateSource::DbWriter, level: LogLevel::Info, message: "not mine".to_string() },
        PluginUpdate::Log { source: me, level: LogLevel::Warn, message: "second".to_string() },
        PluginUpdate::Progress { source: me, progress: Progress::Spinner },
        PluginUpdate::Other,
    ]);
    assert_eq!(started.unwrap().describe(), "Refresh Tags");
    assert_eq!(h.active_task().unwrap().describe(), "Refresh Tags");
    assert_eq!(h.task_queue_len(), 1);
    let log: Vec<&str> = h.log_messages().iter().map(|(_, m)| m.as_str()).collect();
    assert_eq!(log, vec!["second", "first"]);
    assert_eq!(h.progress(), Progress::Spinner);
    // Busy: no new request starts until the plugin reports completion.
    assert!(h.handle_updates(vec![PluginUpdate::Other]).is_none());
    let next = h.handle_updates(vec![PluginUpdate::CompletedTask { source: me }]);
    assert_eq!(next.unwrap().describe(), "Get Works for Tag Boats");
    assert_eq!(h.task_queue_len(), 0);
}

#[test]
fn eleven_calls_span_a_second() {
    let mut t = CallingThrottle::default_throttle();
    let mut times = Vec::new();
    let mut now: u64 = 0;
    while times.len() < 25 {
        match t.step(now) {
            ThrottleStep::Admitted => times.push(now),
            ThrottleStep::Wait(d) => now += d,
        }
        now += 7_000_000;
    }
    for i in 0..times.len() - 10 {
        assert!(times[i + 10] >= times[i] + 1_000_000_000);
    }
}

#[test]
fn ids_as_text() {
    assert_eq!(artchiver::db::TagId::wrap(42).to_text(), "42");
    assert_eq!(artchiver::db::TagId::wrap(-7).to_text(), "-7");
    assert_eq!(PluginId::wrap(3).to_text(), "PluginId(3)");
}

#[test]
fn the_newest_own_log_line_comes_first() {
    let mut h = PluginHandle::new("/plugins/nga.wasm".to_string());
    let me = UpdateSource::Plugin(PluginId::wrap(4));
    // Before the plugin's record is known, its lines are not its own yet.
    h.handle_updates(vec![PluginUpdate::Log { source: me, level: LogLevel::Info, message: "early".to_string() }]);
    assert!(h.log_messages().is_empty());
    h.handle_updates(vec![
        PluginUpdate::PluginInfo {
            source: "/plugins/nga.wasm".to_string(),
            record: DbPlugin::new(4, "NGA".to_string(), vec![]),
            metadata: PluginMetadata::new("NGA", "0.0.1", "desc"),
        },
        PluginUpdate::Log { source: me, level: LogLevel::Error, message: "newest".to_string() },
        PluginUpdate::Log { source: UpdateSource::Plugin(PluginId::wrap(5)), level: LogLevel::Info, message: "other".to_string() },
        PluginUpdate::Progress { source: me, progress: Progress::Spinner },
        PluginUpdate::CompletedTask { source: me },
    ]);
    assert_eq!(h.log_messages().len(), 1);
    assert_eq!(h.log_messages()[0].1, "newest");
    // Without a line of its own, the log stays as it was.
    h.handle_updates(vec![PluginUpdate::Log { source: UpdateSource::DbReader, level: LogLevel::Warn, message: "db".to_string() }]);
    assert_eq!(h.log_messages().len(), 1);
    assert_eq!(h.log_messages()[0].1, "newest");
    // Many lines: the newest first, fifty kept.
    let many: Vec<PluginUpdate> = (0..60)
        .map(|i| PluginUpdate::Log { source: me, level: LogLevel::Info, message: format!("line {i}") })
        .collect();
    h.handle_updates(many);
    assert_eq!(h.log_messages().len(), 50);
    assert_eq!(h.log_messages()[0].1, "line 59");
    assert_eq!(h.log_messages()[49].1, "line 10");
}

#[test]
fn met_object_fetch_failures() {
    match after_object_fetch_error(436535, TextFetchError::HttpError(404)) {
        ObjectFetchStep::Skip(line) => assert_eq!(line, "Failed to fetch object info for 436535: HTTP 404"),
        ObjectFetchStep::Stop(_) => panic!("an HTTP status skips the object"),
    }
    match after_object_fetch_error(-7, TextFetchError::HttpError(500)) {
        ObjectFetchStep::Skip(line) => assert_eq!(line, "Failed to fetch object info for -7: HTTP 500"),
        ObjectFetchStep::Stop(_) => panic!("an HTTP status skips the object"),
    }
    assert!(matches!(after_object_fetch_error(1, TextFetchError::Timeout), ObjectFetchStep::Stop(TextFetchError::Timeout)));
    assert!(matches!(
        after_object_fetch_error(1, TextFetchError::HostError("down".to_string())),
        ObjectFetchStep::Stop(TextFetchError::HostError(m)) if m == "down"
    ));
    assert!(matches!(after_object_fetch_error(1, TextFetchError::Cancellation), ObjectFetchStep::Stop(TextFetchError::Cancellation)));
}
