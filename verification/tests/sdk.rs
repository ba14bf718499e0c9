use artchiver::db::{parse_tag_ids, read_civil_date, report_slow_query, stored_date_text, CivilDate, DbPlugin, DbTag, DbWork, OrderDir, TagId};
use artchiver::num::{format_i64, format_u64, parse_i16, parse_i64};
use artchiver::sdk::{Location, PluginMetadata, Request, Tag, TagKind, TextFetchError};

fn chars(s: &str) -> Vec<char> {
    s.chars().collect()
}

fn text(v: Vec<char>) -> String {
    v.into_iter().collect()
}

#[test]
fn tag_kind_names_round_trip() {
    for k in [TagKind::Default, TagKind::Artist, TagKind::Character, TagKind::Series, TagKind::Copyright, TagKind::Meta] {
        assert_eq!(TagKind::from_name(k.name()), k);
    }
    assert_eq!(TagKind::Artist.name(), "artist");
    assert_eq!(TagKind::Location.name(), "default");
    assert_eq!(TagKind::from_name("unknown"), TagKind::Default);
    assert_eq!(TagKind::default_kind(), TagKind::Default);
}

#[test]
fn request_urls_encode_query_values() {
    let r = Request::get("https://api.example.org")
        .in_path("/v1/objects")
        .append_path_segment("42")
        .add_query("q", "a b&c")
        .add_query("lang", "fr\u{e9}")
        .add_header("Accept", "text/plain");
    assert_eq!(r.to_url(), "https://api.example.org/v1/objects/42?q=a%20b%26c&lang=fr%C3%A9");
    assert_eq!(r.headers().to_vec(), vec![("Accept".to_string(), "text/plain".to_string())]);
    let plain = Request::get("https://x.org").append_path_segment("a").append_path_segment("b");
    assert_eq!(plain.to_url(), "https://x.org/a/b");
    // The segment joins the path, not the base url.
    let slash = Request::get("https://x.org/").append_path_segment("a");
    assert_eq!(slash.to_url(), "https://x.org//a");
    let unreserved = Request::get("u").add_query("k", "A-z_0.9~");
    assert_eq!(unreserved.to_url(), "u?k=A-z_0.9~");
}

#[test]
fn plugin_metadata_configuration() {
    let mut m = PluginMetadata::new("Demo", "0.1", "A demo")
        .with_rate_limit_ms(5, 2000)
        .with_configuration("api_key")
        .with_configuration("user");
    assert_eq!(m.name(), "Demo");
    assert_eq!(m.version(), "0.1");
    assert_eq!(m.description(), "A demo");
    assert_eq!(m.rate_limit(), 5);
    assert_eq!(m.rate_window_ms(), 2000);
    assert_eq!(m.rate_window(), std::time::Duration::from_millis(2000));
    m.set_config_value("user", "me");
    m.apply_saved_configuration(&[("api_key".to_string(), "SECRET-REDACTED".to_string()), ("gone".to_string(), "x".to_string())]);
    assert_eq!(
        m.configurations().to_vec(),
        vec![("api_key".to_string(), "SECRET-REDACTED".to_string()), ("user".to_string(), "me".to_string())]
    );
}

#[test]
fn tags_compare_by_name() {
    let a = Tag::new("cat", Some(3), Some("https://wiki/cat")).with_kind(TagKind::Character);
    let b = Tag::new("cat", None, None);
    assert!(a == b);
    assert_eq!(a.presumed_work_count(), 3);
    assert_eq!(b.presumed_work_count(), 0);
    assert_eq!(a.kind(), TagKind::Character);
    assert_eq!(a.wiki_url(), Some("https://wiki/cat"));
    assert!(Tag::new("dog", None, None) != b);
}

#[test]
fn fetch_errors_from_their_parts() {
    assert!(matches!(TextFetchError::from_ureq_parts(Some(404), "x".to_string()), TextFetchError::HttpError(404)));
    assert!(matches!(TextFetchError::from_ureq_parts(None, "boom".to_string()), TextFetchError::HostError(ref s) if s == "boom"));
    let e = TextFetchError::from_io_error(std::io::Error::new(std::io::ErrorKind::Other, "disk"));
    assert!(matches!(e, TextFetchError::IoError(_)));
    let e = TextFetchError::from_ureq_error(ureq::Error::StatusCode(503));
    assert!(matches!(e, TextFetchError::HttpError(503)));
}

#[test]
fn decimal_numbers() {
    assert_eq!(parse_i64(&chars("-42")), Some(-42));
    assert_eq!(parse_i64(&chars("+7")), Some(7));
    assert_eq!(parse_i64(&chars("9223372036854775807")), Some(i64::MAX));
    assert_eq!(parse_i64(&chars("9223372036854775808")), None);
    assert_eq!(parse_i64(&chars("-9223372036854775808")), Some(i64::MIN));
    assert_eq!(parse_i64(&chars("")), None);
    assert_eq!(parse_i64(&chars("-")), None);
    assert_eq!(parse_i64(&chars("1a")), None);
    assert_eq!(parse_i16(&chars("32767")), Some(32767));
    assert_eq!(parse_i16(&chars("32768")), None);
    assert_eq!(text(format_u64(0)), "0");
    assert_eq!(text(format_u64(1234)), "1234");
    assert_eq!(text(format_i64(-905)), "-905");
    assert_eq!(text(format_i64(i64::MIN)), "-9223372036854775808");
}

#[test]
fn database_rows() {
    let t = DbTag::from_columns(9, "cat", "character", 30, false, true, Some("https://wiki"), "Met,NGA");
    assert_eq!(t.id(), TagId::wrap(9));
    assert_eq!(t.name(), "cat");
    assert_eq!(t.kind(), TagKind::Character);
    assert_eq!(t.network_count(), 30);
    assert_eq!(t.local_count(), None);
    assert!(t.favorite());
    assert!(!t.hidden());
    assert_eq!(t.wiki_url(), Some("https://wiki"));
    assert_eq!(t.sources().to_vec(), vec!["Met".to_string(), "NGA".to_string()]);

    let ids = parse_tag_ids("3,14,15").unwrap();
    assert_eq!(ids, vec![TagId::wrap(3), TagId::wrap(14), TagId::wrap(15)]);
    assert!(parse_tag_ids("3,x").is_none());
    assert!(parse_tag_ids("").is_none());

    let p = DbPlugin::new(4, "Met".to_string(), vec![("k".to_string(), "v".to_string())]);
    assert_eq!(p.id().to_i64(), 4);
    assert_eq!(p.name(), "Met");
    assert_eq!(p.configs().len(), 1);

    let mut w = DbWork::new(1, "Sunflowers", 0, CivilDate::new(1888, 8, 1), false, false, "p", "s", None, None, None, None, vec![]);
    assert_eq!(w.favorite_annotation(), "");
    w.set_favorite(true);
    assert_eq!(w.favorite_annotation(), "\u{2728}");
    w.set_paths("a/b/p.jpg".to_string(), "a/b/s.jpg".to_string(), None);
    assert_eq!(w.screen_path(), Some("a/b/s.jpg"));
    assert!(CivilDate::new(1888, 8, 1).is_before(&CivilDate::new(1888, 8, 2)));
    assert!(!CivilDate::new(1889, 1, 1).is_before(&CivilDate::new(1888, 12, 31)));
    let w = w.with_location(Some(Location::new().with_room("822")));
    assert_eq!(w.location().unwrap().room(), Some("822"));
}

#[test]
fn slow_queries() {
    assert_eq!(report_slow_query(0, 30_000_000, "one", "SELECT 1"), None);
    assert_eq!(
        report_slow_query(0, 30_000_001, "works_list", "SELECT *\n            FROM works"),
        Some(("Slow query works_list took 30.000001ms".to_string(), "SELECT *  FROM works".to_string()))
    );
    let (warning, _) = report_slow_query(2, 500_000_000, "tags", "SELECT 1").unwrap();
    assert_eq!(warning, "Slow query tags took 2.5s");
    assert_eq!(OrderDir::Asc.as_sql(), "ASC");
    assert_eq!(OrderDir::Desc.as_sql(), "DESC");
}

#[test]
fn rate_windows_in_milliseconds() {
    let m = PluginMetadata::new("NGA", "0.0.1", "desc");
    assert_eq!(m.rate_limit(), 1);
    assert_eq!(m.rate_window(), std::time::Duration::from_millis(1));
    let with_key = m.with_configuration("api_key");
    assert_eq!(with_key.rate_window(), std::time::Duration::from_millis(1));
    let limited = PluginMetadata::new("nga", "0.0.1", "d").with_rate_limit_ms(3, 2500);
    assert_eq!(limited.rate_limit(), 3);
    assert_eq!(limited.rate_window(), std::time::Duration::from_millis(2500));
    assert_eq!(limited.rate_window(), std::time::Duration::from_secs_f64(2.5));
}

#[test]
fn stored_dates_as_jiff_writes_and_reads_them() {
    assert_eq!(stored_date_text(&CivilDate::new(1889, 6, 1)).unwrap(), "1889-06-01");
    assert_eq!(stored_date_text(&CivilDate::new(7, 12, 25)).unwrap(), "0007-12-25");
    assert_eq!(stored_date_text(&CivilDate::new(-44, 3, 15)).unwrap(), "-000044-03-15");
    assert!(stored_date_text(&CivilDate::new(2023, 2, 29)).is_none());
    assert!(stored_date_text(&CivilDate::new(2024, 13, 1)).is_none());
    assert_eq!(read_civil_date("1889-06-01"), Some(CivilDate::new(1889, 6, 1)));
    assert_eq!(read_civil_date("-000044-03-15"), Some(CivilDate::new(-44, 3, 15)));
    assert_eq!(read_civil_date("2024-02-29"), Some(CivilDate::new(2024, 2, 29)));
    assert_eq!(read_civil_date("2023-02-29"), None);
    assert_eq!(read_civil_date("not a date"), None);
    for d in [CivilDate::new(2024, 2, 29), CivilDate::new(-9999, 1, 1), CivilDate::new(9999, 12, 31), CivilDate::new(0, 1, 1)] {
        let text = stored_date_text(&d).unwrap();
        assert_eq!(read_civil_date(&text), Some(d));
    }
}
