use artchiver::nga::{
    location_tag_names, object_ids_for_tag, object_location, object_tags, object_work, objects_by_id, type_to_kind, works_for_tag,
    NgaLocation, NgaObject, NgaPublishedImage, NgaTerm, NgaWork,
};
use artchiver::sdk::TagKind;

fn term(objectid: i64, termtype: &str, term: &str) -> NgaTerm {
    NgaTerm { termid: 1, objectid, termtype: termtype.to_string(), term: term.to_string() }
}

fn location(id: i64, site: &str, room: &str, description: &str) -> NgaLocation {
    NgaLocation {
        locationid: id,
        site: site.to_string(),
        room: room.to_string(),
        publicaccess: 1,
        description: description.to_string(),
        unitposition: "north wall".to_string(),
    }
}

fn object(id: i64, title: &str, year: Option<i64>, locationid: &str) -> NgaObject {
    NgaObject { objectid: id, title: title.to_string(), beginyear: year, locationid: locationid.to_string() }
}

fn image(id: i64) -> NgaPublishedImage {
    NgaPublishedImage {
        depictstmsobjectid: id,
        iiifurl: format!("https://api.nga.gov/iiif/{id}"),
        iiifthumburl: format!("https://api.nga.gov/iiif/{id}/thumb.jpg"),
    }
}

fn tables() -> (Vec<NgaTerm>, Vec<NgaLocation>, Vec<NgaObject>, Vec<NgaPublishedImage>) {
    let terms = vec![
        term(1, "Keyword", "river"),
        term(2, "Style", "Impressionism"),
        term(1, "Style", "Impressionism"),
        term(3, "Keyword", "river"),
    ];
    let locations = vec![location(10, "West Building", "M-85", "Main Floor Gallery 85"), location(11, "East Building", "", "Tower")];
    let objects = vec![
        object(1, "Water Lilies", Some(1916), "10"),
        object(2, "Haystacks", Some(1891), ""),
        object(3, "Old Bridge", None, "11"),
        object(4, "Unplaced", Some(1900), "x"),
    ];
    let images = vec![image(1), image(3)];
    (terms, locations, objects, images)
}

#[test]
fn term_types_have_kinds() {
    assert_eq!(type_to_kind("Keyword"), TagKind::Default);
    assert_eq!(type_to_kind("School"), TagKind::School);
    assert_eq!(type_to_kind("Place Executed"), TagKind::Location);
    assert_eq!(type_to_kind("Technique"), TagKind::Technique);
    assert_eq!(type_to_kind("Systematic Catalogue Volume"), TagKind::Series);
    assert_eq!(type_to_kind("Theme"), TagKind::Theme);
    assert_eq!(type_to_kind("Style"), TagKind::Style);
}

#[test]
fn locations_have_two_tags() {
    let l = location(10, "West Building", "M-85", "Main Floor Gallery 85");
    let names = location_tag_names(&l);
    assert_eq!(names[0], "NGA West Building");
    assert_eq!(names[1], "NGA Main Floor Gallery 85");
}

#[test]
fn objects_are_found_by_term_then_location_then_display() {
    let (terms, locations, objects, _) = tables();
    assert_eq!(object_ids_for_tag("river", &terms, &locations, &objects), vec![1, 3]);
    assert_eq!(object_ids_for_tag("Impressionism", &terms, &locations, &objects), vec![2, 1]);
    assert_eq!(object_ids_for_tag("NGA West Building", &terms, &locations, &objects), vec![1]);
    assert_eq!(object_ids_for_tag("NGA Tower", &terms, &locations, &objects), vec![3]);
    assert_eq!(object_ids_for_tag("On Display", &terms, &locations, &objects), vec![1, 3, 4]);
    assert_eq!(object_ids_for_tag("sea", &terms, &locations, &objects), Vec::<i64>::new());
}

#[test]
fn object_tags_and_location() {
    let (terms, locations, objects, _) = tables();
    assert_eq!(
        object_tags(&objects[0], &terms, &locations),
        vec!["river", "Impressionism", "On Display", "NGA West Building", "NGA Main Floor Gallery 85"]
    );
    assert_eq!(object_tags(&objects[1], &terms, &locations), vec!["Impressionism"]);
    let loc = object_location(&objects[0], &locations);
    assert_eq!(loc.custody(), Some("National Gallery of Art"));
    assert_eq!(loc.site(), Some("West Building"));
    assert_eq!(loc.room(), Some("M-85"));
    assert_eq!(loc.on_display(), Some(true));
    assert_eq!(loc.description(), Some("Main Floor Gallery 85"));
    assert_eq!(loc.position(), Some("north wall"));
    let bare = object_location(&objects[1], &locations);
    assert_eq!(bare.custody(), Some("National Gallery of Art"));
    assert_eq!(bare.site(), None);
}

#[test]
fn works_are_built_from_published_images() {
    let (terms, locations, objects, images) = tables();
    match object_work(&objects[0], &terms, &locations, &images) {
        NgaWork::Built(w) => {
            assert_eq!(w.name(), "Water Lilies");
            assert_eq!((w.date().year, w.date().month, w.date().day), (1916, 1, 1));
            assert_eq!(w.preview_url(), "https://api.nga.gov/iiif/1/thumb.jpg");
            assert_eq!(w.screen_url(), "https://api.nga.gov/iiif/1/full/max/0/native.jpg");
            assert_eq!(w.archive_url(), Some("https://api.nga.gov/iiif/1"));
            assert_eq!(w.remote_id(), Some("1"));
            assert_eq!(w.location().unwrap().room(), Some("M-85"));
        }
        _ => panic!("expected a work"),
    }
    assert!(matches!(object_work(&objects[1], &terms, &locations, &images), NgaWork::NoImage));
    match object_work(&objects[2], &terms, &locations, &images) {
        NgaWork::Built(w) => assert_eq!((w.date().year, w.date().month, w.date().day), (0, 1, 1)),
        _ => panic!("expected a work"),
    }
    let ancient = object(1, "Ancient", Some(-12000), "");
    assert!(matches!(object_work(&ancient, &terms, &locations, &images), NgaWork::YearOutOfRange));
    let far = object(1, "Far", Some(40000), "");
    assert!(matches!(object_work(&far, &terms, &locations, &images), NgaWork::YearOutOfRange));
    let edge = object(1, "Edge", Some(-9999), "");
    assert!(matches!(object_work(&edge, &terms, &locations, &images), NgaWork::Built(_)));
}

#[test]
fn works_for_a_tag() {
    let (terms, locations, objects, images) = tables();
    let river = works_for_tag("river", &terms, &locations, &objects, &images).unwrap();
    let names: Vec<&str> = river.iter().map(|w| w.name()).collect();
    assert_eq!(names, vec!["Water Lilies", "Old Bridge"]);
    // The haystacks have no published image and are passed over.
    let imp = works_for_tag("Impressionism", &terms, &locations, &objects, &images).unwrap();
    let names: Vec<&str> = imp.iter().map(|w| w.name()).collect();
    assert_eq!(names, vec!["Water Lilies"]);
    let mut bad = objects;
    bad[0].beginyear = Some(20000);
    assert!(works_for_tag("river", &terms, &locations, &bad, &images).is_none());
}

#[test]
fn gallery_tags_count_terms_and_locations() {
    let (terms, locations, _, _) = tables();
    let tags = artchiver::nga::nga_tags(&terms, &locations);
    let got: Vec<(String, TagKind, u64)> =
        tags.iter().map(|t| (t.name().to_string(), t.kind(), t.presumed_work_count())).collect();
    assert_eq!(
        got,
        vec![
            ("Impressionism".to_string(), TagKind::Style, 2),
            ("NGA East Building".to_string(), TagKind::Location, 1),
            ("NGA Main Floor Gallery 85".to_string(), TagKind::Location, 1),
            ("NGA Tower".to_string(), TagKind::Location, 1),
            ("NGA West Building".to_string(), TagKind::Location, 1),
            ("On Display".to_string(), TagKind::Default, 2),
            ("river".to_string(), TagKind::Default, 2),
        ]
    );
}

#[test]
fn the_object_table_keeps_the_last_row_of_an_id() {
    let rows = vec![
        object(1, "First", Some(1900), ""),
        object(2, "Two", Some(1901), "7"),
        object(1, "Again", Some(1902), "3"),
        object(3, "Three", None, ""),
        object(1, "Last", Some(1903), "4"),
    ];
    let table = objects_by_id(rows);
    let summary: Vec<(i64, &str, &str)> =
        table.iter().map(|o| (o.objectid, o.title.as_str(), o.locationid.as_str())).collect();
    assert_eq!(summary, vec![(1, "Last", "4"), (2, "Two", "7"), (3, "Three", "")]);
    assert!(objects_by_id(vec![]).is_empty());
}
