use artchiver::met::{met_objects_by_id, met_tags, object_ids_with_tag, MetObjectRow};
use artchiver::sdk::{Tag, TagKind};
use artchiver::tag_tally::{sort_tags_by_name, tally_tags};

fn summary(tags: &[Tag]) -> Vec<(String, u64, Option<String>)> {
    tags.iter().map(|t| (t.name().to_string(), t.presumed_work_count(), t.wiki_url().map(str::to_string))).collect()
}

#[test]
fn tallies_count_each_name_once() {
    let tags = vec![
        Tag::new("b", None, Some("first-b")),
        Tag::new("a", Some(9), None).with_kind(TagKind::Artist),
        Tag::new("b", None, Some("second-b")),
        Tag::new("c", None, None),
        Tag::new("b", None, None),
    ];
    let t = tally_tags(&tags);
    assert_eq!(
        summary(&t),
        vec![
            ("b".to_string(), 3, Some("first-b".to_string())),
            ("a".to_string(), 1, None),
            ("c".to_string(), 1, None),
        ]
    );
    assert_eq!(t[1].kind(), TagKind::Artist);
    assert!(tally_tags(&[]).is_empty());
}

#[test]
fn sorting_by_name_keeps_equal_names_in_order() {
    let tags = vec![
        Tag::new("pear", Some(1), None),
        Tag::new("Zebra", Some(2), None),
        Tag::new("apple", Some(3), None),
        Tag::new("pear", Some(4), None),
    ];
    let sorted = sort_tags_by_name(tags);
    let got: Vec<(String, u64)> = sorted.iter().map(|t| (t.name().to_string(), t.presumed_work_count())).collect();
    assert_eq!(
        got,
        vec![("Zebra".to_string(), 2), ("apple".to_string(), 3), ("pear".to_string(), 1), ("pear".to_string(), 4)]
    );
}

fn row(highlight: bool, timeline: bool, gallery: &str, tags: &str, wiki: &str) -> MetObjectRow {
    MetObjectRow {
        object_id: 0,
        is_highlight: if highlight { "True" } else { "False" }.to_string(),
        is_timeline_work: if timeline { "True" } else { "False" }.to_string(),
        gallery_number: gallery.to_string(),
        tags: tags.to_string(),
        tags_wikidata_url: wiki.to_string(),
    }
}

#[test]
fn museum_tags_count_objects() {
    let rows = vec![
        row(true, false, "822", "Boats|Rivers", "w/boats|w/rivers"),
        row(false, true, "", "Rivers", "w/rivers2"),
        row(true, true, "822", "", ""),
        row(false, false, "Great Hall", "Boats", "w/boats"),
    ];
    let tags = met_tags(&rows);
    assert_eq!(
        summary(&tags),
        vec![
            ("Boats".to_string(), 2, Some("w/boats".to_string())),
            ("Met Highlight".to_string(), 2, None),
            ("Met Timeline".to_string(), 2, None),
            ("On Display".to_string(), 3, None),
            ("Rivers".to_string(), 2, Some("w/rivers".to_string())),
            ("The Met Great Hall".to_string(), 1, None),
            ("The Met Room 822".to_string(), 2, None),
        ]
    );
}

#[test]
fn museum_objects_carrying_a_tag() {
    let mut rows = vec![
        row(true, false, "822", "Boats|Rivers", "w/boats|w/rivers"),
        row(false, true, "", "Rivers", "w/rivers2"),
        row(true, true, "822", "", ""),
        row(false, false, "Great Hall", "Boats", "w/boats"),
    ];
    for (i, r) in rows.iter_mut().enumerate() {
        r.object_id = 100 + i as i64;
    }
    assert_eq!(object_ids_with_tag("Rivers", &rows), vec![100, 101]);
    assert_eq!(object_ids_with_tag("On Display", &rows), vec![100, 102, 103]);
    assert_eq!(object_ids_with_tag("Met Highlight", &rows), vec![100, 102]);
    assert_eq!(object_ids_with_tag("Met Timeline", &rows), vec![101, 102]);
    assert_eq!(object_ids_with_tag("The Met Room 822", &rows), vec![100, 102]);
    assert_eq!(object_ids_with_tag("The Met Great Hall", &rows), vec![103]);
    assert_eq!(object_ids_with_tag("Sea", &rows), Vec::<i64>::new());
}

#[test]
fn the_museum_table_keeps_one_row_per_object() {
    let mut first = row(true, false, "", "Cats", "https://www.wikidata.org/wiki/Q146");
    first.object_id = 10;
    let mut other = row(false, false, "", "Dogs", "https://www.wikidata.org/wiki/Q144");
    other.object_id = 11;
    let mut again = row(false, true, "", "Birds", "https://www.wikidata.org/wiki/Q5113");
    again.object_id = 10;
    let table = met_objects_by_id(vec![first, other, again]);
    assert_eq!(table.len(), 2);
    assert_eq!(table[0].object_id, 10);
    assert_eq!(table[0].tags, "Birds");
    assert_eq!(table[0].is_timeline_work, "True");
    assert_eq!(table[1].object_id, 11);
    // Only the kept row of object 10 counts.
    assert_eq!(object_ids_with_tag("Birds", &table), vec![10]);
    assert!(object_ids_with_tag("Cats", &table).is_empty());
}
