use artchiver::podcast::{episode_works, episode_works_checked, podcast_tags, tags_for_item, ItunesItem, PodcastChannel, PodcastItem};
use artchiver::sdk::TagKind;

fn item(title: Option<&str>, categories: &[&str], keywords: Option<Option<&str>>, enclosure: Option<&str>, date: Option<&str>) -> PodcastItem {
    PodcastItem {
        title: title.map(str::to_string),
        categories: categories.iter().map(|c| c.to_string()).collect(),
        itunes: keywords.map(|k| ItunesItem { keywords: k.map(str::to_string), image: None }),
        enclosure_url: enclosure.map(str::to_string),
        pub_date: date.map(str::to_string),
    }
}

fn feed() -> PodcastChannel {
    PodcastChannel {
        title: "Art Talk".to_string(),
        link: "https://art.example/feed".to_string(),
        image: Some("https://art.example/cover.jpg".to_string()),
        items: vec![
            item(Some("Monet"), &["Painting"], Some(Some("light,water")), Some("https://art.example/1.mp3"), Some("Sat, 13 Jul 2024 15:09:59 -0400")),
            item(None, &["Sculpture", "Painting"], None, Some("https://art.example/2.mp3"), Some("Mon, 15 Jan 2024 08:00:00 +0000")),
            item(Some("Trailer"), &[], Some(None), None, None),
        ],
    }
}

#[test]
fn episode_tags() {
    let c = feed();
    let tags = tags_for_item(&c, &c.items[0]);
    let names: Vec<&str> = tags.iter().map(|t| t.name()).collect();
    assert_eq!(names, vec!["Painting", "light", "water", "Art Talk"]);
    assert_eq!(tags[3].kind(), TagKind::Series);
    assert_eq!(tags[3].wiki_url(), Some("https://art.example/feed"));
    // An iTunes extension without keywords gives one empty keyword.
    let names: Vec<String> = tags_for_item(&c, &c.items[2]).iter().map(|t| t.name().to_string()).collect();
    assert_eq!(names, vec!["", "Art Talk"]);
    let names: Vec<String> = tags_for_item(&c, &c.items[1]).iter().map(|t| t.name().to_string()).collect();
    assert_eq!(names, vec!["Sculpture", "Painting", "Art Talk"]);
}

#[test]
fn feed_tags_are_counted() {
    let tags = podcast_tags(&[feed()]);
    let got: Vec<(String, u64)> = tags.iter().map(|t| (t.name().to_string(), t.presumed_work_count())).collect();
    assert_eq!(
        got,
        vec![
            ("Painting".to_string(), 2),
            ("light".to_string(), 1),
            ("water".to_string(), 1),
            ("Art Talk".to_string(), 3),
            ("Sculpture".to_string(), 1),
            ("".to_string(), 1),
        ]
    );
}

#[test]
fn episodes_become_works() {
    let feeds = [feed()];
    let works = episode_works_checked("Painting", &feeds).unwrap();
    assert_eq!(works.len(), 2);
    assert_eq!(works[0].name(), "Monet");
    assert_eq!((works[0].date().year, works[0].date().month, works[0].date().day), (2024, 7, 13));
    assert_eq!(works[0].preview_url(), "https://art.example/cover.jpg");
    assert_eq!(works[0].screen_url(), "https://art.example/1.mp3");
    assert_eq!(works[0].tags(), &["Painting".to_string(), "light".to_string(), "water".to_string(), "Art Talk".to_string()]);
    assert_eq!(works[1].name(), "Art Talk - 1");
    assert_eq!((works[1].date().year, works[1].date().month, works[1].date().day), (2024, 1, 15));
    // The feed's title is a tag of every episode; the trailer has no media file.
    assert_eq!(episode_works("Art Talk", &feeds).len(), 2);
    assert_eq!(episode_works("Sculpture", &feeds).len(), 1);
    let mut broken = feed();
    broken.items[1].pub_date = Some("not a date".to_string());
    assert!(episode_works_checked("Painting", &[broken]).is_none());
    let mut bare = feed();
    bare.image = None;
    assert!(episode_works_checked("Painting", &[bare]).is_none());
}
