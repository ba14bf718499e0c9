use artchiver::db::{DbTag, OrderDir, TagId, TagTable};
use artchiver::sdk::TagKind;
use artchiver::tag_names;
use artchiver::tag_row::{apply_row_action, selection_button_label, tag_row_label, TagRowAction, TagRowEffect};
use artchiver::tag_set::{TagRefresh, TagSet, TagStatus};
use artchiver::tag_view::{TagKindFilter, TagOrder, TagSortCol, TagSourceFilter, UxTag, KIND_CHOICES};

fn tag(id: i64, name: &str, kind: &str, network: u64, hidden: bool, favorite: bool, sources: &str) -> DbTag {
    DbTag::from_columns(id, name, kind, network, hidden, favorite, None, sources)
}

fn ids(v: &[TagId]) -> Vec<i64> {
    v.iter().map(|t| t.to_i64()).collect()
}

#[test]
fn tag_set_status_follows_the_last_change() {
    let cat = tag(1, "cat", "default", 3, false, false, "a");
    let dog = tag(2, "dog", "default", 3, false, false, "a");
    let mut s = TagSet::new();
    assert!(s.is_empty());
    assert_eq!(s.status(&cat), TagStatus::Unselected);
    s.enable(&cat);
    assert_eq!(s.status(&cat), TagStatus::Enabled);
    assert!(s.status(&cat).enabled());
    s.disable(&cat);
    assert_eq!(s.status(&cat), TagStatus::Disabled);
    assert!(s.status(&cat).disabled());
    s.enable(&dog);
    assert_eq!(s.status(&dog), TagStatus::Enabled);
    assert_eq!(s.status(&cat), TagStatus::Disabled);
    s.unselect(&cat);
    assert_eq!(s.status(&cat), TagStatus::Unselected);
    assert!(s.equals_single_tag(&dog));
    s.clear();
    assert!(s.is_empty());
    assert!(!s.equals_single_tag(&dog));
}

#[test]
fn best_refresh_picks_the_tag_with_fewest_downloads() {
    let mut cat = tag(1, "cat", "default", 3, false, false, "a");
    let mut dog = tag(2, "dog", "default", 3, false, false, "a");
    cat.set_local_count(40);
    dog.set_local_count(7);
    let mut table = TagTable::new();
    table.insert(cat.clone_tag());
    table.insert(dog.clone_tag());
    let mut s = TagSet::new();
    assert_eq!(s.get_best_refresh(Some(&table)), TagRefresh::NoneNeeded);
    s.enable(&cat);
    s.enable(&dog);
    assert_eq!(s.get_best_refresh(Some(&table)), TagRefresh::NeedRefresh(TagId::wrap(2)));
    assert_eq!(s.last_fetched(), Some(TagId::wrap(2)));
    // Narrowing the selection keeps the fetched works: they only need filtering again.
    s.disable(&tag(3, "bird", "default", 0, false, false, ""));
    assert_eq!(s.get_best_refresh(Some(&table)), TagRefresh::NeedReproject);
    s.clear();
    assert_eq!(s.get_best_refresh(Some(&table)), TagRefresh::Favorites);
    s.force_refresh();
    assert_eq!(s.last_fetched(), None);
}

#[test]
fn tag_list_filters_and_sorts() {
    let mut table = TagTable::new();
    let mut a = tag(1, "Apple", "default", 10, false, false, "Met,NGA");
    a.set_local_count(5);
    table.insert(a);
    table.insert(tag(2, "banana", "meta", 30, false, false, "Met"));
    table.insert(tag(3, "Cherry", "default", 20, true, true, "NGA"));
    table.insert(tag(4, "apricot", "artist", 20, false, false, "NGA"));

    let mut ux = UxTag::new();
    assert!(ux.tags().is_none());
    ux.set_tags(table);
    // Favorites first, then by name (code point order: upper case first).
    assert_eq!(ids(ux.filtered()), vec![3, 1, 4, 2]);

    ux.set_name_filter("AP");
    assert_eq!(ids(ux.filtered()), vec![1, 4]);
    ux.set_name_filter("");

    assert!(ux.set_order(TagOrder::new(TagSortCol::NetworkCount, OrderDir::Desc)));
    assert_eq!(ids(ux.filtered()), vec![3, 2, 4, 1]);
    assert!(!ux.set_order(TagOrder::new(TagSortCol::NetworkCount, OrderDir::Desc)));

    assert!(ux.set_order(TagOrder::new(TagSortCol::LocalCount, OrderDir::Asc)));
    assert_eq!(ids(ux.filtered()), vec![3, 4, 2, 1]);

    let options = TagSourceFilter::options(&["Met".to_string(), "NGA".to_string()]);
    assert_eq!(options, vec!["All".to_string(), "Met".to_string(), "NGA".to_string(), "Hidden".to_string()]);
    assert!(ux.pick_source(&options, 1));
    assert_eq!(ids(ux.filtered()), vec![2, 1]);
    assert_eq!(ux.source_filter().selected_index(&options), 1);
    assert!(ux.pick_source(&options, 3));
    assert_eq!(ids(ux.filtered()), vec![3]);
    assert!(ux.pick_source(&options, 0));
    assert_eq!(ux.source_filter().get(), None);

    assert!(ux.pick_kind(5));
    assert_eq!(ux.kind_filter().kind, Some(TagKind::Meta));
    assert_eq!(ids(ux.filtered()), vec![2]);
    assert!(!ux.pick_kind(5));
    assert!(ux.pick_kind(0));

    ux.set_tag_hidden(TagId::wrap(2), true);
    ux.set_tag_favorite(TagId::wrap(2), true);
    assert_eq!(ids(ux.filtered()), vec![3, 2, 4, 1]);
    ux.set_local_counts(&[(TagId::wrap(4), 1), (TagId::wrap(99), 3)]);
    assert_eq!(ids(ux.filtered()), vec![3, 2, 4, 1]);
    ux.on_tags_refreshed();
    assert!(ux.tags().is_none());
    assert!(ux.filtered().is_empty());
}

#[test]
fn kind_chooser_entries() {
    let mut f = TagKindFilter::new();
    assert_eq!(f.index(), 0);
    for i in 0..KIND_CHOICES {
        f.pick(i);
        assert_eq!(f.index(), i);
    }
    assert_eq!(TagSortCol::from_index(2), TagSortCol::NetworkCount);
    assert_eq!(TagSortCol::LocalCount.index(), 1);
}

#[test]
fn tag_row_buttons() {
    let cat = tag(1, "cat", "default", 12, false, true, "a");
    let dog = tag(2, "dog", "default", 3, false, false, "a");
    let mut s = TagSet::new();
    s.enable(&dog);
    assert_eq!(apply_row_action(&mut s, &cat, TagRowAction::ReplaceFilter), TagRowEffect::Nothing);
    assert!(s.equals_single_tag(&cat));
    apply_row_action(&mut s, &cat, TagRowAction::ToggleRequired);
    assert_eq!(s.status(&cat), TagStatus::Unselected);
    apply_row_action(&mut s, &cat, TagRowAction::ToggleExcluded);
    assert_eq!(s.status(&cat), TagStatus::Disabled);
    apply_row_action(&mut s, &cat, TagRowAction::ToggleExcluded);
    assert_eq!(s.status(&cat), TagStatus::Unselected);
    assert_eq!(
        apply_row_action(&mut s, &cat, TagRowAction::ToggleFavorite),
        TagRowEffect::SetTagFavorite(TagId::wrap(1), false)
    );
    assert_eq!(
        apply_row_action(&mut s, &cat, TagRowAction::ToggleHidden),
        TagRowEffect::SetTagHidden(TagId::wrap(1), true)
    );
    assert_eq!(
        apply_row_action(&mut s, &cat, TagRowAction::RefreshWorks),
        TagRowEffect::RefreshWorks(TagId::wrap(1))
    );

    assert_eq!(tag_row_label(&cat), "cat ([loading...] of 12)");
    let mut counted = cat.clone_tag();
    counted.set_local_count(4);
    assert_eq!(tag_row_label(&counted), "cat (4 of 12)");
    assert_eq!(selection_button_label('+', &cat), "+cat\u{2728}");
    let mut hidden = dog.clone_tag();
    hidden.set_hidden(true);
    assert_eq!(selection_button_label('-', &hidden), "-dog\u{1F5D1}");
}

#[test]
fn tag_names_summary() {
    let mut s = tag_names::TagSet::new();
    assert_eq!(s.summary(), "Select Tags to Show Matching Works");
    s.enable("b");
    s.disable("a");
    s.enable("c");
    assert_eq!(s.summary(), "-a +b +c");
    assert_eq!(s.status("a"), TagStatus::Disabled);
    assert_eq!(s.status("b"), TagStatus::Enabled);
    assert_eq!(s.status("z"), TagStatus::Unselected);
    s.enable("a");
    assert_eq!(s.summary(), "+a +b +c");
    s.unselect("b");
    s.unselect("a");
    s.disable("c");
    assert_eq!(s.summary(), "-c");
    assert_eq!(s.enabled_names().len(), 0);
}
