//! The National Gallery of Art source: the kinds of its terms, the tags of its locations,
//! which of its objects carry a tag, and the works built from its object, term, location and
//! published-image tables.
use crate::db::{civil_date, strings_view, CivilDate};
use crate::keyed::{keys_covered, keys_distinct, last_row_for_key, rows_by_key, KeyedRow};
use crate::num::{decimal_int, format_i64, parse_i64, parse_i64_spec};
use crate::sdk::{empty_location, Location, LocationView, Tag, TagKind, TagView};
use crate::tag_tally::{sort_by_name, sort_tags_by_name, tally, tally_tags, tags_view};
use crate::text::{chars_of, owned, push_str, str_eq, string_from_chars};
use crate::work::{Work, WorkView};
use vstd::prelude::*;

verus! {

/// The tag carried by every object that has a location in the gallery.
pub const NGA_DISPLAY_TAG: &'static str = "On Display";

/// The custodian recorded in the location of every work of the gallery.
pub const NGA_CUSTODY: &'static str = "National Gallery of Art";

/// A row of the gallery's term table, linking one term to one object.
pub struct NgaTerm {
    pub termid: i64,
    pub objectid: i64,
    pub termtype: String,
    pub term: String,
}

/// A row of the gallery's location table.
pub struct NgaLocation {
    pub locationid: i64,
    pub site: String,
    pub room: String,
    pub publicaccess: i64,
    pub description: String,
    pub unitposition: String,
}

/// What a work needs of a row of the gallery's object table. The location id is the text of
/// the table's column, empty for an object that is not on view.
pub struct NgaObject {
    pub objectid: i64,
    pub title: String,
    pub beginyear: Option<i64>,
    pub locationid: String,
}

/// What a work needs of a row of the gallery's published-image table.
pub struct NgaPublishedImage {
    pub depictstmsobjectid: i64,
    pub iiifurl: String,
    pub iiifthumburl: String,
}

// ---------------------------------------------------------------------------------------------
// Term kinds and location tags
// ---------------------------------------------------------------------------------------------
/// The term types that the gallery's term table uses.
pub open spec fn is_known_term_type(t: Seq<char>) -> bool {
    ||| t == "Keyword"@
    ||| t == "School"@
    ||| t == "Place Executed"@
    ||| t == "Technique"@
    ||| t == "Systematic Catalogue Volume"@
    ||| t == "Theme"@
    ||| t == "Style"@
}

/// The tag kind of a term type.
pub open spec fn term_type_kind(t: Seq<char>) -> TagKind {
    if t == "Keyword"@ {
        TagKind::Default
    } else if t == "School"@ {
        TagKind::School
    } else if t == "Place Executed"@ {
        TagKind::Location
    } else if t == "Technique"@ {
        TagKind::Technique
    } else if t == "Systematic Catalogue Volume"@ {
        TagKind::Series
    } else if t == "Theme"@ {
        TagKind::Theme
    } else {
        TagKind::Style
    }
}

/// The tag kind of a term of the given type; only the gallery's own term types are known.
pub fn type_to_kind(termtype: &str) -> (k: TagKind)
    requires
        is_known_term_type(termtype@),
    ensures
        k == term_type_kind(termtype@),
{
    kind_of_term_type(termtype)
}

/// The tag kind of a term type, as `term_type_kind` says.
fn kind_of_term_type(termtype: &str) -> (k: TagKind)
    ensures
        k == term_type_kind(termtype@),
{
    if str_eq(termtype, "Keyword") {
        TagKind::Default
    } else if str_eq(termtype, "School") {
        TagKind::School
    } else if str_eq(termtype, "Place Executed") {
        TagKind::Location
    } else if str_eq(termtype, "Technique") {
        TagKind::Technique
    } else if str_eq(termtype, "Systematic Catalogue Volume") {
        TagKind::Series
    } else if str_eq(termtype, "Theme") {
        TagKind::Theme
    } else {
        TagKind::Style
    }
}

/// The name of a gallery tag for a site or a place description: "NGA " and the text.
pub open spec fn nga_name(s: Seq<char>) -> Seq<char> {
    "NGA "@ + s
}

/// The two tags of a location: one for its site and one for its description.
pub fn location_tag_names(loc: &NgaLocation) -> (r: [String; 2])
    ensures
        r@[0]@ == nga_name(loc.site@),
        r@[1]@ == nga_name(loc.description@),
{
    let mut site = owned("NGA ");
    push_str(&mut site, loc.site.as_str());
    let mut description = owned("NGA ");
    push_str(&mut description, loc.description.as_str());
    [site, description]
}

/// Whether one of the two tags of the location is `tag`.
pub open spec fn location_matches(tag: Seq<char>, l: NgaLocation) -> bool {
    nga_name(l.site@) == tag || nga_name(l.description@) == tag
}

/// No location tag is the display tag: the names differ in their first letter.
pub proof fn lemma_display_tag_is_no_location_tag(l: NgaLocation)
    ensures
        !location_matches(NGA_DISPLAY_TAG@, l),
{
    reveal_strlit("NGA ");
    reveal_strlit("On Display");
    assert(nga_name(l.site@)[0] == 'N');
    assert(nga_name(l.description@)[0] == 'N');
    assert(NGA_DISPLAY_TAG@[0] == 'O');
}

// ---------------------------------------------------------------------------------------------
// The object table, keyed by id
// ---------------------------------------------------------------------------------------------
impl KeyedRow for NgaObject {
    open spec fn row_key(&self) -> i64 {
        self.objectid
    }

    fn key(&self) -> (r: i64) {
        self.objectid
    }
}

/// No two objects share an id: the object table as a map from id to object.
pub open spec fn objects_keyed(objects: Seq<NgaObject>) -> bool {
    keys_distinct(objects)
}

/// In a keyed table, the object found for an id is the row with that id.
pub proof fn lemma_keyed_lookup(objects: Seq<NgaObject>, k: int)
    requires
        objects_keyed(objects),
        0 <= k < objects.len(),
    ensures
        object_for_id(objects, objects[k].objectid) == Some(objects[k]),
    decreases k,
{
    if k > 0 {
        let rest = objects.drop_first();
        assert(objects_keyed(rest)) by {
            assert forall|i: int, j: int| 0 <= i < j < rest.len() implies rest[i].row_key() != rest[j].row_key() by {
                assert(rest[i] == objects[i + 1]);
                assert(rest[j] == objects[j + 1]);
            }
        }
        assert(objects[0].row_key() != objects[k].row_key());
        assert(rest[k - 1] == objects[k]);
        lemma_keyed_lookup(rest, k - 1);
    }
}

/// The object table keyed by id, as collecting the rows into a map does: one object per id
/// that occurs, the last row with that id. Each id stands where it first occurs.
pub fn objects_by_id(rows: Vec<NgaObject>) -> (r: Vec<NgaObject>)
    ensures
        objects_keyed(r@),
        forall|k: int| 0 <= k < r@.len() ==> last_row_for_key(rows@, #[trigger] r@[k].row_key()) == Some(r@[k]),
        keys_covered(rows@, r@),
{
    rows_by_key(rows)
}

// ---------------------------------------------------------------------------------------------
// Which objects carry a tag
// ---------------------------------------------------------------------------------------------
/// The objects that the term table links to a term named `tag`, in the table's order.
pub open spec fn term_object_ids(tag: Seq<char>, terms: Seq<NgaTerm>) -> Seq<i64>
    decreases terms.len(),
{
    if terms.len() == 0 {
        Seq::empty()
    } else {
        let rest = term_object_ids(tag, terms.drop_last());
        if terms.last().term@ == tag {
            rest.push(terms.last().objectid)
        } else {
            rest
        }
    }
}

/// The location id of an object: its location column read as an integer, when it is not
/// empty.
pub open spec fn object_location_id(o: NgaObject) -> Option<i64> {
    if o.locationid@.len() == 0 {
        None
    } else {
        parse_i64_spec(o.locationid@)
    }
}

/// Whether some location with id `id` has `tag` among its tags.
pub open spec fn tagged_location(tag: Seq<char>, locations: Seq<NgaLocation>, id: i64) -> bool {
    exists|k: int| 0 <= k < locations.len() && locations[k].locationid == id && location_matches(tag, locations[k])
}

/// The objects in a location that has `tag` among its tags, in the table's order.
pub open spec fn located_object_ids(tag: Seq<char>, locations: Seq<NgaLocation>, objects: Seq<NgaObject>) -> Seq<i64>
    decreases objects.len(),
{
    if objects.len() == 0 {
        Seq::empty()
    } else {
        let rest = located_object_ids(tag, locations, objects.drop_last());
        let o = objects.last();
        match object_location_id(o) {
            Some(id) => if tagged_location(tag, locations, id) {
                rest.push(o.objectid)
            } else {
                rest
            },
            None => rest,
        }
    }
}

/// The objects with a location, in the table's order.
pub open spec fn displayed_object_ids(objects: Seq<NgaObject>) -> Seq<i64>
    decreases objects.len(),
{
    if objects.len() == 0 {
        Seq::empty()
    } else {
        let rest = displayed_object_ids(objects.drop_last());
        if objects.last().locationid@.len() > 0 {
            rest.push(objects.last().objectid)
        } else {
            rest
        }
    }
}

/// The objects that carry `tag`: for the display tag, those with a location; else those that
/// the term table links to it, or, when it links none, those in a location with that tag.
pub open spec fn spec_object_ids_for_tag(
    tag: Seq<char>,
    terms: Seq<NgaTerm>,
    locations: Seq<NgaLocation>,
    objects: Seq<NgaObject>,
) -> Seq<i64> {
    if tag == NGA_DISPLAY_TAG@ {
        displayed_object_ids(objects)
    } else if term_object_ids(tag, terms).len() > 0 {
        term_object_ids(tag, terms)
    } else {
        located_object_ids(tag, locations, objects)
    }
}

/// The objects linked to `tag` by the term table.
fn term_ids(tag: &str, terms: &[NgaTerm]) -> (r: Vec<i64>)
    ensures
        r@ == term_object_ids(tag@, terms@),
{
    let mut r: Vec<i64> = Vec::new();
    let mut i: usize = 0;
    while i < terms.len()
        invariant
            0 <= i <= terms@.len(),
            r@ == term_object_ids(tag@, terms@.take(i as int)),
        decreases terms@.len() - i,
    {
        assert(terms@.take(i + 1).drop_last() =~= terms@.take(i as int));
        if str_eq(terms[i].term.as_str(), tag) {
            r.push(terms[i].objectid);
        }
        i = i + 1;
    }
    assert(terms@.take(terms@.len() as int) =~= terms@);
    r
}

/// The ids of the locations that have `tag` among their tags.
fn tagged_location_ids(tag: &str, locations: &[NgaLocation]) -> (r: Vec<i64>)
    ensures
        forall|id: i64| r@.contains(id) <==> tagged_location(tag@, locations@, id),
{
    let mut r: Vec<i64> = Vec::new();
    let mut i: usize = 0;
    while i < locations.len()
        invariant
            0 <= i <= locations@.len(),
            forall|id: i64| r@.contains(id) <==> tagged_location(tag@, locations@.take(i as int), id),
        decreases locations@.len() - i,
    {
        let names = location_tag_names(&locations[i]);
        let m = str_eq(names[0].as_str(), tag) || str_eq(names[1].as_str(), tag);
        let ghost loc = locations@[i as int];
        let ghost before = r@;
        assert(m == location_matches(tag@, loc));
        if m {
            r.push(locations[i].locationid);
        }
        proof {
            let next = locations@.take(i + 1);
            let prev = locations@.take(i as int);
            assert(next[i as int] == loc);
            assert forall|k: int| 0 <= k < i implies next[k] == prev[k] by {}
            assert forall|id: i64| r@.contains(id) <==> (before.contains(id) || (m && id == loc.locationid)) by {
                if r@.contains(id) {
                    let a = choose|a: int| 0 <= a < r@.len() && r@[a] == id;
                    if a < before.len() {
                        assert(before[a] == id);
                    }
                }
                if before.contains(id) {
                    let a = choose|a: int| 0 <= a < before.len() && before[a] == id;
                    assert(r@[a] == id);
                }
                if m && id == loc.locationid {
                    assert(r@[before.len() as int] == id);
                }
            }
            assert forall|id: i64| tagged_location(tag@, next, id) <==> (tagged_location(tag@, prev, id) || (m && id == loc.locationid)) by {
                if tagged_location(tag@, prev, id) {
                    let k = choose|k: int| 0 <= k < prev.len() && prev[k].locationid == id && location_matches(tag@, prev[k]);
                    assert(next[k] == prev[k]);
                }
                if tagged_location(tag@, next, id) {
                    let k = choose|k: int| 0 <= k < next.len() && next[k].locationid == id && location_matches(tag@, next[k]);
                    if k < i {
                        assert(prev[k] == next[k]);
                    }
                }
                if m && id == loc.locationid {
                    assert(next[i as int].locationid == id && location_matches(tag@, next[i as int]));
                }
            }
            assert forall|id: i64| r@.contains(id) <==> tagged_location(tag@, next, id) by {
                assert(before.contains(id) <==> tagged_location(tag@, prev, id));
                assert(r@.contains(id) <==> (before.contains(id) || (m && id == loc.locationid)));
                assert(tagged_location(tag@, next, id) <==> (tagged_location(tag@, prev, id) || (m && id == loc.locationid)));
            }
        }
        i = i + 1;
    }
    assert(locations@.take(locations@.len() as int) =~= locations@);
    r
}

/// The location id of an object, read as `object_location_id` says.
fn location_id_of(o: &NgaObject) -> (r: Option<i64>)
    ensures
        r == object_location_id(*o),
{
    let cs = chars_of(o.locationid.as_str());
    if cs.len() == 0 {
        None
    } else {
        parse_i64(cs.as_slice())
    }
}

/// The objects in a location with one of the given ids.
fn objects_in_locations(
    loc_ids: &Vec<i64>,
    objects: &[NgaObject],
    Ghost(tag): Ghost<Seq<char>>,
    Ghost(locations): Ghost<Seq<NgaLocation>>,
) -> (r: Vec<i64>)
    requires
        forall|id: i64| loc_ids@.contains(id) <==> tagged_location(tag, locations, id),
    ensures
        r@ == located_object_ids(tag, locations, objects@),
{
    let mut r: Vec<i64> = Vec::new();
    let mut i: usize = 0;
    while i < objects.len()
        invariant
            0 <= i <= objects@.len(),
            forall|id: i64| loc_ids@.contains(id) <==> tagged_location(tag, locations, id),
            r@ == located_object_ids(tag, locations, objects@.take(i as int)),
        decreases objects@.len() - i,
    {
        assert(objects@.take(i + 1).drop_last() =~= objects@.take(i as int));
        let lid = location_id_of(&objects[i]);
        match lid {
            Some(id) => {
                let mut found = false;
                let mut j: usize = 0;
                while j < loc_ids.len()
                    invariant
                        0 <= j <= loc_ids@.len(),
                        found == exists|a: int| 0 <= a < j && loc_ids@[a] == id,
                    decreases loc_ids@.len() - j,
                {
                    if loc_ids[j] == id {
                        found = true;
                    }
                    j = j + 1;
                }
                assert(found == loc_ids@.contains(id));
                if found {
                    r.push(objects[i].objectid);
                }
            },
            None => {},
        }
        i = i + 1;
    }
    assert(objects@.take(objects@.len() as int) =~= objects@);
    r
}

/// The objects with a location.
fn displayed_ids(objects: &[NgaObject]) -> (r: Vec<i64>)
    ensures
        r@ == displayed_object_ids(objects@),
{
    let mut r: Vec<i64> = Vec::new();
    let mut i: usize = 0;
    while i < objects.len()
        invariant
            0 <= i <= objects@.len(),
            r@ == displayed_object_ids(objects@.take(i as int)),
        decreases objects@.len() - i,
    {
        assert(objects@.take(i + 1).drop_last() =~= objects@.take(i as int));
        if chars_of(objects[i].locationid.as_str()).len() > 0 {
            r.push(objects[i].objectid);
        }
        i = i + 1;
    }
    assert(objects@.take(objects@.len() as int) =~= objects@);
    r
}

/// The objects that carry `tag`, as `spec_object_ids_for_tag` says. No term may be named as
/// the display tag: the display tag belongs to every object with a location.
pub fn object_ids_for_tag(
    tag_name: &str,
    terms: &[NgaTerm],
    locations: &[NgaLocation],
    objects: &[NgaObject],
) -> (r: Vec<i64>)
    requires
        tag_name@ == NGA_DISPLAY_TAG@ ==> term_object_ids(tag_name@, terms@).len() == 0,
    ensures
        r@ == spec_object_ids_for_tag(tag_name@, terms@, locations@, objects@),
{
    let mut obj_ids = term_ids(tag_name, terms);
    if obj_ids.len() == 0 {
        let loc_ids = tagged_location_ids(tag_name, locations);
        obj_ids = objects_in_locations(&loc_ids, objects, Ghost(tag_name@), Ghost(locations@));
    }
    if str_eq(tag_name, NGA_DISPLAY_TAG) {
        proof {
            assert forall|id: i64| !tagged_location(tag_name@, locations@, id) by {
                if tagged_location(tag_name@, locations@, id) {
                    let k = choose|k: int|
                        0 <= k < locations@.len() && locations@[k].locationid == id && location_matches(
                            tag_name@,
                            locations@[k],
                        );
                    lemma_display_tag_is_no_location_tag(locations@[k]);
                }
            }
            lemma_nothing_located(tag_name@, locations@, objects@);
            assert(obj_ids@.len() == 0);
        }
        obj_ids = displayed_ids(objects);
    }
    obj_ids
}

/// Where no location has the tag, no object is in a location with the tag.
proof fn lemma_nothing_located(tag: Seq<char>, locations: Seq<NgaLocation>, objects: Seq<NgaObject>)
    requires
        forall|id: i64| !tagged_location(tag, locations, id),
    ensures
        located_object_ids(tag, locations, objects).len() == 0,
    decreases objects.len(),
{
    if objects.len() > 0 {
        lemma_nothing_located(tag, locations, objects.drop_last());
    }
}

// ---------------------------------------------------------------------------------------------
// The tags and location of an object
// ---------------------------------------------------------------------------------------------
/// The names of the terms that the term table links to object `obj_id`, in the table's order.
pub open spec fn object_term_names(obj_id: i64, terms: Seq<NgaTerm>) -> Seq<Seq<char>>
    decreases terms.len(),
{
    if terms.len() == 0 {
        Seq::empty()
    } else {
        let rest = object_term_names(obj_id, terms.drop_last());
        if terms.last().objectid == obj_id {
            rest.push(terms.last().term@)
        } else {
            rest
        }
    }
}

/// The first location with id `id`.
pub open spec fn find_location(locations: Seq<NgaLocation>, id: i64) -> Option<NgaLocation>
    decreases locations.len(),
{
    if locations.len() == 0 {
        None
    } else if locations[0].locationid == id {
        Some(locations[0])
    } else {
        find_location(locations.drop_first(), id)
    }
}

/// Whether the location of an object, if it has one, is in the location table.
pub open spec fn locations_known(o: NgaObject, locations: Seq<NgaLocation>) -> bool {
    match object_location_id(o) {
        Some(id) => find_location(locations, id) is Some,
        None => true,
    }
}

/// The tags of an object: the terms linked to it, then, when it has a location, the display
/// tag and the two tags of its location.
pub open spec fn spec_object_tags(o: NgaObject, terms: Seq<NgaTerm>, locations: Seq<NgaLocation>) -> Seq<Seq<char>> {
    let base = object_term_names(o.objectid, terms);
    match object_location_id(o) {
        Some(id) => match find_location(locations, id) {
            Some(l) => base + seq![NGA_DISPLAY_TAG@, nga_name(l.site@), nga_name(l.description@)],
            None => base,
        },
        None => base,
    }
}

/// The index of the first location with id `id`.
fn find_location_index(locations: &[NgaLocation], id: i64) -> (r: Option<usize>)
    ensures
        match r {
            Some(k) => k < locations@.len() && find_location(locations@, id) == Some(locations@[k as int]),
            None => find_location(locations@, id) is None,
        },
{
    let mut i: usize = 0;
    assert(locations@.subrange(0, locations@.len() as int) =~= locations@);
    while i < locations.len()
        invariant
            0 <= i <= locations@.len(),
            find_location(locations@, id) == find_location(locations@.subrange(i as int, locations@.len() as int), id),
        decreases locations@.len() - i,
    {
        let ghost rest = locations@.subrange(i as int, locations@.len() as int);
        assert(rest[0] == locations@[i as int]);
        if locations[i].locationid == id {
            return Some(i);
        }
        assert(rest.drop_first() =~= locations@.subrange(i + 1, locations@.len() as int));
        i = i + 1;
    }
    None
}

/// The tags of an object, as `spec_object_tags` says. The location of an object that has one
/// must be in the location table.
pub fn object_tags(o: &NgaObject, terms: &[NgaTerm], locations: &[NgaLocation]) -> (r: Vec<String>)
    requires
        locations_known(*o, locations@),
    ensures
        strings_view(r@) == spec_object_tags(*o, terms@, locations@),
{
    let mut r: Vec<String> = Vec::new();
    let mut i: usize = 0;
    while i < terms.len()
        invariant
            0 <= i <= terms@.len(),
            strings_view(r@) == object_term_names(o.objectid, terms@.take(i as int)),
        decreases terms@.len() - i,
    {
        assert(terms@.take(i + 1).drop_last() =~= terms@.take(i as int));
        if terms[i].objectid == o.objectid {
            let ghost before = r@;
            r.push(owned(terms[i].term.as_str()));
            assert(strings_view(r@) =~= strings_view(before).push(terms@[i as int].term@));
        }
        i = i + 1;
    }
    assert(terms@.take(terms@.len() as int) =~= terms@);
    let ghost base = strings_view(r@);
    match location_id_of(o) {
        Some(id) => {
            match find_location_index(locations, id) {
                Some(k) => {
                    let names = location_tag_names(&locations[k]);
                    r.push(owned(NGA_DISPLAY_TAG));
                    r.push(owned(names[0].as_str()));
                    r.push(owned(names[1].as_str()));
                    assert(strings_view(r@) =~= base + seq![
                        NGA_DISPLAY_TAG@,
                        nga_name(locations@[k as int].site@),
                        nga_name(locations@[k as int].description@),
                    ]);
                },
                None => {},
            }
        },
        None => {},
    }
    r
}

/// The location of a work of the gallery: the gallery as custodian and, when the object's
/// location column reads as the id of a location in the table, that location's site, room,
/// public access, description and position.
pub open spec fn spec_nga_location(o: NgaObject, locations: Seq<NgaLocation>) -> LocationView {
    let base = LocationView { custody: Some(NGA_CUSTODY@), ..empty_location() };
    match parse_i64_spec(o.locationid@) {
        Some(id) => match find_location(locations, id) {
            Some(l) => LocationView {
                site: Some(l.site@),
                room: Some(l.room@),
                on_display: Some(l.publicaccess == 1),
                description: Some(l.description@),
                position: Some(l.unitposition@),
                ..base
            },
            None => base,
        },
        None => base,
    }
}

/// The first location row with id `id` is found.
proof fn lemma_find_location_first(locations: Seq<NgaLocation>, id: i64, k: int)
    requires
        0 <= k < locations.len(),
        locations[k].locationid == id,
        forall|j: int| 0 <= j < k ==> locations[j].locationid != id,
    ensures
        find_location(locations, id) == Some(locations[k]),
    decreases k,
{
    if k > 0 {
        let rest = locations.drop_first();
        assert(locations[0].locationid != id);
        assert forall|j: int| 0 <= j < k - 1 implies rest[j].locationid != id by {
            assert(rest[j] == locations[j + 1]);
        }
        lemma_find_location_first(rest, id, k - 1);
    }
}

/// No location is found for an id that no row has.
proof fn lemma_find_location_none(locations: Seq<NgaLocation>, id: i64)
    requires
        forall|j: int| 0 <= j < locations.len() ==> locations[j].locationid != id,
    ensures
        find_location(locations, id) is None,
    decreases locations.len(),
{
    if locations.len() > 0 {
        let rest = locations.drop_first();
        assert forall|j: int| 0 <= j < rest.len() implies rest[j].locationid != id by {
            assert(rest[j] == locations[j + 1]);
        }
        lemma_find_location_none(rest, id);
    }
}

/// An object's location is in the gallery's custody. When its location id is a number and
/// the first location row with that id is row `k`, the location takes that row's site,
/// room, description and position, and it is on display exactly when the row's public
/// access is 1. When no row has the id, or the id is no number, nothing more is known.
pub proof fn lemma_object_location_from_row(o: NgaObject, locations: Seq<NgaLocation>, k: int)
    ensures
        spec_nga_location(o, locations).custody == Some(NGA_CUSTODY@),
        parse_i64_spec(o.locationid@) matches Some(id) ==> (0 <= k < locations.len()
            && locations[k].locationid == id && (forall|j: int| 0 <= j < k ==> locations[j].locationid != id)
            ==> {
            let l = spec_nga_location(o, locations);
            &&& l.on_display == Some(locations[k].publicaccess == 1)
            &&& l.site == Some(locations[k].site@)
            &&& l.room == Some(locations[k].room@)
            &&& l.description == Some(locations[k].description@)
            &&& l.position == Some(locations[k].unitposition@)
        }),
        (parse_i64_spec(o.locationid@) is None || (forall|j: int|
            0 <= j < locations.len() ==> locations[j].locationid != parse_i64_spec(o.locationid@)->0))
            ==> spec_nga_location(o, locations).on_display is None && spec_nga_location(o, locations).site
            is None,
{
    if let Some(id) = parse_i64_spec(o.locationid@) {
        if 0 <= k < locations.len() && locations[k].locationid == id && (forall|j: int|
            0 <= j < k ==> locations[j].locationid != id) {
            lemma_find_location_first(locations, id, k);
        }
        if forall|j: int| 0 <= j < locations.len() ==> locations[j].locationid != id {
            lemma_find_location_none(locations, id);
        }
    }
}

/// The location of a work built from object `o`.
pub fn object_location(o: &NgaObject, locations: &[NgaLocation]) -> (r: Location)
    ensures
        r@ == spec_nga_location(*o, locations@),
{
    let mut loc = Location::new().with_custody(NGA_CUSTODY);
    let cs = chars_of(o.locationid.as_str());
    match parse_i64(cs.as_slice()) {
        Some(id) => {
            match find_location_index(locations, id) {
                Some(k) => {
                    let l = &locations[k];
                    loc = loc.with_site(l.site.as_str()).with_room(l.room.as_str()).with_on_display(
                        l.publicaccess == 1,
                    ).with_description(l.description.as_str()).with_position(l.unitposition.as_str());
                },
                None => {},
            }
        },
        None => {},
    }
    loc
}

// ---------------------------------------------------------------------------------------------
// Works
// ---------------------------------------------------------------------------------------------
/// The first published image of object `id`.
pub open spec fn find_image(images: Seq<NgaPublishedImage>, id: i64) -> Option<NgaPublishedImage>
    decreases images.len(),
{
    if images.len() == 0 {
        None
    } else if images[0].depictstmsobjectid == id {
        Some(images[0])
    } else {
        find_image(images.drop_first(), id)
    }
}

/// The year an object was begun; 0 when the table does not say.
pub open spec fn work_year(o: NgaObject) -> i64 {
    match o.beginyear {
        Some(y) => y,
        None => 0,
    }
}

/// The abstract outcome of building a work for an object.
pub ghost enum NgaWorkView {
    Built(WorkView),
    NoImage,
    YearOutOfRange,
}

/// The outcome of building a work for an object: the work, or why there is none. An object
/// without a published image is passed over; a year that makes no date ends the listing.
pub enum NgaWork {
    Built(Work),
    NoImage,
    YearOutOfRange,
}

impl View for NgaWork {
    type V = NgaWorkView;

    closed spec fn view(&self) -> NgaWorkView {
        match self {
            NgaWork::Built(w) => NgaWorkView::Built(w@),
            NgaWork::NoImage => NgaWorkView::NoImage,
            NgaWork::YearOutOfRange => NgaWorkView::YearOutOfRange,
        }
    }
}

/// The suffix that asks the gallery's image server for the largest full image.
pub open spec fn full_image_suffix() -> Seq<char> {
    "/full/max/0/native.jpg"@
}

/// The work for object `o`: named by its title, dated the first of January of the year it
/// was begun, with the thumbnail and the full image of its first published image, its tags,
/// its id at the gallery, the image server url as archive, and its location.
pub open spec fn spec_nga_work(
    o: NgaObject,
    terms: Seq<NgaTerm>,
    locations: Seq<NgaLocation>,
    images: Seq<NgaPublishedImage>,
) -> NgaWorkView {
    match find_image(images, o.objectid) {
        None => NgaWorkView::NoImage,
        Some(img) => if -9999 <= work_year(o) <= 9999 {
            NgaWorkView::Built(
                WorkView {
                    name: o.title@,
                    date: CivilDate { year: work_year(o) as i16, month: 1, day: 1 },
                    preview_url: img.iiifthumburl@,
                    screen_url: img.iiifurl@ + full_image_suffix(),
                    tags: spec_object_tags(o, terms, locations),
                    remote_id: Some(decimal_int(o.objectid as int)),
                    archive_url: Some(img.iiifurl@),
                    history: None,
                    location: Some(spec_nga_location(o, locations)),
                    physical_data: None,
                },
            )
        } else {
            NgaWorkView::YearOutOfRange
        },
    }
}

/// The first published image of an object is found.
proof fn lemma_find_image_first(images: Seq<NgaPublishedImage>, id: i64, k: int)
    requires
        0 <= k < images.len(),
        images[k].depictstmsobjectid == id,
        forall|j: int| 0 <= j < k ==> images[j].depictstmsobjectid != id,
    ensures
        find_image(images, id) == Some(images[k]),
    decreases k,
{
    if k > 0 {
        let rest = images.drop_first();
        assert(images[0].depictstmsobjectid != id);
        assert forall|j: int| 0 <= j < k - 1 implies rest[j].depictstmsobjectid != id by {
            assert(rest[j] == images[j + 1]);
        }
        lemma_find_image_first(rest, id, k - 1);
    }
}

/// No image is found for an object that no published image depicts.
proof fn lemma_find_image_none(images: Seq<NgaPublishedImage>, id: i64)
    requires
        forall|j: int| 0 <= j < images.len() ==> images[j].depictstmsobjectid != id,
    ensures
        find_image(images, id) is None,
    decreases images.len(),
{
    if images.len() > 0 {
        let rest = images.drop_first();
        assert forall|j: int| 0 <= j < rest.len() implies rest[j].depictstmsobjectid != id by {
            assert(rest[j] == images[j + 1]);
        }
        lemma_find_image_none(rest, id);
    }
}

/// An object that no published image depicts gives no work. Otherwise, with row `k` the
/// first published image of the object, an object whose year (0 when the table has none) is
/// within -9999..=9999 gives a work named by its title, dated the first of January of that
/// year, previewed by the image's thumbnail, viewed in full at the image's IIIF url followed
/// by "/full/max/0/native.jpg", archived at the IIIF url, identified by the object's id in
/// decimal and placed at the object's location; any other year gives no work.
pub proof fn lemma_object_work_from_image(
    o: NgaObject,
    terms: Seq<NgaTerm>,
    locations: Seq<NgaLocation>,
    images: Seq<NgaPublishedImage>,
    k: int,
)
    ensures
        (forall|j: int| 0 <= j < images.len() ==> images[j].depictstmsobjectid != o.objectid)
            ==> spec_nga_work(o, terms, locations, images) == NgaWorkView::NoImage,
        0 <= k < images.len() && images[k].depictstmsobjectid == o.objectid && (forall|j: int|
            0 <= j < k ==> images[j].depictstmsobjectid != o.objectid) ==> {
            let year: int = match o.beginyear {
                Some(y) => y as int,
                None => 0,
            };
            &&& (-9999 <= year <= 9999 ==> (spec_nga_work(o, terms, locations, images)
                matches NgaWorkView::Built(w) && {
                &&& w.name == o.title@
                &&& w.date == (CivilDate { year: year as i16, month: 1, day: 1 })
                &&& w.preview_url == images[k].iiifthumburl@
                &&& w.screen_url == images[k].iiifurl@ + "/full/max/0/native.jpg"@
                &&& w.archive_url == Some(images[k].iiifurl@)
                &&& w.remote_id == Some(decimal_int(o.objectid as int))
                &&& w.location == Some(spec_nga_location(o, locations))
            }))
            &&& (!(-9999 <= year <= 9999) ==> spec_nga_work(o, terms, locations, images)
                == NgaWorkView::YearOutOfRange)
        },
{
    if forall|j: int| 0 <= j < images.len() ==> images[j].depictstmsobjectid != o.objectid {
        lemma_find_image_none(images, o.objectid);
    }
    if 0 <= k < images.len() && images[k].depictstmsobjectid == o.objectid && (forall|j: int|
        0 <= j < k ==> images[j].depictstmsobjectid != o.objectid) {
        lemma_find_image_first(images, o.objectid, k);
    }
}

/// The index of the first published image of object `id`.
fn find_image_index(images: &[NgaPublishedImage], id: i64) -> (r: Option<usize>)
    ensures
        match r {
            Some(k) => k < images@.len() && find_image(images@, id) == Some(images@[k as int]),
            None => find_image(images@, id) is None,
        },
{
    let mut i: usize = 0;
    assert(images@.subrange(0, images@.len() as int) =~= images@);
    while i < images.len()
        invariant
            0 <= i <= images@.len(),
            find_image(images@, id) == find_image(images@.subrange(i as int, images@.len() as int), id),
        decreases images@.len() - i,
    {
        let ghost rest = images@.subrange(i as int, images@.len() as int);
        assert(rest[0] == images@[i as int]);
        if images[i].depictstmsobjectid == id {
            return Some(i);
        }
        assert(rest.drop_first() =~= images@.subrange(i + 1, images@.len() as int));
        i = i + 1;
    }
    None
}

/// Builds the work for object `o`, as `spec_nga_work` says. The location of an object that
/// has one must be in the location table.
pub fn object_work(
    o: &NgaObject,
    terms: &[NgaTerm],
    locations: &[NgaLocation],
    images: &[NgaPublishedImage],
) -> (r: NgaWork)
    requires
        locations_known(*o, locations@),
    ensures
        r@ == spec_nga_work(*o, terms@, locations@, images@),
{
    let tags = object_tags(o, terms, locations);
    let k = match find_image_index(images, o.objectid) {
        Some(k) => k,
        None => {
            return NgaWork::NoImage;
        },
    };
    let img = &images[k];
    let loc = object_location(o, locations);
    let year: i64 = match o.beginyear {
        Some(y) => y,
        None => 0,
    };
    if year < -32768 || year > 32767 {
        return NgaWork::YearOutOfRange;
    }
    let date = match civil_date(year as i16, 1, 1) {
        Some(d) => d,
        None => {
            return NgaWork::YearOutOfRange;
        },
    };
    let mut screen_url = owned(img.iiifurl.as_str());
    push_str(&mut screen_url, "/full/max/0/native.jpg");
    let id = format_i64(o.objectid);
    let remote_id = string_from_chars(id.as_slice());
    let work = Work::new(o.title.as_str(), date, img.iiifthumburl.as_str(), screen_url.as_str(), tags)
        .with_remote_id(remote_id.as_str())
        .with_archive_url(img.iiifurl.as_str())
        .with_location(loc);
    NgaWork::Built(work)
}

/// The first object with id `id`; in a keyed table, the one object with that id.
pub open spec fn object_for_id(objects: Seq<NgaObject>, id: i64) -> Option<NgaObject>
    decreases objects.len(),
{
    if objects.len() == 0 {
        None
    } else if objects[0].objectid == id {
        Some(objects[0])
    } else {
        object_for_id(objects.drop_first(), id)
    }
}

/// Whether each listed id finds an object whose location, if it has one, is in the table.
pub open spec fn ids_resolvable(ids: Seq<i64>, objects: Seq<NgaObject>, locations: Seq<NgaLocation>) -> bool {
    forall|k: int|
        0 <= k < ids.len() ==> #[trigger] object_for_id(objects, ids[k]) is Some && locations_known(
            object_for_id(objects, ids[k])->0,
            locations,
        )
}

/// The works of the listed objects, in order, passing over those without a published image;
/// `None` when one of them has a year that makes no date.
pub open spec fn works_from_ids(
    ids: Seq<i64>,
    objects: Seq<NgaObject>,
    terms: Seq<NgaTerm>,
    locations: Seq<NgaLocation>,
    images: Seq<NgaPublishedImage>,
) -> Option<Seq<WorkView>>
    decreases ids.len(),
{
    if ids.len() == 0 {
        Some(Seq::empty())
    } else {
        match works_from_ids(ids.drop_last(), objects, terms, locations, images) {
            None => None,
            Some(prev) => match object_for_id(objects, ids.last()) {
                None => None,
                Some(o) => match spec_nga_work(o, terms, locations, images) {
                    NgaWorkView::Built(w) => Some(prev.push(w)),
                    NgaWorkView::NoImage => Some(prev),
                    NgaWorkView::YearOutOfRange => None,
                },
            },
        }
    }
}

/// The abstract works of a list of works.
pub open spec fn works_view(ws: Seq<Work>) -> Seq<WorkView> {
    Seq::new(ws.len(), |i: int| ws[i]@)
}

/// Once a prefix of the ids has no works, the whole list has none.
proof fn lemma_no_works_after_failure(
    ids: Seq<i64>,
    j: int,
    objects: Seq<NgaObject>,
    terms: Seq<NgaTerm>,
    locations: Seq<NgaLocation>,
    images: Seq<NgaPublishedImage>,
)
    requires
        0 <= j <= ids.len(),
        works_from_ids(ids.take(j), objects, terms, locations, images) is None,
    ensures
        works_from_ids(ids, objects, terms, locations, images) is None,
    decreases ids.len(),
{
    if j == ids.len() {
        assert(ids.take(j) =~= ids);
    } else {
        assert(ids.drop_last().take(j) =~= ids.take(j));
        lemma_no_works_after_failure(ids.drop_last(), j, objects, terms, locations, images);
    }
}

/// The index of the first object with id `id`.
fn find_object_index(objects: &[NgaObject], id: i64) -> (r: Option<usize>)
    ensures
        match r {
            Some(k) => k < objects@.len() && object_for_id(objects@, id) == Some(objects@[k as int]),
            None => object_for_id(objects@, id) is None,
        },
{
    let mut i: usize = 0;
    assert(objects@.subrange(0, objects@.len() as int) =~= objects@);
    while i < objects.len()
        invariant
            0 <= i <= objects@.len(),
            object_for_id(objects@, id) == object_for_id(objects@.subrange(i as int, objects@.len() as int), id),
        decreases objects@.len() - i,
    {
        let ghost rest = objects@.subrange(i as int, objects@.len() as int);
        assert(rest[0] == objects@[i as int]);
        if objects[i].objectid == id {
            return Some(i);
        }
        assert(rest.drop_first() =~= objects@.subrange(i + 1, objects@.len() as int));
        i = i + 1;
    }
    None
}

/// The works of the objects that carry `tag_name`, in the order `object_ids_for_tag` finds
/// them; objects are found by id in the object table, which is keyed by id as
/// `objects_by_id` leaves it. Objects without a published image are passed over; `None` when
/// an object's year makes no date. No term may be named as the display tag, and each object
/// found must be in the object table, with its location, if any, in the location table.
pub fn works_for_tag(
    tag_name: &str,
    terms: &[NgaTerm],
    locations: &[NgaLocation],
    objects: &[NgaObject],
    images: &[NgaPublishedImage],
) -> (r: Option<Vec<Work>>)
    requires
        objects_keyed(objects@),
        tag_name@ == NGA_DISPLAY_TAG@ ==> term_object_ids(tag_name@, terms@).len() == 0,
        ids_resolvable(
            spec_object_ids_for_tag(tag_name@, terms@, locations@, objects@),
            objects@,
            locations@,
        ),
    ensures
        match r {
            Some(ws) => works_from_ids(
                spec_object_ids_for_tag(tag_name@, terms@, locations@, objects@),
                objects@,
                terms@,
                locations@,
                images@,
            ) == Some(works_view(ws@)),
            None => works_from_ids(
                spec_object_ids_for_tag(tag_name@, terms@, locations@, objects@),
                objects@,
                terms@,
                locations@,
                images@,
            ) is None,
        },
{
    let ids = object_ids_for_tag(tag_name, terms, locations, objects);
    let mut works: Vec<Work> = Vec::new();
    let mut i: usize = 0;
    while i < ids.len()
        invariant
            0 <= i <= ids@.len(),
            ids@ == spec_object_ids_for_tag(tag_name@, terms@, locations@, objects@),
            ids_resolvable(ids@, objects@, locations@),
            works_from_ids(ids@.take(i as int), objects@, terms@, locations@, images@) == Some(
                works_view(works@),
            ),
        decreases ids@.len() - i,
    {
        assert(ids@.take(i + 1).drop_last() =~= ids@.take(i as int));
        assert(ids@.take(i + 1).last() == ids@[i as int]);
        let k = match find_object_index(objects, ids[i]) {
            Some(k) => k,
            None => {
                assert(false);
                return None;
            },
        };
        match object_work(&objects[k], terms, locations, images) {
            NgaWork::Built(w) => {
                let ghost before = works@;
                works.push(w);
                assert(works_view(works@) =~= works_view(before).push(w@));
            },
            NgaWork::NoImage => {},
            NgaWork::YearOutOfRange => {
                proof {
                    let prefix = ids@.take(i + 1);
                    assert(object_for_id(objects@, prefix.last()) == Some(objects@[k as int]));
                    assert(works_from_ids(prefix, objects@, terms@, locations@, images@) is None);
                    lemma_no_works_after_failure(ids@, i + 1, objects@, terms@, locations@, images@);
                }
                return None;
            },
        }
        i = i + 1;
    }
    assert(ids@.take(ids@.len() as int) =~= ids@);
    Some(works)
}

// ---------------------------------------------------------------------------------------------
// The gallery's tags
// ---------------------------------------------------------------------------------------------
/// One tag per term row: named by the term, of its type's kind.
pub open spec fn term_tag_views(terms: Seq<NgaTerm>) -> Seq<TagView> {
    Seq::new(
        terms.len(),
        |i: int|
            TagView {
                name: terms[i].term@,
                kind: term_type_kind(terms[i].termtype@),
                presumed_work_count: None,
                wiki_url: None,
            },
    )
}

/// Two location tags per location row, for its site then its description.
pub open spec fn location_tag_views(locations: Seq<NgaLocation>) -> Seq<TagView> {
    Seq::new(
        2 * locations.len(),
        |i: int|
            TagView {
                name: if i % 2 == 0 {
                    nga_name(locations[i / 2].site@)
                } else {
                    nga_name(locations[i / 2].description@)
                },
                kind: TagKind::Location,
                presumed_work_count: None,
                wiki_url: None,
            },
    )
}

/// The term rows that are the first of their term have types the gallery uses.
pub open spec fn first_terms_known(terms: Seq<NgaTerm>) -> bool {
    forall|i: int|
        0 <= i < terms.len() && (forall|j: int| 0 <= j < i ==> terms[j].term@ != terms[i].term@)
            ==> is_known_term_type(#[trigger] terms[i].termtype@)
}

/// The gallery's tags, ordered by name: the display tag counting the locations, then one
/// tag per term counting its rows, with the kind of its first row's type, then one tag per
/// location tag name counting the locations that have it.
pub open spec fn spec_nga_tags(terms: Seq<NgaTerm>, locations: Seq<NgaLocation>) -> Seq<TagView> {
    sort_by_name(
        seq![
            TagView {
                name: NGA_DISPLAY_TAG@,
                kind: TagKind::Default,
                presumed_work_count: Some(locations.len() as u64),
                wiki_url: None,
            },
        ] + tally(term_tag_views(terms)) + tally(location_tag_views(locations)),
    )
}

/// The gallery's tags, as `spec_nga_tags` says. The first row of each term must have a type
/// the gallery uses.
pub fn nga_tags(terms: &[NgaTerm], locations: &[NgaLocation]) -> (r: Vec<Tag>)
    requires
        first_terms_known(terms@),
    ensures
        tags_view(r@) == spec_nga_tags(terms@, locations@),
{
    let mut term_tags: Vec<Tag> = Vec::new();
    let mut i: usize = 0;
    while i < terms.len()
        invariant
            0 <= i <= terms@.len(),
            tags_view(term_tags@) == term_tag_views(terms@).take(i as int),
        decreases terms@.len() - i,
    {
        let ghost before = term_tags@;
        let kind = kind_of_term_type(terms[i].termtype.as_str());
        let tag = Tag::new(terms[i].term.as_str(), None, None).with_kind(kind);
        assert(tag@ == term_tag_views(terms@)[i as int]);
        term_tags.push(tag);
        assert(term_tags@ == before.push(tag));
        assert(tags_view(term_tags@) =~= tags_view(before).push(tag@));
        assert(term_tag_views(terms@).take(i + 1) =~= term_tag_views(terms@).take(i as int).push(
            term_tag_views(terms@)[i as int],
        ));
        i = i + 1;
    }
    assert(term_tag_views(terms@).take(terms@.len() as int) =~= term_tag_views(terms@));
    let mut loc_tags: Vec<Tag> = Vec::new();
    let mut j: usize = 0;
    while j < locations.len()
        invariant
            0 <= j <= locations@.len(),
            tags_view(loc_tags@) == location_tag_views(locations@).take(2 * j as int),
        decreases locations@.len() - j,
    {
        let names = location_tag_names(&locations[j]);
        let ghost before = loc_tags@;
        let site = Tag::new(names[0].as_str(), None, None).with_kind(TagKind::Location);
        let description = Tag::new(names[1].as_str(), None, None).with_kind(TagKind::Location);
        loc_tags.push(site);
        loc_tags.push(description);
        proof {
            let lv = location_tag_views(locations@);
            let e: int = 2 * j;
            assert(e / 2 == j && e % 2 == 0);
            assert((e + 1) / 2 == j && (e + 1) % 2 == 1);
            assert(site@ == lv[e]);
            assert(description@ == lv[e + 1]);
            assert(loc_tags@ == before.push(site).push(description));
            assert(tags_view(loc_tags@) =~= tags_view(before).push(site@).push(description@));
            assert(lv.take(e + 2) =~= lv.take(e).push(lv[e]).push(lv[e + 1]));
        }
        j = j + 1;
    }
    assert(location_tag_views(locations@).take(2 * locations@.len() as int) =~= location_tag_views(locations@));
    let display = Tag::new(NGA_DISPLAY_TAG, Some(locations.len() as u64), None);
    let ghost dv = display@;
    let mut all: Vec<Tag> = Vec::new();
    all.push(display);
    let mut tallied_terms = tally_tags(term_tags.as_slice());
    let mut tallied_locations = tally_tags(loc_tags.as_slice());
    let ghost a = tags_view(all@);
    let ghost b = tags_view(tallied_terms@);
    let ghost c = tags_view(tallied_locations@);
    assert(a =~= seq![dv]);
    all.append(&mut tallied_terms);
    all.append(&mut tallied_locations);
    assert(tags_view(all@) =~= a + b + c);
    assert(b == tally(term_tag_views(terms@)));
    assert(c == tally(location_tag_views(locations@)));
    sort_tags_by_name(all)
}

} // verus!
