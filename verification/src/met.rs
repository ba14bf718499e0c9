//! The Metropolitan Museum of Art source: which of its objects carry a tag, which tags a
//! work gets, and how a work is built from an object's record.
use crate::db::{CivilDate, parse_ymd, strings_view, year_start_text};
use crate::keyed::{keys_covered, keys_distinct, last_row_for_key, rows_by_key, KeyedRow};
use crate::num::{decimal, decimal_int, format_i64, format_u64, parse_i16, parse_i16_spec};
use crate::sdk::{
    History, HistoryView, Location, LocationView, Tag, TagKind, TagView, TextFetchError, empty_history,
    empty_location,
};
use crate::tag_tally::{sort_by_name, sort_tags_by_name, tally, tally_tags, tags_view};
use crate::text::{chars_of, owned, push_str, replace_all, replace_chars, str_eq, string_from_chars};
use crate::work::{Work, WorkView};
use vstd::prelude::*;

verus! {

/// The tag of the works on display.
pub const DISPLAY_TAG: &'static str = "On Display";

/// The tag of the museum's highlights.
pub const HIGHLIGHT_TAG: &'static str = "Met Highlight";

/// The tag of the works on the museum's timeline of art history.
pub const TIMELINE_TAG: &'static str = "Met Timeline";

/// `c` is white space, as `char::is_whitespace` says: the Unicode White_Space characters.
pub open spec fn is_whitespace(c: char) -> bool {
    let u = c as u32;
    (0x9 <= u && u <= 0xD) || u == 0x20 || u == 0x85 || u == 0xA0 || u == 0x1680 || (0x2000 <= u
        && u <= 0x200A) || u == 0x2028 || u == 0x2029 || u == 0x202F || u == 0x205F || u == 0x3000
}

/// `s` without its leading white space.
pub open spec fn trim_start(s: Seq<char>) -> Seq<char>
    decreases s.len(),
{
    if s.len() > 0 && is_whitespace(s[0]) {
        trim_start(s.drop_first())
    } else {
        s
    }
}

/// `s` without its trailing white space.
pub open spec fn trim_end(s: Seq<char>) -> Seq<char>
    decreases s.len(),
{
    if s.len() > 0 && is_whitespace(s.last()) {
        trim_end(s.drop_last())
    } else {
        s
    }
}

/// `s` without leading or trailing white space, as `str::trim` gives it.
pub open spec fn trim(s: Seq<char>) -> Seq<char> {
    trim_end(trim_start(s))
}

fn is_whitespace_exec(c: char) -> (r: bool)
    ensures
        r == is_whitespace(c),
{
    let u = c as u32;
    (0x9 <= u && u <= 0xD) || u == 0x20 || u == 0x85 || u == 0xA0 || u == 0x1680 || (0x2000 <= u
        && u <= 0x200A) || u == 0x2028 || u == 0x2029 || u == 0x202F || u == 0x205F || u == 0x3000
}

/// `s` without leading or trailing white space.
pub fn trim_chars(s: &[char]) -> (r: Vec<char>)
    ensures
        r@ == trim(s@),
{
    let mut lo: usize = 0;
    assert(s@.subrange(0, s@.len() as int) =~= s@);
    while lo < s.len() && is_whitespace_exec(s[lo])
        invariant
            0 <= lo <= s@.len(),
            trim_start(s@) == trim_start(s@.subrange(lo as int, s@.len() as int)),
        decreases s@.len() - lo,
    {
        assert(s@.subrange(lo as int, s@.len() as int).drop_first() =~= s@.subrange(
            lo + 1,
            s@.len() as int,
        ));
        lo = lo + 1;
    }
    let ghost mid = s@.subrange(lo as int, s@.len() as int);
    assert(trim_start(s@) == mid);
    let mut hi: usize = s.len();
    while hi > lo && is_whitespace_exec(s[hi - 1])
        invariant
            lo <= hi <= s@.len(),
            mid == s@.subrange(lo as int, s@.len() as int),
            trim_end(mid) == trim_end(s@.subrange(lo as int, hi as int)),
        decreases hi,
    {
        assert(s@.subrange(lo as int, hi as int).drop_last() =~= s@.subrange(lo as int, hi - 1));
        hi = hi - 1;
    }
    let mut r: Vec<char> = Vec::new();
    let mut i: usize = lo;
    while i < hi
        invariant
            lo <= i <= hi,
            hi <= s@.len(),
            r@ == s@.subrange(lo as int, i as int),
        decreases hi - i,
    {
        r.push(s[i]);
        assert(r@ =~= s@.subrange(lo as int, i + 1));
        i = i + 1;
    }
    r
}

/// The room tag of an object in gallery `g`: none outside the galleries; "The Met Room n"
/// for a numbered gallery; "The Met " and the trimmed gallery name otherwise.
pub open spec fn room_tag(g: Seq<char>) -> Option<Seq<char>> {
    if g.len() == 0 {
        None
    } else {
        match parse_i16_spec(g) {
            Some(n) => Some("The Met Room "@ + decimal_int(n as int)),
            None => Some("The Met "@ + trim(g)),
        }
    }
}

/// The room tag of an object in gallery `gallery_number`.
pub fn room_tag_for_gallery_number(gallery_number: &str) -> (r: Option<String>)
    ensures
        match r {
            Some(t) => room_tag(gallery_number@) == Some(t@),
            None => room_tag(gallery_number@) is None,
        },
{
    let cs = chars_of(gallery_number);
    if cs.len() == 0 {
        return None;
    }
    match parse_i16(cs.as_slice()) {
        Some(n) => {
            let mut out = owned("The Met Room ");
            let digits = format_i64(n as i64);
            push_str(&mut out, string_from_chars(digits.as_slice()).as_str());
            Some(out)
        },
        None => {
            let mut out = owned("The Met ");
            let trimmed = trim_chars(cs.as_slice());
            push_str(&mut out, string_from_chars(trimmed.as_slice()).as_str());
            Some(out)
        },
    }
}

/// The pieces that are not empty, in order.
pub open spec fn keep_nonempty(pieces: Seq<Seq<char>>) -> Seq<Seq<char>>
    decreases pieces.len(),
{
    if pieces.len() == 0 {
        pieces
    } else if pieces.last().len() > 0 {
        keep_nonempty(pieces.drop_last()).push(pieces.last())
    } else {
        keep_nonempty(pieces.drop_last())
    }
}

/// The pieces of `s` between '|' separators that are not empty.
pub open spec fn bar_pieces(s: Seq<char>) -> Seq<Seq<char>> {
    keep_nonempty(crate::text::split_seq(s, '|'))
}

/// The tags of an object's record, each with its wiki url: the i-th non-empty tag name
/// with the i-th non-empty url, as far as both lists go.
pub open spec fn record_tags(tags: Seq<char>, wiki_urls: Seq<char>) -> Seq<(Seq<char>, Seq<char>)> {
    let ts = bar_pieces(tags);
    let ws = bar_pieces(wiki_urls);
    let n = if ts.len() < ws.len() {
        ts.len()
    } else {
        ws.len()
    };
    Seq::new(n, |i: int| (ts[i], ws[i]))
}

/// The non-empty pieces of `s` between '|' separators.
fn bar_pieces_exec(s: &str) -> (r: Vec<String>)
    ensures
        strings_view(r@) == bar_pieces(s@),
{
    let cs = chars_of(s);
    let pieces = crate::text::split_chars(cs.as_slice(), '|');
    let ghost all = crate::text::vecs_view(pieces@);
    let mut out: Vec<String> = Vec::new();
    let mut i: usize = 0;
    while i < pieces.len()
        invariant
            0 <= i <= pieces@.len(),
            all == crate::text::vecs_view(pieces@),
            strings_view(out@) == keep_nonempty(all.subrange(0, i as int)),
        decreases pieces@.len() - i,
    {
        let ghost s = all.subrange(0, i + 1);
        assert(s.drop_last() =~= all.subrange(0, i as int));
        assert(s.last() == pieces@[i as int]@);
        if pieces[i].len() > 0 {
            let ghost before = out@;
            out.push(string_from_chars(pieces[i].as_slice()));
            assert(strings_view(out@) =~= strings_view(before).push(pieces@[i as int]@));
        }
        i = i + 1;
    }
    assert(all.subrange(0, pieces@.len() as int) =~= all);
    out
}

/// The tags of an object's record, each with its wiki url.
pub fn get_record_tags(tags: &str, wiki_urls: &str) -> (r: Vec<(String, String)>)
    ensures
        crate::sdk::pairs_view(r@) == record_tags(tags@, wiki_urls@),
{
    let ts = bar_pieces_exec(tags);
    let ws = bar_pieces_exec(wiki_urls);
    let n = if ts.len() < ws.len() {
        ts.len()
    } else {
        ws.len()
    };
    let mut out: Vec<(String, String)> = Vec::new();
    let mut i: usize = 0;
    while i < n
        invariant
            0 <= i <= n,
            n <= ts@.len(),
            n <= ws@.len(),
            crate::sdk::pairs_view(out@) == Seq::new(
                i as nat,
                |k: int| (strings_view(ts@)[k], strings_view(ws@)[k]),
            ),
        decreases n - i,
    {
        let ghost before = out@;
        out.push((owned(ts[i].as_str()), owned(ws[i].as_str())));
        assert(crate::sdk::pairs_view(out@) =~= crate::sdk::pairs_view(before).push(
            (ts@[i as int]@, ws@[i as int]@),
        ));
        assert(strings_view(ts@)[i as int] == ts@[i as int]@);
        assert(strings_view(ws@)[i as int] == ws@[i as int]@);
        assert(crate::sdk::pairs_view(out@) =~= Seq::new(
            (i + 1) as nat,
            |k: int| (strings_view(ts@)[k], strings_view(ws@)[k]),
        ));
        i = i + 1;
    }
    assert(crate::sdk::pairs_view(out@) =~= record_tags(tags@, wiki_urls@));
    out
}

/// The object carries the tag named `tag`: the display tag when it is in a gallery, the
/// highlight and timeline tags when it is marked so ("True"), its room tag, or one of its
/// record's tags.
pub open spec fn object_has_tag(
    tag: Seq<char>,
    is_highlight: Seq<char>,
    is_timeline_work: Seq<char>,
    gallery_number: Seq<char>,
    tags: Seq<char>,
    wiki_urls: Seq<char>,
) -> bool {
    let room = room_tag(gallery_number);
    ||| (tag == DISPLAY_TAG@ && room is Some)
    ||| (tag == HIGHLIGHT_TAG@ && is_highlight == "True"@)
    ||| (tag == TIMELINE_TAG@ && is_timeline_work == "True"@)
    ||| room == Some(tag)
    ||| exists|i: int|
        0 <= i < record_tags(tags, wiki_urls).len() && record_tags(tags, wiki_urls)[i].0 == tag
}

/// Whether the object with these record fields carries the tag named `tag`.
pub fn object_has_tag_exec(
    tag: &str,
    is_highlight: &str,
    is_timeline_work: &str,
    gallery_number: &str,
    tags: &str,
    wiki_urls: &str,
) -> (r: bool)
    ensures
        r == object_has_tag(tag@, is_highlight@, is_timeline_work@, gallery_number@, tags@, wiki_urls@),
{
    let room = room_tag_for_gallery_number(gallery_number);
    let is_display = str_eq(tag, DISPLAY_TAG);
    let is_high = str_eq(tag, HIGHLIGHT_TAG);
    let is_time = str_eq(tag, TIMELINE_TAG);
    if is_display && room.is_some() || is_high && str_eq(is_highlight, "True") || is_time && str_eq(
        is_timeline_work,
        "True",
    ) {
        return true;
    }
    match &room {
        Some(t) => {
            if str_eq(t.as_str(), tag) {
                return true;
            }
        },
        None => {},
    }
    let rt = get_record_tags(tags, wiki_urls);
    let mut i: usize = 0;
    while i < rt.len()
        invariant
            0 <= i <= rt@.len(),
            crate::sdk::pairs_view(rt@) == record_tags(tags@, wiki_urls@),
            forall|k: int| 0 <= k < i ==> record_tags(tags@, wiki_urls@)[k].0 != tag@,
        decreases rt@.len() - i,
    {
        assert(record_tags(tags@, wiki_urls@)[i as int].0 == rt@[i as int].0@);
        if str_eq(rt[i].0.as_str(), tag) {
            return true;
        }
        i = i + 1;
    }
    false
}

/// What the museum's object API reports of an object, as far as a work needs it.
pub struct MetObjectInfo {
    pub object_id: u32,
    pub is_highlight: bool,
    pub is_timeline_work: bool,
    pub primary_image: String,
    pub primary_image_small: String,
    /// The terms of the object's tags.
    pub tags: Vec<String>,
    pub title: String,
    pub object_begin_date: i32,
    pub object_end_date: i32,
    pub artist_display_name: String,
    pub artist_alpha_sort: String,
    pub object_date: String,
    pub rights_and_reproduction: String,
    pub credit_line: String,
    pub gallery_number: String,
}

/// The tags of a work built from an object: its own tags, then the highlight and timeline
/// tags when it is marked so, then the display tag and its room tag when it is in a gallery.
pub open spec fn object_work_tags(
    tags: Seq<Seq<char>>,
    is_highlight: bool,
    is_timeline_work: bool,
    gallery_number: Seq<char>,
) -> Seq<Seq<char>> {
    tags + (if is_highlight {
        seq![HIGHLIGHT_TAG@]
    } else {
        Seq::empty()
    }) + (if is_timeline_work {
        seq![TIMELINE_TAG@]
    } else {
        Seq::empty()
    }) + match room_tag(gallery_number) {
        Some(r) => seq![DISPLAY_TAG@, r],
        None => Seq::empty(),
    }
}

/// The location of a work built from an object: in the museum's custody, and in its gallery
/// when it is in one.
pub open spec fn object_location(gallery_number: Seq<char>) -> LocationView {
    let l = LocationView { custody: Some("The Metropolitan Gallery of Art"@), ..empty_location() };
    if room_tag(gallery_number) is Some {
        LocationView { room: Some(gallery_number), ..l }
    } else {
        l
    }
}

/// Some text when it is not empty.
pub open spec fn nonempty(s: Seq<char>) -> Option<Seq<char>> {
    if s.len() == 0 {
        None
    } else {
        Some(s)
    }
}

/// The history of a work built from an object: its begin and end years, and each of its
/// attribution, sort key, date, provenance and credit line that is not empty.
pub open spec fn object_history(o: MetObjectInfo) -> HistoryView {
    HistoryView {
        begin_year: Some(o.object_begin_date as i64),
        end_year: Some(o.object_end_date as i64),
        attribution: nonempty(o.artist_display_name@),
        attribution_sort_key: nonempty(o.artist_alpha_sort@),
        display_date: nonempty(o.object_date@),
        provenance: nonempty(o.rights_and_reproduction@),
        credit_line: nonempty(o.credit_line@),
        ..empty_history()
    }
}

/// The date of a work that began in `year`: its first of January for a year from -9999 to
/// 9999, else 0000-01-01, the default date.
pub open spec fn work_year_date(year: int) -> CivilDate {
    if -9999 <= year <= 9999 {
        CivilDate { year: year as i16, month: 1, day: 1 }
    } else {
        CivilDate { year: 0, month: 1, day: 1 }
    }
}

/// The date of a work that began in `year`, read from the text of its first of January; the
/// default date 0000-01-01 when the text does not read as a date.
pub fn work_date_for_year(year: i32) -> (r: CivilDate)
    ensures
        r == work_year_date(year as int),
{
    let digits = format_i64(year as i64);
    let mut text = string_from_chars(digits.as_slice());
    push_str(&mut text, "-01-01");
    assert(year_start_text(year as int) == text@);
    match parse_ymd(text.as_str()) {
        Some(d) => d,
        None => CivilDate { year: 0, month: 1, day: 1 },
    }
}

/// An image url with its spaces escaped as "%20".
pub open spec fn escape_spaces(url: Seq<char>) -> Seq<char> {
    replace_all(url, " "@, "%20"@)
}

/// The work for an object with an image, identified by `obj_id` at the museum; `None` when
/// the object has no primary image.
pub open spec fn spec_object_work(obj_id: i64, o: MetObjectInfo) -> Option<WorkView> {
    if o.primary_image@.len() == 0 {
        None
    } else {
        Some(
            WorkView {
                name: o.title@,
                date: work_year_date(o.object_begin_date as int),
                preview_url: escape_spaces(o.primary_image_small@),
                screen_url: escape_spaces(o.primary_image@),
                tags: object_work_tags(
                    strings_view(o.tags@),
                    o.is_highlight,
                    o.is_timeline_work,
                    o.gallery_number@,
                ),
                remote_id: Some(decimal_int(obj_id as int)),
                archive_url: None,
                history: Some(object_history(o)),
                location: Some(object_location(o.gallery_number@)),
                physical_data: None,
            },
        )
    }
}

/// The museum's mark tags and room tags are told apart by their first letters.
proof fn lemma_mark_tags_differ(g: Seq<char>)
    ensures
        HIGHLIGHT_TAG@ != TIMELINE_TAG@,
        DISPLAY_TAG@ != TIMELINE_TAG@,
        DISPLAY_TAG@ != HIGHLIGHT_TAG@,
        room_tag(g) matches Some(r) ==> r != TIMELINE_TAG@ && r != HIGHLIGHT_TAG@,
{
    reveal_strlit("Met Highlight");
    reveal_strlit("Met Timeline");
    reveal_strlit("On Display");
    reveal_strlit("The Met Room ");
    reveal_strlit("The Met ");
    assert(HIGHLIGHT_TAG@[4] != TIMELINE_TAG@[4]);
    assert(DISPLAY_TAG@[0] != TIMELINE_TAG@[0]);
    assert(DISPLAY_TAG@[0] != HIGHLIGHT_TAG@[0]);
    if let Some(r) = room_tag(g) {
        assert(r[0] == 'T');
        assert(TIMELINE_TAG@[0] == 'M');
        assert(HIGHLIGHT_TAG@[0] == 'M');
    }
}

/// A work is built exactly from an object with a primary image. Its tags begin with the
/// object's own tags, in order; an object marked as a highlight carries "Met Highlight", one
/// marked as a timeline work carries "Met Timeline", and one in a gallery carries "On
/// Display" and its room tag. The mark tags appear on no other work, unless the object's own
/// tags name them.
pub proof fn lemma_object_work_tags(obj_id: i64, o: MetObjectInfo)
    ensures
        spec_object_work(obj_id, o) is Some <==> o.primary_image@.len() > 0,
        spec_object_work(obj_id, o) matches Some(w) ==> {
            &&& w.tags.len() >= o.tags@.len()
            &&& forall|i: int| 0 <= i < o.tags@.len() ==> w.tags[i] == #[trigger] o.tags@[i]@
            &&& (o.is_highlight ==> w.tags.contains(HIGHLIGHT_TAG@))
            &&& (o.is_timeline_work ==> w.tags.contains(TIMELINE_TAG@))
            &&& (room_tag(o.gallery_number@) matches Some(r) ==> w.tags.contains(DISPLAY_TAG@)
                && w.tags.contains(r))
            &&& (!o.is_timeline_work && !strings_view(o.tags@).contains(TIMELINE_TAG@) ==> !w.tags.contains(
                TIMELINE_TAG@,
            ))
            &&& (!o.is_highlight && !strings_view(o.tags@).contains(HIGHLIGHT_TAG@) ==> !w.tags.contains(
                HIGHLIGHT_TAG@,
            ))
        },
{
    lemma_mark_tags_differ(o.gallery_number@);
    if let Some(w) = spec_object_work(obj_id, o) {
        let own = strings_view(o.tags@);
        let h: Seq<Seq<char>> = if o.is_highlight {
            seq![HIGHLIGHT_TAG@]
        } else {
            Seq::empty()
        };
        let t: Seq<Seq<char>> = if o.is_timeline_work {
            seq![TIMELINE_TAG@]
        } else {
            Seq::empty()
        };
        let d: Seq<Seq<char>> = match room_tag(o.gallery_number@) {
            Some(r) => seq![DISPLAY_TAG@, r],
            None => Seq::empty(),
        };
        assert(w.tags =~= own + h + t + d);
        assert(own.len() == o.tags@.len());
        assert forall|i: int| 0 <= i < o.tags@.len() implies w.tags[i] == #[trigger] o.tags@[i]@ by {
            assert(w.tags[i] == own[i]);
        }
        if o.is_highlight {
            assert(w.tags[own.len() as int] == HIGHLIGHT_TAG@);
        }
        if o.is_timeline_work {
            assert(w.tags[(own.len() + h.len()) as int] == TIMELINE_TAG@);
        }
        if let Some(r) = room_tag(o.gallery_number@) {
            assert(w.tags[(own.len() + h.len() + t.len()) as int] == DISPLAY_TAG@);
            assert(w.tags[(own.len() + h.len() + t.len() + 1) as int] == r);
        }
        if !o.is_timeline_work && !own.contains(TIMELINE_TAG@) && w.tags.contains(TIMELINE_TAG@) {
            let i = choose|i: int| 0 <= i < w.tags.len() && w.tags[i] == TIMELINE_TAG@;
            if i < own.len() {
                assert(own[i] == TIMELINE_TAG@);
            }
        }
        if !o.is_highlight && !own.contains(HIGHLIGHT_TAG@) && w.tags.contains(HIGHLIGHT_TAG@) {
            let i = choose|i: int| 0 <= i < w.tags.len() && w.tags[i] == HIGHLIGHT_TAG@;
            if i < own.len() {
                assert(own[i] == HIGHLIGHT_TAG@);
            }
        }
    }
}

/// A work built from an object is named by the object's title and identified at the museum
/// by the object's id in decimal; it is in the museum's custody, and in the object's gallery
/// exactly when the object is in one.
pub proof fn lemma_object_work_identity(obj_id: i64, o: MetObjectInfo)
    ensures
        spec_object_work(obj_id, o) matches Some(w) ==> {
            &&& w.name == o.title@
            &&& w.remote_id == Some(decimal_int(obj_id as int))
            &&& w.location is Some
            &&& w.location->0.custody == Some("The Metropolitan Gallery of Art"@)
            &&& (o.gallery_number@.len() > 0 ==> w.location->0.room == Some(o.gallery_number@))
            &&& (o.gallery_number@.len() == 0 ==> w.location->0.room is None)
        },
{
}

/// Text copied when it is not empty.
fn set_if_nonempty(s: &str) -> (r: Option<String>)
    ensures
        crate::text::opt_string_view(r) == nonempty(s@),
{
    if chars_of(s).len() == 0 {
        None
    } else {
        Some(owned(s))
    }
}

/// Builds the work for an object of the museum, identified by `obj_id`; `None` when the
/// object has no primary image.
pub fn build_object_work(obj_id: i64, o: &MetObjectInfo) -> (r: Option<Work>)
    ensures
        match r {
            Some(w) => spec_object_work(obj_id, *o) == Some(w@),
            None => spec_object_work(obj_id, *o) is None,
        },
{
    if chars_of(o.primary_image.as_str()).len() == 0 {
        return None;
    }
    // The tags.
    let mut tags: Vec<String> = Vec::new();
    let mut i: usize = 0;
    while i < o.tags.len()
        invariant
            0 <= i <= o.tags@.len(),
            strings_view(tags@) == strings_view(o.tags@).subrange(0, i as int),
        decreases o.tags@.len() - i,
    {
        let ghost before = tags@;
        tags.push(owned(o.tags[i].as_str()));
        assert(strings_view(tags@) =~= strings_view(before).push(o.tags@[i as int]@));
        assert(strings_view(o.tags@).subrange(0, i + 1) =~= strings_view(o.tags@).subrange(
            0,
            i as int,
        ).push(o.tags@[i as int]@));
        i = i + 1;
    }
    assert(strings_view(o.tags@).subrange(0, o.tags@.len() as int) =~= strings_view(o.tags@));
    let ghost base = strings_view(tags@);
    if o.is_highlight {
        tags.push(owned(HIGHLIGHT_TAG));
    }
    let ghost with_high = strings_view(tags@);
    assert(with_high =~= base + (if o.is_highlight {
        seq![HIGHLIGHT_TAG@]
    } else {
        Seq::empty()
    }));
    if o.is_timeline_work {
        tags.push(owned(TIMELINE_TAG));
    }
    let ghost with_time = strings_view(tags@);
    assert(with_time =~= with_high + (if o.is_timeline_work {
        seq![TIMELINE_TAG@]
    } else {
        Seq::empty()
    }));
    // The location.
    let mut loc = Location::new();
    loc.set_custody("The Metropolitan Gallery of Art");
    match room_tag_for_gallery_number(o.gallery_number.as_str()) {
        Some(room) => {
            loc.set_room(o.gallery_number.as_str());
            tags.push(owned(DISPLAY_TAG));
            let ghost r = room@;
            tags.push(room);
            assert(strings_view(tags@) =~= with_time + seq![DISPLAY_TAG@, r]);
        },
        None => {
            assert(strings_view(tags@) =~= with_time + Seq::<Seq<char>>::empty());
        },
    }
    // The history.
    let mut history = History::new();
    history.set_begin_year(o.object_begin_date as i64);
    history.set_end_year(o.object_end_date as i64);
    match set_if_nonempty(o.artist_display_name.as_str()) {
        Some(s) => history.set_attribution(s.as_str()),
        None => {},
    }
    match set_if_nonempty(o.artist_alpha_sort.as_str()) {
        Some(s) => history.set_attribution_sort_key(s.as_str()),
        None => {},
    }
    match set_if_nonempty(o.object_date.as_str()) {
        Some(s) => history.set_display_date(s.as_str()),
        None => {},
    }
    match set_if_nonempty(o.rights_and_reproduction.as_str()) {
        Some(s) => history.set_provenance(s.as_str()),
        None => {},
    }
    match set_if_nonempty(o.credit_line.as_str()) {
        Some(s) => history.set_credit_line(s.as_str()),
        None => {},
    }
    assert(history@ == object_history(*o));
    // The work.
    let date = work_date_for_year(o.object_begin_date);
    let small = chars_of(o.primary_image_small.as_str());
    let big = chars_of(o.primary_image.as_str());
    let space = chars_of(" ");
    proof {
        reveal_strlit(" ");
    }
    let escaped = chars_of("%20");
    let preview = replace_chars(small.as_slice(), space.as_slice(), escaped.as_slice());
    let screen = replace_chars(big.as_slice(), space.as_slice(), escaped.as_slice());
    let id_text = format_i64(obj_id);
    let w = Work::new(
        o.title.as_str(),
        date,
        string_from_chars(preview.as_slice()).as_str(),
        string_from_chars(screen.as_slice()).as_str(),
        tags,
    ).with_remote_id(string_from_chars(id_text.as_slice()).as_str()).with_location(loc).with_history(
        history,
    );
    Some(w)
}

// ---------------------------------------------------------------------------------------------
// The museum's tags
// ---------------------------------------------------------------------------------------------
/// What the museum's object table says of an object, as far as its tags go: its id, the
/// highlight and timeline marks ("True" when set), the gallery, and the '|'-separated tag
/// names with their wiki urls.
pub struct MetObjectRow {
    pub object_id: i64,
    pub is_highlight: String,
    pub is_timeline_work: String,
    pub gallery_number: String,
    pub tags: String,
    pub tags_wikidata_url: String,
}

impl KeyedRow for MetObjectRow {
    open spec fn row_key(&self) -> i64 {
        self.object_id
    }

    fn key(&self) -> (r: i64) {
        self.object_id
    }
}

/// The museum's table keyed by object id, as collecting its rows into a map does: one row
/// per id that occurs, the last row with that id. Each id stands where it first occurs.
pub fn met_objects_by_id(rows: Vec<MetObjectRow>) -> (r: Vec<MetObjectRow>)
    ensures
        keys_distinct(r@),
        forall|k: int| 0 <= k < r@.len() ==> last_row_for_key(rows@, #[trigger] r@[k].row_key()) == Some(r@[k]),
        keys_covered(rows@, r@),
{
    rows_by_key(rows)
}

/// A tag with a name and nothing else known.
pub open spec fn plain_tag(name: Seq<char>) -> TagView {
    TagView { name: name, kind: TagKind::Default, presumed_work_count: None, wiki_url: None }
}

/// One tag per record tag of each object, in order, with its wiki url.
pub open spec fn term_views(objects: Seq<MetObjectRow>) -> Seq<TagView>
    decreases objects.len(),
{
    if objects.len() == 0 {
        Seq::empty()
    } else {
        let o = objects.last();
        let rt = record_tags(o.tags@, o.tags_wikidata_url@);
        term_views(objects.drop_last()) + Seq::new(
            rt.len(),
            |i: int| TagView { wiki_url: Some(rt[i].1), ..plain_tag(rt[i].0) },
        )
    }
}

/// One room tag per object in a gallery, in order.
pub open spec fn room_views(objects: Seq<MetObjectRow>) -> Seq<TagView>
    decreases objects.len(),
{
    if objects.len() == 0 {
        Seq::empty()
    } else {
        let o = objects.last();
        match room_tag(o.gallery_number@) {
            Some(r) => room_views(objects.drop_last()).push(plain_tag(r)),
            None => room_views(objects.drop_last()),
        }
    }
}

/// What the museum's own tags count: objects in a gallery, highlights, timeline works.
pub ghost enum MetMark {
    InGallery,
    Highlight,
    Timeline,
}

/// The object has the mark.
pub open spec fn has_mark(o: MetObjectRow, m: MetMark) -> bool {
    match m {
        MetMark::InGallery => room_tag(o.gallery_number@) is Some,
        MetMark::Highlight => o.is_highlight@ == "True"@,
        MetMark::Timeline => o.is_timeline_work@ == "True"@,
    }
}

/// How many objects have the mark.
pub open spec fn count_objects(objects: Seq<MetObjectRow>, m: MetMark) -> nat
    decreases objects.len(),
{
    if objects.len() == 0 {
        0
    } else {
        count_objects(objects.drop_last(), m) + if has_mark(objects.last(), m) {
            1nat
        } else {
            0nat
        }
    }
}

/// The museum's tags, ordered by name: one per record tag name counting its objects, with
/// the wiki url of its first; one per room counting the objects in it; then the display tag
/// counting the objects in a gallery, and the highlight and timeline tags counting the
/// objects marked so.
pub open spec fn spec_met_tags(objects: Seq<MetObjectRow>) -> Seq<TagView> {
    let display = count_objects(objects, MetMark::InGallery);
    let highlight = count_objects(objects, MetMark::Highlight);
    let timeline = count_objects(objects, MetMark::Timeline);
    sort_by_name(
        tally(term_views(objects)) + tally(room_views(objects)) + seq![
            TagView { presumed_work_count: Some(display as u64), ..plain_tag(DISPLAY_TAG@) },
            TagView { presumed_work_count: Some(highlight as u64), ..plain_tag(HIGHLIGHT_TAG@) },
            TagView { presumed_work_count: Some(timeline as u64), ..plain_tag(TIMELINE_TAG@) },
        ],
    )
}

/// No more objects satisfy a test than there are objects.
proof fn lemma_count_objects_le(objects: Seq<MetObjectRow>, m: MetMark)
    ensures
        count_objects(objects, m) <= objects.len(),
    decreases objects.len(),
{
    if objects.len() > 0 {
        lemma_count_objects_le(objects.drop_last(), m);
    }
}

/// The museum's tags, as `spec_met_tags` says, counted over the rows of its table (keyed by
/// id, as `met_objects_by_id` leaves it, each object counts once).
pub fn met_tags(objects: &[MetObjectRow]) -> (r: Vec<Tag>)
    ensures
        tags_view(r@) == spec_met_tags(objects@),
{
    let mut display: u64 = 0;
    let mut highlight: u64 = 0;
    let mut timeline: u64 = 0;
    let mut rooms: Vec<Tag> = Vec::new();
    let mut terms: Vec<Tag> = Vec::new();
    let mut i: usize = 0;
    while i < objects.len()
        invariant
            0 <= i <= objects@.len(),
            display == count_objects(objects@.take(i as int), MetMark::InGallery),
            highlight == count_objects(objects@.take(i as int), MetMark::Highlight),
            timeline == count_objects(objects@.take(i as int), MetMark::Timeline),
            tags_view(rooms@) == room_views(objects@.take(i as int)),
            tags_view(terms@) == term_views(objects@.take(i as int)),
        decreases objects@.len() - i,
    {
        let ghost p = objects@.take(i as int);
        let ghost q = objects@.take(i + 1);
        assert(q.drop_last() =~= p);
        assert(q.last() == objects@[i as int]);
        proof {
            lemma_count_objects_le(p, MetMark::InGallery);
            lemma_count_objects_le(p, MetMark::Highlight);
            lemma_count_objects_le(p, MetMark::Timeline);
        }
        let o = &objects[i];
        if str_eq(o.is_highlight.as_str(), "True") {
            highlight = highlight + 1;
        }
        if str_eq(o.is_timeline_work.as_str(), "True") {
            timeline = timeline + 1;
        }
        match room_tag_for_gallery_number(o.gallery_number.as_str()) {
            Some(room) => {
                display = display + 1;
                let ghost before = rooms@;
                let t = Tag::new(room.as_str(), None, None);
                rooms.push(t);
                assert(tags_view(rooms@) =~= tags_view(before).push(t@));
            },
            None => {},
        }
        let rt = get_record_tags(o.tags.as_str(), o.tags_wikidata_url.as_str());
        let ghost rts = record_tags(o.tags@, o.tags_wikidata_url@);
        let ghost base = tags_view(terms@);
        let mut k: usize = 0;
        while k < rt.len()
            invariant
                0 <= k <= rt@.len(),
                crate::sdk::pairs_view(rt@) == rts,
                tags_view(terms@) == base + Seq::new(
                    k as nat,
                    |m: int| TagView { wiki_url: Some(rts[m].1), ..plain_tag(rts[m].0) },
                ),
            decreases rt@.len() - k,
        {
            let ghost before = terms@;
            let t = Tag::new(rt[k].0.as_str(), None, Some(rt[k].1.as_str()));
            assert(rts[k as int] == (rt@[k as int].0@, rt@[k as int].1@));
            assert(t@ == TagView { wiki_url: Some(rts[k as int].1), ..plain_tag(rts[k as int].0) });
            terms.push(t);
            assert(tags_view(terms@) =~= tags_view(before).push(t@));
            assert(tags_view(terms@) =~= base + Seq::new(
                (k + 1) as nat,
                |m: int| TagView { wiki_url: Some(rts[m].1), ..plain_tag(rts[m].0) },
            ));
            k = k + 1;
        }
        i = i + 1;
    }
    assert(objects@.take(objects@.len() as int) =~= objects@);
    let mut tallied_terms = tally_tags(terms.as_slice());
    let mut tallied_rooms = tally_tags(rooms.as_slice());
    let ghost tt = tags_view(tallied_terms@);
    let ghost tr = tags_view(tallied_rooms@);
    assert(tt == tally(term_views(objects@)));
    assert(tr == tally(room_views(objects@)));
    let mut all: Vec<Tag> = Vec::new();
    all.append(&mut tallied_terms);
    all.append(&mut tallied_rooms);
    let ghost base = tags_view(all@);
    assert(base =~= tt + tr);
    let d = Tag::new(DISPLAY_TAG, Some(display), None);
    let h = Tag::new(HIGHLIGHT_TAG, Some(highlight), None);
    let t = Tag::new(TIMELINE_TAG, Some(timeline), None);
    let ghost tail = seq![d@, h@, t@];
    all.push(d);
    all.push(h);
    all.push(t);
    assert(tags_view(all@) =~= base + tail);
    assert(display == count_objects(objects@, MetMark::InGallery));
    assert(highlight == count_objects(objects@, MetMark::Highlight));
    assert(timeline == count_objects(objects@, MetMark::Timeline));
    assert(tail =~= seq![
        TagView { presumed_work_count: Some(display), ..plain_tag(DISPLAY_TAG@) },
        TagView { presumed_work_count: Some(highlight), ..plain_tag(HIGHLIGHT_TAG@) },
        TagView { presumed_work_count: Some(timeline), ..plain_tag(TIMELINE_TAG@) },
    ]);
    sort_tags_by_name(all)
}

/// The ids of the objects that carry the tag named `tag`, in the table's order.
pub open spec fn ids_with_tag(tag: Seq<char>, objects: Seq<MetObjectRow>) -> Seq<i64>
    decreases objects.len(),
{
    if objects.len() == 0 {
        Seq::empty()
    } else {
        let o = objects.last();
        let rest = ids_with_tag(tag, objects.drop_last());
        if object_has_tag(tag, o.is_highlight@, o.is_timeline_work@, o.gallery_number@, o.tags@, o.tags_wikidata_url@) {
            rest.push(o.object_id)
        } else {
            rest
        }
    }
}

/// The ids of the objects in the museum's table that carry the tag named `tag_name`, as
/// `object_has_tag` says of each row (in a table keyed by id, as `met_objects_by_id` leaves
/// it, each id once).
pub fn object_ids_with_tag(tag_name: &str, objects: &[MetObjectRow]) -> (r: Vec<i64>)
    ensures
        r@ == ids_with_tag(tag_name@, objects@),
{
    let mut r: Vec<i64> = Vec::new();
    let mut i: usize = 0;
    while i < objects.len()
        invariant
            0 <= i <= objects@.len(),
            r@ == ids_with_tag(tag_name@, objects@.take(i as int)),
        decreases objects@.len() - i,
    {
        assert(objects@.take(i + 1).drop_last() =~= objects@.take(i as int));
        assert(objects@.take(i + 1).last() == objects@[i as int]);
        let o = &objects[i];
        if object_has_tag_exec(
            tag_name,
            o.is_highlight.as_str(),
            o.is_timeline_work.as_str(),
            o.gallery_number.as_str(),
            o.tags.as_str(),
            o.tags_wikidata_url.as_str(),
        ) {
            r.push(o.object_id);
        }
        i = i + 1;
    }
    assert(objects@.take(objects@.len() as int) =~= objects@);
    r
}

/// What the works listing does when fetching one object's record fails.
pub enum ObjectFetchStep {
    /// The server answered with an HTTP error status: log this line and go on with the next
    /// object.
    Skip(String),
    /// Any other failure: stop the listing with this error.
    Stop(TextFetchError),
}

/// The line logged when the record of object `obj_id` could not be had: HTTP status `code`.
pub open spec fn object_fetch_failure_line(obj_id: i64, code: u16) -> Seq<char> {
    "Failed to fetch object info for "@ + decimal_int(obj_id as int) + ": HTTP "@ + decimal(
        code as nat,
    )
}

/// Decides what follows a failed fetch of object `obj_id`'s record: an HTTP error status
/// skips that object with an error line; every other failure ends the listing.
pub fn after_object_fetch_error(obj_id: i64, e: TextFetchError) -> (r: ObjectFetchStep)
    ensures
        match e {
            TextFetchError::HttpError(code) => r matches ObjectFetchStep::Skip(line) && line@
                == object_fetch_failure_line(obj_id, code),
            _ => r == ObjectFetchStep::Stop(e),
        },
{
    match e {
        TextFetchError::HttpError(code) => {
            let mut line = owned("Failed to fetch object info for ");
            let id_digits = format_i64(obj_id);
            push_str(&mut line, string_from_chars(id_digits.as_slice()).as_str());
            push_str(&mut line, ": HTTP ");
            let code_digits = format_u64(code as u64);
            push_str(&mut line, string_from_chars(code_digits.as_slice()).as_str());
            ObjectFetchStep::Skip(line)
        },
        other => ObjectFetchStep::Stop(other),
    }
}

} // verus!
