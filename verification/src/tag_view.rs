//! The tags list: its name, source and kind filters, its sort order, and the filtered and
//! sorted listing of the tags loaded from the database.
use crate::db::{DbTag, DbTagView, OrderDir, TagId, TagTable, db_tags_view};
use crate::sdk::TagKind;
use crate::text::{
    chars_of, compare_chars, contains_chars, contains_seq, opt_string_view, seq_lt, str_eq,
    to_lowercase, unicode_lowercase,
};
use vstd::prelude::*;

verus! {

/// The column the tags list sorts by.
#[derive(Clone, Copy, Debug, PartialEq, Eq, Structural)]
pub enum TagSortCol {
    /// The tag's name.
    Name,
    /// The number of works downloaded, then the name.
    LocalCount,
    /// The number of works the sources report, then the name.
    NetworkCount,
}

/// The column's position in the column chooser.
pub open spec fn sort_col_index(c: TagSortCol) -> usize {
    match c {
        TagSortCol::Name => 0,
        TagSortCol::LocalCount => 1,
        TagSortCol::NetworkCount => 2,
    }
}

impl TagSortCol {
    /// The column's position in the column chooser.
    pub fn index(&self) -> (r: usize)
        ensures
            r == sort_col_index(*self),
    {
        match self {
            TagSortCol::Name => 0,
            TagSortCol::LocalCount => 1,
            TagSortCol::NetworkCount => 2,
        }
    }

    /// The column at position `i` of the column chooser.
    pub fn from_index(i: usize) -> (r: TagSortCol)
        requires
            i < 3,
        ensures
            sort_col_index(r) == i,
    {
        if i == 0 {
            TagSortCol::Name
        } else if i == 1 {
            TagSortCol::LocalCount
        } else {
            TagSortCol::NetworkCount
        }
    }
}

/// The tags list's sort order: a column and a direction. Favorites always come first.
#[derive(Clone, Copy, Debug, PartialEq, Eq, Structural)]
pub struct TagOrder {
    pub column: TagSortCol,
    pub order: OrderDir,
}

impl TagOrder {
    /// The order by `column` in direction `order`.
    pub fn new(column: TagSortCol, order: OrderDir) -> (r: Self)
        ensures
            r == (TagOrder { column: column, order: order }),
    {
        TagOrder { column, order }
    }
}

/// `a` is below `b`, with an unknown count below every known one.
pub open spec fn opt_count_lt(a: Option<u64>, b: Option<u64>) -> bool {
    match (a, b) {
        (None, Some(_)) => true,
        (Some(x), Some(y)) => x < y,
        _ => false,
    }
}

/// `a` sorts before `b` by the column, in ascending order.
pub open spec fn column_lt(col: TagSortCol, a: DbTagView, b: DbTagView) -> bool {
    match col {
        TagSortCol::Name => seq_lt(a.name, b.name),
        TagSortCol::LocalCount => opt_count_lt(a.local_count, b.local_count) || (a.local_count
            == b.local_count && seq_lt(a.name, b.name)),
        TagSortCol::NetworkCount => a.network_count < b.network_count || (a.network_count
            == b.network_count && seq_lt(a.name, b.name)),
    }
}

/// `a` comes before `b` in the tags list: favorites first, then by the column in the
/// order's direction.
pub open spec fn tag_before(order: TagOrder, a: DbTagView, b: DbTagView) -> bool {
    if a.favorite != b.favorite {
        a.favorite
    } else {
        match order.order {
            OrderDir::Asc => column_lt(order.column, a, b),
            OrderDir::Desc => column_lt(order.column, b, a),
        }
    }
}

/// No tag comes before itself.
pub proof fn lemma_tag_before_irreflexive(order: TagOrder, a: DbTagView)
    ensures
        !tag_before(order, a, a),
{
    crate::text::lemma_seq_lt_irreflexive(a.name);
}

proof fn lemma_column_lt_transitive(col: TagSortCol, a: DbTagView, b: DbTagView, c: DbTagView)
    requires
        column_lt(col, a, b),
        column_lt(col, b, c),
    ensures
        column_lt(col, a, c),
{
    if seq_lt(a.name, b.name) && seq_lt(b.name, c.name) {
        crate::text::lemma_seq_lt_transitive(a.name, b.name, c.name);
    }
}

/// The list order is transitive.
pub proof fn lemma_tag_before_transitive(order: TagOrder, a: DbTagView, b: DbTagView, c: DbTagView)
    requires
        tag_before(order, a, b),
        tag_before(order, b, c),
    ensures
        tag_before(order, a, c),
{
    if a.favorite == b.favorite && b.favorite == c.favorite {
        match order.order {
            OrderDir::Asc => lemma_column_lt_transitive(order.column, a, b, c),
            OrderDir::Desc => lemma_column_lt_transitive(order.column, c, b, a),
        }
    }
}

/// The tag passes the filters: its lower-cased name contains the lower-cased name filter,
/// it comes from the chosen source (or the "Hidden" source is chosen and the tag is
/// hidden), and it has the chosen kind.
pub open spec fn tag_passes(
    name_filter: Seq<char>,
    source: Option<Seq<char>>,
    kind: Option<TagKind>,
    t: DbTagView,
) -> bool {
    &&& contains_seq(unicode_lowercase(t.name), unicode_lowercase(name_filter))
    &&& match source {
        None => true,
        Some(s) => (s == "Hidden"@ && t.hidden) || t.sources.contains(s),
    }
    &&& match kind {
        None => true,
        Some(k) => t.kind == k,
    }
}

/// The tags are in list order.
pub open spec fn tags_sorted(order: TagOrder, ks: Seq<DbTagView>) -> bool {
    forall|i: int, j: int| 0 <= i < j < ks.len() ==> !tag_before(order, ks[j], ks[i])
}

/// The ids of a sequence of tags.
pub open spec fn tag_ids(ks: Seq<DbTagView>) -> Seq<TagId> {
    Seq::new(ks.len(), |i: int| ks[i].id)
}

/// `ids` lists, in list order, each tag of `m` that passes the filters, once.
pub open spec fn is_tag_listing(
    ids: Seq<TagId>,
    m: Map<TagId, DbTagView>,
    name_filter: Seq<char>,
    source: Option<Seq<char>>,
    kind: Option<TagKind>,
    order: TagOrder,
) -> bool {
    exists|ks: Seq<DbTagView>|
        {
            &&& ids == tag_ids(ks)
            &&& ids.no_duplicates()
            &&& tags_sorted(order, ks)
            &&& forall|t: DbTagView|
                #[trigger] ks.contains(t) <==> (m.contains_key(t.id) && m[t.id] == t
                    && tag_passes(name_filter, source, kind, t))
        }
}

/// The comparison of two tag names.
fn compare_names(a: &DbTag, b: &DbTag) -> (r: i8)
    ensures
        r == -1 <==> seq_lt(a@.name, b@.name),
        r == 0 <==> a@.name == b@.name,
        r == 1 <==> seq_lt(b@.name, a@.name),
{
    let ca = chars_of(a.name());
    let cb = chars_of(b.name());
    compare_chars(ca.as_slice(), cb.as_slice())
}

/// Whether `a` sorts before `b` by the column, ascending.
fn column_lt_exec(col: TagSortCol, a: &DbTag, b: &DbTag) -> (r: bool)
    ensures
        r == column_lt(col, a@, b@),
{
    match col {
        TagSortCol::Name => compare_names(a, b) == -1,
        TagSortCol::LocalCount => {
            let (x, y) = (a.local_count(), b.local_count());
            let lt = match (x, y) {
                (None, Some(_)) => true,
                (Some(p), Some(q)) => p < q,
                _ => false,
            };
            lt || (x == y && compare_names(a, b) == -1)
        },
        TagSortCol::NetworkCount => {
            let (x, y) = (a.network_count(), b.network_count());
            x < y || (x == y && compare_names(a, b) == -1)
        },
    }
}

/// Whether `a` comes before `b` in the tags list.
pub fn tag_before_exec(order: TagOrder, a: &DbTag, b: &DbTag) -> (r: bool)
    ensures
        r == tag_before(order, a@, b@),
{
    if a.favorite() != b.favorite() {
        a.favorite()
    } else {
        match order.order {
            OrderDir::Asc => column_lt_exec(order.column, a, b),
            OrderDir::Desc => column_lt_exec(order.column, b, a),
        }
    }
}

/// Whether the tag passes the filters; the name filter comes already lower-cased.
fn tag_passes_exec(
    lower_filter: &[char],
    source: Option<&str>,
    kind: Option<TagKind>,
    t: &DbTag,
) -> (r: bool)
    ensures
        r == (contains_seq(unicode_lowercase(t@.name), lower_filter@) && match crate::text::opt_str_view(source) {
            None => true,
            Some(s) => (s == "Hidden"@ && t@.hidden) || t@.sources.contains(s),
        } && match kind {
            None => true,
            Some(k) => t@.kind == k,
        }),
{
    let lower_name = to_lowercase(t.name());
    let name_chars = chars_of(lower_name.as_str());
    if !contains_chars(name_chars.as_slice(), lower_filter) {
        return false;
    }
    let source_ok = match source {
        None => true,
        Some(s) => {
            if str_eq(s, "Hidden") && t.hidden() {
                true
            } else {
                let sources = t.sources();
                let mut found = false;
                let mut i: usize = 0;
                while i < sources.len()
                    invariant
                        0 <= i <= sources@.len(),
                        crate::db::strings_view(sources@) == t@.sources,
                        found == exists|j: int| 0 <= j < i && t@.sources[j] == s@,
                    decreases sources@.len() - i,
                {
                    assert(t@.sources[i as int] == sources@[i as int]@);
                    if str_eq(sources[i].as_str(), s) {
                        found = true;
                    }
                    i = i + 1;
                }
                proof {
                    if t@.sources.contains(s@) {
                        let j = choose|j: int| 0 <= j < t@.sources.len() && t@.sources[j] == s@;
                    }
                }
                found
            }
        },
    };
    if !source_ok {
        return false;
    }
    match kind {
        None => true,
        Some(k) => t.kind() == k,
    }
}

/// The positions of the tags that pass the filters, in list order.
fn sorted_passing(
    tags: &[DbTag],
    lower_filter: &[char],
    source: Option<&str>,
    kind: Option<TagKind>,
    order: TagOrder,
) -> (r: Vec<usize>)
    ensures
        r@.no_duplicates(),
        forall|a: int| 0 <= a < r@.len() ==> r@[a] < tags@.len(),
        forall|i: int|
            0 <= i < tags@.len() ==> (r@.contains(i as usize) <==> (contains_seq(
                unicode_lowercase(tags@[i]@.name),
                lower_filter@,
            ) && match crate::text::opt_str_view(source) {
                None => true,
                Some(s) => (s == "Hidden"@ && tags@[i]@.hidden) || tags@[i]@.sources.contains(s),
            } && match kind {
                None => true,
                Some(k) => tags@[i]@.kind == k,
            })),
        forall|a: int, b: int|
            0 <= a < b < r@.len() ==> !tag_before(order, tags@[r@[b] as int]@, tags@[r@[a] as int]@),
{
    let mut keys: Vec<usize> = Vec::new();
    let mut i: usize = 0;
    while i < tags.len()
        invariant
            0 <= i <= tags@.len(),
            keys@.no_duplicates(),
            forall|a: int| 0 <= a < keys@.len() ==> keys@[a] < i,
            forall|j: int|
                0 <= j < i ==> (keys@.contains(j as usize) <==> (contains_seq(
                    unicode_lowercase(tags@[j]@.name),
                    lower_filter@,
                ) && match crate::text::opt_str_view(source) {
                    None => true,
                    Some(s) => (s == "Hidden"@ && tags@[j]@.hidden) || tags@[j]@.sources.contains(s),
                } && match kind {
                    None => true,
                    Some(k) => tags@[j]@.kind == k,
                })),
            forall|a: int, b: int|
                0 <= a < b < keys@.len() ==> !tag_before(
                    order,
                    tags@[keys@[b] as int]@,
                    tags@[keys@[a] as int]@,
                ),
        decreases tags@.len() - i,
    {
        if tag_passes_exec(lower_filter, source, kind, &tags[i]) {
            let t = &tags[i];
            let mut p: usize = 0;
            while p < keys.len() && !tag_before_exec(order, t, &tags[keys[p]])
                invariant
                    0 <= p <= keys@.len(),
                    i < tags@.len(),
                    forall|a: int| 0 <= a < keys@.len() ==> keys@[a] < i,
                    forall|a: int| 0 <= a < p ==> !tag_before(order, t@, tags@[keys@[a] as int]@),
                decreases keys@.len() - p,
            {
                p = p + 1;
            }
            let ghost before = keys@;
            keys.insert(p, i);
            proof {
                assert(keys@ =~= before.insert(p as int, i));
                assert forall|a: int, b: int| 0 <= a < b < keys@.len() implies !tag_before(
                    order,
                    tags@[keys@[b] as int]@,
                    tags@[keys@[a] as int]@,
                ) by {
                    let ka = tags@[keys@[a] as int]@;
                    let kb = tags@[keys@[b] as int]@;
                    if b < p {
                        assert(keys@[a] == before[a] && keys@[b] == before[b]);
                    } else if a > p {
                        assert(keys@[a] == before[a - 1] && keys@[b] == before[b - 1]);
                    } else if a < p && b > p {
                        assert(keys@[a] == before[a] && keys@[b] == before[b - 1]);
                    } else if b == p {
                        assert(keys@[a] == before[a]);
                        assert(kb == t@);
                    } else {
                        // a == p: the new tag, before every key from p on.
                        assert(ka == t@);
                        assert(keys@[b] == before[b - 1]);
                        let kp = tags@[before[p as int] as int]@;
                        assert(tag_before(order, t@, kp));
                        if tag_before(order, kb, t@) {
                            lemma_tag_before_transitive(order, kb, t@, kp);
                            if b - 1 == p {
                                lemma_tag_before_irreflexive(order, kp);
                            }
                        }
                    }
                }
                assert forall|j: int| 0 <= j < i + 1 implies (#[trigger] keys@.contains(j as usize) <==> before.contains(
                    j as usize,
                ) || j == i) by {
                    if keys@.contains(j as usize) {
                        let a = choose|a: int| 0 <= a < keys@.len() && keys@[a] == j as usize;
                        if a < p {
                            assert(before[a] == j as usize);
                        } else if a > p {
                            assert(before[a - 1] == j as usize);
                        }
                    }
                    if before.contains(j as usize) {
                        let a = choose|a: int| 0 <= a < before.len() && before[a] == j as usize;
                        if a < p {
                            assert(keys@[a] == j as usize);
                        } else {
                            assert(keys@[a + 1] == j as usize);
                        }
                    }
                    if j == i {
                        assert(keys@[p as int] == i);
                    }
                }
                assert forall|a: int, b: int| 0 <= a < b < keys@.len() implies keys@[a] != keys@[b] by {
                    if b < p {
                        assert(keys@[a] == before[a] && keys@[b] == before[b]);
                    } else if a > p {
                        assert(keys@[a] == before[a - 1] && keys@[b] == before[b - 1]);
                    } else if a < p && b > p {
                        assert(keys@[a] == before[a] && keys@[b] == before[b - 1]);
                    } else if b == p {
                        assert(keys@[a] == before[a]);
                    } else {
                        assert(keys@[b] == before[b - 1]);
                    }
                }
            }
        } else {
            proof {
                assert(!keys@.contains(i));
            }
        }
        i = i + 1;
    }
    keys
}

/// The filter on the plugin a tag came from; "Hidden" picks the hidden tags.
#[derive(Clone, Debug)]
pub struct TagSourceFilter {
    source: Option<String>,
}

/// The entries of the source chooser: "All", each plugin's name, then "Hidden".
pub open spec fn source_options(names: Seq<Seq<char>>) -> Seq<Seq<char>> {
    seq!["All"@] + names + seq!["Hidden"@]
}

/// The position of the first entry equal to `s`, if any.
pub open spec fn first_position(options: Seq<Seq<char>>, s: Seq<char>) -> Option<int> {
    if exists|i: int| 0 <= i < options.len() && options[i] == s {
        Some(choose|i: int| 0 <= i < options.len() && options[i] == s && forall|j: int| 0 <= j < i ==> options[j] != s)
    } else {
        None
    }
}

/// The entry of the chooser that shows as chosen for `source`: the first entry equal to
/// it, else the first entry.
pub open spec fn shown_index(options: Seq<Seq<char>>, source: Option<Seq<char>>) -> int {
    match source {
        None => 0,
        Some(s) => match first_position(options, s) {
            Some(i) => i,
            None => 0,
        },
    }
}

impl TagSourceFilter {
    /// No source filter: every source.
    pub fn new() -> (r: Self)
        ensures
            r.source() is None,
    {
        TagSourceFilter { source: None }
    }

    /// The chosen source, if any.
    pub closed spec fn source(&self) -> Option<Seq<char>> {
        opt_string_view(self.source)
    }

    /// The chosen source, if any.
    pub fn get(&self) -> (r: Option<&str>)
        ensures
            crate::text::opt_str_view(r) == self.source(),
    {
        match &self.source {
            Some(s) => Some(s.as_str()),
            None => None,
        }
    }

    /// The entries of the chooser for the loaded plugins' names.
    pub fn options(plugin_names: &[String]) -> (r: Vec<String>)
        ensures
            crate::db::strings_view(r@) == source_options(crate::db::strings_view(plugin_names@)),
    {
        let mut r: Vec<String> = Vec::new();
        r.push(crate::text::owned("All"));
        let mut i: usize = 0;
        while i < plugin_names.len()
            invariant
                0 <= i <= plugin_names@.len(),
                crate::db::strings_view(r@) == seq!["All"@] + crate::db::strings_view(plugin_names@).subrange(0, i as int),
            decreases plugin_names@.len() - i,
        {
            let ghost before = r@;
            r.push(crate::text::owned(plugin_names[i].as_str()));
            assert(crate::db::strings_view(r@) =~= crate::db::strings_view(before).push(plugin_names@[i as int]@));
            assert(crate::db::strings_view(plugin_names@).subrange(0, i + 1) =~= crate::db::strings_view(plugin_names@).subrange(0, i as int).push(plugin_names@[i as int]@));
            i = i + 1;
        }
        let ghost before = r@;
        r.push(crate::text::owned("Hidden"));
        assert(crate::db::strings_view(r@) =~= crate::db::strings_view(before).push("Hidden"@));
        assert(crate::db::strings_view(plugin_names@).subrange(0, plugin_names@.len() as int) =~= crate::db::strings_view(plugin_names@));
        assert(crate::db::strings_view(r@) =~= source_options(crate::db::strings_view(plugin_names@)));
        r
    }

    /// The entry of the chooser that shows as chosen: the first entry equal to the chosen
    /// source, else the first entry.
    pub fn selected_index(&self, options: &[String]) -> (r: usize)
        ensures
            r as int == match self.source() {
                None => 0,
                Some(s) => match first_position(crate::db::strings_view(options@), s) {
                    Some(i) => i,
                    None => 0,
                },
            },
    {
        match &self.source {
            None => 0,
            Some(s) => {
                let ghost o = crate::db::strings_view(options@);
                let mut i: usize = 0;
                while i < options.len()
                    invariant
                        0 <= i <= options@.len(),
                        o == crate::db::strings_view(options@),
                        self.source() == Some(s@),
                        forall|j: int| 0 <= j < i ==> o[j] != s@,
                    decreases options@.len() - i,
                {
                    assert(o[i as int] == options@[i as int]@);
                    if str_eq(options[i].as_str(), s.as_str()) {
                        proof {
                            let sv = s@;
                            assert(o[i as int] == sv);
                            assert(0 <= i < o.len() && o[i as int] == sv && forall|j: int| 0 <= j < i ==> o[j] != sv);
                            let p = choose|p: int| 0 <= p < o.len() && o[p] == sv && forall|j: int| 0 <= j < p ==> o[j] != sv;
                            assert(0 <= p < o.len() && o[p] == sv && forall|j: int| 0 <= j < p ==> o[j] != sv);
                            if p < i {
                                assert(o[p] != sv);
                            } else if p > i {
                                assert(o[i as int] != sv);
                            }
                            assert(first_position(o, sv) == Some(i as int));
                            assert(self.source() == Some(sv));
                        }
                        return i;
                    }
                    i = i + 1;
                }
                0
            },
        }
    }

    /// Applies the entry picked in the chooser, given the entry shown before; "All" drops the
    /// filter. Returns whether the pick changed.
    pub fn pick(&mut self, options: &[String], prior: usize, selected: usize) -> (r: bool)
        requires
            selected < options@.len(),
        ensures
            r == (prior != selected),
            final(self).source() == if r {
                if options@[selected as int]@ == "All"@ {
                    None
                } else {
                    Some(options@[selected as int]@)
                }
            } else {
                old(self).source()
            },
    {
        if prior != selected {
            if str_eq(options[selected].as_str(), "All") {
                self.source = None;
            } else {
                self.source = Some(crate::text::owned(options[selected].as_str()));
            }
            true
        } else {
            false
        }
    }
}

/// The filter on the kind of a tag.
#[derive(Clone, Copy, Debug, PartialEq, Eq, Structural)]
pub struct TagKindFilter {
    pub kind: Option<TagKind>,
}

/// The kinds in the order of the kind chooser, after its first entry, "All".
pub open spec fn kind_at(i: int) -> TagKind {
    if i == 1 {
        TagKind::Default
    } else if i == 2 {
        TagKind::Character
    } else if i == 3 {
        TagKind::Copyright
    } else if i == 4 {
        TagKind::Location
    } else if i == 5 {
        TagKind::Meta
    } else if i == 6 {
        TagKind::School
    } else if i == 7 {
        TagKind::Series
    } else if i == 8 {
        TagKind::Style
    } else if i == 9 {
        TagKind::Technique
    } else if i == 10 {
        TagKind::Theme
    } else if i == 11 {
        TagKind::Artist
    } else {
        TagKind::Deprecated
    }
}

/// The entry of the kind chooser for a kind filter; "All" is the first.
pub open spec fn kind_filter_index(k: Option<TagKind>) -> usize {
    match k {
        None => 0,
        Some(TagKind::Default) => 1,
        Some(TagKind::Character) => 2,
        Some(TagKind::Copyright) => 3,
        Some(TagKind::Location) => 4,
        Some(TagKind::Meta) => 5,
        Some(TagKind::School) => 6,
        Some(TagKind::Series) => 7,
        Some(TagKind::Style) => 8,
        Some(TagKind::Technique) => 9,
        Some(TagKind::Theme) => 10,
        Some(TagKind::Artist) => 11,
        Some(TagKind::Deprecated) => 12,
    }
}

/// The number of entries of the kind chooser.
pub const KIND_CHOICES: usize = 13;

impl TagKindFilter {
    /// No kind filter.
    pub fn new() -> (r: Self)
        ensures
            r.kind is None,
    {
        TagKindFilter { kind: None }
    }

    /// The filter's entry in the kind chooser; "All" is the first.
    pub fn index(&self) -> (r: usize)
        ensures
            r == kind_filter_index(self.kind),
            r < KIND_CHOICES,
            r > 0 ==> self.kind == Some(kind_at(r as int)),
    {
        match self.kind {
            None => 0,
            Some(TagKind::Default) => 1,
            Some(TagKind::Character) => 2,
            Some(TagKind::Copyright) => 3,
            Some(TagKind::Location) => 4,
            Some(TagKind::Meta) => 5,
            Some(TagKind::School) => 6,
            Some(TagKind::Series) => 7,
            Some(TagKind::Style) => 8,
            Some(TagKind::Technique) => 9,
            Some(TagKind::Theme) => 10,
            Some(TagKind::Artist) => 11,
            Some(TagKind::Deprecated) => 12,
        }
    }

    /// Applies the entry picked in the kind chooser. Returns whether the pick changed.
    pub fn pick(&mut self, selected: usize) -> (r: bool)
        requires
            selected < KIND_CHOICES,
        ensures
            r == (kind_filter_index(old(self).kind) != selected),
            final(self).kind == if selected == 0 {
                None
            } else {
                Some(kind_at(selected as int))
            },
            kind_filter_index(final(self).kind) == selected,
    {
        let prior = self.index();
        self.kind = if selected == 0 {
            None
        } else if selected == 1 {
            Some(TagKind::Default)
        } else if selected == 2 {
            Some(TagKind::Character)
        } else if selected == 3 {
            Some(TagKind::Copyright)
        } else if selected == 4 {
            Some(TagKind::Location)
        } else if selected == 5 {
            Some(TagKind::Meta)
        } else if selected == 6 {
            Some(TagKind::School)
        } else if selected == 7 {
            Some(TagKind::Series)
        } else if selected == 8 {
            Some(TagKind::Style)
        } else if selected == 9 {
            Some(TagKind::Technique)
        } else if selected == 10 {
            Some(TagKind::Theme)
        } else if selected == 11 {
            Some(TagKind::Artist)
        } else {
            Some(TagKind::Deprecated)
        };
        prior != selected
    }
}

/// The abstract tags list.
pub ghost struct TagListView {
    /// The substring the names are filtered by, compared lower-cased.
    pub name_filter: Seq<char>,
    pub source: Option<Seq<char>>,
    pub kind: Option<TagKind>,
    pub order: TagOrder,
    /// Every tag by id, once loaded.
    pub tags: Option<Map<TagId, DbTagView>>,
    /// The ids of the tags shown, in list order.
    pub filtered: Seq<TagId>,
}

/// `new` is `old` with its listing recomputed from the loaded tags; with no tags loaded the
/// listing is left as it was.
pub open spec fn tags_reprojected(old: TagListView, new: TagListView) -> bool {
    &&& new == (TagListView { filtered: new.filtered, ..old })
    &&& match old.tags {
        Some(m) => is_tag_listing(new.filtered, m, old.name_filter, old.source, old.kind, old.order),
        None => new.filtered == old.filtered,
    }
}

/// The table after recording each downloaded-work count in turn.
pub open spec fn with_local_counts(m: Map<TagId, DbTagView>, counts: Seq<(TagId, u64)>) -> Map<
    TagId,
    DbTagView,
>
    decreases counts.len(),
{
    if counts.len() == 0 {
        m
    } else {
        let prev = with_local_counts(m, counts.drop_last());
        let (id, c) = counts.last();
        if prev.contains_key(id) {
            prev.insert(id, DbTagView { local_count: Some(c), ..prev[id] })
        } else {
            prev
        }
    }
}

/// The tags list.
pub struct UxTag {
    name_filter: String,
    source_filter: TagSourceFilter,
    kind_filter: TagKindFilter,
    order: TagOrder,
    tag_all: Option<TagTable>,
    tag_filtered: Vec<TagId>,
}

/// The view of an optional tag table.
pub open spec fn opt_tags_view(o: Option<TagTable>) -> Option<Map<TagId, DbTagView>> {
    match o {
        Some(t) => Some(t@),
        None => None,
    }
}

impl View for UxTag {
    type V = TagListView;

    closed spec fn view(&self) -> TagListView {
        TagListView {
            name_filter: self.name_filter@,
            source: self.source_filter.source(),
            kind: self.kind_filter.kind,
            order: self.order,
            tags: opt_tags_view(self.tag_all),
            filtered: self.tag_filtered@,
        }
    }
}

impl UxTag {
    /// The list's invariant: the loaded table is well formed.
    pub closed spec fn wf(&self) -> bool {
        self.tag_all matches Some(t) ==> t.wf()
    }

    /// An empty list with no filter, sorted by name ascending, with no tags loaded.
    pub fn new() -> (r: Self)
        ensures
            r.wf(),
            r@ == (TagListView {
                name_filter: Seq::empty(),
                source: None,
                kind: None,
                order: TagOrder { column: TagSortCol::Name, order: OrderDir::Asc },
                tags: None,
                filtered: Seq::empty(),
            }),
    {
        UxTag {
            name_filter: String::new(),
            source_filter: TagSourceFilter::new(),
            kind_filter: TagKindFilter::new(),
            order: TagOrder::new(TagSortCol::Name, OrderDir::Asc),
            tag_all: None,
            tag_filtered: Vec::new(),
        }
    }

    /// The loaded tags, if any.
    pub fn tags(&self) -> (r: Option<&TagTable>)
        requires
            self.wf(),
        ensures
            match r {
                Some(t) => self@.tags == Some(t@) && t.wf(),
                None => self@.tags is None,
            },
    {
        match &self.tag_all {
            Some(t) => Some(t),
            None => None,
        }
    }

    /// The ids of the tags shown, in list order.
    pub fn filtered(&self) -> (r: &[TagId])
        ensures
            r@ == self@.filtered,
    {
        self.tag_filtered.as_slice()
    }

    /// The name filter.
    pub fn name_filter(&self) -> (r: &str)
        ensures
            r@ == self@.name_filter,
    {
        self.name_filter.as_str()
    }

    /// The sort order.
    pub fn order(&self) -> (r: TagOrder)
        ensures
            r == self@.order,
    {
        self.order
    }

    /// The source filter.
    pub fn source_filter(&self) -> (r: &TagSourceFilter)
        ensures
            r.source() == self@.source,
    {
        &self.source_filter
    }

    /// The kind filter.
    pub fn kind_filter(&self) -> (r: TagKindFilter)
        ensures
            r.kind == self@.kind,
    {
        self.kind_filter
    }

    /// Filters and sorts the loaded tags again.
    pub fn reproject_tags(&mut self)
        requires
            old(self).wf(),
        ensures
            final(self).wf(),
            tags_reprojected(old(self)@, final(self)@),
    {
        match &self.tag_all {
            None => {},
            Some(table) => {
                let lower = to_lowercase(self.name_filter.as_str());
                let lower_chars = chars_of(lower.as_str());
                let tags = table.tags();
                let n_tags: usize = tags.len();
                let keys = sorted_passing(
                    tags,
                    lower_chars.as_slice(),
                    self.source_filter.get(),
                    self.kind_filter.kind,
                    self.order,
                );
                let ghost e = table.entries();
                proof {
                    table.lemma_entries();
                }
                let mut ids: Vec<TagId> = Vec::new();
                let mut q: usize = 0;
                while q < keys.len()
                    invariant
                        0 <= q <= keys@.len(),
                        db_tags_view(tags@) == e,
                        forall|a: int| 0 <= a < keys@.len() ==> keys@[a] < tags@.len(),
                        ids@ == Seq::new(q as nat, |a: int| e[keys@[a] as int].id),
                    decreases keys@.len() - q,
                {
                    let k = keys[q];
                    assert(e[k as int] == tags@[k as int]@);
                    ids.push(tags[k].id());
                    assert(ids@ =~= Seq::new((q + 1) as nat, |a: int| e[keys@[a] as int].id));
                    q = q + 1;
                }
                proof {
                    table.lemma_entries();
                    let m = table@;
                    let ks = Seq::new(keys@.len(), |a: int| e[keys@[a] as int]);
                    assert(ids@ =~= tag_ids(ks));
                    assert forall|a: int, b: int| 0 <= a < b < ids@.len() implies ids@[a] != ids@[b] by {
                        assert(keys@[a] != keys@[b]);
                    }
                    assert(tags_sorted(self.order, ks)) by {
                        assert forall|a: int, b: int| 0 <= a < b < ks.len() implies !tag_before(self.order, ks[b], ks[a]) by {
                            assert(ks[a] == tags@[keys@[a] as int]@);
                            assert(ks[b] == tags@[keys@[b] as int]@);
                        }
                    }
                    assert forall|t: DbTagView| #[trigger] ks.contains(t) <==> (m.contains_key(t.id) && m[t.id] == t
                        && tag_passes(self@.name_filter, self@.source, self@.kind, t)) by {
                        if ks.contains(t) {
                            let a = choose|a: int| 0 <= a < ks.len() && ks[a] == t;
                            let k = keys@[a] as int;
                            assert(0 <= k < tags@.len());
                            assert(keys@.contains(k as usize));
                            assert(tags@[k]@ == e[k]);
                            assert(e[k] == t);
                            assert(table@.contains_key(table.entries()[k].id));
                            assert(m.contains_key(e[k].id) && m[e[k].id] == e[k]);
                            assert(tag_passes(self@.name_filter, self@.source, self@.kind, t));
                        }
                        if m.contains_key(t.id) && m[t.id] == t && tag_passes(self@.name_filter, self@.source, self@.kind, t) {
                            let i = choose|i: int| 0 <= i < e.len() && e[i].id == t.id;
                            assert(e[i] == t);
                            assert(e.len() == tags@.len() && tags@.len() == n_tags);
                            assert((i as usize) as int == i);
                            assert(tags@[i]@ == e[i]);
                            assert(keys@.contains(i as usize));
                            let a = choose|a: int| 0 <= a < keys@.len() && keys@[a] == i as usize;
                            assert(ks[a] == t);
                        }
                    }
                }
                self.tag_filtered = ids;
            },
        }
    }

    /// Takes in the tags loaded from the database, and filters them.
    pub fn set_tags(&mut self, tags: TagTable)
        requires
            old(self).wf(),
            tags.wf(),
        ensures
            final(self).wf(),
            tags_reprojected(TagListView { tags: Some(tags@), ..old(self)@ }, final(self)@),
    {
        self.tag_all = Some(tags);
        self.reproject_tags();
    }

    /// Records the downloaded-work counts of tags, and filters again.
    pub fn set_local_counts(&mut self, counts: &[(TagId, u64)])
        requires
            old(self).wf(),
        ensures
            final(self).wf(),
            tags_reprojected(
                TagListView {
                    tags: match old(self)@.tags {
                        Some(m) => Some(with_local_counts(m, counts@)),
                        None => None,
                    },
                    ..old(self)@
                },
                final(self)@,
            ),
    {
        match self.tag_all.take() {
            None => {},
            Some(mut table) => {
                let ghost start = table@;
                let mut i: usize = 0;
                while i < counts.len()
                    invariant
                        0 <= i <= counts@.len(),
                        table.wf(),
                        table@ == with_local_counts(start, counts@.subrange(0, i as int)),
                    decreases counts@.len() - i,
                {
                    let (id, c) = counts[i];
                    table.set_local_count(id, c);
                    assert(counts@.subrange(0, i + 1).drop_last() =~= counts@.subrange(0, i as int));
                    i = i + 1;
                }
                assert(counts@.subrange(0, counts@.len() as int) =~= counts@);
                self.tag_all = Some(table);
            },
        }
        self.reproject_tags();
    }

    /// The database's tags were refreshed: drop the loaded tags until they are loaded again.
    pub fn on_tags_refreshed(&mut self)
        ensures
            final(self).wf(),
            final(self)@ == (TagListView { tags: None, filtered: Seq::empty(), ..old(self)@ }),
    {
        self.tag_all = None;
        self.tag_filtered = Vec::new();
        assert(self@.filtered =~= Seq::<TagId>::empty());
    }

    /// Sets the favorite flag of a loaded tag and filters again; no effect when the tag is
    /// not loaded.
    pub fn set_tag_favorite(&mut self, id: TagId, favorite: bool)
        requires
            old(self).wf(),
        ensures
            final(self).wf(),
            match old(self)@.tags {
                Some(m) => if m.contains_key(id) {
                    tags_reprojected(
                        TagListView {
                            tags: Some(m.insert(id, DbTagView { favorite: favorite, ..m[id] })),
                            ..old(self)@
                        },
                        final(self)@,
                    )
                } else {
                    final(self)@ == old(self)@
                },
                None => final(self)@ == old(self)@,
            },
    {
        let found = match &self.tag_all {
            Some(t) => t.get(id).is_some(),
            None => false,
        };
        if found {
            let mut table = self.tag_all.take().unwrap();
            table.set_favorite(id, favorite);
            self.tag_all = Some(table);
            self.reproject_tags();
        }
    }

    /// Sets the hidden flag of a loaded tag and filters again; no effect when the tag is not
    /// loaded.
    pub fn set_tag_hidden(&mut self, id: TagId, hidden: bool)
        requires
            old(self).wf(),
        ensures
            final(self).wf(),
            match old(self)@.tags {
                Some(m) => if m.contains_key(id) {
                    tags_reprojected(
                        TagListView {
                            tags: Some(m.insert(id, DbTagView { hidden: hidden, ..m[id] })),
                            ..old(self)@
                        },
                        final(self)@,
                    )
                } else {
                    final(self)@ == old(self)@
                },
                None => final(self)@ == old(self)@,
            },
    {
        let found = match &self.tag_all {
            Some(t) => t.get(id).is_some(),
            None => false,
        };
        if found {
            let mut table = self.tag_all.take().unwrap();
            table.set_hidden(id, hidden);
            self.tag_all = Some(table);
            self.reproject_tags();
        }
    }

    /// Sets the name filter and filters again.
    pub fn set_name_filter(&mut self, filter: &str)
        requires
            old(self).wf(),
        ensures
            final(self).wf(),
            tags_reprojected(TagListView { name_filter: filter@, ..old(self)@ }, final(self)@),
    {
        self.name_filter = crate::text::owned(filter);
        self.reproject_tags();
    }

    /// Applies the entry picked in the source chooser, filtering again when it changed.
    /// Returns whether it changed.
    pub fn pick_source(&mut self, options: &[String], selected: usize) -> (r: bool)
        requires
            old(self).wf(),
            selected < options@.len(),
        ensures
            final(self).wf(),
            r == (selected as int != shown_index(crate::db::strings_view(options@), old(self)@.source)),
            !r ==> final(self)@ == old(self)@,
            r ==> tags_reprojected(
                TagListView {
                    source: if options@[selected as int]@ == "All"@ {
                        None
                    } else {
                        Some(options@[selected as int]@)
                    },
                    ..old(self)@
                },
                final(self)@,
            ),
    {
        let prior = self.source_filter.selected_index(options);
        if self.source_filter.pick(options, prior, selected) {
            self.reproject_tags();
            true
        } else {
            false
        }
    }

    /// Applies the entry picked in the kind chooser, filtering again when it changed.
    /// Returns whether it changed.
    pub fn pick_kind(&mut self, selected: usize) -> (r: bool)
        requires
            old(self).wf(),
            selected < KIND_CHOICES,
        ensures
            final(self).wf(),
            r == (kind_filter_index(old(self)@.kind) != selected),
            !r ==> final(self)@ == old(self)@,
            r ==> tags_reprojected(
                TagListView {
                    kind: if selected == 0 {
                        None
                    } else {
                        Some(kind_at(selected as int))
                    },
                    ..old(self)@
                },
                final(self)@,
            ),
    {
        let mut f = self.kind_filter;
        if f.pick(selected) {
            self.kind_filter = f;
            self.reproject_tags();
            true
        } else {
            false
        }
    }

    /// Changes the sort order, sorting again when it changed. Returns whether it changed.
    pub fn set_order(&mut self, order: TagOrder) -> (r: bool)
        requires
            old(self).wf(),
        ensures
            final(self).wf(),
            r == (order != old(self)@.order),
            !r ==> final(self)@ == old(self)@,
            r ==> tags_reprojected(TagListView { order: order, ..old(self)@ }, final(self)@),
    {
        if order == self.order {
            false
        } else {
            self.order = order;
            self.reproject_tags();
            true
        }
    }
}

} // verus!
