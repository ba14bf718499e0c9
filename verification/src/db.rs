//! The database-side model: ids, tags and works as the metadata database stores them, the
//! in-memory table of all tags, and the decisions made around queries.
use crate::num::{decimal_int, digit_char, format_i64, parse_i64, parse_i64_spec};
use crate::sdk::{
    empty_history, empty_location, tag_kind_from_name, History, HistoryView,
    Location, LocationView, PhysicalData, PhysicalDataView, TagKind,
};
use crate::text::{
    chars_of, opt_as_str, opt_owned, opt_str_view, opt_string_view, owned, split_chars,
    split_seq, string_from_chars, vecs_view,
};
use vstd::prelude::*;

verus! {

// ---------------------------------------------------------------------------------------------
// Ids
// ---------------------------------------------------------------------------------------------
/// The database id of a tag.
#[derive(Clone, Copy, Debug, PartialEq, Eq, Structural, Hash, PartialOrd, Ord)]
pub struct TagId(i64);

impl View for TagId {
    type V = i64;

    closed spec fn view(&self) -> i64 {
        self.0
    }
}

impl TagId {
    /// The tag id with the given database value.
    pub fn wrap(id: i64) -> (r: Self)
        ensures
            r@ == id,
    {
        TagId(id)
    }

    /// The database value of this id.
    pub fn to_i64(&self) -> (r: i64)
        ensures
            r == self@,
    {
        self.0
    }
    /// The id as it is shown: its database value in decimal.
    pub fn to_text(&self) -> (r: String)
        ensures
            r@ == decimal_int(self@ as int),
    {
        let digits = format_i64(self.0);
        string_from_chars(digits.as_slice())
    }
}

/// Two tag ids are equal exactly when their database values are.
pub proof fn lemma_tag_id_view_injective(a: TagId, b: TagId)
    ensures
        (a@ == b@) == (a == b),
{
}

/// The database id of a work.
#[derive(Clone, Copy, Debug, PartialEq, Eq, Structural, Hash, PartialOrd, Ord)]
pub struct WorkId(i64);

impl View for WorkId {
    type V = i64;

    closed spec fn view(&self) -> i64 {
        self.0
    }
}

impl WorkId {
    /// The work id with the given database value.
    pub fn wrap(id: i64) -> (r: Self)
        ensures
            r@ == id,
    {
        WorkId(id)
    }

    /// The database value of this id.
    pub fn to_i64(&self) -> (r: i64)
        ensures
            r == self@,
    {
        self.0
    }
}

/// Two work ids are equal exactly when their database values are.
pub proof fn lemma_work_id_view_injective(a: WorkId, b: WorkId)
    ensures
        (a@ == b@) == (a == b),
{
}

/// The database id of a plugin.
#[derive(Clone, Copy, Debug, PartialEq, Eq, Structural, Hash, PartialOrd, Ord)]
pub struct PluginId(i64);

impl View for PluginId {
    type V = i64;

    closed spec fn view(&self) -> i64 {
        self.0
    }
}

impl PluginId {
    /// The plugin id with the given database value.
    pub fn wrap(id: i64) -> (r: Self)
        ensures
            r@ == id,
    {
        PluginId(id)
    }

    /// The database value of this id.
    pub fn to_i64(&self) -> (r: i64)
        ensures
            r == self@,
    {
        self.0
    }
    /// The id as it is shown: "PluginId(", its database value in decimal, then ")".
    pub fn to_text(&self) -> (r: String)
        ensures
            r@ == "PluginId("@ + decimal_int(self@ as int) + ")"@,
    {
        let mut out = owned("PluginId(");
        let digits = format_i64(self.0);
        crate::text::push_chars(&mut out, digits.as_slice());
        crate::text::push_str(&mut out, ")");
        out
    }
}

// ---------------------------------------------------------------------------------------------
// Plugins
// ---------------------------------------------------------------------------------------------
/// A plugin as the database knows it.
pub ghost struct DbPluginView {
    pub id: PluginId,
    pub name: Seq<char>,
    pub configs: Seq<(Seq<char>, Seq<char>)>,
}

/// A plugin record: its id, its name, and its saved configuration.
#[derive(Clone, Debug)]
pub struct DbPlugin {
    id: PluginId,
    name: String,
    configs: Vec<(String, String)>,
}

impl View for DbPlugin {
    type V = DbPluginView;

    closed spec fn view(&self) -> DbPluginView {
        DbPluginView {
            id: self.id,
            name: self.name@,
            configs: crate::sdk::pairs_view(self.configs@),
        }
    }
}

impl DbPlugin {
    /// A plugin record.
    pub fn new(id: i64, name: String, configs: Vec<(String, String)>) -> (r: Self)
        ensures
            r@ == (DbPluginView {
                id: PluginId::wrap_spec(id),
                name: name@,
                configs: crate::sdk::pairs_view(configs@),
            }),
    {
        DbPlugin { id: PluginId(id), name, configs }
    }

    /// The plugin's id.
    pub fn id(&self) -> (r: PluginId)
        ensures
            r == self@.id,
    {
        self.id
    }

    /// The plugin's name.
    pub fn name(&self) -> (r: &str)
        ensures
            r@ == self@.name,
    {
        self.name.as_str()
    }

    /// The plugin's saved configuration.
    pub fn configs(&self) -> (r: &[(String, String)])
        ensures
            crate::sdk::pairs_view(r@) == self@.configs,
    {
        self.configs.as_slice()
    }
}

impl PluginId {
    /// The plugin id with the given database value, in specifications.
    pub closed spec fn wrap_spec(id: i64) -> PluginId {
        PluginId(id)
    }

    /// The id made from a database value carries that value.
    pub proof fn lemma_wrap_spec(id: i64)
        ensures
            Self::wrap_spec(id)@ == id,
    {
    }
}

// ---------------------------------------------------------------------------------------------
// Tags
// ---------------------------------------------------------------------------------------------
/// The character sequences of a list of strings.
pub open spec fn strings_view(v: Seq<String>) -> Seq<Seq<char>> {
    Seq::new(v.len(), |i: int| v[i]@)
}

/// A tag as the database knows it.
pub ghost struct DbTagView {
    pub id: TagId,
    pub name: Seq<char>,
    pub kind: TagKind,
    pub network_count: u64,
    pub local_count: Option<u64>,
    pub hidden: bool,
    pub favorite: bool,
    pub wiki_url: Option<Seq<char>>,
    pub sources: Seq<Seq<char>>,
}

/// A DB-sourced tag: the tag with its id, the number of works the sources report for it, the
/// number downloaded (once counted), its hidden and favorite flags, and the plugins it came
/// from.
#[derive(Clone, Debug)]
pub struct DbTag {
    id: TagId,
    name: String,
    kind: TagKind,
    network_count: u64,
    local_count: Option<u64>,
    hidden: bool,
    favorite: bool,
    wiki_url: Option<String>,
    sources: Vec<String>,
}

impl View for DbTag {
    type V = DbTagView;

    closed spec fn view(&self) -> DbTagView {
        DbTagView {
            id: self.id,
            name: self.name@,
            kind: self.kind,
            network_count: self.network_count,
            local_count: self.local_count,
            hidden: self.hidden,
            favorite: self.favorite,
            wiki_url: opt_string_view(self.wiki_url),
            sources: strings_view(self.sources@),
        }
    }
}

/// Converts split pieces into owned strings.
fn pieces_to_strings(pieces: Vec<Vec<char>>) -> (out: Vec<String>)
    ensures
        strings_view(out@) == vecs_view(pieces@),
{
    let mut out: Vec<String> = Vec::new();
    let mut i: usize = 0;
    while i < pieces.len()
        invariant
            0 <= i <= pieces@.len(),
            strings_view(out@) == vecs_view(pieces@).subrange(0, i as int),
        decreases pieces@.len() - i,
    {
        let ghost before = out@;
        let piece = string_from_chars(pieces[i].as_slice());
        assert(piece@ == vecs_view(pieces@)[i as int]);
        out.push(piece);
        assert(strings_view(out@) =~= strings_view(before).push(piece@));
        assert(strings_view(out@) =~= vecs_view(pieces@).subrange(0, i + 1));
        i = i + 1;
    }
    assert(vecs_view(pieces@).subrange(0, pieces@.len() as int) =~= vecs_view(pieces@));
    out
}

impl DbTag {
    /// The tag read from a row of the tags listing: its kind from the stored kind name
    /// (unknown names give the default kind), its sources from the comma-separated list of
    /// plugin names, and its local count not yet known.
    pub fn from_columns(
        id: i64,
        name: &str,
        kind: &str,
        network_count: u64,
        hidden: bool,
        favorite: bool,
        wiki_url: Option<&str>,
        plugin_names: &str,
    ) -> (r: Self)
        ensures
            r@ == (DbTagView {
                id: r@.id,
                name: name@,
                kind: tag_kind_from_name(kind@),
                network_count: network_count,
                local_count: None,
                hidden: hidden,
                favorite: favorite,
                wiki_url: opt_str_view(wiki_url),
                sources: split_seq(plugin_names@, ','),
            }),
            r@.id@ == id,
    {
        let cs = chars_of(plugin_names);
        let pieces = split_chars(cs.as_slice(), ',');
        DbTag {
            id: TagId(id),
            name: owned(name),
            kind: TagKind::from_name(kind),
            network_count,
            local_count: None,
            hidden,
            favorite,
            wiki_url: opt_owned(wiki_url),
            sources: pieces_to_strings(pieces),
        }
    }

    /// Records the number of works downloaded with this tag.
    pub fn set_local_count(&mut self, actual_work_count: u64)
        ensures
            final(self)@ == (DbTagView { local_count: Some(actual_work_count), ..old(self)@ }),
    {
        self.local_count = Some(actual_work_count);
    }

    /// The tag's id.
    pub fn id(&self) -> (r: TagId)
        ensures
            r == self@.id,
    {
        self.id
    }

    /// The tag's name.
    pub fn name(&self) -> (r: &str)
        ensures
            r@ == self@.name,
    {
        self.name.as_str()
    }

    /// The tag's kind.
    pub fn kind(&self) -> (r: TagKind)
        ensures
            r == self@.kind,
    {
        self.kind
    }

    /// The number of works the sources report for this tag.
    pub fn network_count(&self) -> (r: u64)
        ensures
            r == self@.network_count,
    {
        self.network_count
    }

    /// The number of works downloaded with this tag, once counted.
    pub fn local_count(&self) -> (r: Option<u64>)
        ensures
            r == self@.local_count,
    {
        self.local_count
    }

    /// Whether the tag is hidden.
    pub fn hidden(&self) -> (r: bool)
        ensures
            r == self@.hidden,
    {
        self.hidden
    }

    /// Sets the hidden flag.
    pub fn set_hidden(&mut self, hidden: bool)
        ensures
            final(self)@ == (DbTagView { hidden: hidden, ..old(self)@ }),
    {
        self.hidden = hidden;
    }

    /// Whether the tag is a favorite.
    pub fn favorite(&self) -> (r: bool)
        ensures
            r == self@.favorite,
    {
        self.favorite
    }

    /// Sets the favorite flag.
    pub fn set_favorite(&mut self, favorite: bool)
        ensures
            final(self)@ == (DbTagView { favorite: favorite, ..old(self)@ }),
    {
        self.favorite = favorite;
    }

    /// The tag's wiki page, if any.
    pub fn wiki_url(&self) -> (r: Option<&str>)
        ensures
            opt_str_view(r) == self@.wiki_url,
    {
        opt_as_str(&self.wiki_url)
    }

    /// The names of the plugins the tag came from.
    pub fn sources(&self) -> (r: &[String])
        ensures
            strings_view(r@) == self@.sources,
    {
        self.sources.as_slice()
    }
}

// ---------------------------------------------------------------------------------------------
// The tag table
// ---------------------------------------------------------------------------------------------
/// Every tag by id: what the tags view loads from the database.
#[derive(Clone, Debug)]
pub struct TagTable {
    tags: Vec<DbTag>,
}

/// The ids in a sequence of tags are distinct.
pub open spec fn distinct_tag_ids(s: Seq<DbTagView>) -> bool {
    forall|i: int, j: int| 0 <= i < j < s.len() ==> s[i].id != s[j].id
}

/// The tags of a sequence as a map by id, for a sequence with distinct ids.
pub open spec fn tags_by_id(s: Seq<DbTagView>) -> Map<TagId, DbTagView>
    decreases s.len(),
{
    if s.len() == 0 {
        Map::empty()
    } else {
        tags_by_id(s.drop_last()).insert(s.last().id, s.last())
    }
}

/// Among tags with distinct ids, the map by id holds each tag under its id.
pub proof fn lemma_tags_by_id_index(s: Seq<DbTagView>, i: int)
    requires
        distinct_tag_ids(s),
        0 <= i < s.len(),
    ensures
        tags_by_id(s).contains_key(s[i].id),
        tags_by_id(s)[s[i].id] == s[i],
    decreases s.len(),
{
    if i < s.len() - 1 {
        lemma_tags_by_id_index(s.drop_last(), i);
        assert(s[i].id != s.last().id);
    }
}

/// The map by id has exactly the ids of the tags as keys.
pub proof fn lemma_tags_by_id_keys(s: Seq<DbTagView>, id: TagId)
    ensures
        tags_by_id(s).contains_key(id) <==> exists|i: int| 0 <= i < s.len() && s[i].id == id,
    decreases s.len(),
{
    if s.len() > 0 {
        lemma_tags_by_id_keys(s.drop_last(), id);
        if tags_by_id(s.drop_last()).contains_key(id) {
            let i = choose|i: int| 0 <= i < s.drop_last().len() && s.drop_last()[i].id == id;
            assert(s[i].id == id);
        }
        if exists|i: int| 0 <= i < s.len() && s[i].id == id {
            let i = choose|i: int| 0 <= i < s.len() && s[i].id == id;
            if i < s.len() - 1 {
                assert(s.drop_last()[i].id == id);
            }
        }
    }
}

/// Replacing a tag by one with the same id replaces it in the map by id.
pub proof fn lemma_tags_by_id_update(s: Seq<DbTagView>, i: int, t: DbTagView)
    requires
        distinct_tag_ids(s),
        0 <= i < s.len(),
        t.id == s[i].id,
    ensures
        distinct_tag_ids(s.update(i, t)),
        tags_by_id(s.update(i, t)) == tags_by_id(s).insert(t.id, t),
    decreases s.len(),
{
    let u = s.update(i, t);
    if i == s.len() - 1 {
        assert(u.drop_last() =~= s.drop_last());
    } else {
        assert(u.drop_last() =~= s.drop_last().update(i, t));
        lemma_tags_by_id_update(s.drop_last(), i, t);
        assert(s[i].id != s.last().id);
    }
    assert(tags_by_id(u) =~= tags_by_id(s).insert(t.id, t));
}

/// The tag views of a sequence of tags.
pub open spec fn db_tags_view(v: Seq<DbTag>) -> Seq<DbTagView> {
    Seq::new(v.len(), |i: int| v[i]@)
}

impl View for TagTable {
    type V = Map<TagId, DbTagView>;

    closed spec fn view(&self) -> Map<TagId, DbTagView> {
        tags_by_id(db_tags_view(self.tags@))
    }
}

impl TagTable {
    /// The table's invariant: no id appears twice.
    pub closed spec fn wf(&self) -> bool {
        distinct_tag_ids(db_tags_view(self.tags@))
    }

    /// The table's tags in storage order.
    pub closed spec fn entries(&self) -> Seq<DbTagView> {
        db_tags_view(self.tags@)
    }

    /// The entries are exactly the table's contents, each id once.
    pub proof fn lemma_entries(&self)
        requires
            self.wf(),
        ensures
            distinct_tag_ids(self.entries()),
            forall|i: int|
                0 <= i < self.entries().len() ==> #[trigger] self@.contains_key(
                    self.entries()[i].id,
                ) && self@[self.entries()[i].id] == self.entries()[i],
            forall|id: TagId|
                #[trigger] self@.contains_key(id) ==> exists|i: int|
                    0 <= i < self.entries().len() && self.entries()[i].id == id,
    {
        assert forall|i: int| 0 <= i < self.entries().len() implies #[trigger] self@.contains_key(
            self.entries()[i].id,
        ) && self@[self.entries()[i].id] == self.entries()[i] by {
            lemma_tags_by_id_index(self.entries(), i);
        }
        assert forall|id: TagId| #[trigger] self@.contains_key(id) implies exists|i: int|
            0 <= i < self.entries().len() && self.entries()[i].id == id by {
            lemma_tags_by_id_keys(self.entries(), id);
        }
    }

    /// An empty table.
    pub fn new() -> (r: Self)
        ensures
            r.wf(),
            r@ == Map::<TagId, DbTagView>::empty(),
    {
        let r = TagTable { tags: Vec::new() };
        assert(db_tags_view(r.tags@) =~= Seq::empty());
        r
    }

    /// The number of tags.
    pub fn len(&self) -> (r: usize)
        requires
            self.wf(),
        ensures
            r == self@.len(),
    {
        proof {
            self.lemma_len();
        }
        self.tags.len()
    }

    proof fn lemma_len(&self)
        requires
            self.wf(),
        ensures
            self@.len() == self.tags@.len(),
            self@.dom().finite(),
    {
        lemma_tags_by_id_len(db_tags_view(self.tags@));
    }

    /// Whether the table is empty.
    pub fn is_empty(&self) -> (r: bool)
        requires
            self.wf(),
        ensures
            r == (self@.len() == 0),
    {
        self.len() == 0
    }

    /// The position of the tag with id `id`, if any.
    fn position(&self, id: TagId) -> (r: Option<usize>)
        requires
            self.wf(),
        ensures
            match r {
                Some(i) => i < self.tags@.len() && self.tags@[i as int]@.id == id,
                None => !self@.contains_key(id),
            },
    {
        let mut i: usize = 0;
        while i < self.tags.len()
            invariant
                0 <= i <= self.tags@.len(),
                forall|j: int| 0 <= j < i ==> self.tags@[j]@.id != id,
            decreases self.tags@.len() - i,
        {
            if self.tags[i].id == id {
                return Some(i);
            }
            i = i + 1;
        }
        proof {
            lemma_tags_by_id_keys(db_tags_view(self.tags@), id);
        }
        None
    }

    /// The tag with id `id`, if any.
    pub fn get(&self, id: TagId) -> (r: Option<&DbTag>)
        requires
            self.wf(),
        ensures
            match r {
                Some(t) => self@.contains_key(id) && self@[id] == t@,
                None => !self@.contains_key(id),
            },
    {
        match self.position(id) {
            Some(i) => {
                proof {
                    lemma_tags_by_id_index(db_tags_view(self.tags@), i as int);
                }
                Some(&self.tags[i])
            },
            None => None,
        }
    }

    /// Adds a tag, replacing any tag with the same id.
    pub fn insert(&mut self, tag: DbTag)
        requires
            old(self).wf(),
        ensures
            final(self).wf(),
            final(self)@ == old(self)@.insert(tag@.id, tag@),
    {
        let id = tag.id;
        match self.position(id) {
            Some(i) => {
                let ghost before = db_tags_view(self.tags@);
                self.tags.set(i, tag);
                proof {
                    assert(db_tags_view(self.tags@) =~= before.update(i as int, tag@));
                    lemma_tags_by_id_update(before, i as int, tag@);
                }
            },
            None => {
                let ghost before = db_tags_view(self.tags@);
                self.tags.push(tag);
                proof {
                    assert(db_tags_view(self.tags@) =~= before.push(tag@));
                    assert(db_tags_view(self.tags@).drop_last() =~= before);
                    assert forall|j: int| 0 <= j < before.len() implies before[j].id != id by {
                        lemma_tags_by_id_index(before, j);
                    }
                }
            },
        }
    }

    /// Applies `f` to the tag with id `id`, when there is one.
    fn update_at(&mut self, i: usize, tag: DbTag)
        requires
            old(self).wf(),
            i < old(self).tags@.len(),
            tag@.id == old(self).tags@[i as int]@.id,
        ensures
            final(self).wf(),
            final(self)@ == old(self)@.insert(tag@.id, tag@),
    {
        let ghost before = db_tags_view(self.tags@);
        self.tags.set(i, tag);
        proof {
            assert(db_tags_view(self.tags@) =~= before.update(i as int, tag@));
            lemma_tags_by_id_update(before, i as int, tag@);
        }
    }

    /// Records the downloaded-work count of the tag with id `id`; no effect when there is no
    /// such tag.
    pub fn set_local_count(&mut self, id: TagId, count: u64)
        requires
            old(self).wf(),
        ensures
            final(self).wf(),
            final(self)@ == if old(self)@.contains_key(id) {
                old(self)@.insert(id, DbTagView { local_count: Some(count), ..old(self)@[id] })
            } else {
                old(self)@
            },
    {
        match self.position(id) {
            Some(i) => {
                proof {
                    lemma_tags_by_id_index(db_tags_view(self.tags@), i as int);
                }
                let mut t = self.tags[i].clone_tag();
                t.set_local_count(count);
                self.update_at(i, t);
            },
            None => {},
        }
    }

    /// Sets the favorite flag of the tag with id `id`; no effect when there is no such tag.
    pub fn set_favorite(&mut self, id: TagId, favorite: bool)
        requires
            old(self).wf(),
        ensures
            final(self).wf(),
            final(self)@ == if old(self)@.contains_key(id) {
                old(self)@.insert(id, DbTagView { favorite: favorite, ..old(self)@[id] })
            } else {
                old(self)@
            },
    {
        match self.position(id) {
            Some(i) => {
                proof {
                    lemma_tags_by_id_index(db_tags_view(self.tags@), i as int);
                }
                let mut t = self.tags[i].clone_tag();
                t.set_favorite(favorite);
                self.update_at(i, t);
            },
            None => {},
        }
    }

    /// Sets the hidden flag of the tag with id `id`; no effect when there is no such tag.
    pub fn set_hidden(&mut self, id: TagId, hidden: bool)
        requires
            old(self).wf(),
        ensures
            final(self).wf(),
            final(self)@ == if old(self)@.contains_key(id) {
                old(self)@.insert(id, DbTagView { hidden: hidden, ..old(self)@[id] })
            } else {
                old(self)@
            },
    {
        match self.position(id) {
            Some(i) => {
                proof {
                    lemma_tags_by_id_index(db_tags_view(self.tags@), i as int);
                }
                let mut t = self.tags[i].clone_tag();
                t.set_hidden(hidden);
                self.update_at(i, t);
            },
            None => {},
        }
    }

    /// The tags, each once, in storage order.
    pub fn tags(&self) -> (r: &[DbTag])
        requires
            self.wf(),
        ensures
            db_tags_view(r@) == self.entries(),
    {
        self.tags.as_slice()
    }
}

/// Among tags with distinct ids, the map by id has one entry per tag.
pub proof fn lemma_tags_by_id_len(s: Seq<DbTagView>)
    requires
        distinct_tag_ids(s),
    ensures
        tags_by_id(s).len() == s.len(),
        tags_by_id(s).dom().finite(),
    decreases s.len(),
{
    if s.len() > 0 {
        lemma_tags_by_id_len(s.drop_last());
        lemma_tags_by_id_keys(s.drop_last(), s.last().id);
        assert(!tags_by_id(s.drop_last()).contains_key(s.last().id));
    }
}

impl DbTag {
    /// A copy of this tag.
    pub fn clone_tag(&self) -> (r: Self)
        ensures
            r@ == self@,
    {
        let mut sources: Vec<String> = Vec::new();
        let mut i: usize = 0;
        while i < self.sources.len()
            invariant
                0 <= i <= self.sources@.len(),
                strings_view(sources@) == strings_view(self.sources@).subrange(0, i as int),
            decreases self.sources@.len() - i,
        {
            let ghost before = sources@;
            let s = self.sources[i].clone();
            sources.push(s);
            assert(strings_view(sources@) =~= strings_view(before).push(s@));
            assert(strings_view(sources@) =~= strings_view(self.sources@).subrange(0, i + 1));
            i = i + 1;
        }
        assert(strings_view(self.sources@).subrange(0, self.sources@.len() as int) =~= strings_view(
            self.sources@,
        ));
        DbTag {
            id: self.id,
            name: self.name.clone(),
            kind: self.kind,
            network_count: self.network_count,
            local_count: self.local_count,
            hidden: self.hidden,
            favorite: self.favorite,
            wiki_url: match &self.wiki_url {
                Some(w) => Some(w.clone()),
                None => None,
            },
            sources,
        }
    }
}


// ---------------------------------------------------------------------------------------------
// Works
// ---------------------------------------------------------------------------------------------
/// A calendar date, as the works table stores it.
#[derive(Clone, Copy, Debug, PartialEq, Eq, Structural)]
pub struct CivilDate {
    pub year: i16,
    pub month: i8,
    pub day: i8,
}

/// Whether `y` is a leap year of the proleptic Gregorian calendar.
pub open spec fn is_leap_year(y: int) -> bool {
    (y % 4 == 0 && y % 100 != 0) || y % 400 == 0
}

/// The number of days in month `m` of year `y`.
pub open spec fn days_in_month(y: int, m: int) -> int {
    if m == 2 {
        if is_leap_year(y) {
            29
        } else {
            28
        }
    } else if m == 4 || m == 6 || m == 9 || m == 11 {
        30
    } else {
        31
    }
}

/// The dates that jiff accepts: a year within -9999..=9999, a month within 1..=12 and a day
/// within the month.
pub open spec fn is_valid_date(year: i16, month: i8, day: i8) -> bool {
    &&& -9999 <= year <= 9999
    &&& 1 <= month <= 12
    &&& 1 <= day <= days_in_month(year as int, month as int)
}

/// `jiff::civil::Date::new`. The contract claims what jiff documents: the date is made
/// exactly when the year is within -9999..=9999, the month within 1..=12 and the day within
/// the month, and it has the given year, month and day.
#[verifier::external_body]
pub(crate) fn civil_date(year: i16, month: i8, day: i8) -> (r: Option<CivilDate>)
    ensures
        r is Some <==> is_valid_date(year, month, day),
        r is Some ==> r->0 == (CivilDate { year, month, day }),
{
    match jiff::civil::Date::new(year, month, day) {
        Ok(d) => Some(CivilDate { year: d.year(), month: d.month(), day: d.day() }),
        Err(_) => None,
    }
}

/// The date that `jiff::civil::Date::strptime("%Y-%m-%d", ..)` reads from a text.
pub uninterp spec fn ymd_date(text: Seq<char>) -> Option<CivilDate>;

/// The text of the first of January of `year`: the year in decimal, then "-01-01".
pub open spec fn year_start_text(year: int) -> Seq<char> {
    decimal_int(year) + "-01-01"@
}

/// Reads a date with `jiff::civil::Date::strptime("%Y-%m-%d", ..)`. The contract names the
/// result and claims what jiff's parser does with the text of a first of January: `%Y`
/// reads an optional sign and at most four digits, so a year from -9999 to 9999 reads as
/// that first of January, and a year with more digits leaves a digit where the '-' must be
/// and is refused.
#[verifier::external_body]
pub(crate) fn parse_ymd(text: &str) -> (r: Option<CivilDate>)
    ensures
        r == ymd_date(text@),
        forall|y: int|
            #[trigger] year_start_text(y) == text@ ==> if -9999 <= y <= 9999 {
                r == Some((CivilDate { year: y as i16, month: 1, day: 1 }))
            } else {
                r is None
            },
{
    match jiff::civil::Date::strptime("%Y-%m-%d", text) {
        Ok(d) => Some(CivilDate { year: d.year(), month: d.month(), day: d.day() }),
        Err(_) => None,
    }
}

/// `n` in decimal with `width` digits, zeros in front (its last `width` digits).
pub open spec fn padded_decimal(n: nat, width: nat) -> Seq<char>
    decreases width,
{
    if width == 0 {
        Seq::empty()
    } else {
        padded_decimal(n / 10, (width - 1) as nat).push(digit_char((n % 10) as int))
    }
}

/// The text a `jiff::civil::Date` prints: for a year before 0, "-00" first; then the
/// year's digits, padded to four; '-', the month in two digits; '-', the day in two digits.
pub open spec fn iso_date_text(d: CivilDate) -> Seq<char> {
    let year = d.year as int;
    let digits = if year < 0 {
        -year
    } else {
        year
    };
    (if year < 0 {
        "-00"@
    } else {
        Seq::empty()
    }) + padded_decimal(digits as nat, 4) + "-"@ + padded_decimal(d.month as nat, 2) + "-"@
        + padded_decimal(d.day as nat, 2)
}

/// `jiff::civil::Date::new` then the date's `Display`: the text a date is stored as. The
/// contract claims what jiff does: a text exactly when `Date::new` accepts the date (as for
/// `civil_date`), and then the text its printer writes, which `iso_date_text` spells out.
#[verifier::external_body]
fn jiff_date_text(d: &CivilDate) -> (r: Option<String>)
    ensures
        r is Some <==> is_valid_date(d.year, d.month, d.day),
        r matches Some(t) ==> t@ == iso_date_text(*d),
{
    match jiff::civil::Date::new(d.year, d.month, d.day) {
        Ok(x) => Some(x.to_string()),
        Err(_) => None,
    }
}

/// The date that `jiff::civil::Date`'s `FromStr` reads from a text.
pub uninterp spec fn iso_date(text: Seq<char>) -> Option<CivilDate>;

/// Reads a date with `jiff::civil::Date`'s `FromStr`. The contract names the result, and
/// claims that a date read is one that `Date::new` accepts, since every `Date` is. Its
/// grammar (an ISO 8601 date, possibly with a time and offset after it) is not written out.
#[verifier::external_body]
fn parse_iso_date(text: &str) -> (r: Option<CivilDate>)
    ensures
        r == iso_date(text@),
        r matches Some(d) ==> is_valid_date(d.year, d.month, d.day),
{
    match text.parse::<jiff::civil::Date>() {
        Ok(d) => Some(CivilDate { year: d.year(), month: d.month(), day: d.day() }),
        Err(_) => None,
    }
}

/// Reads a stored date as the database reads a `jiff::civil::Date` column: with the date's
/// `FromStr`; `None` when the text is not a date.
pub fn read_civil_date(text: &str) -> (r: Option<CivilDate>)
    ensures
        r == iso_date(text@),
        r matches Some(d) ==> is_valid_date(d.year, d.month, d.day),
{
    parse_iso_date(text)
}

/// The text a date is stored as, as the database writes a `jiff::civil::Date` column;
/// `None` for a date that jiff does not accept.
pub fn stored_date_text(d: &CivilDate) -> (r: Option<String>)
    ensures
        r is Some <==> is_valid_date(d.year, d.month, d.day),
        r matches Some(t) ==> t@ == iso_date_text(*d),
{
    jiff_date_text(d)
}

impl CivilDate {
    /// The date with the given year, month and day.
    pub fn new(year: i16, month: i8, day: i8) -> (r: Self)
        ensures
            r == (CivilDate { year, month, day }),
    {
        CivilDate { year, month, day }
    }

    /// Whether this date is strictly before `other`, comparing year, then month, then day.
    pub fn is_before(&self, other: &CivilDate) -> (r: bool)
        ensures
            r == date_lt(*self, *other),
    {
        self.year < other.year || (self.year == other.year && (self.month < other.month || (
        self.month == other.month && self.day < other.day)))
    }
}

/// Calendar order: by year, then month, then day.
pub open spec fn date_lt(a: CivilDate, b: CivilDate) -> bool {
    a.year < b.year || (a.year == b.year && (a.month < b.month || (a.month == b.month && a.day
        < b.day)))
}

/// A work as the database knows it.
pub ghost struct DbWorkView {
    pub id: WorkId,
    pub name: Seq<char>,
    pub artist_id: i64,
    pub date: CivilDate,
    pub favorite: bool,
    pub hidden: bool,
    pub location: Option<LocationView>,
    pub history: Option<HistoryView>,
    pub physical_data: Option<PhysicalDataView>,
    pub preview_url: Seq<char>,
    pub screen_url: Seq<char>,
    pub archive_url: Option<Seq<char>>,
    pub preview_path: Option<Seq<char>>,
    pub screen_path: Option<Seq<char>>,
    pub archive_path: Option<Seq<char>>,
    pub tags: Seq<TagId>,
}

/// A DB-centered \[art\]work item: its urls, the local paths of its downloaded files, its
/// favorite and hidden flags, and the ids of its tags.
#[derive(Clone, Debug)]
pub struct DbWork {
    id: WorkId,
    name: String,
    artist_id: i64,
    date: CivilDate,
    favorite: bool,
    hidden: bool,
    location: Option<Location>,
    history: Option<History>,
    physical_data: Option<PhysicalData>,
    preview_url: String,
    screen_url: String,
    archive_url: Option<String>,
    preview_path: Option<String>,
    screen_path: Option<String>,
    archive_path: Option<String>,
    tags: Vec<TagId>,
}

/// The view of an optional location.
pub open spec fn opt_location_view(o: Option<Location>) -> Option<LocationView> {
    match o {
        Some(l) => Some(l@),
        None => None,
    }
}

/// The view of an optional history.
pub open spec fn opt_history_view(o: Option<History>) -> Option<HistoryView> {
    match o {
        Some(h) => Some(h@),
        None => None,
    }
}

/// The view of optional physical data.
pub open spec fn opt_physical_view(o: Option<PhysicalData>) -> Option<PhysicalDataView> {
    match o {
        Some(p) => Some(p@),
        None => None,
    }
}

impl View for DbWork {
    type V = DbWorkView;

    closed spec fn view(&self) -> DbWorkView {
        DbWorkView {
            id: self.id,
            name: self.name@,
            artist_id: self.artist_id,
            date: self.date,
            favorite: self.favorite,
            hidden: self.hidden,
            location: opt_location_view(self.location),
            history: opt_history_view(self.history),
            physical_data: opt_physical_view(self.physical_data),
            preview_url: self.preview_url@,
            screen_url: self.screen_url@,
            archive_url: opt_string_view(self.archive_url),
            preview_path: opt_string_view(self.preview_path),
            screen_path: opt_string_view(self.screen_path),
            archive_path: opt_string_view(self.archive_path),
            tags: self.tags@,
        }
    }
}

/// The values of the comma-separated tag ids of a works row, when every piece is an integer.
pub open spec fn parsed_ids(pieces: Seq<Seq<char>>) -> Option<Seq<i64>> {
    if forall|i: int| 0 <= i < pieces.len() ==> (#[trigger] parse_i64_spec(pieces[i])) is Some {
        Some(Seq::new(pieces.len(), |i: int| parse_i64_spec(pieces[i])->0))
    } else {
        None
    }
}

/// Reads the comma-separated tag ids that the works query concatenates into one column.
/// `None` when a piece is not an integer; an empty column is one empty piece, so it gives
/// `None` too.
pub fn parse_tag_ids(s: &str) -> (r: Option<Vec<TagId>>)
    ensures
        match parsed_ids(split_seq(s@, ',')) {
            Some(ids) => r is Some && r->0@.len() == ids.len() && forall|i: int|
                0 <= i < ids.len() ==> (#[trigger] r->0@[i])@ == ids[i],
            None => r is None,
        },
{
    let cs = chars_of(s);
    let pieces = split_chars(cs.as_slice(), ',');
    let ghost pv = vecs_view(pieces@);
    let mut out: Vec<TagId> = Vec::new();
    let mut i: usize = 0;
    while i < pieces.len()
        invariant
            0 <= i <= pieces@.len(),
            pv == vecs_view(pieces@),
            pv == split_seq(s@, ','),
            out@.len() == i,
            forall|j: int| 0 <= j < i ==> parse_i64_spec(pv[j]) is Some,
            forall|j: int| 0 <= j < i ==> (#[trigger] out@[j])@ == parse_i64_spec(pv[j])->0,
        decreases pieces@.len() - i,
    {
        match parse_i64(pieces[i].as_slice()) {
            Some(v) => {
                out.push(TagId(v));
            },
            None => {
                assert(parse_i64_spec(pv[i as int]) is None);
                assert(!(forall|j: int|
                    0 <= j < pv.len() ==> (#[trigger] parse_i64_spec(pv[j])) is Some));
                assert(pv == split_seq(s@, ','));
                assert(parsed_ids(pv) is None);
                return None;
            },
        }
        i = i + 1;
    }
    Some(out)
}

/// The location read from the location columns of a works row: `None` when every column is
/// empty.
pub fn location_from_columns(
    custody: Option<&str>,
    site: Option<&str>,
    room: Option<&str>,
    position: Option<&str>,
    description: Option<&str>,
    on_display: Option<bool>,
) -> (r: Option<Location>)
    ensures
        (custody is None && site is None && room is None && position is None && description is None
            && on_display is None) ==> r is None,
        !(custody is None && site is None && room is None && position is None && description is None
            && on_display is None) ==> r is Some && r->0@ == (LocationView {
            custody: opt_str_view(custody),
            site: opt_str_view(site),
            room: opt_str_view(room),
            position: opt_str_view(position),
            description: opt_str_view(description),
            on_display: on_display,
        }),
{
    if custody.is_none() && site.is_none() && room.is_none() && position.is_none()
        && description.is_none() && on_display.is_none() {
        return None;
    }
    let mut loc = Location::new();
    if let Some(v) = custody {
        loc.set_custody(v);
    }
    if let Some(v) = site {
        loc.set_site(v);
    }
    if let Some(v) = room {
        loc.set_room(v);
    }
    if let Some(v) = position {
        loc.set_position(v);
    }
    if let Some(v) = description {
        loc.set_description(v);
    }
    if let Some(v) = on_display {
        loc.set_on_display(v);
    }
    Some(loc)
}

/// The history read from the history columns of a works row: `None` when every column is
/// empty.
pub fn history_from_columns(
    attribution: Option<&str>,
    attribution_sort_key: Option<&str>,
    display_date: Option<&str>,
    begin_year: Option<i64>,
    end_year: Option<i64>,
    provenance: Option<&str>,
    credit_line: Option<&str>,
) -> (r: Option<History>)
    ensures
        (attribution is None && attribution_sort_key is None && display_date is None && begin_year is None
            && end_year is None && provenance is None && credit_line is None) ==> r is None,
        !(attribution is None && attribution_sort_key is None && display_date is None
            && begin_year is None && end_year is None && provenance is None && credit_line is None)
            ==> r is Some && r->0@ == (HistoryView {
            attribution: opt_str_view(attribution),
            attribution_sort_key: opt_str_view(attribution_sort_key),
            display_date: opt_str_view(display_date),
            begin_year: begin_year,
            end_year: end_year,
            time_category: Seq::empty(),
            provenance: opt_str_view(provenance),
            credit_line: opt_str_view(credit_line),
        }),
{
    if attribution.is_none() && attribution_sort_key.is_none() && display_date.is_none()
        && begin_year.is_none() && end_year.is_none() && provenance.is_none()
        && credit_line.is_none() {
        return None;
    }
    let mut h = History::new();
    if let Some(v) = attribution {
        h.set_attribution(v);
    }
    if let Some(v) = attribution_sort_key {
        h.set_attribution_sort_key(v);
    }
    if let Some(v) = display_date {
        h.set_display_date(v);
    }
    if let Some(v) = begin_year {
        h.set_begin_year(v);
    }
    if let Some(v) = end_year {
        h.set_end_year(v);
    }
    if let Some(v) = provenance {
        h.set_provenance(v);
    }
    if let Some(v) = credit_line {
        h.set_credit_line(v);
    }
    Some(h)
}

/// The physical data read from the physical columns of a works row: `None` when every column
/// is empty.
pub fn physical_from_columns(
    medium: Option<&str>,
    dimensions_display: Option<&str>,
    inscription: Option<&str>,
    markings: Option<&str>,
    watermarks: Option<&str>,
) -> (r: Option<PhysicalData>)
    ensures
        (medium is None && dimensions_display is None && inscription is None && markings is None
            && watermarks is None) ==> r is None,
        !(medium is None && dimensions_display is None && inscription is None && markings is None
            && watermarks is None) ==> r is Some && r->0@ == (PhysicalDataView {
            medium: opt_str_view(medium),
            dimensions_display: opt_str_view(dimensions_display),
            inscription: opt_str_view(inscription),
            markings: opt_str_view(markings),
            watermarks: opt_str_view(watermarks),
        }),
{
    if medium.is_none() && dimensions_display.is_none() && inscription.is_none() && markings.is_none()
        && watermarks.is_none() {
        return None;
    }
    let mut p = PhysicalData::new();
    if let Some(v) = medium {
        p.set_medium(v);
    }
    if let Some(v) = dimensions_display {
        p.set_dimensions_display(v);
    }
    if let Some(v) = inscription {
        p.set_inscription(v);
    }
    if let Some(v) = markings {
        p.set_markings(v);
    }
    if let Some(v) = watermarks {
        p.set_watermarks(v);
    }
    Some(p)
}

impl DbWork {
    /// A work record, as read from a works row, with no location or history.
    pub fn new(
        id: i64,
        name: &str,
        artist_id: i64,
        date: CivilDate,
        favorite: bool,
        hidden: bool,
        preview_url: &str,
        screen_url: &str,
        archive_url: Option<&str>,
        preview_path: Option<&str>,
        screen_path: Option<&str>,
        archive_path: Option<&str>,
        tags: Vec<TagId>,
    ) -> (r: Self)
        ensures
            r@.id@ == id,
            r@ == (DbWorkView {
                id: r@.id,
                name: name@,
                artist_id,
                date,
                favorite,
                hidden,
                location: None,
                history: None,
                physical_data: None,
                preview_url: preview_url@,
                screen_url: screen_url@,
                archive_url: opt_str_view(archive_url),
                preview_path: opt_str_view(preview_path),
                screen_path: opt_str_view(screen_path),
                archive_path: opt_str_view(archive_path),
                tags: tags@,
            }),
    {
        DbWork {
            id: WorkId(id),
            name: owned(name),
            artist_id,
            date,
            favorite,
            hidden,
            location: None,
            history: None,
            physical_data: None,
            preview_url: owned(preview_url),
            screen_url: owned(screen_url),
            archive_url: opt_owned(archive_url),
            preview_path: opt_owned(preview_path),
            screen_path: opt_owned(screen_path),
            archive_path: opt_owned(archive_path),
            tags,
        }
    }

    /// The same work with a location.
    pub fn with_location(self, location: Option<Location>) -> (r: Self)
        ensures
            r@ == (DbWorkView { location: opt_location_view(location), ..self@ }),
    {
        let mut out = self;
        out.location = location;
        out
    }

    /// The same work with a history.
    pub fn with_history(self, history: Option<History>) -> (r: Self)
        ensures
            r@ == (DbWorkView { history: opt_history_view(history), ..self@ }),
    {
        let mut out = self;
        out.history = history;
        out
    }

    /// The same work with physical data.
    pub fn with_physical_data(self, physical_data: Option<PhysicalData>) -> (r: Self)
        ensures
            r@ == (DbWorkView { physical_data: opt_physical_view(physical_data), ..self@ }),
    {
        let mut out = self;
        out.physical_data = physical_data;
        out
    }

    /// The work's id.
    pub fn id(&self) -> (r: WorkId)
        ensures
            r == self@.id,
    {
        self.id
    }

    /// The work's name.
    pub fn name(&self) -> (r: &str)
        ensures
            r@ == self@.name,
    {
        self.name.as_str()
    }

    /// The work's date.
    pub fn date(&self) -> (r: &CivilDate)
        ensures
            *r == self@.date,
    {
        &self.date
    }

    /// The url of the work's preview image.
    pub fn preview_url(&self) -> (r: &str)
        ensures
            r@ == self@.preview_url,
    {
        self.preview_url.as_str()
    }

    /// The url of the work's full-screen media.
    pub fn screen_url(&self) -> (r: &str)
        ensures
            r@ == self@.screen_url,
    {
        self.screen_url.as_str()
    }

    /// The url of the work's archival media, if any.
    pub fn archive_url(&self) -> (r: Option<&str>)
        ensures
            opt_str_view(r) == self@.archive_url,
    {
        opt_as_str(&self.archive_url)
    }

    /// The downloaded preview's path, once downloaded.
    pub fn preview_path(&self) -> (r: Option<&str>)
        ensures
            opt_str_view(r) == self@.preview_path,
    {
        opt_as_str(&self.preview_path)
    }

    /// The downloaded full-screen media's path, once downloaded.
    pub fn screen_path(&self) -> (r: Option<&str>)
        ensures
            opt_str_view(r) == self@.screen_path,
    {
        opt_as_str(&self.screen_path)
    }

    /// The downloaded archival media's path, once downloaded.
    pub fn archive_path(&self) -> (r: Option<&str>)
        ensures
            opt_str_view(r) == self@.archive_path,
    {
        opt_as_str(&self.archive_path)
    }

    /// Whether the work is a favorite.
    pub fn favorite(&self) -> (r: bool)
        ensures
            r == self@.favorite,
    {
        self.favorite
    }

    /// The mark shown after a favorite work's position: a sparkle, or nothing.
    pub fn favorite_annotation(&self) -> (r: &'static str)
        ensures
            r@ == (if self@.favorite {
                "\u{2728}"@
            } else {
                ""@
            }),
    {
        if self.favorite {
            "\u{2728}"
        } else {
            ""
        }
    }

    /// Sets the favorite flag.
    pub fn set_favorite(&mut self, favorite: bool)
        ensures
            final(self)@ == (DbWorkView { favorite: favorite, ..old(self)@ }),
    {
        self.favorite = favorite;
    }

    /// Whether the work is hidden.
    pub fn hidden(&self) -> (r: bool)
        ensures
            r == self@.hidden,
    {
        self.hidden
    }

    /// Sets the hidden flag.
    pub fn set_hidden(&mut self, hidden: bool)
        ensures
            final(self)@ == (DbWorkView { hidden: hidden, ..old(self)@ }),
    {
        self.hidden = hidden;
    }

    /// The work's location, if known.
    pub fn location(&self) -> (r: Option<&Location>)
        ensures
            match r {
                Some(l) => self@.location == Some(l@),
                None => self@.location is None,
            },
    {
        match &self.location {
            Some(l) => Some(l),
            None => None,
        }
    }

    /// The work's history, if known.
    pub fn history(&self) -> (r: Option<&History>)
        ensures
            match r {
                Some(h) => self@.history == Some(h@),
                None => self@.history is None,
            },
    {
        match &self.history {
            Some(h) => Some(h),
            None => None,
        }
    }

    /// The work's physical data, if known.
    pub fn physical_data(&self) -> (r: Option<&PhysicalData>)
        ensures
            match r {
                Some(p) => self@.physical_data == Some(p@),
                None => self@.physical_data is None,
            },
    {
        match &self.physical_data {
            Some(p) => Some(p),
            None => None,
        }
    }

    /// The ids of the work's tags.
    pub fn tags(&self) -> (r: &[TagId])
        ensures
            r@ == self@.tags,
    {
        self.tags.as_slice()
    }

    /// Records the paths of the downloaded files, once a download completes.
    pub fn set_paths(&mut self, preview_path: String, screen_path: String, archive_path: Option<
        String,
    >)
        ensures
            final(self)@ == (DbWorkView {
                preview_path: Some(preview_path@),
                screen_path: Some(screen_path@),
                archive_path: opt_string_view(archive_path),
                ..old(self)@
            }),
    {
        self.preview_path = Some(preview_path);
        self.screen_path = Some(screen_path);
        self.archive_path = archive_path;
    }
}

// ---------------------------------------------------------------------------------------------
// Ordering and slow queries
// ---------------------------------------------------------------------------------------------
/// A sort direction.
#[derive(Clone, Copy, Debug, PartialEq, Eq, Structural)]
pub enum OrderDir {
    Asc,
    Desc,
}

impl Default for OrderDir {
    fn default() -> (r: OrderDir)
        ensures
            r == OrderDir::Asc,
    {
        OrderDir::Asc
    }
}

impl OrderDir {
    /// The SQL keyword for this direction.
    pub fn as_sql(&self) -> (r: &'static str)
        ensures
            r@ == (match self {
                OrderDir::Asc => "ASC"@,
                OrderDir::Desc => "DESC"@,
            }),
    {
        match self {
            OrderDir::Asc => "ASC",
            OrderDir::Desc => "DESC",
        }
    }
}

/// A query is slow when it took longer than thirty milliseconds: its duration is
/// `secs` seconds and `nanos` nanoseconds.
pub open spec fn is_slow_query(secs: u64, nanos: u32) -> bool {
    secs > 0 || nanos > 30_000_000
}

/// What `Debug` prints for the `Duration` of `secs` seconds and `nanos` nanoseconds.
pub uninterp spec fn duration_debug_text(secs: u64, nanos: u32) -> Seq<char>;

/// Prints the `Duration` of `secs` seconds and `nanos` nanoseconds with its `Debug` impl
/// (a number with its unit). The contract only names the text. Below a second of nanoseconds
/// the `Duration` is made without a carry, so `Duration::new` cannot panic.
#[verifier::external_body]
fn duration_debug(secs: u64, nanos: u32) -> (r: String)
    requires
        nanos < 1_000_000_000,
    ensures
        r@ == duration_debug_text(secs, nanos),
{
    format!("{:?}", std::time::Duration::new(secs, nanos))
}

/// The warning logged for a slow query: "Slow query ", its name, " took " and the duration
/// as `Debug` prints it.
pub open spec fn slow_query_warning(name: Seq<char>, secs: u64, nanos: u32) -> Seq<char> {
    "Slow query "@ + name + " took "@ + duration_debug_text(secs, nanos)
}

/// The SQL text of a query on one line, as the slow-query report logs it: newlines become
/// spaces, and each run of twelve spaces (one level of the queries' indentation) becomes one.
pub open spec fn query_for_log(query: Seq<char>) -> Seq<char> {
    crate::text::replace_all(
        crate::text::replace_all(query, seq!['\n'], seq![' ']),
        Seq::new(12, |i: int| ' '),
        seq![' '],
    )
}

/// Decides whether the query `name`, whose run took `elapsed_secs` seconds and
/// `elapsed_subsec_nanos` nanoseconds, is reported as slow; if so, returns the warning to
/// log and its SQL on one line, to log for debugging.
pub fn report_slow_query(elapsed_secs: u64, elapsed_subsec_nanos: u32, name: &str, query: &str) -> (r: Option<
    (String, String),
>)
    requires
        elapsed_subsec_nanos < 1_000_000_000,
    ensures
        is_slow_query(elapsed_secs, elapsed_subsec_nanos) ==> (r matches Some((w, q)) && w@
            == slow_query_warning(name@, elapsed_secs, elapsed_subsec_nanos) && q@ == query_for_log(
            query@,
        )),
        !is_slow_query(elapsed_secs, elapsed_subsec_nanos) ==> r is None,
{
    if elapsed_secs == 0 && elapsed_subsec_nanos <= 30_000_000 {
        return None;
    }
    let mut warning = owned("Slow query ");
    crate::text::push_str(&mut warning, name);
    crate::text::push_str(&mut warning, " took ");
    let took = duration_debug(elapsed_secs, elapsed_subsec_nanos);
    crate::text::push_str(&mut warning, took.as_str());
    let cs = chars_of(query);
    let newline: Vec<char> = vec!['\n'];
    let space: Vec<char> = vec![' '];
    let one_line = crate::text::replace_chars(cs.as_slice(), newline.as_slice(), space.as_slice());
    let mut indent: Vec<char> = Vec::new();
    let mut k: usize = 0;
    while k < 12
        invariant
            0 <= k <= 12,
            indent@ == Seq::new(k as nat, |i: int| ' '),
        decreases 12 - k,
    {
        indent.push(' ');
        assert(indent@ =~= Seq::new((k + 1) as nat, |i: int| ' '));
        k = k + 1;
    }
    assert(newline@ =~= seq!['\n']);
    assert(space@ =~= seq![' ']);
    let flat = crate::text::replace_chars(one_line.as_slice(), indent.as_slice(), space.as_slice());
    Some((warning, string_from_chars(flat.as_slice())))
}

/// The contents of an optional tag table.
pub open spec fn opt_table_view(tags: Option<&TagTable>) -> Option<Map<TagId, DbTagView>> {
    match tags {
        Some(t) => Some(t@),
        None => None,
    }
}

} // verus!
