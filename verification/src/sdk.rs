//! The plugin SDK's data model: plugin metadata, tags, work locations and histories, and the
//! web requests that plugins ask the host to make.
use crate::num::{decimal, format_u64};
use crate::text::{
    opt_as_str, opt_owned, opt_str_view, opt_string_view, owned, push_chars, push_str, str_eq,
};
use vstd::prelude::*;
use vstd::string::StringSliceAdditionalSpecFns;

verus! {

// ---------------------------------------------------------------------------------------------
// Tag kinds
// ---------------------------------------------------------------------------------------------
/// The kind of a tag: what sort of attribute of a work it names.
#[derive(Clone, Copy, Debug, PartialEq, Eq, Structural)]
pub enum TagKind {
    Default,
    Artist,
    Character,
    Series,
    Copyright,
    Meta,
    Deprecated,
    Location,
    School,
    Style,
    Technique,
    Theme,
}

/// The name under which a tag kind is stored and displayed.
pub open spec fn tag_kind_name(k: TagKind) -> Seq<char> {
    match k {
        TagKind::Artist => "artist"@,
        TagKind::Character => "character"@,
        TagKind::Series => "series"@,
        TagKind::Copyright => "copyright"@,
        TagKind::Meta => "meta"@,
        _ => "default"@,
    }
}

/// The tag kind read back from a stored name; unknown names read as the default kind.
pub open spec fn tag_kind_from_name(s: Seq<char>) -> TagKind {
    if s == "artist"@ {
        TagKind::Artist
    } else if s == "character"@ {
        TagKind::Character
    } else if s == "series"@ {
        TagKind::Series
    } else if s == "copyright"@ {
        TagKind::Copyright
    } else if s == "meta"@ {
        TagKind::Meta
    } else {
        TagKind::Default
    }
}

/// A tag kind whose name reads back as the same kind.
pub open spec fn tag_kind_round_trips(k: TagKind) -> bool {
    match k {
        TagKind::Default | TagKind::Artist | TagKind::Character | TagKind::Series
        | TagKind::Copyright | TagKind::Meta => true,
        _ => false,
    }
}

impl TagKind {
    /// The default tag kind.
    pub fn default_kind() -> (k: TagKind)
        ensures
            k == TagKind::Default,
    {
        TagKind::Default
    }

    /// The name of this kind, as it is stored in the database and shown to the user.
    pub fn name(&self) -> (s: &'static str)
        ensures
            s@ == tag_kind_name(*self),
    {
        match self {
            TagKind::Artist => "artist",
            TagKind::Character => "character",
            TagKind::Series => "series",
            TagKind::Copyright => "copyright",
            TagKind::Meta => "meta",
            _ => "default",
        }
    }

    /// Reads a tag kind from its stored name. Unknown names give the default kind, so this
    /// never fails.
    pub fn from_name(s: &str) -> (k: TagKind)
        ensures
            k == tag_kind_from_name(s@),
    {
        if str_eq(s, "artist") {
            TagKind::Artist
        } else if str_eq(s, "character") {
            TagKind::Character
        } else if str_eq(s, "series") {
            TagKind::Series
        } else if str_eq(s, "copyright") {
            TagKind::Copyright
        } else if str_eq(s, "meta") {
            TagKind::Meta
        } else {
            TagKind::Default
        }
    }
}

/// Storing a tag kind by name and reading it back gives the same kind, for every kind with a
/// name of its own (the kinds without one are stored as the default kind).
pub proof fn lemma_tag_kind_name_round_trip(k: TagKind)
    requires
        tag_kind_round_trips(k),
    ensures
        tag_kind_from_name(tag_kind_name(k)) == k,
{
    reveal_strlit("artist");
    reveal_strlit("character");
    reveal_strlit("series");
    reveal_strlit("copyright");
    reveal_strlit("meta");
    reveal_strlit("default");
    let n = tag_kind_name(k);
    if n != "artist"@ {
        assert("artist"@[0] == 'a');
    }
    match k {
        TagKind::Character => {
            assert(n[0] != "artist"@[0]);
        },
        TagKind::Series => {
            assert(n[0] != "artist"@[0]);
            assert(n.len() != "character"@.len());
        },
        TagKind::Copyright => {
            assert(n[0] != "artist"@[0]);
            assert(n[1] != "character"@[1]);
            assert(n.len() != "series"@.len());
        },
        TagKind::Meta => {
            assert(n.len() != "artist"@.len());
            assert(n.len() != "character"@.len());
            assert(n.len() != "series"@.len());
            assert(n.len() != "copyright"@.len());
        },
        TagKind::Default => {
            assert(n[0] != "artist"@[0]);
            assert(n.len() != "character"@.len());
            assert(n.len() != "series"@.len());
            assert(n.len() != "copyright"@.len());
            assert(n.len() != "meta"@.len());
        },
        _ => {},
    }
}

// ---------------------------------------------------------------------------------------------
// Location
// ---------------------------------------------------------------------------------------------
/// What is known of where a work is; every part is optional.
pub ghost struct LocationView {
    pub custody: Option<Seq<char>>,
    pub site: Option<Seq<char>>,
    pub room: Option<Seq<char>>,
    pub position: Option<Seq<char>>,
    pub description: Option<Seq<char>>,
    pub on_display: Option<bool>,
}

/// Where the work is currently located.
#[derive(Clone, Debug)]
pub struct Location {
    custody: Option<String>,
    site: Option<String>,
    room: Option<String>,
    position: Option<String>,
    description: Option<String>,
    on_display: Option<bool>,
}

impl View for Location {
    type V = LocationView;

    closed spec fn view(&self) -> LocationView {
        LocationView {
            custody: opt_string_view(self.custody),
            site: opt_string_view(self.site),
            room: opt_string_view(self.room),
            position: opt_string_view(self.position),
            description: opt_string_view(self.description),
            on_display: self.on_display,
        }
    }
}

/// The location with nothing known.
pub open spec fn empty_location() -> LocationView {
    LocationView {
        custody: None,
        site: None,
        room: None,
        position: None,
        description: None,
        on_display: None,
    }
}

impl Default for Location {
    fn default() -> (r: Location)
        ensures
            r@ == empty_location(),
    {
        Location::new()
    }
}

impl Location {
    /// A location with nothing known.
    pub fn new() -> (r: Location)
        ensures
            r@ == empty_location(),
    {
        Location {
            custody: None,
            site: None,
            room: None,
            position: None,
            description: None,
            on_display: None,
        }
    }

    /// Whether the work is currently viewable by the public, if known.
    pub fn on_display(&self) -> (r: Option<bool>)
        ensures
            r == self@.on_display,
    {
        self.on_display
    }

    /// Records whether the work is currently on display.
    pub fn set_on_display(&mut self, on_display: bool)
        ensures
            final(self)@ == (LocationView { on_display: Some(on_display), ..old(self)@ }),
    {
        self.on_display = Some(on_display);
    }

    /// Adds a flag to the location to indicate whether the work is on display.
    pub fn with_on_display(self, on_display: bool) -> (r: Self)
        ensures
            r@ == (LocationView { on_display: Some(on_display), ..self@ }),
    {
        let mut out = self;
        out.set_on_display(on_display);
        out
    }

    /// The current custodian of the artwork; e.g. a gallery or curator.
    pub fn custody(&self) -> (r: Option<&str>)
        ensures
            opt_str_view(r) == self@.custody,
    {
        opt_as_str(&self.custody)
    }

    /// The physical site that the work is displayed in; e.g. a gallery building.
    pub fn site(&self) -> (r: Option<&str>)
        ensures
            opt_str_view(r) == self@.site,
    {
        opt_as_str(&self.site)
    }

    /// The room that the work is displayed in.
    pub fn room(&self) -> (r: Option<&str>)
        ensures
            opt_str_view(r) == self@.room,
    {
        opt_as_str(&self.room)
    }

    /// The position in the room that the work is displayed in.
    pub fn position(&self) -> (r: Option<&str>)
        ensures
            opt_str_view(r) == self@.position,
    {
        opt_as_str(&self.position)
    }

    /// A description of the artwork in-situ in the exhibit.
    pub fn description(&self) -> (r: Option<&str>)
        ensures
            opt_str_view(r) == self@.description,
    {
        opt_as_str(&self.description)
    }

    /// Sets the custodian of the artwork.
    pub fn set_custody(&mut self, custody: &str)
        ensures
            final(self)@ == (LocationView { custody: Some(custody@), ..old(self)@ }),
    {
        self.custody = Some(owned(custody));
    }

    /// Sets the site the work is displayed in.
    pub fn set_site(&mut self, site: &str)
        ensures
            final(self)@ == (LocationView { site: Some(site@), ..old(self)@ }),
    {
        self.site = Some(owned(site));
    }

    /// Sets the room the work is displayed in.
    pub fn set_room(&mut self, room: &str)
        ensures
            final(self)@ == (LocationView { room: Some(room@), ..old(self)@ }),
    {
        self.room = Some(owned(room));
    }

    /// Sets the position of the work in its room.
    pub fn set_position(&mut self, position: &str)
        ensures
            final(self)@ == (LocationView { position: Some(position@), ..old(self)@ }),
    {
        self.position = Some(owned(position));
    }

    /// Sets the in-situ description of the work.
    pub fn set_description(&mut self, description: &str)
        ensures
            final(self)@ == (LocationView { description: Some(description@), ..old(self)@ }),
    {
        self.description = Some(owned(description));
    }

    /// Adds a custodian to the location.
    pub fn with_custody(self, custody: &str) -> (r: Self)
        ensures
            r@ == (LocationView { custody: Some(custody@), ..self@ }),
    {
        let mut out = self;
        out.set_custody(custody);
        out
    }

    /// Adds site information to the location.
    pub fn with_site(self, site: &str) -> (r: Self)
        ensures
            r@ == (LocationView { site: Some(site@), ..self@ }),
    {
        let mut out = self;
        out.set_site(site);
        out
    }

    /// Adds room information to the location.
    pub fn with_room(self, room: &str) -> (r: Self)
        ensures
            r@ == (LocationView { room: Some(room@), ..self@ }),
    {
        let mut out = self;
        out.set_room(room);
        out
    }

    /// Adds position information to the location.
    pub fn with_position(self, position: &str) -> (r: Self)
        ensures
            r@ == (LocationView { position: Some(position@), ..self@ }),
    {
        let mut out = self;
        out.set_position(position);
        out
    }

    /// Adds an in-situ description to the location.
    pub fn with_description(self, description: &str) -> (r: Self)
        ensures
            r@ == (LocationView { description: Some(description@), ..self@ }),
    {
        let mut out = self;
        out.set_description(description);
        out
    }
}

// ---------------------------------------------------------------------------------------------
// History
// ---------------------------------------------------------------------------------------------
/// Who created a work, when, and what has happened to it since.
pub ghost struct HistoryView {
    pub attribution: Option<Seq<char>>,
    pub attribution_sort_key: Option<Seq<char>>,
    pub display_date: Option<Seq<char>>,
    pub begin_year: Option<i64>,
    pub end_year: Option<i64>,
    pub time_category: Seq<char>,
    pub provenance: Option<Seq<char>>,
    pub credit_line: Option<Seq<char>>,
}

/// Who created this work, where when, and in what circumstances.
#[derive(Clone, Debug)]
pub struct History {
    attribution: Option<String>,
    attribution_sort_key: Option<String>,
    display_date: Option<String>,
    begin_year: Option<i64>,
    end_year: Option<i64>,
    time_category: String,
    provenance: Option<String>,
    credit_line: Option<String>,
}

impl View for History {
    type V = HistoryView;

    closed spec fn view(&self) -> HistoryView {
        HistoryView {
            attribution: opt_string_view(self.attribution),
            attribution_sort_key: opt_string_view(self.attribution_sort_key),
            display_date: opt_string_view(self.display_date),
            begin_year: self.begin_year,
            end_year: self.end_year,
            time_category: self.time_category@,
            provenance: opt_string_view(self.provenance),
            credit_line: opt_string_view(self.credit_line),
        }
    }
}

/// The history with nothing known.
pub open spec fn empty_history() -> HistoryView {
    HistoryView {
        attribution: None,
        attribution_sort_key: None,
        display_date: None,
        begin_year: None,
        end_year: None,
        time_category: Seq::empty(),
        provenance: None,
        credit_line: None,
    }
}

impl Default for History {
    fn default() -> (r: History)
        ensures
            r@ == empty_history(),
    {
        History::new()
    }
}

impl History {
    /// A history with nothing known.
    pub fn new() -> (r: History)
        ensures
            r@ == empty_history(),
    {
        History {
            attribution: None,
            attribution_sort_key: None,
            display_date: None,
            begin_year: None,
            end_year: None,
            time_category: String::new(),
            provenance: None,
            credit_line: None,
        }
    }

    /// The year the creation of the work began, if known.
    pub fn begin_year(&self) -> (r: Option<i64>)
        ensures
            r == self@.begin_year,
    {
        self.begin_year
    }

    /// The year the creation of the work ended, if known.
    pub fn end_year(&self) -> (r: Option<i64>)
        ensures
            r == self@.end_year,
    {
        self.end_year
    }

    /// Sets the year the creation of the work began.
    pub fn set_begin_year(&mut self, begin_year: i64)
        ensures
            final(self)@ == (HistoryView { begin_year: Some(begin_year), ..old(self)@ }),
    {
        self.begin_year = Some(begin_year);
    }

    /// Sets the year the creation of the work ended.
    pub fn set_end_year(&mut self, end_year: i64)
        ensures
            final(self)@ == (HistoryView { end_year: Some(end_year), ..old(self)@ }),
    {
        self.end_year = Some(end_year);
    }

    /// Adds a begin year to the history.
    pub fn with_begin_year(self, begin_year: i64) -> (r: Self)
        ensures
            r@ == (HistoryView { begin_year: Some(begin_year), ..self@ }),
    {
        let mut out = self;
        out.set_begin_year(begin_year);
        out
    }

    /// Adds an end year to the history.
    pub fn with_end_year(self, end_year: i64) -> (r: Self)
        ensures
            r@ == (HistoryView { end_year: Some(end_year), ..self@ }),
    {
        let mut out = self;
        out.set_end_year(end_year);
        out
    }

    /// Who created the work, as curators attribute it.
    pub fn attribution(&self) -> (r: Option<&str>)
        ensures
            opt_str_view(r) == self@.attribution,
    {
        opt_as_str(&self.attribution)
    }

    /// The key by which attributions sort; typically "Last, First".
    pub fn attribution_sort_key(&self) -> (r: Option<&str>)
        ensures
            opt_str_view(r) == self@.attribution_sort_key,
    {
        opt_as_str(&self.attribution_sort_key)
    }

    /// A human description of when the work was created.
    pub fn display_date(&self) -> (r: Option<&str>)
        ensures
            opt_str_view(r) == self@.display_date,
    {
        opt_as_str(&self.display_date)
    }

    /// What is known of where the work has been.
    pub fn provenance(&self) -> (r: Option<&str>)
        ensures
            opt_str_view(r) == self@.provenance,
    {
        opt_as_str(&self.provenance)
    }

    /// The entities that preserved this work until it came to this collection.
    pub fn credit_line(&self) -> (r: Option<&str>)
        ensures
            opt_str_view(r) == self@.credit_line,
    {
        opt_as_str(&self.credit_line)
    }

    /// Sets the attribution string.
    pub fn set_attribution(&mut self, attribution: &str)
        ensures
            final(self)@ == (HistoryView { attribution: Some(attribution@), ..old(self)@ }),
    {
        self.attribution = Some(owned(attribution));
    }

    /// Sets the attribution sort key.
    pub fn set_attribution_sort_key(&mut self, attribution_sort_key: &str)
        ensures
            final(self)@ == (HistoryView { attribution_sort_key: Some(attribution_sort_key@), ..old(self)@ }),
    {
        self.attribution_sort_key = Some(owned(attribution_sort_key));
    }

    /// Sets the display date string.
    pub fn set_display_date(&mut self, display_date: &str)
        ensures
            final(self)@ == (HistoryView { display_date: Some(display_date@), ..old(self)@ }),
    {
        self.display_date = Some(owned(display_date));
    }

    /// Sets the provenance string.
    pub fn set_provenance(&mut self, provenance: &str)
        ensures
            final(self)@ == (HistoryView { provenance: Some(provenance@), ..old(self)@ }),
    {
        self.provenance = Some(owned(provenance));
    }

    /// Sets the credit line.
    pub fn set_credit_line(&mut self, credit_line: &str)
        ensures
            final(self)@ == (HistoryView { credit_line: Some(credit_line@), ..old(self)@ }),
    {
        self.credit_line = Some(owned(credit_line));
    }

    /// Adds an attribution string.
    pub fn with_attribution(self, attribution: &str) -> (r: Self)
        ensures
            r@ == (HistoryView { attribution: Some(attribution@), ..self@ }),
    {
        let mut out = self;
        out.set_attribution(attribution);
        out
    }

    /// Adds an attribution sort key.
    pub fn with_attribution_sort_key(self, attribution_sort_key: &str) -> (r: Self)
        ensures
            r@ == (HistoryView { attribution_sort_key: Some(attribution_sort_key@), ..self@ }),
    {
        let mut out = self;
        out.set_attribution_sort_key(attribution_sort_key);
        out
    }

    /// Adds a display date string.
    pub fn with_display_date(self, display_date: &str) -> (r: Self)
        ensures
            r@ == (HistoryView { display_date: Some(display_date@), ..self@ }),
    {
        let mut out = self;
        out.set_display_date(display_date);
        out
    }

    /// Adds a provenance string.
    pub fn with_provenance(self, provenance: &str) -> (r: Self)
        ensures
            r@ == (HistoryView { provenance: Some(provenance@), ..self@ }),
    {
        let mut out = self;
        out.set_provenance(provenance);
        out
    }

    /// Adds a credit line.
    pub fn with_credit_line(self, credit_line: &str) -> (r: Self)
        ensures
            r@ == (HistoryView { credit_line: Some(credit_line@), ..self@ }),
    {
        let mut out = self;
        out.set_credit_line(credit_line);
        out
    }
}


// ---------------------------------------------------------------------------------------------
// Physical data
// ---------------------------------------------------------------------------------------------
/// The physical nature of a work, as far as it is text.
pub ghost struct PhysicalDataView {
    pub medium: Option<Seq<char>>,
    pub dimensions_display: Option<Seq<char>>,
    pub inscription: Option<Seq<char>>,
    pub markings: Option<Seq<char>>,
    pub watermarks: Option<Seq<char>>,
}

/// What is known of the physical nature of a work: its medium, its dimensions as displayed,
/// and the marks by which it is identified. Sizes and measurements, which are floating-point
/// quantities, are not held here.
#[derive(Clone, Debug)]
pub struct PhysicalData {
    medium: Option<String>,
    dimensions_display: Option<String>,
    inscription: Option<String>,
    markings: Option<String>,
    watermarks: Option<String>,
}

impl View for PhysicalData {
    type V = PhysicalDataView;

    closed spec fn view(&self) -> PhysicalDataView {
        PhysicalDataView {
            medium: opt_string_view(self.medium),
            dimensions_display: opt_string_view(self.dimensions_display),
            inscription: opt_string_view(self.inscription),
            markings: opt_string_view(self.markings),
            watermarks: opt_string_view(self.watermarks),
        }
    }
}

/// The physical data with nothing known.
pub open spec fn empty_physical_data() -> PhysicalDataView {
    PhysicalDataView {
        medium: None,
        dimensions_display: None,
        inscription: None,
        markings: None,
        watermarks: None,
    }
}

impl Default for PhysicalData {
    fn default() -> (r: PhysicalData)
        ensures
            r@ == empty_physical_data(),
    {
        PhysicalData::new()
    }
}

impl PhysicalData {
    /// Physical data with nothing known.
    pub fn new() -> (r: PhysicalData)
        ensures
            r@ == empty_physical_data(),
    {
        PhysicalData {
            medium: None,
            dimensions_display: None,
            inscription: None,
            markings: None,
            watermarks: None,
        }
    }

    /// The physical type of the work: print, statue, photograph, and so on.
    pub fn medium(&self) -> (r: Option<&str>)
        ensures
            opt_str_view(r) == self@.medium,
    {
        opt_as_str(&self.medium)
    }

    /// The work's dimensions, formatted for display.
    pub fn dimensions_display(&self) -> (r: Option<&str>)
        ensures
            opt_str_view(r) == self@.dimensions_display,
    {
        opt_as_str(&self.dimensions_display)
    }

    /// How and where the work was inscribed with its attribution.
    pub fn inscription(&self) -> (r: Option<&str>)
        ensures
            opt_str_view(r) == self@.inscription,
    {
        opt_as_str(&self.inscription)
    }

    /// Markings by which the work can be identified with confidence.
    pub fn markings(&self) -> (r: Option<&str>)
        ensures
            opt_str_view(r) == self@.markings,
    {
        opt_as_str(&self.markings)
    }

    /// Further identifying marks, less obvious to the naked eye.
    pub fn watermarks(&self) -> (r: Option<&str>)
        ensures
            opt_str_view(r) == self@.watermarks,
    {
        opt_as_str(&self.watermarks)
    }

    /// Sets the medium.
    pub fn set_medium(&mut self, medium: &str)
        ensures
            final(self)@ == (PhysicalDataView { medium: Some(medium@), ..old(self)@ }),
    {
        self.medium = Some(owned(medium));
    }

    /// Sets the dimensions display.
    pub fn set_dimensions_display(&mut self, dimensions_display: &str)
        ensures
            final(self)@ == (PhysicalDataView { dimensions_display: Some(dimensions_display@), ..old(self)@ }),
    {
        self.dimensions_display = Some(owned(dimensions_display));
    }

    /// Sets the inscription.
    pub fn set_inscription(&mut self, inscription: &str)
        ensures
            final(self)@ == (PhysicalDataView { inscription: Some(inscription@), ..old(self)@ }),
    {
        self.inscription = Some(owned(inscription));
    }

    /// Sets the markings.
    pub fn set_markings(&mut self, markings: &str)
        ensures
            final(self)@ == (PhysicalDataView { markings: Some(markings@), ..old(self)@ }),
    {
        self.markings = Some(owned(markings));
    }

    /// Sets the watermarks.
    pub fn set_watermarks(&mut self, watermarks: &str)
        ensures
            final(self)@ == (PhysicalDataView { watermarks: Some(watermarks@), ..old(self)@ }),
    {
        self.watermarks = Some(owned(watermarks));
    }

    /// The physical data with the given medium.
    pub fn with_medium(self, medium: &str) -> (r: Self)
        ensures
            r@ == (PhysicalDataView { medium: Some(medium@), ..self@ }),
    {
        let mut out = self;
        out.set_medium(medium);
        out
    }

    /// The physical data with the given dimensions display.
    pub fn with_dimensions_display(self, dimensions_display: &str) -> (r: Self)
        ensures
            r@ == (PhysicalDataView { dimensions_display: Some(dimensions_display@), ..self@ }),
    {
        let mut out = self;
        out.set_dimensions_display(dimensions_display);
        out
    }

    /// The physical data with the given inscription.
    pub fn with_inscription(self, inscription: &str) -> (r: Self)
        ensures
            r@ == (PhysicalDataView { inscription: Some(inscription@), ..self@ }),
    {
        let mut out = self;
        out.set_inscription(inscription);
        out
    }

    /// The physical data with the given markings.
    pub fn with_markings(self, markings: &str) -> (r: Self)
        ensures
            r@ == (PhysicalDataView { markings: Some(markings@), ..self@ }),
    {
        let mut out = self;
        out.set_markings(markings);
        out
    }

    /// The physical data with the given watermarks.
    pub fn with_watermarks(self, watermarks: &str) -> (r: Self)
        ensures
            r@ == (PhysicalDataView { watermarks: Some(watermarks@), ..self@ }),
    {
        let mut out = self;
        out.set_watermarks(watermarks);
        out
    }
}

// ---------------------------------------------------------------------------------------------
// Plugin metadata
// ---------------------------------------------------------------------------------------------
/// The character sequences of a list of key/value string pairs.
pub open spec fn pairs_view(v: Seq<(String, String)>) -> Seq<(Seq<char>, Seq<char>)> {
    Seq::new(v.len(), |i: int| (v[i].0@, v[i].1@))
}

/// What a plugin reports about itself at startup.
pub ghost struct PluginMetadataView {
    pub name: Seq<char>,
    pub version: Seq<char>,
    pub description: Seq<char>,
    pub rate_limit_n: u32,
    pub rate_window_ms: u32,
    pub configurations: Seq<(Seq<char>, Seq<char>)>,
}

/// Information about a plugin: its name, version, description, how fast the host may fetch
/// on its behalf, and the configuration keys it understands with their current values.
#[derive(Clone, Debug)]
pub struct PluginMetadata {
    name: String,
    version: String,
    description: String,
    rate_limit_n: u32,
    rate_window_ms: u32,
    configurations: Vec<(String, String)>,
}

impl View for PluginMetadata {
    type V = PluginMetadataView;

    closed spec fn view(&self) -> PluginMetadataView {
        PluginMetadataView {
            name: self.name@,
            version: self.version@,
            description: self.description@,
            rate_limit_n: self.rate_limit_n,
            rate_window_ms: self.rate_window_ms,
            configurations: pairs_view(self.configurations@),
        }
    }
}

/// The configuration list after `set_config_value(key, value)`: every entry named `key` takes
/// the new value, every other entry is unchanged.
pub open spec fn configs_with_value(
    configs: Seq<(Seq<char>, Seq<char>)>,
    key: Seq<char>,
    value: Seq<char>,
) -> Seq<(Seq<char>, Seq<char>)> {
    Seq::new(
        configs.len(),
        |i: int|
            if configs[i].0 == key {
                (configs[i].0, value)
            } else {
                configs[i]
            },
    )
}

/// The configuration list after setting each saved key to its saved value, in turn.
pub open spec fn with_saved_values(
    configs: Seq<(Seq<char>, Seq<char>)>,
    saved: Seq<(Seq<char>, Seq<char>)>,
) -> Seq<(Seq<char>, Seq<char>)>
    decreases saved.len(),
{
    if saved.len() == 0 {
        configs
    } else {
        configs_with_value(with_saved_values(configs, saved.drop_last()), saved.last().0, saved.last().1)
    }
}

/// The `Duration` of the given number of milliseconds, as `Duration::from_millis` builds it.
pub uninterp spec fn millis_duration(ms: u64) -> std::time::Duration;

/// Builds a `Duration` of the given number of milliseconds (`Duration::from_millis`). The
/// contract names the result `millis_duration(ms)`: it is a function of `ms` alone.
#[verifier::external_body]
fn duration_from_millis(ms: u64) -> (r: std::time::Duration)
    ensures
        r == millis_duration(ms),
{
    std::time::Duration::from_millis(ms)
}

/// Replacing an entry of a list of pairs replaces its view.
pub broadcast proof fn lemma_pairs_view_update(v: Seq<(String, String)>, i: int, p: (String, String))
    requires
        0 <= i < v.len(),
    ensures
        #[trigger] pairs_view(v.update(i, p)) == pairs_view(v).update(i, (p.0@, p.1@)),
{
    assert(pairs_view(v.update(i, p)) =~= pairs_view(v).update(i, (p.0@, p.1@)));
}

impl PluginMetadata {
    /// Metadata for a plugin with a rate limit of one request per millisecond and no
    /// configuration keys.
    pub fn new(name: &str, version: &str, description: &str) -> (r: Self)
        ensures
            r@ == (PluginMetadataView {
                name: name@,
                version: version@,
                description: description@,
                rate_limit_n: 1,
                rate_window_ms: 1,
                configurations: Seq::empty(),
            }),
    {
        let r = PluginMetadata {
            name: owned(name),
            version: owned(version),
            description: owned(description),
            rate_limit_n: 1,
            rate_window_ms: 1,
            configurations: Vec::new(),
        };
        assert(pairs_view(r.configurations@) =~= Seq::empty());
        r
    }

    /// Sets the rate limit: at most `rate_limit_n` requests per window of `window_ms`
    /// milliseconds.
    pub fn with_rate_limit_ms(self, rate_limit_n: u32, window_ms: u32) -> (r: Self)
        ensures
            r@ == (PluginMetadataView {
                rate_limit_n: rate_limit_n,
                rate_window_ms: window_ms,
                ..self@
            }),
    {
        let mut out = self;
        out.rate_limit_n = rate_limit_n;
        out.rate_window_ms = window_ms;
        out
    }

    /// Declares a configuration key, with an empty value.
    pub fn with_configuration(self, name: &str) -> (r: Self)
        ensures
            r@ == (PluginMetadataView {
                configurations: self@.configurations.push((name@, Seq::empty())),
                ..self@
            }),
    {
        let mut out = self;
        let ghost before = out.configurations@;
        out.configurations.push((owned(name), String::new()));
        assert(pairs_view(out.configurations@) =~= pairs_view(before).push((name@, Seq::empty())));
        out
    }

    /// Sets the value of every configuration entry named `key`; other entries, and the
    /// order of entries, are unchanged. An unknown key changes nothing.
    pub fn set_config_value(&mut self, key: &str, value: &str)
        ensures
            final(self)@ == (PluginMetadataView {
                configurations: configs_with_value(old(self)@.configurations, key@, value@),
                ..old(self)@
            }),
    {
        let n = self.configurations.len();
        let mut i: usize = 0;
        while i < n
            invariant
                0 <= i <= n,
                n == self.configurations@.len(),
                self.name == old(self).name,
                self.version == old(self).version,
                self.description == old(self).description,
                self.rate_limit_n == old(self).rate_limit_n,
                self.rate_window_ms == old(self).rate_window_ms,
                self.configurations@.len() == old(self).configurations@.len(),
                forall|j: int|
                    0 <= j < n ==> #[trigger] pairs_view(self.configurations@)[j] == (if j < i {
                        configs_with_value(pairs_view(old(self).configurations@), key@, value@)[j]
                    } else {
                        pairs_view(old(self).configurations@)[j]
                    }),
            decreases n - i,
        {
            let ghost before = self.configurations@;
            let matches = str_eq(self.configurations[i].0.as_str(), key);
            if matches {
                let k = self.configurations[i].0.clone();
                self.configurations.set(i, (k, owned(value)));
            }
            proof {
                assert(pairs_view(before)[i as int] == pairs_view(old(self).configurations@)[i as int]);
                assert forall|j: int| 0 <= j < n implies #[trigger] pairs_view(self.configurations@)[j]
                    == (if j < i + 1 {
                    configs_with_value(pairs_view(old(self).configurations@), key@, value@)[j]
                } else {
                    pairs_view(old(self).configurations@)[j]
                }) by {
                    if j != i {
                        assert(self.configurations@[j] == before[j]);
                        assert(pairs_view(before)[j] == pairs_view(self.configurations@)[j]);
                    }
                }
            }
            i = i + 1;
        }
        assert(pairs_view(self.configurations@) =~= configs_with_value(
            pairs_view(old(self).configurations@),
            key@,
            value@,
        ));
    }

    /// Gives each saved configuration value, in turn, to the key it was saved under, as
    /// `set_config_value` does; saved keys the plugin no longer declares are ignored.
    pub fn apply_saved_configuration(&mut self, saved: &[(String, String)])
        ensures
            final(self)@ == (PluginMetadataView {
                configurations: with_saved_values(old(self)@.configurations, pairs_view(saved@)),
                ..old(self)@
            }),
    {
        let mut i: usize = 0;
        while i < saved.len()
            invariant
                0 <= i <= saved@.len(),
                self@ == (PluginMetadataView {
                    configurations: with_saved_values(
                        old(self)@.configurations,
                        pairs_view(saved@).subrange(0, i as int),
                    ),
                    ..old(self)@
                }),
            decreases saved@.len() - i,
        {
            self.set_config_value(saved[i].0.as_str(), saved[i].1.as_str());
            assert(pairs_view(saved@).subrange(0, i + 1).drop_last() =~= pairs_view(saved@).subrange(
                0,
                i as int,
            ));
            i = i + 1;
        }
        assert(pairs_view(saved@).subrange(0, saved@.len() as int) =~= pairs_view(saved@));
    }

    /// The plugin's name.
    pub fn name(&self) -> (r: &str)
        ensures
            r@ == self@.name,
    {
        self.name.as_str()
    }

    /// The plugin's version.
    pub fn version(&self) -> (r: &str)
        ensures
            r@ == self@.version,
    {
        self.version.as_str()
    }

    /// The plugin's description.
    pub fn description(&self) -> (r: &str)
        ensures
            r@ == self@.description,
    {
        self.description.as_str()
    }

    /// How many requests the host may make per rate window.
    pub fn rate_limit(&self) -> (r: usize)
        ensures
            r == self@.rate_limit_n,
    {
        self.rate_limit_n as usize
    }

    /// The length of the rate window, in milliseconds.
    pub fn rate_window_ms(&self) -> (r: u32)
        ensures
            r == self@.rate_window_ms,
    {
        self.rate_window_ms
    }

    /// The rate window, as a `Duration` of `rate_window_ms` milliseconds.
    pub fn rate_window(&self) -> (r: std::time::Duration)
        ensures
            r == millis_duration(self@.rate_window_ms as u64),
    {
        duration_from_millis(self.rate_window_ms as u64)
    }

    /// The configuration keys and their current values, in declaration order.
    pub fn configurations(&self) -> (r: &[(String, String)])
        ensures
            pairs_view(r@) == self@.configurations,
    {
        self.configurations.as_slice()
    }

    /// Mutable access to the value of the `index`th configuration entry, for editing it in
    /// place; the keys stay as they are.
    pub fn configurations_mut(&mut self, index: usize) -> (r: &mut String)
        requires
            index < old(self)@.configurations.len(),
        ensures
            r@ == old(self)@.configurations[index as int].1,
            final(self)@ == (PluginMetadataView {
                configurations: old(self)@.configurations.update(
                    index as int,
                    (old(self)@.configurations[index as int].0, final(r)@),
                ),
                ..old(self)@
            }),
    {
        broadcast use lemma_pairs_view_update;

        &mut self.configurations[index].1
    }
}

// ---------------------------------------------------------------------------------------------
// Tags
// ---------------------------------------------------------------------------------------------
/// An API-sourced tag.
pub ghost struct TagView {
    pub name: Seq<char>,
    pub kind: TagKind,
    pub presumed_work_count: Option<u64>,
    pub wiki_url: Option<Seq<char>>,
}

/// A tag as a plugin reports it: its name, kind, how many works the source says carry it,
/// and an optional wiki page. Two tags are equal when their names are.
#[derive(Clone, Debug)]
pub struct Tag {
    name: String,
    kind: TagKind,
    presumed_work_count: Option<u64>,
    wiki_url: Option<String>,
}

impl View for Tag {
    type V = TagView;

    closed spec fn view(&self) -> TagView {
        TagView {
            name: self.name@,
            kind: self.kind,
            presumed_work_count: self.presumed_work_count,
            wiki_url: opt_string_view(self.wiki_url),
        }
    }
}

impl PartialEq for Tag {
    fn eq(&self, other: &Self) -> (r: bool) {
        str_eq(self.name.as_str(), other.name.as_str())
    }
}

impl vstd::std_specs::cmp::PartialEqSpecImpl for Tag {
    open spec fn obeys_eq_spec() -> bool {
        true
    }

    open spec fn eq_spec(&self, other: &Self) -> bool {
        self@.name == other@.name
    }
}

impl Eq for Tag {

}

impl Tag {
    /// A tag of the default kind.
    pub fn new(name: &str, work_count: Option<u64>, wiki_url: Option<&str>) -> (r: Self)
        ensures
            r@ == (TagView {
                name: name@,
                kind: TagKind::Default,
                presumed_work_count: work_count,
                wiki_url: opt_str_view(wiki_url),
            }),
    {
        Tag { name: owned(name), kind: TagKind::Default, presumed_work_count: work_count, wiki_url: opt_owned(wiki_url) }
    }

    /// The same tag with another kind.
    pub fn with_kind(self, kind: TagKind) -> (r: Self)
        ensures
            r@ == (TagView { kind: kind, ..self@ }),
    {
        let mut out = self;
        out.kind = kind;
        out
    }

    /// Records how many works the source says carry this tag.
    pub fn set_work_count(&mut self, count: u64)
        ensures
            final(self)@ == (TagView { presumed_work_count: Some(count), ..old(self)@ }),
    {
        self.presumed_work_count = Some(count);
    }

    /// The tag's name.
    pub fn name(&self) -> (r: &str)
        ensures
            r@ == self@.name,
    {
        self.name.as_str()
    }

    /// The tag's kind.
    pub fn kind(&self) -> (r: TagKind)
        ensures
            r == self@.kind,
    {
        self.kind
    }

    /// How many works the source says carry this tag; zero when it did not say.
    pub fn presumed_work_count(&self) -> (r: u64)
        ensures
            r == match self@.presumed_work_count {
                Some(c) => c,
                None => 0,
            },
    {
        match self.presumed_work_count {
            Some(c) => c,
            None => 0,
        }
    }

    /// The tag's wiki page, if any.
    pub fn wiki_url(&self) -> (r: Option<&str>)
        ensures
            opt_str_view(r) == self@.wiki_url,
    {
        opt_as_str(&self.wiki_url)
    }
}

// ---------------------------------------------------------------------------------------------
// Web requests
// ---------------------------------------------------------------------------------------------
/// A request for a text document that a plugin asks the host to fetch.
pub ghost struct RequestView {
    pub method: Seq<char>,
    pub url: Seq<char>,
    pub path: Seq<char>,
    pub query: Seq<(Seq<char>, Seq<char>)>,
    pub headers: Seq<(Seq<char>, Seq<char>)>,
}

/// An HTTP request: a base url, a path below it, query parameters and headers.
#[derive(Clone, Debug)]
pub struct Request {
    method: String,
    url: String,
    path: String,
    query: Vec<(String, String)>,
    headers: Vec<(String, String)>,
}

impl View for Request {
    type V = RequestView;

    closed spec fn view(&self) -> RequestView {
        RequestView {
            method: self.method@,
            url: self.url@,
            path: self.path@,
            query: pairs_view(self.query@),
            headers: pairs_view(self.headers@),
        }
    }
}

/// A byte that percent-encoding leaves as it is: ASCII letters, digits, `-`, `.`, `_`, `~`.
pub open spec fn url_unreserved(b: u8) -> bool {
    (48 <= b <= 57) || (65 <= b <= 90) || (97 <= b <= 122) || b == 45 || b == 46 || b == 95
        || b == 126
}

/// The upper-case hexadecimal digit for a value below sixteen.
pub open spec fn hex_upper(d: u8) -> char {
    if d < 10 {
        ((d + 48) as u8) as char
    } else {
        ((d + 55) as u8) as char
    }
}

/// The percent-encoding of one byte.
pub open spec fn url_encode_byte(b: u8) -> Seq<char> {
    if url_unreserved(b) {
        seq![b as char]
    } else {
        seq!['%', hex_upper(b / 16), hex_upper(b % 16)]
    }
}

/// The percent-encoding of a byte string: each byte encoded in turn.
pub open spec fn url_encoded(b: Seq<u8>) -> Seq<char>
    decreases b.len(),
{
    if b.len() == 0 {
        Seq::empty()
    } else {
        url_encoded(b.drop_last()) + url_encode_byte(b.last())
    }
}

/// `key=encoded(value)` for each query pair, joined with `&`.
pub open spec fn query_string(q: Seq<(Seq<char>, Seq<char>)>) -> Seq<char>
    decreases q.len(),
{
    if q.len() == 0 {
        Seq::empty()
    } else {
        let prefix = query_string(q.drop_last());
        let sep = if q.len() > 1 {
            seq!['&']
        } else {
            Seq::<char>::empty()
        };
        prefix + sep + q.last().0 + seq!['='] + url_encoded(
            vstd::utf8::encode_utf8(q.last().1),
        )
    }
}

/// The full url of a request: base url, path, and the query string after `?` when there are
/// query parameters.
pub open spec fn request_url(r: RequestView) -> Seq<char> {
    if r.query.len() == 0 {
        r.url + r.path
    } else {
        r.url + r.path + seq!['?'] + query_string(r.query)
    }
}

/// Percent-encodes every byte of the UTF-8 encoding of `s` except ASCII letters, digits,
/// `-`, `.`, `_` and `~` (`urlencoding::encode`). The contract states the encoding exactly.
#[verifier::external_body]
fn url_encode(s: &str) -> (r: String)
    ensures
        r@ == url_encoded(s.spec_bytes()),
{
    urlencoding::encode(s).into_owned()
}

impl Request {
    /// A GET request of `url`, with an empty path and no query or headers.
    pub fn get(url: &str) -> (r: Self)
        ensures
            r@ == (RequestView {
                method: "GET"@,
                url: url@,
                path: Seq::empty(),
                query: Seq::empty(),
                headers: Seq::empty(),
            }),
    {
        let r = Request {
            method: owned("GET"),
            url: owned(url),
            path: String::new(),
            query: Vec::new(),
            headers: Vec::new(),
        };
        assert(pairs_view(r.query@) =~= Seq::empty());
        assert(pairs_view(r.headers@) =~= Seq::empty());
        r
    }

    /// Adds a header.
    pub fn add_header(self, key: &str, value: &str) -> (r: Self)
        ensures
            r@ == (RequestView { headers: self@.headers.push((key@, value@)), ..self@ }),
    {
        let mut out = self;
        let ghost before = out.headers@;
        out.headers.push((owned(key), owned(value)));
        assert(pairs_view(out.headers@) =~= pairs_view(before).push((key@, value@)));
        out
    }

    /// Adds a query parameter.
    pub fn add_query(self, key: &str, value: &str) -> (r: Self)
        ensures
            r@ == (RequestView { query: self@.query.push((key@, value@)), ..self@ }),
    {
        let mut out = self;
        let ghost before = out.query@;
        out.query.push((owned(key), owned(value)));
        assert(pairs_view(out.query@) =~= pairs_view(before).push((key@, value@)));
        out
    }

    /// Replaces the path.
    pub fn in_path(self, path: &str) -> (r: Self)
        ensures
            r@ == (RequestView { path: path@, ..self@ }),
    {
        let mut out = self;
        out.path = owned(path);
        out
    }

    /// Appends a path segment, adding a `/` first unless the path already ends with one.
    pub fn append_path_segment(self, segment: &str) -> (r: Self)
        ensures
            r@ == (RequestView {
                path: if crate::text::ends_with_char(self@.path, '/') {
                    self@.path + segment@
                } else {
                    self@.path.push('/') + segment@
                },
                ..self@
            }),
    {
        let mut out = self;
        let cs = crate::text::chars_of(out.path.as_str());
        let n = cs.len();
        if !(n > 0 && cs[n - 1] == '/') {
            crate::text::push_char(&mut out.path, '/');
        }
        push_str(&mut out.path, segment);
        out
    }

    /// The request's headers.
    pub fn headers(&self) -> (r: &[(String, String)])
        ensures
            pairs_view(r@) == self@.headers,
    {
        self.headers.as_slice()
    }

    /// The full url: base url, path, then `?` and the `&`-joined `key=value` pairs, each value
    /// percent-encoded, when there are query parameters.
    pub fn to_url(&self) -> (r: String)
        ensures
            r@ == request_url(self@),
    {
        let mut out = owned(self.url.as_str());
        push_str(&mut out, self.path.as_str());
        let n = self.query.len();
        if n == 0 {
            return out;
        }
        crate::text::push_char(&mut out, '?');
        let ghost base = out@;
        let mut i: usize = 0;
        while i < n
            invariant
                0 <= i <= n,
                n == self.query@.len(),
                out@ == base + query_string(pairs_view(self.query@).subrange(0, i as int)),
            decreases n - i,
        {
            proof {
                let q = pairs_view(self.query@).subrange(0, i + 1);
                assert(q.drop_last() =~= pairs_view(self.query@).subrange(0, i as int));
                assert(q.last() == pairs_view(self.query@)[i as int]);
            }
            if i > 0 {
                crate::text::push_char(&mut out, '&');
            }
            push_str(&mut out, self.query[i].0.as_str());
            crate::text::push_char(&mut out, '=');
            let enc = url_encode(self.query[i].1.as_str());
            push_str(&mut out, enc.as_str());
            proof {
                let q = pairs_view(self.query@).subrange(0, i + 1);
                let sep = if i > 0 { seq!['&'] } else { Seq::<char>::empty() };
                assert(out@ =~= base + query_string(q.drop_last()) + sep + q.last().0 + seq!['=']
                    + url_encoded(vstd::utf8::encode_utf8(q.last().1)));
            }
            i = i + 1;
        }
        assert(pairs_view(self.query@).subrange(0, n as int) =~= pairs_view(self.query@));
        out
    }
}

// ---------------------------------------------------------------------------------------------
// Fetch errors
// ---------------------------------------------------------------------------------------------
/// Why the host could not fetch a document for a plugin.
#[derive(Clone, Debug)]
pub enum TextFetchError {
    Timeout,
    IoError(String),
    HttpError(u16),
    Cancellation,
    HostError(String),
}

#[verifier::external_type_specification]
#[verifier::external_body]
pub struct ExUreqError(ureq::Error);

#[verifier::external_type_specification]
#[verifier::external_body]
pub struct ExIoError(std::io::Error);

/// The HTTP status of a `ureq::Error::StatusCode`, or `None` for every other variant. The
/// contract states nothing: a `ureq::Error` is opaque here, so there is no plain value of it
/// to tie the result to.
#[verifier::external_body]
fn ureq_status_code(e: &ureq::Error) -> Option<u16> {
    match e {
        ureq::Error::StatusCode(code) => Some(*code),
        _ => None,
    }
}

/// The `Display` text of a `ureq::Error`; nothing is stated of it.
#[verifier::external_body]
fn ureq_error_text(e: &ureq::Error) -> String {
    e.to_string()
}

/// The `Display` text of an `std::io::Error`; nothing is stated of it.
#[verifier::external_body]
fn io_error_text(e: &std::io::Error) -> String {
    e.to_string()
}

impl TextFetchError {
    /// An I/O failure, carrying the error's text.
    pub fn from_io_error(e: std::io::Error) -> (r: Self)
        ensures
            r is IoError,
    {
        TextFetchError::IoError(io_error_text(&e))
    }

    /// Maps a `ureq` failure: an HTTP status becomes `HttpError` with that status, anything
    /// else becomes `HostError` with the error's text.
    pub fn from_ureq_error(e: ureq::Error) -> (r: Self)
        ensures
            r is HttpError || r is HostError,
    {
        Self::from_ureq_parts(ureq_status_code(&e), ureq_error_text(&e))
    }

    /// The mapping of a `ureq` failure, given its HTTP status (if it was one) and its text.
    pub fn from_ureq_parts(status: Option<u16>, text: String) -> (r: Self)
        ensures
            match status {
                Some(code) => r == TextFetchError::HttpError(code),
                None => r == TextFetchError::HostError(text),
            },
    {
        match status {
            Some(code) => TextFetchError::HttpError(code),
            None => TextFetchError::HostError(text),
        }
    }
}

} // verus!
