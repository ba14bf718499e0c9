//! A work as a plugin reports it: its name, date, image urls and tag names, with optional
//! history, location and physical data.
use crate::db::{CivilDate, strings_view};
use crate::sdk::{History, HistoryView, Location, LocationView, PhysicalData, PhysicalDataView};
use crate::text::{opt_string_view, owned};
use vstd::prelude::*;

verus! {

/// The abstract work.
pub ghost struct WorkView {
    pub name: Seq<char>,
    pub date: CivilDate,
    pub preview_url: Seq<char>,
    pub screen_url: Seq<char>,
    /// The names of the work's tags.
    pub tags: Seq<Seq<char>>,
    /// The work's id at its source, if it has one.
    pub remote_id: Option<Seq<char>>,
    pub archive_url: Option<Seq<char>>,
    pub history: Option<HistoryView>,
    pub location: Option<LocationView>,
    pub physical_data: Option<PhysicalDataView>,
}

/// An API-centered \[art\]work item.
#[derive(Clone, Debug)]
pub struct Work {
    name: String,
    date: CivilDate,
    preview_url: String,
    screen_url: String,
    tags: Vec<String>,
    remote_id: Option<String>,
    archive_url: Option<String>,
    history: Option<History>,
    location: Option<Location>,
    physical_data: Option<PhysicalData>,
}

impl View for Work {
    type V = WorkView;

    closed spec fn view(&self) -> WorkView {
        WorkView {
            name: self.name@,
            date: self.date,
            preview_url: self.preview_url@,
            screen_url: self.screen_url@,
            tags: strings_view(self.tags@),
            remote_id: opt_string_view(self.remote_id),
            archive_url: opt_string_view(self.archive_url),
            history: match self.history {
                Some(h) => Some(h@),
                None => None,
            },
            location: match self.location {
                Some(l) => Some(l@),
                None => None,
            },
            physical_data: match self.physical_data {
                Some(p) => Some(p@),
                None => None,
            },
        }
    }
}

impl Work {
    /// A work with its name, date, preview and full-screen urls and tag names, and nothing
    /// else known.
    pub fn new(name: &str, date: CivilDate, preview_url: &str, screen_url: &str, tags: Vec<String>) -> (r:
        Self)
        ensures
            r@ == (WorkView {
                name: name@,
                date: date,
                preview_url: preview_url@,
                screen_url: screen_url@,
                tags: strings_view(tags@),
                remote_id: None,
                archive_url: None,
                history: None,
                location: None,
                physical_data: None,
            }),
    {
        Work {
            name: owned(name),
            date,
            preview_url: owned(preview_url),
            screen_url: owned(screen_url),
            tags,
            remote_id: None,
            archive_url: None,
            history: None,
            location: None,
            physical_data: None,
        }
    }

    /// The work with its id at its source.
    pub fn with_remote_id(self, id: &str) -> (r: Self)
        ensures
            r@ == (WorkView { remote_id: Some(id@), ..self@ }),
    {
        Work { remote_id: Some(owned(id)), ..self }
    }

    /// The work with the url of its archival-quality file.
    pub fn with_archive_url(self, url: &str) -> (r: Self)
        ensures
            r@ == (WorkView { archive_url: Some(url@), ..self@ }),
    {
        Work { archive_url: Some(owned(url)), ..self }
    }

    /// The work with its history.
    pub fn with_history(self, history: History) -> (r: Self)
        ensures
            r@ == (WorkView { history: Some(history@), ..self@ }),
    {
        Work { history: Some(history), ..self }
    }

    /// The work with its location.
    pub fn with_location(self, location: Location) -> (r: Self)
        ensures
            r@ == (WorkView { location: Some(location@), ..self@ }),
    {
        Work { location: Some(location), ..self }
    }

    /// The work with its physical data.
    pub fn with_physical_data(self, physical_data: PhysicalData) -> (r: Self)
        ensures
            r@ == (WorkView { physical_data: Some(physical_data@), ..self@ }),
    {
        Work { physical_data: Some(physical_data), ..self }
    }

    /// The work's name.
    pub fn name(&self) -> (r: &str)
        ensures
            r@ == self@.name,
    {
        self.name.as_str()
    }

    /// The work's date.
    pub fn date(&self) -> (r: CivilDate)
        ensures
            r == self@.date,
    {
        self.date
    }

    /// The url of the work's preview image.
    pub fn preview_url(&self) -> (r: &str)
        ensures
            r@ == self@.preview_url,
    {
        self.preview_url.as_str()
    }

    /// The url of the work's full-screen image.
    pub fn screen_url(&self) -> (r: &str)
        ensures
            r@ == self@.screen_url,
    {
        self.screen_url.as_str()
    }

    /// The work's id at its source, if any.
    pub fn remote_id(&self) -> (r: Option<&str>)
        ensures
            crate::text::opt_str_view(r) == self@.remote_id,
    {
        match &self.remote_id {
            Some(s) => Some(s.as_str()),
            None => None,
        }
    }

    /// The url of the work's archival-quality file, if any.
    pub fn archive_url(&self) -> (r: Option<&str>)
        ensures
            crate::text::opt_str_view(r) == self@.archive_url,
    {
        match &self.archive_url {
            Some(s) => Some(s.as_str()),
            None => None,
        }
    }

    /// The names of the work's tags.
    pub fn tags(&self) -> (r: &[String])
        ensures
            strings_view(r@) == self@.tags,
    {
        self.tags.as_slice()
    }

    /// The work's history, if known.
    pub fn history(&self) -> (r: Option<&History>)
        ensures
            match r {
                Some(h) => self@.history == Some(h@),
                None => self@.history is None,
            },
    {
        match &self.history {
            Some(h) => Some(h),
            None => None,
        }
    }

    /// The work's location, if known.
    pub fn location(&self) -> (r: Option<&Location>)
        ensures
            match r {
                Some(l) => self@.location == Some(l@),
                None => self@.location is None,
            },
    {
        match &self.location {
            Some(l) => Some(l),
            None => None,
        }
    }

    /// The work's physical data, if known.
    pub fn physical_data(&self) -> (r: Option<&PhysicalData>)
        ensures
            match r {
                Some(p) => self@.physical_data == Some(p@),
                None => self@.physical_data is None,
            },
    {
        match &self.physical_data {
            Some(p) => Some(p),
            None => None,
        }
    }
}

} // verus!
