//! What the host keeps for each plugin: its metadata and database record once loaded, its
//! progress and recent log lines, and the queue of requests it works through one at a time.
use crate::db::{DbPlugin, DbPluginView, PluginId};
use crate::sdk::{PluginMetadata, PluginMetadataView, pairs_view};
use crate::text::{owned, push_str, str_eq};
use vstd::prelude::*;

verus! {

/// A request the host sends to a plugin.
#[derive(Debug)]
pub enum PluginRequest {
    /// Apply the given configuration values.
    ApplyConfiguration { config: Vec<(String, String)> },
    /// Fetch the plugin's tags again.
    RefreshTags,
    /// Fetch the works carrying a tag.
    RefreshWorksForTag { tag: String },
    /// Stop.
    Shutdown,
}

/// The abstract request.
pub ghost enum RequestView {
    ApplyConfiguration(Seq<(Seq<char>, Seq<char>)>),
    RefreshTags,
    RefreshWorksForTag(Seq<char>),
    Shutdown,
}

impl View for PluginRequest {
    type V = RequestView;

    closed spec fn view(&self) -> RequestView {
        match self {
            PluginRequest::ApplyConfiguration { config } => RequestView::ApplyConfiguration(
                pairs_view(config@),
            ),
            PluginRequest::RefreshTags => RequestView::RefreshTags,
            PluginRequest::RefreshWorksForTag { tag } => RequestView::RefreshWorksForTag(tag@),
            PluginRequest::Shutdown => RequestView::Shutdown,
        }
    }
}

/// How a request is shown in the task list.
pub open spec fn request_label(r: RequestView) -> Seq<char> {
    match r {
        RequestView::ApplyConfiguration(_) => "Apply Configuration"@,
        RequestView::RefreshTags => "Refresh Tags"@,
        RequestView::RefreshWorksForTag(tag) => "Get Works for Tag "@ + tag,
        RequestView::Shutdown => "Shutdown"@,
    }
}

/// A copy of key/value pairs.
pub fn copy_pairs(v: &[(String, String)]) -> (r: Vec<(String, String)>)
    ensures
        pairs_view(r@) == pairs_view(v@),
{
    let mut r: Vec<(String, String)> = Vec::new();
    let mut i: usize = 0;
    while i < v.len()
        invariant
            0 <= i <= v@.len(),
            pairs_view(r@) == pairs_view(v@).subrange(0, i as int),
        decreases v@.len() - i,
    {
        let ghost before = r@;
        r.push((owned(v[i].0.as_str()), owned(v[i].1.as_str())));
        assert(pairs_view(r@) =~= pairs_view(before).push((v@[i as int].0@, v@[i as int].1@)));
        assert(pairs_view(v@).subrange(0, i + 1) =~= pairs_view(v@).subrange(0, i as int).push(
            (v@[i as int].0@, v@[i as int].1@),
        ));
        i = i + 1;
    }
    assert(pairs_view(v@).subrange(0, v@.len() as int) =~= pairs_view(v@));
    r
}

impl PluginRequest {
    /// The label of the request in the task list.
    pub fn describe(&self) -> (r: String)
        ensures
            r@ == request_label(self@),
    {
        match self {
            PluginRequest::ApplyConfiguration { .. } => owned("Apply Configuration"),
            PluginRequest::RefreshTags => owned("Refresh Tags"),
            PluginRequest::RefreshWorksForTag { tag } => {
                let mut s = owned("Get Works for Tag ");
                push_str(&mut s, tag.as_str());
                s
            },
            PluginRequest::Shutdown => owned("Shutdown"),
        }
    }

    /// A copy of the request.
    pub fn copy(&self) -> (r: PluginRequest)
        ensures
            r@ == self@,
    {
        match self {
            PluginRequest::ApplyConfiguration { config } => PluginRequest::ApplyConfiguration {
                config: copy_pairs(config.as_slice()),
            },
            PluginRequest::RefreshTags => PluginRequest::RefreshTags,
            PluginRequest::RefreshWorksForTag { tag } => PluginRequest::RefreshWorksForTag {
                tag: owned(tag.as_str()),
            },
            PluginRequest::Shutdown => PluginRequest::Shutdown,
        }
    }

    /// Whether two requests are the same request.
    pub fn same_as(&self, other: &PluginRequest) -> (r: bool)
        ensures
            r == (self@ == other@),
    {
        match (self, other) {
            (
                PluginRequest::ApplyConfiguration { config: a },
                PluginRequest::ApplyConfiguration { config: b },
            ) => {
                if a.len() != b.len() {
                    assert(pairs_view(a@).len() != pairs_view(b@).len());
                    return false;
                }
                let mut i: usize = 0;
                while i < a.len()
                    invariant
                        0 <= i <= a@.len(),
                        a@.len() == b@.len(),
                        self@ == RequestView::ApplyConfiguration(pairs_view(a@)),
                        other@ == RequestView::ApplyConfiguration(pairs_view(b@)),
                        forall|j: int| 0 <= j < i ==> pairs_view(a@)[j] == pairs_view(b@)[j],
                    decreases a@.len() - i,
                {
                    if !str_eq(a[i].0.as_str(), b[i].0.as_str()) || !str_eq(
                        a[i].1.as_str(),
                        b[i].1.as_str(),
                    ) {
                        assert(pairs_view(a@)[i as int] != pairs_view(b@)[i as int]);
                        return false;
                    }
                    i = i + 1;
                }
                assert(pairs_view(a@) =~= pairs_view(b@));
                true
            },
            (PluginRequest::RefreshTags, PluginRequest::RefreshTags) => true,
            (
                PluginRequest::RefreshWorksForTag { tag: a },
                PluginRequest::RefreshWorksForTag { tag: b },
            ) => str_eq(a.as_str(), b.as_str()),
            (PluginRequest::Shutdown, PluginRequest::Shutdown) => true,
            _ => false,
        }
    }
}

/// The severity of a log line.
#[derive(Clone, Copy, Debug, PartialEq, Eq, Structural)]
pub enum LogLevel {
    Error,
    Warn,
    Info,
    Debug,
    Trace,
}

impl LogLevel {
    /// The level for a plugin's numeric log level: 0 is trace, then debug, info and warn;
    /// anything above is an error.
    pub fn from_plugin_level(level: u32) -> (r: LogLevel)
        ensures
            r == (if level == 0 {
                LogLevel::Trace
            } else if level == 1 {
                LogLevel::Debug
            } else if level == 2 {
                LogLevel::Info
            } else if level == 3 {
                LogLevel::Warn
            } else {
                LogLevel::Error
            }),
    {
        match level {
            0 => LogLevel::Trace,
            1 => LogLevel::Debug,
            2 => LogLevel::Info,
            3 => LogLevel::Warn,
            _ => LogLevel::Error,
        }
    }
}

/// The progress a background task reports.
#[derive(Clone, Copy, Debug, PartialEq, Eq, Structural)]
pub enum Progress {
    /// Nothing to show.
    Idle,
    /// Busy, with no measure of how far along.
    Spinner,
    /// `current` of `total` done.
    Percent { current: usize, total: usize },
}

/// Who an update comes from.
#[derive(Clone, Copy, Debug, PartialEq, Eq, Structural)]
pub enum UpdateSource {
    Unknown,
    Plugin(PluginId),
    DbWriter,
    DbReader,
}

/// The number of log lines kept for each plugin.
pub const MAX_PLUGIN_MESSAGES: usize = 50;

/// The log after a new line: the line first, then the older lines, keeping `cap` lines.
pub open spec fn pushed_front<T>(log: Seq<T>, line: T, cap: nat) -> Seq<T> {
    let all = seq![line] + log;
    if all.len() > cap {
        all.subrange(0, cap as int)
    } else {
        all
    }
}

/// Adds a line at the front of a log, dropping the oldest lines beyond `cap`.
pub fn push_front_capped<T>(log: &mut Vec<T>, line: T, cap: usize)
    ensures
        final(log)@ == pushed_front(old(log)@, line, cap as nat),
{
    log.insert(0, line);
    let ghost all = seq![line] + old(log)@;
    assert(log@ =~= all);
    while log.len() > cap
        invariant
            log@.len() <= all.len(),
            log@ == all.subrange(0, log@.len() as int),
            log@.len() < all.len() ==> log@.len() >= cap,
        decreases log@.len(),
    {
        let ghost before = log@;
        log.pop();
        assert(log@ =~= before.drop_last());
    }
    proof {
        if all.len() > cap {
            assert(log@ =~= all.subrange(0, cap as int));
        } else {
            assert(log@ =~= all);
        }
    }
}

/// The abstract plugin handle.
pub ghost struct PluginHandleView {
    /// The path of the plugin's module.
    pub source: Seq<char>,
    pub metadata: Option<PluginMetadataView>,
    pub record: Option<DbPluginView>,
    pub progress: Progress,
    /// The most recent log lines, newest first.
    pub log: Seq<(LogLevel, Seq<char>)>,
    /// The request the plugin is working on.
    pub active: Option<RequestView>,
    /// The requests waiting, in order.
    pub queue: Seq<RequestView>,
}

/// The views of a sequence of requests.
pub open spec fn requests_view(v: Seq<PluginRequest>) -> Seq<RequestView> {
    Seq::new(v.len(), |i: int| v[i]@)
}

/// The views of a sequence of log lines.
pub open spec fn log_view(v: Seq<(LogLevel, String)>) -> Seq<(LogLevel, Seq<char>)> {
    Seq::new(v.len(), |i: int| (v[i].0, v[i].1@))
}

/// What the host keeps for a plugin.
pub struct PluginHandle {
    source: String,
    metadata: Option<PluginMetadata>,
    record: Option<DbPlugin>,
    progress: Progress,
    log_messages: Vec<(LogLevel, String)>,
    active_task: Option<PluginRequest>,
    task_queue: Vec<PluginRequest>,
}

/// The view of an optional request.
pub open spec fn opt_request_view(o: Option<PluginRequest>) -> Option<RequestView> {
    match o {
        Some(r) => Some(r@),
        None => None,
    }
}

impl View for PluginHandle {
    type V = PluginHandleView;

    closed spec fn view(&self) -> PluginHandleView {
        PluginHandleView {
            source: self.source@,
            metadata: match self.metadata {
                Some(m) => Some(m@),
                None => None,
            },
            record: match self.record {
                Some(r) => Some(r@),
                None => None,
            },
            progress: self.progress,
            log: log_view(self.log_messages@),
            active: opt_request_view(self.active_task),
            queue: requests_view(self.task_queue@),
        }
    }
}

/// The plugin's id, once its record is known.
pub open spec fn handle_id(v: PluginHandleView) -> Option<PluginId> {
    match v.record {
        Some(r) => Some(r.id),
        None => None,
    }
}

/// The update comes from this plugin.
pub open spec fn from_plugin(v: PluginHandleView, source: UpdateSource) -> bool {
    match source {
        UpdateSource::Plugin(id) => handle_id(v) == Some(id),
        _ => false,
    }
}

impl PluginHandle {
    /// A plugin just found at `source`, not yet loaded, idle, with no log and no request.
    pub fn new(source: String) -> (r: Self)
        ensures
            r@ == (PluginHandleView {
                source: source@,
                metadata: None,
                record: None,
                progress: Progress::Idle,
                log: Seq::empty(),
                active: None,
                queue: Seq::empty(),
            }),
    {
        let r = PluginHandle {
            source,
            metadata: None,
            record: None,
            progress: Progress::Idle,
            log_messages: Vec::new(),
            active_task: None,
            task_queue: Vec::new(),
        };
        assert(log_view(r.log_messages@) =~= Seq::empty());
        assert(requests_view(r.task_queue@) =~= Seq::empty());
        r
    }

    /// The path of the plugin's module.
    pub fn source(&self) -> (r: &str)
        ensures
            r@ == self@.source,
    {
        self.source.as_str()
    }

    /// The plugin's metadata, once loaded.
    pub fn metadata(&self) -> (r: Option<&PluginMetadata>)
        ensures
            match r {
                Some(m) => self@.metadata == Some(m@),
                None => self@.metadata is None,
            },
    {
        match &self.metadata {
            Some(m) => Some(m),
            None => None,
        }
    }

    /// The plugin's id, once its record is known.
    pub fn id(&self) -> (r: Option<PluginId>)
        ensures
            r == handle_id(self@),
    {
        match &self.record {
            Some(r) => Some(r.id()),
            None => None,
        }
    }

    /// The plugin's name, or the path of its module until it is loaded.
    pub fn name(&self) -> (r: String)
        ensures
            r@ == match self@.metadata {
                Some(m) => m.name,
                None => self@.source,
            },
    {
        match &self.metadata {
            Some(m) => owned(m.name()),
            None => owned(self.source.as_str()),
        }
    }

    /// The plugin's description, or "not yet loaded".
    pub fn description(&self) -> (r: String)
        ensures
            r@ == match self@.metadata {
                Some(m) => m.description,
                None => "not yet loaded"@,
            },
    {
        match &self.metadata {
            Some(m) => owned(m.description()),
            None => owned("not yet loaded"),
        }
    }

    /// The plugin's version, or "not yet loaded".
    pub fn version(&self) -> (r: String)
        ensures
            r@ == match self@.metadata {
                Some(m) => m.version,
                None => "not yet loaded"@,
            },
    {
        match &self.metadata {
            Some(m) => owned(m.version()),
            None => owned("not yet loaded"),
        }
    }

    /// The most recent log lines, newest first.
    pub fn log_messages(&self) -> (r: &[(LogLevel, String)])
        ensures
            log_view(r@) == self@.log,
    {
        self.log_messages.as_slice()
    }

    /// The plugin's progress.
    pub fn progress(&self) -> (r: Progress)
        ensures
            r == self@.progress,
    {
        self.progress
    }

    /// The request the plugin is working on.
    pub fn active_task(&self) -> (r: Option<&PluginRequest>)
        ensures
            match r {
                Some(t) => self@.active == Some(t@),
                None => self@.active is None,
            },
    {
        match &self.active_task {
            Some(t) => Some(t),
            None => None,
        }
    }

    /// The requests waiting, in order.
    pub fn task_queue(&self) -> (r: &[PluginRequest])
        ensures
            requests_view(r@) == self@.queue,
    {
        self.task_queue.as_slice()
    }

    /// The number of requests waiting.
    pub fn task_queue_len(&self) -> (r: usize)
        ensures
            r == self@.queue.len(),
    {
        self.task_queue.len()
    }

    /// Drops the waiting request at `index`; no effect past the end of the queue.
    pub fn remove_queued_task(&mut self, index: usize)
        ensures
            final(self)@ == (PluginHandleView {
                queue: if index < old(self)@.queue.len() {
                    old(self)@.queue.remove(index as int)
                } else {
                    old(self)@.queue
                },
                ..old(self)@
            }),
    {
        if index < self.task_queue.len() {
            let ghost before = self.task_queue@;
            self.task_queue.remove(index);
            assert(requests_view(self.task_queue@) =~= requests_view(before).remove(index as int));
        }
    }

    /// Drops the first waiting request equal to `request`; no effect when none is.
    pub fn remove_queued_request(&mut self, request: &PluginRequest)
        ensures
            old(self)@.queue.contains(request@) ==> exists|i: int|
                {
                    &&& 0 <= i < old(self)@.queue.len()
                    &&& old(self)@.queue[i] == request@
                    &&& forall|j: int| 0 <= j < i ==> old(self)@.queue[j] != request@
                    &&& final(self)@ == (PluginHandleView {
                        queue: old(self)@.queue.remove(i),
                        ..old(self)@
                    })
                },
            !old(self)@.queue.contains(request@) ==> final(self)@ == old(self)@,
    {
        let mut i: usize = 0;
        while i < self.task_queue.len()
            invariant
                0 <= i <= self.task_queue@.len(),
                self@ == old(self)@,
                forall|j: int| 0 <= j < i ==> self@.queue[j] != request@,
            decreases self.task_queue@.len() - i,
        {
            assert(self@.queue[i as int] == self.task_queue@[i as int]@);
            if self.task_queue[i].same_as(request) {
                let ghost before = self.task_queue@;
                self.task_queue.remove(i);
                assert(requests_view(self.task_queue@) =~= requests_view(before).remove(i as int));
                return;
            }
            i = i + 1;
        }
        proof {
            if old(self)@.queue.contains(request@) {
                let j = choose|j: int| 0 <= j < old(self)@.queue.len() && old(self)@.queue[j] == request@;
            }
        }
    }

    /// Swaps two waiting requests; no effect unless both are in the queue.
    pub fn swap_task_queue_items(&mut self, from: usize, to: usize)
        ensures
            final(self)@ == (PluginHandleView {
                queue: if from < old(self)@.queue.len() && to < old(self)@.queue.len() {
                    old(self)@.queue.update(from as int, old(self)@.queue[to as int]).update(
                        to as int,
                        old(self)@.queue[from as int],
                    )
                } else {
                    old(self)@.queue
                },
                ..old(self)@
            }),
    {
        if from < self.task_queue.len() && to < self.task_queue.len() && from != to {
            let ghost before = requests_view(self.task_queue@);
            let a = self.task_queue[from].copy();
            let b = self.task_queue[to].copy();
            self.task_queue.set(from, b);
            self.task_queue.set(to, a);
            assert(requests_view(self.task_queue@) =~= before.update(from as int, before[to as int]).update(
                to as int,
                before[from as int],
            ));
        } else if from == to && from < self.task_queue.len() {
            assert(self@.queue.update(from as int, self@.queue[to as int]).update(
                to as int,
                self@.queue[from as int],
            ) =~= self@.queue);
        }
    }

    /// Drops every waiting request.
    pub fn clear_queued_tasks(&mut self)
        ensures
            final(self)@ == (PluginHandleView { queue: Seq::empty(), ..old(self)@ }),
    {
        self.task_queue = Vec::new();
        assert(requests_view(self.task_queue@) =~= Seq::empty());
    }

    /// Queues a refresh of the plugin's tags.
    pub fn refresh_tags(&mut self)
        ensures
            final(self)@ == (PluginHandleView {
                queue: old(self)@.queue.push(RequestView::RefreshTags),
                ..old(self)@
            }),
    {
        let ghost before = requests_view(self.task_queue@);
        self.task_queue.push(PluginRequest::RefreshTags);
        assert(requests_view(self.task_queue@) =~= before.push(RequestView::RefreshTags));
    }

    /// Queues a fetch of the works carrying the tag named `tag`.
    pub fn refresh_works_for_tag(&mut self, tag: &str)
        ensures
            final(self)@ == (PluginHandleView {
                queue: old(self)@.queue.push(RequestView::RefreshWorksForTag(tag@)),
                ..old(self)@
            }),
    {
        let ghost before = requests_view(self.task_queue@);
        self.task_queue.push(PluginRequest::RefreshWorksForTag { tag: owned(tag) });
        assert(requests_view(self.task_queue@) =~= before.push(
            RequestView::RefreshWorksForTag(tag@),
        ));
    }

    /// The request that applies the plugin's current configuration; it is sent at once,
    /// ahead of the queue.
    pub fn configuration_request(&self) -> (r: PluginRequest)
        ensures
            r@ == RequestView::ApplyConfiguration(
                match self@.metadata {
                    Some(m) => m.configurations,
                    None => Seq::empty(),
                },
            ),
    {
        match &self.metadata {
            Some(m) => PluginRequest::ApplyConfiguration { config: copy_pairs(m.configurations()) },
            None => {
                let r = PluginRequest::ApplyConfiguration { config: Vec::new() };
                assert(pairs_view(Seq::<(String, String)>::empty()) =~= Seq::empty());
                r
            },
        }
    }

    /// The plugin at `source` reported its record and metadata; ignored when it is another
    /// plugin's report.
    pub fn on_plugin_info(&mut self, source: &str, record: DbPlugin, metadata: PluginMetadata)
        ensures
            final(self)@ == if source@ == old(self)@.source {
                PluginHandleView { metadata: Some(metadata@), record: Some(record@), ..old(self)@ }
            } else {
                old(self)@
            },
    {
        if str_eq(source, self.source.as_str()) {
            self.metadata = Some(metadata);
            self.record = Some(record);
        }
    }

    /// A log line; kept, newest first, when it comes from this plugin.
    pub fn on_log(&mut self, source: UpdateSource, level: LogLevel, message: String)
        ensures
            final(self)@ == if from_plugin(old(self)@, source) {
                PluginHandleView {
                    log: pushed_front(old(self)@.log, (level, message@), MAX_PLUGIN_MESSAGES as nat),
                    ..old(self)@
                }
            } else {
                old(self)@
            },
    {
        let mine = match source {
            UpdateSource::Plugin(id) => self.id() == Some(id),
            _ => false,
        };
        if mine {
            let ghost before = self.log_messages@;
            let ghost line = (level, message@);
            push_front_capped(&mut self.log_messages, (level, message), MAX_PLUGIN_MESSAGES);
            proof {
                let all = seq![(level, message@)];
                assert(log_view(seq![(level, message)] + before) =~= seq![line] + log_view(before));
                if before.len() + 1 > MAX_PLUGIN_MESSAGES {
                    assert(log_view((seq![(level, message)] + before).subrange(0, 50)) =~= (seq![line]
                        + log_view(before)).subrange(0, 50));
                }
            }
        }
    }

    /// A progress report; kept when it comes from this plugin.
    pub fn on_progress(&mut self, source: UpdateSource, progress: Progress)
        ensures
            final(self)@ == if from_plugin(old(self)@, source) {
                PluginHandleView { progress: progress, ..old(self)@ }
            } else {
                old(self)@
            },
    {
        let mine = match source {
            UpdateSource::Plugin(id) => self.id() == Some(id),
            _ => false,
        };
        if mine {
            self.progress = progress;
        }
    }

    /// A request finished; the plugin is free when the report comes from it.
    pub fn on_completed_task(&mut self, source: UpdateSource)
        ensures
            final(self)@ == if from_plugin(old(self)@, source) {
                PluginHandleView { active: None, ..old(self)@ }
            } else {
                old(self)@
            },
    {
        let mine = match source {
            UpdateSource::Plugin(id) => self.id() == Some(id),
            _ => false,
        };
        if mine {
            self.active_task = None;
        }
    }

    /// When the plugin is free and a request waits, starts the first one: it becomes the
    /// active request and is returned, to be sent to the plugin.
    pub fn start_next_task(&mut self) -> (r: Option<PluginRequest>)
        ensures
            (old(self)@.active is None && old(self)@.queue.len() > 0) ==> {
                &&& r is Some
                &&& r->0@ == old(self)@.queue[0]
                &&& final(self)@ == (PluginHandleView {
                    active: Some(old(self)@.queue[0]),
                    queue: old(self)@.queue.drop_first(),
                    ..old(self)@
                })
            },
            !(old(self)@.active is None && old(self)@.queue.len() > 0) ==> (r is None && final(self)@
                == old(self)@),
    {
        if self.active_task.is_none() && self.task_queue.len() > 0 {
            let ghost before = requests_view(self.task_queue@);
            let task = self.task_queue.remove(0);
            assert(requests_view(self.task_queue@) =~= before.drop_first());
            self.active_task = Some(task.copy());
            Some(task)
        } else {
            None
        }
    }

    /// Applies the updates in order, as `apply_updates` says; then, when the plugin is free
    /// and a request waits, starts the first one and returns it, to be sent to the plugin.
    pub fn handle_updates(&mut self, updates: Vec<PluginUpdate>) -> (r: Option<PluginRequest>)
        ensures
            ({
                let w = apply_updates(old(self)@, updates_view(updates@));
                if w.active is None && w.queue.len() > 0 {
                    &&& r is Some
                    &&& r->0@ == w.queue[0]
                    &&& final(self)@ == (PluginHandleView {
                        active: Some(w.queue[0]),
                        queue: w.queue.drop_first(),
                        ..w
                    })
                } else {
                    r is None && final(self)@ == w
                }
            }),
    {
        let ghost us = updates_view(updates@);
        let ghost start = self@;
        let mut rest = updates;
        let mut i: usize = 0;
        let n = rest.len();
        assert(rest@ =~= updates@.skip(0));
        while i < n
            invariant
                0 <= i <= n,
                n == updates@.len(),
                us == updates_view(updates@),
                rest@ == updates@.skip(i as int),
                self@ == apply_updates(start, us.take(i as int)),
            decreases n - i,
        {
            let u = rest.remove(0);
            assert(u == updates@[i as int]);
            assert(rest@ =~= updates@.skip(i + 1));
            assert(us.take(i + 1).drop_last() =~= us.take(i as int));
            assert(us.take(i + 1).last() == u@);
            match u {
                PluginUpdate::PluginInfo { source, record, metadata } => {
                    self.on_plugin_info(source.as_str(), record, metadata);
                },
                PluginUpdate::Log { source, level, message } => {
                    self.on_log(source, level, message);
                },
                PluginUpdate::Progress { source, progress } => {
                    self.on_progress(source, progress);
                },
                PluginUpdate::CompletedTask { source } => {
                    self.on_completed_task(source);
                },
                PluginUpdate::Other => {},
            }
            i = i + 1;
        }
        assert(us.take(n as int) =~= us);
        self.start_next_task()
    }
}

/// An update the host receives from the background threads, as far as a plugin handle
/// reads it.
pub enum PluginUpdate {
    /// The plugin at `source` loaded, with its database record and metadata.
    PluginInfo { source: String, record: DbPlugin, metadata: PluginMetadata },
    Log { source: UpdateSource, level: LogLevel, message: String },
    Progress { source: UpdateSource, progress: Progress },
    CompletedTask { source: UpdateSource },
    /// Any other update, which plugin handles ignore.
    Other,
}

/// The abstract update.
pub ghost enum PluginUpdateView {
    PluginInfo(Seq<char>, DbPluginView, PluginMetadataView),
    Log(UpdateSource, LogLevel, Seq<char>),
    Progress(UpdateSource, Progress),
    CompletedTask(UpdateSource),
    Other,
}

impl View for PluginUpdate {
    type V = PluginUpdateView;

    closed spec fn view(&self) -> PluginUpdateView {
        match self {
            PluginUpdate::PluginInfo { source, record, metadata } => PluginUpdateView::PluginInfo(
                source@,
                record@,
                metadata@,
            ),
            PluginUpdate::Log { source, level, message } => PluginUpdateView::Log(*source, *level, message@),
            PluginUpdate::Progress { source, progress } => PluginUpdateView::Progress(*source, *progress),
            PluginUpdate::CompletedTask { source } => PluginUpdateView::CompletedTask(*source),
            PluginUpdate::Other => PluginUpdateView::Other,
        }
    }
}

/// The views of a sequence of updates.
pub open spec fn updates_view(us: Seq<PluginUpdate>) -> Seq<PluginUpdateView> {
    Seq::new(us.len(), |i: int| us[i]@)
}

/// The handle after one update: the record and metadata of its own plugin's report; its own
/// plugin's log lines, newest first and at most fifty; its own plugin's progress; and, when
/// its own plugin finished a request, no active request. Every other update leaves it alone.
pub open spec fn apply_update(v: PluginHandleView, u: PluginUpdateView) -> PluginHandleView {
    match u {
        PluginUpdateView::PluginInfo(source, record, metadata) => if source == v.source {
            PluginHandleView { metadata: Some(metadata), record: Some(record), ..v }
        } else {
            v
        },
        PluginUpdateView::Log(source, level, message) => if from_plugin(v, source) {
            PluginHandleView { log: pushed_front(v.log, (level, message), MAX_PLUGIN_MESSAGES as nat), ..v }
        } else {
            v
        },
        PluginUpdateView::Progress(source, progress) => if from_plugin(v, source) {
            PluginHandleView { progress: progress, ..v }
        } else {
            v
        },
        PluginUpdateView::CompletedTask(source) => if from_plugin(v, source) {
            PluginHandleView { active: None, ..v }
        } else {
            v
        },
        PluginUpdateView::Other => v,
    }
}

/// The handle after the updates, in order.
pub open spec fn apply_updates(v: PluginHandleView, us: Seq<PluginUpdateView>) -> PluginHandleView
    decreases us.len(),
{
    if us.len() == 0 {
        v
    } else {
        apply_update(apply_updates(v, us.drop_last()), us.last())
    }
}

/// The newest log line among the updates that the plugin itself sent, judged as each
/// update arrives (a report of the plugin's record earlier in the same run counts); `None`
/// when there is none.
pub open spec fn last_own_log(v: PluginHandleView, us: Seq<PluginUpdateView>) -> Option<
    (LogLevel, Seq<char>),
>
    decreases us.len(),
{
    if us.len() == 0 {
        None
    } else {
        let before = apply_updates(v, us.drop_last());
        match us.last() {
            PluginUpdateView::Log(source, level, message) => if from_plugin(before, source) {
                Some((level, message))
            } else {
                last_own_log(v, us.drop_last())
            },
            _ => last_own_log(v, us.drop_last()),
        }
    }
}

/// Updates never touch the waiting requests, and keep at most fifty log lines when there
/// were at most fifty.
pub proof fn lemma_updates_keep_queue_and_log(v: PluginHandleView, us: Seq<PluginUpdateView>)
    requires
        v.log.len() <= MAX_PLUGIN_MESSAGES,
    ensures
        apply_updates(v, us).queue == v.queue,
        apply_updates(v, us).source == v.source,
        apply_updates(v, us).log.len() <= MAX_PLUGIN_MESSAGES,
    decreases us.len(),
{
    if us.len() > 0 {
        lemma_updates_keep_queue_and_log(v, us.drop_last());
    }
}

/// After any sequence of updates, the first log line is the newest line that the plugin
/// itself sent; when it sent none, the log is as it was.
pub proof fn lemma_newest_own_log_first(v: PluginHandleView, us: Seq<PluginUpdateView>)
    ensures
        match last_own_log(v, us) {
            Some(line) => apply_updates(v, us).log.len() > 0 && apply_updates(v, us).log[0] == line,
            None => apply_updates(v, us).log == v.log,
        },
    decreases us.len(),
{
    if us.len() > 0 {
        lemma_newest_own_log_first(v, us.drop_last());
    }
}

/// Queues a fetch of the works carrying the tag named `tag` with every plugin whose id is in
/// `plugin_ids`: the plugins the tag came from.
pub fn queue_works_refresh(plugins: &mut Vec<PluginHandle>, tag: &str, plugin_ids: &[PluginId])
    ensures
        final(plugins)@.len() == old(plugins)@.len(),
        forall|i: int|
            0 <= i < old(plugins)@.len() ==> #[trigger] final(plugins)@[i]@ == if handle_id(
                old(plugins)@[i]@,
            ) matches Some(id) && plugin_ids@.contains(id) {
                PluginHandleView {
                    queue: old(plugins)@[i]@.queue.push(RequestView::RefreshWorksForTag(tag@)),
                    ..old(plugins)@[i]@
                }
            } else {
                old(plugins)@[i]@
            },
{
    let mut i: usize = 0;
    while i < plugins.len()
        invariant
            0 <= i <= plugins@.len(),
            plugins@.len() == old(plugins)@.len(),
            forall|j: int|
                i <= j < plugins@.len() ==> #[trigger] plugins@[j]@ == old(plugins)@[j]@,
            forall|j: int|
                0 <= j < i ==> #[trigger] plugins@[j]@ == if handle_id(old(plugins)@[j]@) matches Some(
                    id,
                ) && plugin_ids@.contains(id) {
                    PluginHandleView {
                        queue: old(plugins)@[j]@.queue.push(RequestView::RefreshWorksForTag(tag@)),
                        ..old(plugins)@[j]@
                    }
                } else {
                    old(plugins)@[j]@
                },
        decreases plugins@.len() - i,
    {
        let matched = match plugins[i].id() {
            Some(id) => {
                let mut found = false;
                let mut k: usize = 0;
                while k < plugin_ids.len()
                    invariant
                        0 <= k <= plugin_ids@.len(),
                        found == exists|j: int| 0 <= j < k && plugin_ids@[j] == id,
                    decreases plugin_ids@.len() - k,
                {
                    if plugin_ids[k] == id {
                        found = true;
                    }
                    k = k + 1;
                }
                proof {
                    if plugin_ids@.contains(id) {
                        let j = choose|j: int| 0 <= j < plugin_ids@.len() && plugin_ids@[j] == id;
                    }
                }
                found
            },
            None => false,
        };
        if matched {
            plugins[i].refresh_works_for_tag(tag);
        }
        i = i + 1;
    }
}

/// The number of database messages kept.
pub const MAX_DB_MESSAGES: usize = 20;

/// The database panel: the database writer's recent messages, newest first, and its
/// progress.
pub struct UxDb {
    messages: Vec<String>,
    progress: Progress,
}

/// The abstract database panel.
pub ghost struct UxDbView {
    pub messages: Seq<Seq<char>>,
    pub progress: Progress,
}

impl View for UxDb {
    type V = UxDbView;

    closed spec fn view(&self) -> UxDbView {
        UxDbView { messages: crate::db::strings_view(self.messages@), progress: self.progress }
    }
}

impl UxDb {
    /// An empty panel.
    pub fn new() -> (r: Self)
        ensures
            r@ == (UxDbView { messages: Seq::empty(), progress: Progress::Idle }),
    {
        let r = UxDb { messages: Vec::new(), progress: Progress::Idle };
        assert(crate::db::strings_view(r.messages@) =~= Seq::empty());
        r
    }

    /// The recent messages, newest first.
    pub fn messages(&self) -> (r: &[String])
        ensures
            crate::db::strings_view(r@) == self@.messages,
    {
        self.messages.as_slice()
    }

    /// The database writer's progress.
    pub fn progress(&self) -> (r: Progress)
        ensures
            r == self@.progress,
    {
        self.progress
    }

    /// A log line; kept, newest first, when it comes from the database writer.
    pub fn on_log(&mut self, source: UpdateSource, message: String)
        ensures
            final(self)@ == if source == UpdateSource::DbWriter {
                UxDbView {
                    messages: pushed_front(old(self)@.messages, message@, MAX_DB_MESSAGES as nat),
                    ..old(self)@
                }
            } else {
                old(self)@
            },
    {
        if source == UpdateSource::DbWriter {
            let ghost before = self.messages@;
            let ghost m = message@;
            push_front_capped(&mut self.messages, message, MAX_DB_MESSAGES);
            proof {
                assert(crate::db::strings_view(seq![message] + before) =~= seq![m]
                    + crate::db::strings_view(before));
                if before.len() + 1 > MAX_DB_MESSAGES {
                    assert(crate::db::strings_view((seq![message] + before).subrange(0, 20)) =~= (seq![m]
                        + crate::db::strings_view(before)).subrange(0, 20));
                }
            }
        }
    }

    /// A progress report; kept when it comes from the database writer.
    pub fn on_progress(&mut self, source: UpdateSource, progress: Progress)
        ensures
            final(self)@ == if source == UpdateSource::DbWriter {
                UxDbView { progress: progress, ..old(self)@ }
            } else {
                old(self)@
            },
    {
        if source == UpdateSource::DbWriter {
            self.progress = progress;
        }
    }
}

} // verus!
