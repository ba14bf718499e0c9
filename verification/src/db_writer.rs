//! The decisions around the database writer: which schema migrations still have to run,
//! how large writes are cut into transactions, and what the application is told after
//! each write.
use crate::db::{PluginId, TagId, WorkId};
use crate::sdk::Tag;
use crate::work::Work;
use vstd::prelude::*;

verus! {

/// The ordinals below `count` that are not among the finished ones, in increasing order.
pub open spec fn spec_pending(count: nat, finished: Seq<i64>) -> Seq<nat>
    decreases count,
{
    if count == 0 {
        Seq::empty()
    } else {
        let before = spec_pending((count - 1) as nat, finished);
        if finished.contains((count - 1) as i64) {
            before
        } else {
            before.push((count - 1) as nat)
        }
    }
}

/// The migrations still to run, of `count`, given the ordinals recorded as finished: each
/// ordinal not recorded, in order.
pub fn pending_migrations(count: usize, finished: &[i64]) -> (r: Vec<usize>)
    requires
        count <= i64::MAX,
    ensures
        r@.len() == spec_pending(count as nat, finished@).len(),
        forall|i: int| 0 <= i < r@.len() ==> r@[i] as nat == spec_pending(count as nat, finished@)[i],
{
    let mut r: Vec<usize> = Vec::new();
    let mut k: usize = 0;
    while k < count
        invariant
            0 <= k <= count,
            count <= i64::MAX,
            r@.len() == spec_pending(k as nat, finished@).len(),
            forall|i: int| 0 <= i < r@.len() ==> r@[i] as nat == spec_pending(k as nat, finished@)[i],
        decreases count - k,
    {
        let mut done = false;
        let mut j: usize = 0;
        while j < finished.len()
            invariant
                0 <= j <= finished@.len(),
                done == exists|a: int| 0 <= a < j && finished@[a] == k as i64,
            decreases finished@.len() - j,
        {
            if finished[j] == k as i64 {
                done = true;
            }
            j = j + 1;
        }
        proof {
            if finished@.contains(k as i64) {
                let a = choose|a: int| 0 <= a < finished@.len() && finished@[a] == k as i64;
            }
            assert(((k + 1) - 1) as nat == k as nat);
        }
        if !done {
            r.push(k);
        }
        k = k + 1;
    }
    r
}

/// The pending ordinals are below the count, increasing, and exactly those not finished.
pub proof fn lemma_pending_exact(count: nat, finished: Seq<i64>, n: nat)
    ensures
        spec_pending(count, finished).contains(n) <==> (n < count && !finished.contains(n as i64)),
        forall|i: int, j: int|
            0 <= i < j < spec_pending(count, finished).len() ==> spec_pending(count, finished)[i]
                < spec_pending(count, finished)[j],
        forall|i: int|
            0 <= i < spec_pending(count, finished).len() ==> spec_pending(count, finished)[i] < count,
    decreases count,
{
    if count > 0 {
        lemma_pending_exact((count - 1) as nat, finished, n);
        let before = spec_pending((count - 1) as nat, finished);
        if !finished.contains((count - 1) as i64) {
            let after = before.push((count - 1) as nat);
            assert(after[before.len() as int] == (count - 1) as nat);
            if after.contains(n) {
                let i = choose|i: int| 0 <= i < after.len() && after[i] == n;
                if i < before.len() {
                    assert(before[i] == n);
                    assert(before.contains(n));
                }
            }
            if before.contains(n) {
                let i = choose|i: int| 0 <= i < before.len() && before[i] == n;
                assert(after[i] == n);
            }
        }
    }
}

/// The recorded ordinals after the pending migrations ran: those recorded before, then each
/// pending one in the order it ran.
pub open spec fn recorded_after_run(count: nat, finished: Seq<i64>) -> Seq<i64> {
    let p = spec_pending(count, finished);
    finished + Seq::new(p.len(), |i: int| p[i] as i64)
}

/// Once the pending migrations ran and were recorded, every migration below the count is
/// recorded, and none is pending any more: a second opening runs no migration.
pub proof fn lemma_migrations_run_once(count: nat, finished: Seq<i64>)
    ensures
        forall|n: nat| n < count ==> #[trigger] recorded_after_run(count, finished).contains(n as i64),
        spec_pending(count, recorded_after_run(count, finished)).len() == 0,
{
    let p = spec_pending(count, finished);
    let all = recorded_after_run(count, finished);
    assert forall|n: nat| n < count implies #[trigger] recorded_after_run(count, finished).contains(n as i64) by {
        lemma_pending_exact(count, finished, n);
        if finished.contains(n as i64) {
            let i = choose|i: int| 0 <= i < finished.len() && finished[i] == n as i64;
            assert(all[i] == n as i64);
        } else {
            assert(p.contains(n));
            let i = choose|i: int| 0 <= i < p.len() && p[i] == n;
            assert(all[finished.len() + i] == n as i64);
        }
    }
    let q = spec_pending(count, all);
    if q.len() > 0 {
        let n = q[0];
        assert(q.contains(n));
        lemma_pending_exact(count, all, n);
        assert(all.contains(n as i64));
    }
}

/// Cuts a write of `len` items into transactions of `size` items.
pub fn chunk_ranges(len: usize, size: usize) -> (r: Vec<(usize, usize)>)
    requires
        size > 0,
    ensures
        r@.len() == (len + size - 1) / size as int,
        forall|i: int|
            #![trigger r@[i]]
            0 <= i < r@.len() ==> r@[i].0 == i * size && r@[i].1 == if (i + 1) * size < len {
                (i + 1) * size
            } else {
                len as int
            },
{
    let mut r: Vec<(usize, usize)> = Vec::new();
    let mut start: usize = 0;
    assert(r@.len() * size == 0) by (nonlinear_arith)
        requires
            r@.len() == 0,
    ;
    while start < len
        invariant
            size > 0,
            start <= len,
            start as int == (if r@.len() * size < len {
                r@.len() * size
            } else {
                len as int
            }),
            r@.len() > 0 ==> (r@.len() - 1) * size < len,
            forall|i: int|
                #![trigger r@[i]]
                0 <= i < r@.len() ==> r@[i].0 == i * size && r@[i].1 == if (i + 1) * size < len {
                    (i + 1) * size
                } else {
                    len as int
                },
        decreases len - start,
    {
        let end = if len - start > size {
            start + size
        } else {
            len
        };
        proof {
            let i = r@.len() as int;
            assert((i + 1) * size == i * size + size) by (nonlinear_arith);
        }
        r.push((start, end));
        start = end;
    }
    proof {
        let n = r@.len() as int;
        if len == 0 {
            assert(n == 0);
            assert((len + size - 1) / size as int == 0) by (nonlinear_arith)
                requires
                    len == 0,
                    size > 0,
            ;
        } else {
            assert((n - 1) * size < len);
            assert(len <= n * size);
            assert((len + size - 1) / size as int == n) by (nonlinear_arith)
                requires
                    (n - 1) * size < len,
                    len <= n * size,
                    size > 0,
                    n >= 1,
            ;
        }
    }
    r
}

/// A write the database writer carries out.
pub enum DbWriterRequest {
    /// Stop the writer.
    Shutdown,
    /// Record the tags a plugin reported.
    UpsertTags { plugin_id: PluginId, tags: Vec<Tag> },
    /// Record the works a plugin reported for a tag.
    UpsertWorks { plugin_id: PluginId, for_tag: String, works: Vec<Work> },
    /// Record where a work's files were downloaded; the work is the one with this screen url.
    SetWorkDownloadPaths {
        screen_url: String,
        preview_path: String,
        screen_path: String,
        archive_path: Option<String>,
    },
    SetWorkFavorite { work_id: WorkId, favorite: bool },
    SetWorkHidden { work_id: WorkId, hidden: bool },
    SetTagFavorite { tag_id: TagId, favorite: bool },
    SetTagHidden { tag_id: TagId, hidden: bool },
}

/// What the application is told once a write is done.
#[derive(Clone, Debug, PartialEq, Eq)]
pub enum WriteNotice {
    /// The tags changed: reload them.
    TagsWereRefreshed,
    /// The works of the named tag changed.
    WorksWereUpdatedForTag(String),
    /// A work's files are downloaded, at these paths.
    WorkDownloadCompleted(WorkId, String, String, Option<String>),
    WorkFavoriteStatusChanged(WorkId, bool),
    WorkHiddenStatusChanged(WorkId, bool),
    TagFavoriteStatusChanged(TagId, bool),
    TagHiddenStatusChanged(TagId, bool),
}

/// The abstract notice.
pub ghost enum WriteNoticeView {
    TagsWereRefreshed,
    WorksWereUpdatedForTag(Seq<char>),
    WorkDownloadCompleted(WorkId, Seq<char>, Seq<char>, Option<Seq<char>>),
    WorkFavoriteStatusChanged(WorkId, bool),
    WorkHiddenStatusChanged(WorkId, bool),
    TagFavoriteStatusChanged(TagId, bool),
    TagHiddenStatusChanged(TagId, bool),
}

impl View for WriteNotice {
    type V = WriteNoticeView;

    closed spec fn view(&self) -> WriteNoticeView {
        match self {
            WriteNotice::TagsWereRefreshed => WriteNoticeView::TagsWereRefreshed,
            WriteNotice::WorksWereUpdatedForTag(t) => WriteNoticeView::WorksWereUpdatedForTag(t@),
            WriteNotice::WorkDownloadCompleted(id, p, s, a) => WriteNoticeView::WorkDownloadCompleted(
                *id,
                p@,
                s@,
                crate::text::opt_string_view(*a),
            ),
            WriteNotice::WorkFavoriteStatusChanged(id, f) => WriteNoticeView::WorkFavoriteStatusChanged(*id, *f),
            WriteNotice::WorkHiddenStatusChanged(id, h) => WriteNoticeView::WorkHiddenStatusChanged(*id, *h),
            WriteNotice::TagFavoriteStatusChanged(id, f) => WriteNoticeView::TagFavoriteStatusChanged(*id, *f),
            WriteNotice::TagHiddenStatusChanged(id, h) => WriteNoticeView::TagHiddenStatusChanged(*id, *h),
        }
    }
}

impl DbWriterRequest {
    /// Whether this is the request to stop.
    pub fn is_shutdown(&self) -> (r: bool)
        ensures
            r == (self is Shutdown),
    {
        match self {
            DbWriterRequest::Shutdown => true,
            _ => false,
        }
    }

    /// What the application is told once the write is done; for recorded download paths,
    /// the id of the work they belong to, as the database found it by screen url. The stop
    /// request is handled before any write and has no notice.
    pub fn notice(&self, work_id: WorkId) -> (r: WriteNotice)
        requires
            !(self is Shutdown),
        ensures
            r@ == match self {
                DbWriterRequest::Shutdown => WriteNoticeView::TagsWereRefreshed,
                DbWriterRequest::UpsertTags { .. } => WriteNoticeView::TagsWereRefreshed,
                DbWriterRequest::UpsertWorks { for_tag, .. } => WriteNoticeView::WorksWereUpdatedForTag(
                    for_tag@,
                ),
                DbWriterRequest::SetWorkDownloadPaths {
                    preview_path,
                    screen_path,
                    archive_path,
                    ..
                } => WriteNoticeView::WorkDownloadCompleted(
                    work_id,
                    preview_path@,
                    screen_path@,
                    crate::text::opt_string_view(*archive_path),
                ),
                DbWriterRequest::SetWorkFavorite { work_id, favorite } => WriteNoticeView::WorkFavoriteStatusChanged(
                    *work_id,
                    *favorite,
                ),
                DbWriterRequest::SetWorkHidden { work_id, hidden } => WriteNoticeView::WorkHiddenStatusChanged(
                    *work_id,
                    *hidden,
                ),
                DbWriterRequest::SetTagFavorite { tag_id, favorite } => WriteNoticeView::TagFavoriteStatusChanged(
                    *tag_id,
                    *favorite,
                ),
                DbWriterRequest::SetTagHidden { tag_id, hidden } => WriteNoticeView::TagHiddenStatusChanged(
                    *tag_id,
                    *hidden,
                ),
            },
    {
        match self {
            DbWriterRequest::Shutdown => WriteNotice::TagsWereRefreshed,
            DbWriterRequest::UpsertTags { .. } => WriteNotice::TagsWereRefreshed,
            DbWriterRequest::UpsertWorks { for_tag, .. } => WriteNotice::WorksWereUpdatedForTag(
                crate::text::owned(for_tag.as_str()),
            ),
            DbWriterRequest::SetWorkDownloadPaths { preview_path, screen_path, archive_path, .. } => {
                WriteNotice::WorkDownloadCompleted(
                    work_id,
                    crate::text::owned(preview_path.as_str()),
                    crate::text::owned(screen_path.as_str()),
                    crate::text::opt_owned(crate::text::opt_as_str(archive_path)),
                )
            },
            DbWriterRequest::SetWorkFavorite { work_id, favorite } => WriteNotice::WorkFavoriteStatusChanged(
                *work_id,
                *favorite,
            ),
            DbWriterRequest::SetWorkHidden { work_id, hidden } => WriteNotice::WorkHiddenStatusChanged(
                *work_id,
                *hidden,
            ),
            DbWriterRequest::SetTagFavorite { tag_id, favorite } => WriteNotice::TagFavoriteStatusChanged(
                *tag_id,
                *favorite,
            ),
            DbWriterRequest::SetTagHidden { tag_id, hidden } => WriteNotice::TagHiddenStatusChanged(
                *tag_id,
                *hidden,
            ),
        }
    }
}

/// The download paths recorded for a work must all be given: the screen url that finds the
/// work, and the preview and screen paths.
pub fn download_paths_complete(screen_url: &str, preview_path: &str, screen_path: &str) -> (r: bool)
    ensures
        r == (screen_url@.len() > 0 && preview_path@.len() > 0 && screen_path@.len() > 0),
{
    crate::text::chars_of(screen_url).len() > 0 && crate::text::chars_of(preview_path).len() > 0
        && crate::text::chars_of(screen_path).len() > 0
}

} // verus!
