//! The upload tracker: the record of every queued upload and its outcome.
use vstd::prelude::*;
use vstd::string::*;

use crate::win_path::{file_name, lemma_name_after_last_slash, windows_file_name};

verus! {

/// Where an upload stands.
#[derive(Debug, Clone, Copy, PartialEq, Eq, Structural)]
pub enum UploadStatus {
    Uploading,
    Done,
    Error,
}

/// The text under which a status is reported.
pub open spec fn status_text(status: UploadStatus) -> Seq<char> {
    match status {
        UploadStatus::Uploading => "uploading"@,
        UploadStatus::Done => "done"@,
        UploadStatus::Error => "error"@,
    }
}

impl UploadStatus {
    /// The text under which this status is reported.
    pub fn as_str(self) -> (r: &'static str)
        ensures
            r@ == status_text(self),
    {
        match self {
            UploadStatus::Uploading => "uploading",
            UploadStatus::Done => "done",
            UploadStatus::Error => "error",
        }
    }
}

/// The name under which a file is shown: the file name of its path, or the
/// whole path when the path has no file name.
pub open spec fn display_name(path: Seq<char>) -> Seq<char> {
    match windows_file_name(path) {
        Some(name) => name,
        None => path,
    }
}

/// The name under which the file at `file_path` is shown.
pub fn extract_file_name(file_path: &str) -> (r: String)
    ensures
        r@ == display_name(file_path@),
{
    match file_name(file_path) {
        Some(name) => name,
        None => String::from_str(file_path),
    }
}

/// A file whose path does not begin with `\` or `/` is shown under everything
/// after the path's last `\` or `/` (spaces and any other characters included),
/// unless that is empty, `.` or `..`.
pub proof fn lemma_shown_name_after_last_slash(path: Seq<char>, j: int)
    requires
        0 <= j < path.len() - 1,
        path[0] != '\\',
        path[0] != '/',
        path[j] == '\\' || path[j] == '/',
        forall|k: int| j < k < path.len() ==> #[trigger] path[k] != '\\' && path[k] != '/',
        !(path.len() == j + 2 && path[j + 1] == '.'),
        !(path.len() == j + 3 && path[j + 1] == '.' && path[j + 2] == '.'),
    ensures
        display_name(path) == path.subrange(j + 1, path.len() as int),
{
    lemma_name_after_last_slash(path, j);
}

/// What a caller of the tracker sees of one upload.
#[derive(Debug, Clone, PartialEq, Eq)]
pub struct UploadSnapshot {
    pub id: u64,
    pub file_name: String,
    pub status: String,
    pub url: Option<String>,
    pub message: Option<String>,
}

/// The plain values of an [`UploadSnapshot`].
pub struct SnapshotView {
    pub id: u64,
    pub file_name: Seq<char>,
    pub status: Seq<char>,
    pub url: Option<Seq<char>>,
    pub message: Option<Seq<char>>,
}

impl View for UploadSnapshot {
    type V = SnapshotView;

    open spec fn view(&self) -> SnapshotView {
        SnapshotView {
            id: self.id,
            file_name: self.file_name@,
            status: self.status@,
            url: self.url.deep_view(),
            message: self.message.deep_view(),
        }
    }
}

/// A file that was queued for upload, with the id under which it is tracked.
#[derive(Debug, Clone, PartialEq, Eq)]
pub struct QueuedUpload {
    pub id: u64,
    pub file_path: String,
    pub file_name: String,
}

/// The plain values of a [`QueuedUpload`].
pub struct QueuedView {
    pub id: u64,
    pub file_path: Seq<char>,
    pub file_name: Seq<char>,
}

impl View for QueuedUpload {
    type V = QueuedView;

    open spec fn view(&self) -> QueuedView {
        QueuedView { id: self.id, file_path: self.file_path@, file_name: self.file_name@ }
    }
}

/// One tracked upload.
#[derive(Debug)]
struct UploadEntry {
    id: u64,
    file_name: String,
    status: UploadStatus,
    url: Option<String>,
    message: Option<String>,
}

/// The plain values of one tracked upload.
pub struct EntryView {
    pub id: u64,
    pub file_name: Seq<char>,
    pub status: UploadStatus,
    pub url: Option<Seq<char>>,
    pub message: Option<Seq<char>>,
}

impl View for UploadEntry {
    type V = EntryView;

    closed spec fn view(&self) -> EntryView {
        EntryView {
            id: self.id,
            file_name: self.file_name@,
            status: self.status,
            url: self.url.deep_view(),
            message: self.message.deep_view(),
        }
    }
}

fn copy_text(o: &Option<String>) -> (r: Option<String>)
    ensures
        r.deep_view() == o.deep_view(),
{
    match o {
        Some(s) => Some(s.clone()),
        None => None,
    }
}

impl UploadEntry {
    fn duplicate(&self) -> (r: UploadEntry)
        ensures
            r@ == self@,
    {
        UploadEntry {
            id: self.id,
            file_name: self.file_name.clone(),
            status: self.status,
            url: copy_text(&self.url),
            message: copy_text(&self.message),
        }
    }
}

/// The state of the tracker: the last id it handed out and its uploads, oldest first.
pub struct TrackerView {
    pub next_id: u64,
    pub uploads: Seq<EntryView>,
}

/// Every upload has an id in `1..=next_id`, and ids increase strictly from the
/// oldest upload to the newest, so no id occurs twice.
pub open spec fn tracker_inv(t: TrackerView) -> bool {
    &&& forall|i: int| 0 <= i < t.uploads.len() ==> 1 <= #[trigger] t.uploads[i].id <= t.next_id
    &&& forall|i: int, j: int|
        0 <= i < j < t.uploads.len() ==> #[trigger] t.uploads[i].id < #[trigger] t.uploads[j].id
    &&& forall|i: int| 0 <= i < t.uploads.len() ==> #[trigger] entry_consistent(t.uploads[i])
}

/// Whether a status goes with a link and a message: an upload that is still
/// uploading has neither, a done one only a link, a failed one only a message.
pub open spec fn outcome_consistent(
    status: UploadStatus,
    url: Option<Seq<char>>,
    message: Option<Seq<char>>,
) -> bool {
    match status {
        UploadStatus::Uploading => url is None && message is None,
        UploadStatus::Done => url is Some && message is None,
        UploadStatus::Error => url is None && message is Some,
    }
}

/// Whether an upload's status goes with its link and message.
pub open spec fn entry_consistent(e: EntryView) -> bool {
    outcome_consistent(e.status, e.url, e.message)
}

/// Whether some tracked upload has the id `id`.
pub open spec fn tracks(uploads: Seq<EntryView>, id: u64) -> bool {
    exists|i: int| 0 <= i < uploads.len() && #[trigger] uploads[i].id == id
}

/// The entry that starts tracking the file at `path` under `id`.
pub open spec fn new_entry(id: u64, path: Seq<char>) -> EntryView {
    EntryView {
        id,
        file_name: display_name(path),
        status: UploadStatus::Uploading,
        url: None,
        message: None,
    }
}

/// The entries that a batch of `files` adds after the id `last_id`.
pub open spec fn batch_entries(last_id: u64, files: Seq<String>) -> Seq<EntryView> {
    Seq::new(files.len(), |i: int| new_entry((last_id + i + 1) as u64, files[i]@))
}

/// What a batch of `files` queued after the id `last_id` hands back.
pub open spec fn batch_queue(last_id: u64, files: Seq<String>) -> Seq<QueuedView> {
    Seq::new(
        files.len(),
        |i: int|
            QueuedView {
                id: (last_id + i + 1) as u64,
                file_path: files[i]@,
                file_name: display_name(files[i]@),
            },
    )
}

/// The uploads after the upload `id` took `status`, `url` and `message`;
/// the other uploads are unchanged.
pub open spec fn with_outcome(
    uploads: Seq<EntryView>,
    id: u64,
    status: UploadStatus,
    url: Option<Seq<char>>,
    message: Option<Seq<char>>,
) -> Seq<EntryView> {
    uploads.map_values(
        |e: EntryView|
            if e.id == id {
                EntryView { id: e.id, file_name: e.file_name, status, url, message }
            } else {
                e
            },
    )
}

/// The texts of an upload's result: the link, or the error message.
pub open spec fn result_text(outcome: Result<String, String>) -> Result<Seq<char>, Seq<char>> {
    match outcome {
        Ok(url) => Ok(url@),
        Err(message) => Err(message@),
    }
}

/// The uploads after the upload `id` ended with `outcome`: done with the link, or
/// failed with the message.
pub open spec fn outcome_of(
    uploads: Seq<EntryView>,
    id: u64,
    outcome: Result<Seq<char>, Seq<char>>,
) -> Seq<EntryView> {
    match outcome {
        Ok(url) => with_outcome(uploads, id, UploadStatus::Done, Some(url), None),
        Err(message) => with_outcome(uploads, id, UploadStatus::Error, None, Some(message)),
    }
}

/// An upload as it stands once it ended with `outcome`.
pub open spec fn finished(e: EntryView, outcome: Result<Seq<char>, Seq<char>>) -> EntryView {
    match outcome {
        Ok(url) => EntryView {
            id: e.id,
            file_name: e.file_name,
            status: UploadStatus::Done,
            url: Some(url),
            message: None,
        },
        Err(message) => EntryView {
            id: e.id,
            file_name: e.file_name,
            status: UploadStatus::Error,
            url: None,
            message: Some(message),
        },
    }
}

/// The uploads after the queued uploads `ids` ended, one after the other in queue
/// order, with `outcomes`.
pub open spec fn apply_outcomes(
    uploads: Seq<EntryView>,
    ids: Seq<u64>,
    outcomes: Seq<Result<Seq<char>, Seq<char>>>,
) -> Seq<EntryView>
    decreases ids.len(),
{
    if ids.len() == 0 || outcomes.len() == 0 {
        uploads
    } else {
        apply_outcomes(outcome_of(uploads, ids[0], outcomes[0]), ids.drop_first(), outcomes.drop_first())
    }
}

/// Whether clearing `ids` removes the upload `e`: it is listed and no longer uploading.
pub open spec fn is_cleared(ids: Seq<u64>, e: EntryView) -> bool {
    ids.contains(e.id) && e.status != UploadStatus::Uploading
}

/// The uploads that remain after clearing `ids`, in their order.
pub open spec fn after_clear(uploads: Seq<EntryView>, ids: Seq<u64>) -> Seq<EntryView> {
    uploads.filter(|e: EntryView| !is_cleared(ids, e))
}

/// What the snapshot shows of one upload.
pub open spec fn snapshot_of(e: EntryView) -> SnapshotView {
    SnapshotView {
        id: e.id,
        file_name: e.file_name,
        status: status_text(e.status),
        url: e.url,
        message: e.message,
    }
}

/// Records the uploads that were queued and hands out their ids.
pub struct UploadTracker {
    next_id: u64,
    uploads: Vec<UploadEntry>,
}

impl View for UploadTracker {
    type V = TrackerView;

    closed spec fn view(&self) -> TrackerView {
        TrackerView { next_id: self.next_id, uploads: self.uploads@.map_values(|e: UploadEntry| e@) }
    }
}

impl Default for UploadTracker {
    fn default() -> (t: Self)
        ensures
            t.wf(),
            t@.next_id == 0,
            t@.uploads.len() == 0,
    {
        UploadTracker { next_id: 0, uploads: Vec::new() }
    }
}

impl UploadTracker {
    /// The tracker keeps its invariant.
    pub open spec fn wf(&self) -> bool {
        tracker_inv(self@)
    }

    /// Whether `count` more uploads can get ids: ids are never reused, so they
    /// must stay within `u64`.
    pub fn has_room_for(&self, count: usize) -> (r: bool)
        ensures
            r == (self@.next_id + count <= u64::MAX),
    {
        count as u64 <= u64::MAX - self.next_id
    }

    /// Starts tracking every file of `files`, each as uploading under a fresh id,
    /// and returns the queued uploads in the order of `files`.
    pub fn begin_batch(&mut self, files: &[String]) -> (queued: Vec<QueuedUpload>)
        requires
            old(self).wf(),
            old(self)@.next_id + files@.len() <= u64::MAX,
        ensures
            final(self).wf(),
            final(self)@.next_id == old(self)@.next_id + files@.len(),
            final(self)@.uploads == old(self)@.uploads + batch_entries(
                old(self)@.next_id,
                files@,
            ),
            queued@.map_values(|q: QueuedUpload| q@) == batch_queue(old(self)@.next_id, files@),
    {
        let ghost old_uploads = self@.uploads;
        let ghost last_id = self.next_id;
        let mut queued: Vec<QueuedUpload> = Vec::new();
        let mut k: usize = 0;
        while k < files.len()
            invariant
                k <= files@.len(),
                last_id + files@.len() <= u64::MAX,
                self.next_id == last_id + k,
                tracker_inv(self@),
                self@.uploads == old_uploads + batch_entries(last_id, files@.subrange(0, k as int)),
                queued@.map_values(|q: QueuedUpload| q@) == batch_queue(
                    last_id,
                    files@.subrange(0, k as int),
                ),
                forall|i: int| 0 <= i < old_uploads.len() ==> #[trigger] old_uploads[i].id <= last_id,
            decreases files@.len() - k,
        {
            let file_path = &files[k];
            self.next_id = self.next_id + 1;
            let id = self.next_id;
            let name = extract_file_name(file_path.as_str());
            let ghost before = self@.uploads;
            self.uploads.push(
                UploadEntry {
                    id,
                    file_name: name.clone(),
                    status: UploadStatus::Uploading,
                    url: None,
                    message: None,
                },
            );
            queued.push(QueuedUpload { id, file_path: file_path.clone(), file_name: name });
            proof {
                assert(self@.uploads == before.push(new_entry(id, files@[k as int]@)));
                assert(files@.subrange(0, k + 1) == files@.subrange(0, k as int).push(
                    files@[k as int],
                ));
                assert(batch_entries(last_id, files@.subrange(0, k + 1)) == batch_entries(
                    last_id,
                    files@.subrange(0, k as int),
                ).push(new_entry(id, files@[k as int]@)));
                assert(batch_queue(last_id, files@.subrange(0, k + 1)) == batch_queue(
                    last_id,
                    files@.subrange(0, k as int),
                ).push(
                    QueuedView {
                        id,
                        file_path: files@[k as int]@,
                        file_name: display_name(files@[k as int]@),
                    },
                ));
            }
            k = k + 1;
        }
        proof {
            assert(files@.subrange(0, files@.len() as int) == files@);
        }
        queued
    }

    /// Records that the upload `id` finished with the link `url`.
    pub fn mark_done(&mut self, id: u64, url: String)
        requires
            old(self).wf(),
        ensures
            final(self).wf(),
            final(self)@.next_id == old(self)@.next_id,
            final(self)@.uploads == with_outcome(
                old(self)@.uploads,
                id,
                UploadStatus::Done,
                Some(url@),
                None,
            ),
    {
        self.update_entry(id, UploadStatus::Done, Some(url), None);
    }

    /// Records that the upload `id` failed with `message`.
    pub fn mark_error(&mut self, id: u64, message: String)
        requires
            old(self).wf(),
        ensures
            final(self).wf(),
            final(self)@.next_id == old(self)@.next_id,
            final(self)@.uploads == with_outcome(
                old(self)@.uploads,
                id,
                UploadStatus::Error,
                None,
                Some(message@),
            ),
    {
        self.update_entry(id, UploadStatus::Error, None, Some(message));
    }

    /// What the tracker shows of its uploads, oldest first.
    pub fn snapshot(&self) -> (r: Vec<UploadSnapshot>)
        ensures
            r@.map_values(|s: UploadSnapshot| s@) == self@.uploads.map_values(
                |e: EntryView| snapshot_of(e),
            ),
    {
        let mut r: Vec<UploadSnapshot> = Vec::new();
        let mut k: usize = 0;
        while k < self.uploads.len()
            invariant
                k <= self.uploads@.len(),
                r@.len() == k,
                forall|i: int|
                    0 <= i < k ==> #[trigger] r@[i]@ == snapshot_of(self.uploads@[i]@),
            decreases self.uploads@.len() - k,
        {
            let entry = &self.uploads[k];
            r.push(
                UploadSnapshot {
                    id: entry.id,
                    file_name: entry.file_name.clone(),
                    status: String::from_str(entry.status.as_str()),
                    url: copy_text(&entry.url),
                    message: copy_text(&entry.message),
                },
            );
            k = k + 1;
        }
        proof {
            assert(r@.map_values(|s: UploadSnapshot| s@) =~= self@.uploads.map_values(
                |e: EntryView| snapshot_of(e),
            ));
        }
        r
    }

    /// Stops tracking the uploads of `ids` that are no longer uploading; the
    /// others stay, in their order.
    pub fn clear_finished(&mut self, ids: &[u64])
        requires
            old(self).wf(),
        ensures
            final(self).wf(),
            final(self)@.next_id == old(self)@.next_id,
            final(self)@.uploads == after_clear(old(self)@.uploads, ids@),
    {
        let ghost old_view = self@.uploads;
        let ghost keep = |e: EntryView| !is_cleared(ids@, e);
        let mut kept: Vec<UploadEntry> = Vec::new();
        let mut k: usize = 0;
        while k < self.uploads.len()
            invariant
                k <= self.uploads@.len(),
                old_view == self.uploads@.map_values(|e: UploadEntry| e@),
                keep == (|e: EntryView| !is_cleared(ids@, e)),
                kept@.map_values(|e: UploadEntry| e@) == old_view.take(k as int).filter(keep),
            decreases self.uploads@.len() - k,
        {
            let entry = &self.uploads[k];
            let listed = contains_id(ids, entry.id);
            let ghost before = kept@.map_values(|e: UploadEntry| e@);
            if !(listed && entry.status != UploadStatus::Uploading) {
                kept.push(entry.duplicate());
            }
            proof {
                reveal(Seq::filter);
                assert(old_view.take(k + 1).drop_last() == old_view.take(k as int));
                assert(old_view.take(k + 1).last() == entry@);
                if keep(entry@) {
                    assert(kept@.map_values(|e: UploadEntry| e@) == before.push(entry@));
                } else {
                    assert(kept@.map_values(|e: UploadEntry| e@) == before);
                }
            }
            k = k + 1;
        }
        proof {
            assert(old_view.take(old_view.len() as int) == old_view);
            lemma_filter_keeps_inv(self@.next_id, old_view, keep);
        }
        self.uploads = kept;
    }

    /// Records how the upload `id` ended: done with the link, or failed with the message.
    pub fn record_result(&mut self, id: u64, outcome: Result<String, String>)
        requires
            old(self).wf(),
        ensures
            final(self).wf(),
            final(self)@.next_id == old(self)@.next_id,
            final(self)@.uploads == outcome_of(old(self)@.uploads, id, result_text(outcome)),
    {
        match outcome {
            Ok(url) => self.mark_done(id, url),
            Err(message) => self.mark_error(id, message),
        }
    }

    /// Gives the upload `id` the outcome `status`, `url`, `message`.
    fn update_entry(
        &mut self,
        id: u64,
        status: UploadStatus,
        url: Option<String>,
        message: Option<String>,
    )
        requires
            old(self).wf(),
            outcome_consistent(status, url.deep_view(), message.deep_view()),
        ensures
            final(self).wf(),
            final(self)@.next_id == old(self)@.next_id,
            final(self)@.uploads == with_outcome(
                old(self)@.uploads,
                id,
                status,
                url.deep_view(),
                message.deep_view(),
            ),
    {
        let ghost old_view = self@.uploads;
        let mut k: usize = 0;
        while k < self.uploads.len() && self.uploads[k].id != id
            invariant
                k <= self.uploads@.len(),
                self@ == old(self)@,
                old_view == self@.uploads,
                forall|i: int| 0 <= i < k ==> #[trigger] old_view[i].id != id,
            decreases self.uploads@.len() - k,
        {
            assert(old_view[k as int] == self.uploads@[k as int]@);
            k = k + 1;
        }
        if k < self.uploads.len() {
            let ghost target = old_view[k as int];
            let entry = UploadEntry {
                id,
                file_name: self.uploads[k].file_name.clone(),
                status,
                url,
                message,
            };
            self.uploads.set(k, entry);
            proof {
                assert forall|i: int| 0 <= i < old_view.len() && i != k implies #[trigger] old_view[i].id != id by {
                    if i < k {
                    } else {
                        assert(old_view[k as int].id < old_view[i].id);
                    }
                }
                assert(self@.uploads =~= with_outcome(
                    old_view,
                    id,
                    status,
                    url.deep_view(),
                    message.deep_view(),
                ));
            }
        } else {
            proof {
                assert(self@.uploads =~= with_outcome(
                    old_view,
                    id,
                    status,
                    url.deep_view(),
                    message.deep_view(),
                ));
            }
        }
    }
}

/// Whether `id` occurs in `ids`.
fn contains_id(ids: &[u64], id: u64) -> (r: bool)
    ensures
        r == ids@.contains(id),
{
    let mut k: usize = 0;
    while k < ids.len()
        invariant
            k <= ids@.len(),
            forall|i: int| 0 <= i < k ==> ids@[i] != id,
        decreases ids@.len() - k,
    {
        if ids[k] == id {
            assert(ids@[k as int] == id);
            return true;
        }
        k = k + 1;
    }
    false
}

/// Removing uploads keeps the tracker's invariant.
pub proof fn lemma_filter_keeps_inv(
    next_id: u64,
    uploads: Seq<EntryView>,
    keep: spec_fn(EntryView) -> bool,
)
    requires
        tracker_inv(TrackerView { next_id, uploads }),
    ensures
        tracker_inv(TrackerView { next_id, uploads: uploads.filter(keep) }),
    decreases uploads.len(),
{
    reveal(Seq::filter);
    if uploads.len() > 0 {
        let rest = uploads.drop_last();
        lemma_filter_keeps_inv(next_id, rest, keep);
        lemma_filter_members(rest, keep);
        let f = rest.filter(keep);
        if keep(uploads.last()) {
            let g = f.push(uploads.last());
            assert forall|i: int, j: int| 0 <= i < j < g.len() implies #[trigger] g[i].id
                < #[trigger] g[j].id by {
                if j == g.len() - 1 {
                    let a = choose|a: int| 0 <= a < rest.len() && rest[a] == f[i];
                    assert(uploads[a] == f[i]);
                }
            }
            assert(entry_consistent(uploads[uploads.len() - 1]));
            assert forall|i: int| 0 <= i < g.len() implies #[trigger] entry_consistent(g[i]) by {
                if i < f.len() {
                    assert(entry_consistent(f[i]));
                }
            }
        }
    }
}

/// Every entry of a filtered sequence comes from the sequence.
pub proof fn lemma_filter_members(s: Seq<EntryView>, keep: spec_fn(EntryView) -> bool)
    ensures
        forall|i: int|
            0 <= i < s.filter(keep).len() ==> exists|a: int|
                0 <= a < s.len() && s[a] == #[trigger] s.filter(keep)[i],
    decreases s.len(),
{
    reveal(Seq::filter);
    if s.len() > 0 {
        let rest = s.drop_last();
        lemma_filter_members(rest, keep);
        let f = rest.filter(keep);
        assert forall|i: int| 0 <= i < s.filter(keep).len() implies exists|a: int|
            0 <= a < s.len() && s[a] == #[trigger] s.filter(keep)[i] by {
            if i < f.len() {
                let a = choose|a: int| 0 <= a < rest.len() && rest[a] == f[i];
                assert(s[a] == rest[a]);
            } else {
                assert(s[s.len() - 1] == s.filter(keep)[i]);
            }
        }
    }
}

/// The ids that one batch hands out are fresh: none of them is tracked yet,
/// and they increase with the position of the file in the batch.
pub proof fn lemma_batch_ids_fresh(t: TrackerView, files: Seq<String>)
    requires
        tracker_inv(t),
        t.next_id + files.len() <= u64::MAX,
    ensures
        forall|i: int|
            0 <= i < files.len() ==> !tracks(t.uploads, #[trigger] batch_queue(t.next_id, files)[i].id),
        forall|i: int, j: int|
            #![trigger batch_queue(t.next_id, files)[i], batch_queue(t.next_id, files)[j]]
            0 <= i < j < files.len() ==> batch_queue(t.next_id, files)[i].id < batch_queue(
                t.next_id,
                files,
            )[j].id,
{
    assert forall|i: int| 0 <= i < files.len() implies !tracks(
        t.uploads,
        #[trigger] batch_queue(t.next_id, files)[i].id,
    ) by {
        let id = batch_queue(t.next_id, files)[i].id;
        assert(id > t.next_id);
        if tracks(t.uploads, id) {
            let a = choose|a: int| 0 <= a < t.uploads.len() && #[trigger] t.uploads[a].id == id;
            assert(t.uploads[a].id <= t.next_id);
        }
    }
}

/// After a batch, the snapshot shows each queued upload, after the uploads that
/// were tracked before, as uploading under the name and id that the batch returned.
pub proof fn lemma_batch_snapshot(t: TrackerView, files: Seq<String>)
    requires
        t.next_id + files.len() <= u64::MAX,
    ensures
        forall|i: int|
            0 <= i < files.len() ==> (t.uploads + batch_entries(t.next_id, files)).map_values(
                |e: EntryView| snapshot_of(e),
            )[t.uploads.len() + i] == (SnapshotView {
                id: #[trigger] batch_queue(t.next_id, files)[i].id,
                file_name: batch_queue(t.next_id, files)[i].file_name,
                status: "uploading"@,
                url: None,
                message: None,
            }),
{
}

/// Recording an outcome keeps the number, order, ids and names of the uploads,
/// shows the new status, link and message on the upload with that id, leaves
/// the other uploads as they were, and changes nothing when no upload has that id.
pub proof fn lemma_outcome_visible(
    uploads: Seq<EntryView>,
    id: u64,
    status: UploadStatus,
    url: Option<Seq<char>>,
    message: Option<Seq<char>>,
)
    ensures
        with_outcome(uploads, id, status, url, message).len() == uploads.len(),
        forall|i: int|
            0 <= i < uploads.len() ==> #[trigger] with_outcome(
                uploads,
                id,
                status,
                url,
                message,
            )[i].id == uploads[i].id && with_outcome(uploads, id, status, url, message)[i].file_name
                == uploads[i].file_name,
        forall|i: int|
            0 <= i < uploads.len() && uploads[i].id == id ==> snapshot_of(
                #[trigger] with_outcome(uploads, id, status, url, message)[i],
            ) == (SnapshotView {
                id,
                file_name: uploads[i].file_name,
                status: status_text(status),
                url,
                message,
            }),
        forall|i: int|
            0 <= i < uploads.len() && uploads[i].id != id ==> #[trigger] with_outcome(
                uploads,
                id,
                status,
                url,
                message,
            )[i] == uploads[i],
        !tracks(uploads, id) ==> with_outcome(uploads, id, status, url, message) == uploads,
{
    if !tracks(uploads, id) {
        assert(with_outcome(uploads, id, status, url, message) =~= uploads);
    }
}

/// Clearing keeps an upload exactly when it is still uploading or its id was not
/// listed; in particular no upload that is still uploading is ever cleared.
pub proof fn lemma_clear_keeps_active(uploads: Seq<EntryView>, ids: Seq<u64>)
    ensures
        forall|e: EntryView|
            #[trigger] after_clear(uploads, ids).contains(e) <==> (uploads.contains(e)
                && !is_cleared(ids, e)),
        forall|i: int|
            0 <= i < uploads.len() && uploads[i].status == UploadStatus::Uploading
                ==> after_clear(uploads, ids).contains(#[trigger] uploads[i]),
{
    let keep = |e: EntryView| !is_cleared(ids, e);
    lemma_filter_members(uploads, keep);
    assert forall|e: EntryView| #[trigger] after_clear(uploads, ids).contains(e) <==> (
    uploads.contains(e) && !is_cleared(ids, e)) by {
        let f = uploads.filter(keep);
        if f.contains(e) {
            let i = choose|i: int| 0 <= i < f.len() && f[i] == e;
            uploads.lemma_filter_pred(keep, i);
            let a = choose|a: int| 0 <= a < uploads.len() && uploads[a] == #[trigger] f[i];
            assert(uploads[a] == e);
        }
        if uploads.contains(e) && !is_cleared(ids, e) {
            let a = choose|a: int| 0 <= a < uploads.len() && uploads[a] == e;
            uploads.lemma_filter_contains(keep, a);
        }
    }
    assert forall|i: int|
        0 <= i < uploads.len() && uploads[i].status == UploadStatus::Uploading implies after_clear(
        uploads,
        ids,
    ).contains(#[trigger] uploads[i]) by {
        uploads.lemma_filter_contains(keep, i);
    }
}

/// Clearing removes exactly the uploads whose id is listed and that are no longer
/// uploading: the rest stay, unchanged and in their order. An upload whose id is
/// not listed is never removed, whatever its status, and clearing ids that no
/// upload has leaves the uploads as they were.
pub proof fn lemma_clear_removes_only_listed_finished(uploads: Seq<EntryView>, ids: Seq<u64>)
    ensures
        after_clear(uploads, ids) == uploads.filter(
            |e: EntryView| !ids.contains(e.id) || e.status == UploadStatus::Uploading,
        ),
        forall|e: EntryView|
            #[trigger] after_clear(uploads, ids).contains(e) <==> (uploads.contains(e) && (
            !ids.contains(e.id) || e.status == UploadStatus::Uploading)),
        forall|i: int|
            0 <= i < uploads.len() && !ids.contains(#[trigger] uploads[i].id) ==> after_clear(
                uploads,
                ids,
            ).contains(uploads[i]),
        (forall|i: int| 0 <= i < uploads.len() ==> !ids.contains(#[trigger] uploads[i].id))
            ==> after_clear(uploads, ids) == uploads,
{
    let keep = |e: EntryView| !is_cleared(ids, e);
    let plain = |e: EntryView| !ids.contains(e.id) || e.status == UploadStatus::Uploading;
    assert(keep =~= plain);
    lemma_clear_keeps_active(uploads, ids);
    assert forall|i: int|
        0 <= i < uploads.len() && !ids.contains(#[trigger] uploads[i].id) implies after_clear(
        uploads,
        ids,
    ).contains(uploads[i]) by {
        assert(uploads.contains(uploads[i]));
    }
    if forall|i: int| 0 <= i < uploads.len() ==> !ids.contains(#[trigger] uploads[i].id) {
        assert forall|i: int| 0 <= i < uploads.len() implies #[trigger] keep(uploads[i]) by {
            assert(!ids.contains(uploads[i].id));
        }
        lemma_filter_all_kept(uploads, keep);
    }
}

/// Clearing the same ids a second time removes nothing more.
pub proof fn lemma_clear_idempotent(uploads: Seq<EntryView>, ids: Seq<u64>)
    ensures
        after_clear(after_clear(uploads, ids), ids) == after_clear(uploads, ids),
{
    let keep = |e: EntryView| !is_cleared(ids, e);
    let f = uploads.filter(keep);
    assert forall|i: int| 0 <= i < f.len() implies #[trigger] keep(f[i]) by {
        uploads.lemma_filter_pred(keep, i);
    }
    lemma_filter_all_kept(f, keep);
}

/// Filtering a sequence whose every element passes gives the sequence back.
pub proof fn lemma_filter_all_kept(s: Seq<EntryView>, keep: spec_fn(EntryView) -> bool)
    requires
        forall|i: int| 0 <= i < s.len() ==> #[trigger] keep(s[i]),
    ensures
        s.filter(keep) == s,
    decreases s.len(),
{
    reveal(Seq::filter);
    if s.len() > 0 {
        let rest = s.drop_last();
        assert forall|i: int| 0 <= i < rest.len() implies #[trigger] keep(rest[i]) by {
            assert(rest[i] == s[i]);
        }
        lemma_filter_all_kept(rest, keep);
        assert(keep(s[s.len() - 1]));
        assert(rest.push(s.last()) =~= s);
    }
}

/// Once no upload has the id `id`, recording an outcome, for that id or any
/// other, does not bring it back.
pub proof fn lemma_absent_id_stays_absent(
    uploads: Seq<EntryView>,
    id: u64,
    other_id: u64,
    status: UploadStatus,
    url: Option<Seq<char>>,
    message: Option<Seq<char>>,
)
    requires
        !tracks(uploads, id),
    ensures
        !tracks(with_outcome(uploads, other_id, status, url, message), id),
{
    let r = with_outcome(uploads, other_id, status, url, message);
    if tracks(r, id) {
        let i = choose|i: int| 0 <= i < r.len() && #[trigger] r[i].id == id;
        assert(uploads[i].id == id);
    }
}

/// Clearing an id whose upload has finished leaves no upload with that id, and
/// later outcomes do not bring it back (see `lemma_absent_id_stays_absent`).
pub proof fn lemma_cleared_id_is_gone(uploads: Seq<EntryView>, ids: Seq<u64>, id: u64)
    requires
        ids.contains(id),
        forall|i: int|
            0 <= i < uploads.len() && #[trigger] uploads[i].id == id ==> uploads[i].status
                != UploadStatus::Uploading,
    ensures
        !tracks(after_clear(uploads, ids), id),
{
    lemma_clear_keeps_active(uploads, ids);
    let f = after_clear(uploads, ids);
    if tracks(f, id) {
        let k = choose|k: int| 0 <= k < f.len() && #[trigger] f[k].id == id;
        assert(f.contains(f[k]));
        let a = choose|a: int| 0 <= a < uploads.len() && uploads[a] == f[k];
        assert(uploads[a].id == id);
    }
}

/// When the queued uploads `ids` (all different) end one after the other with
/// `outcomes`, each tracked upload with a queued id ends with that id's outcome,
/// and every other upload stays as it was; the number, order, ids and names of the
/// uploads do not change.
pub proof fn lemma_outcomes_in_queue_order(
    uploads: Seq<EntryView>,
    ids: Seq<u64>,
    outcomes: Seq<Result<Seq<char>, Seq<char>>>,
)
    requires
        ids.len() == outcomes.len(),
        ids.no_duplicates(),
    ensures
        apply_outcomes(uploads, ids, outcomes).len() == uploads.len(),
        forall|k: int, j: int|
            0 <= k < uploads.len() && 0 <= j < ids.len() && uploads[k].id == ids[j]
                ==> #[trigger] apply_outcomes(uploads, ids, outcomes)[k] == finished(
                uploads[k],
                #[trigger] outcomes[j],
            ),
        forall|k: int|
            0 <= k < uploads.len() && !ids.contains(uploads[k].id) ==> #[trigger] apply_outcomes(
                uploads,
                ids,
                outcomes,
            )[k] == uploads[k],
    decreases ids.len(),
{
    if ids.len() > 0 {
        let u1 = outcome_of(uploads, ids[0], outcomes[0]);
        let rest_ids = ids.drop_first();
        let rest_outcomes = outcomes.drop_first();
        assert(rest_ids.no_duplicates()) by {
            assert forall|a: int, b: int| 0 <= a < rest_ids.len() && 0 <= b < rest_ids.len() && a != b implies rest_ids[a] != rest_ids[b] by {
                assert(rest_ids[a] == ids[a + 1]);
                assert(rest_ids[b] == ids[b + 1]);
            }
        }
        lemma_outcomes_in_queue_order(u1, rest_ids, rest_outcomes);
        let r = apply_outcomes(uploads, ids, outcomes);
        assert(r == apply_outcomes(u1, rest_ids, rest_outcomes));
        assert(u1.len() == uploads.len());
        assert forall|k: int| 0 <= k < uploads.len() implies #[trigger] u1[k] == (if uploads[k].id
            == ids[0] {
            finished(uploads[k], outcomes[0])
        } else {
            uploads[k]
        }) by {}
        assert forall|k: int, j: int|
            0 <= k < uploads.len() && 0 <= j < ids.len() && uploads[k].id == ids[j] implies #[trigger] r[k]
            == finished(uploads[k], #[trigger] outcomes[j]) by {
            if j == 0 {
                assert(u1[k] == finished(uploads[k], outcomes[0]));
                assert(u1[k].id == ids[0]);
                if rest_ids.contains(ids[0]) {
                    let b = choose|b: int| 0 <= b < rest_ids.len() && rest_ids[b] == ids[0];
                    assert(ids[b + 1] == ids[0]);
                }
            } else {
                assert(ids[j] != ids[0]);
                assert(u1[k] == uploads[k]);
                assert(rest_ids[j - 1] == ids[j]);
                assert(rest_outcomes[j - 1] == outcomes[j]);
            }
        }
        assert forall|k: int|
            0 <= k < uploads.len() && !ids.contains(uploads[k].id) implies #[trigger] r[k]
            == uploads[k] by {
            assert(uploads[k].id != ids[0]);
            assert(u1[k] == uploads[k]);
            if rest_ids.contains(u1[k].id) {
                let b = choose|b: int| 0 <= b < rest_ids.len() && rest_ids[b] == u1[k].id;
                assert(ids[b + 1] == uploads[k].id);
            }
        }
    }
}

/// Filtering by `p` and then by `q` is filtering by both.
pub proof fn lemma_filter_twice(
    s: Seq<EntryView>,
    p: spec_fn(EntryView) -> bool,
    q: spec_fn(EntryView) -> bool,
)
    ensures
        s.filter(p).filter(q) == s.filter(|e: EntryView| p(e) && q(e)),
    decreases s.len(),
{
    reveal(Seq::filter);
    if s.len() > 0 {
        let rest = s.drop_last();
        let e = s.last();
        lemma_filter_twice(rest, p, q);
        if p(e) {
            assert(rest.filter(p).push(e).drop_last() =~= rest.filter(p));
            assert(rest.filter(p).push(e).last() == e);
        }
    }
}

/// Clearing `a` and then `b` is the same as clearing `b` and then `a`, and the same
/// as clearing both lists at once.
pub proof fn lemma_clears_combine(uploads: Seq<EntryView>, a: Seq<u64>, b: Seq<u64>)
    ensures
        after_clear(after_clear(uploads, a), b) == after_clear(uploads, a + b),
        after_clear(after_clear(uploads, a), b) == after_clear(after_clear(uploads, b), a),
{
    let ka = |e: EntryView| !is_cleared(a, e);
    let kb = |e: EntryView| !is_cleared(b, e);
    let kab = |e: EntryView| !is_cleared(a + b, e);
    lemma_filter_twice(uploads, ka, kb);
    lemma_filter_twice(uploads, kb, ka);
    assert forall|e: EntryView| #[trigger] kab(e) == (ka(e) && kb(e)) by {
        if (a + b).contains(e.id) {
            let i = choose|i: int| 0 <= i < (a + b).len() && (a + b)[i] == e.id;
            if i < a.len() {
                assert(a[i] == e.id);
            } else {
                assert(b[i - a.len()] == e.id);
            }
        }
        if a.contains(e.id) {
            let i = choose|i: int| 0 <= i < a.len() && a[i] == e.id;
            assert((a + b)[i] == e.id);
        }
        if b.contains(e.id) {
            let i = choose|i: int| 0 <= i < b.len() && b[i] == e.id;
            assert((a + b)[a.len() + i] == e.id);
        }
    }
    assert(kab =~= (|e: EntryView| ka(e) && kb(e)));
    assert((|e: EntryView| ka(e) && kb(e)) =~= (|e: EntryView| kb(e) && ka(e)));
}

} // verus!
