//! The directory scan: which entries are candidates, and the task that
//! walks them one by one and reports progress.
//!
//! The runtime lists the directory and reads the files. The task decides
//! what is read next, whether a cancellation stops the scan, which files
//! make it into the result, and what each progress event says.

use vstd::prelude::*;
use crate::media::{describes, parse_mp4_info, FileInfoView, HeaderInfo, Mp4FileInfo, file_views};
use crate::text::{ascii_lower, chars_of, push_str, string_of, to_ascii_lower};

verus! {

/// One entry of a directory listing.
#[derive(Clone, Debug, PartialEq, Eq)]
pub struct DirEntry {
    pub path: String,
    /// The entry's name, where it is valid text.
    pub file_name: Option<String>,
    /// The entry is a regular file.
    pub is_file: bool,
}

/// Progress of a scan: `current` of `total` candidates are done, and
/// `current_file` names the one that was done last.
#[derive(Clone, Debug, PartialEq, Eq)]
pub struct ScanProgress {
    pub current: usize,
    pub total: usize,
    pub current_file: String,
}

/// A progress event with its text as a sequence of characters.
pub struct ProgressView {
    pub current: nat,
    pub total: nat,
    pub current_file: Seq<char>,
}

impl View for ScanProgress {
    type V = ProgressView;

    open spec fn view(&self) -> ProgressView {
        ProgressView {
            current: self.current as nat,
            total: self.total as nat,
            current_file: self.current_file@,
        }
    }
}

impl Default for ScanProgress {
    /// The progress before anything has been scanned.
    fn default() -> (progress: ScanProgress)
        ensures
            progress@ == empty_scan_event(),
    {
        ScanProgress { current: 0, total: 0, current_file: String::new() }
    }
}

impl ScanProgress {
    /// The share of the candidates that is done, in whole percent rounded
    /// down; zero when there are no candidates.
    pub open spec fn percent_spec(&self) -> nat {
        if self.total == 0 {
            0
        } else if self.current as nat * 100 / self.total as nat > u32::MAX {
            u32::MAX as nat
        } else {
            self.current as nat * 100 / self.total as nat
        }
    }

    /// The share of the candidates that is done, in whole percent.
    pub fn percent(&self) -> (percent: u32)
        ensures
            percent == self.percent_spec(),
    {
        if self.total == 0 {
            0
        } else {
            let share: u128 = (self.current as u128) * 100 / (self.total as u128);
            if share > u32::MAX as u128 {
                u32::MAX
            } else {
                share as u32
            }
        }
    }

    /// How many candidates are still to be done.
    pub fn remaining(&self) -> (left: usize)
        ensures
            left == if self.current <= self.total {
                self.total - self.current
            } else {
                0
            },
    {
        if self.current <= self.total {
            self.total - self.current
        } else {
            0
        }
    }
}

/// `name` has the extension `mp4`, in any mix of upper and lower case. A
/// name has an extension when a dot that is not its first character is
/// followed by the rest of the name; so the name is longer than `.mp4` and
/// ends in it.
pub open spec fn is_mp4_name(name: Seq<char>) -> bool {
    let n = name.len() as int;
    &&& n > 4
    &&& name[n - 4] == '.'
    &&& ascii_lower(name[n - 3]) == 'm'
    &&& ascii_lower(name[n - 2]) == 'p'
    &&& name[n - 1] == '4'
}

/// An entry is scanned: it is a regular file whose name has the extension
/// `mp4`.
pub open spec fn is_candidate(entry: DirEntry) -> bool {
    entry.is_file && entry.file_name is Some && is_mp4_name(entry.file_name->0@)
}

/// The candidates among `entries`, in the order of the listing.
pub open spec fn candidates_of(entries: Seq<DirEntry>) -> Seq<DirEntry> {
    entries.filter(|entry: DirEntry| is_candidate(entry))
}

/// What the runtime read of one candidate.
pub struct FileFacts {
    pub size: u64,
    /// When the file was last modified, in seconds since the Unix epoch.
    pub modified: Option<u64>,
    pub header: HeaderInfo,
}

/// What the task wants next.
#[derive(Clone, Copy, Debug, PartialEq, Eq, Structural)]
pub enum ScanCommand {
    /// Read the candidate at this position and hand in what was read.
    Parse(usize),
    /// The scan is over; take the files.
    Finish,
}

/// The state of a scan as mathematics.
pub struct ScanModel {
    /// The candidates, in the order of the listing.
    pub candidates: Seq<DirEntry>,
    /// For each candidate that is done, the file it gave, if it gave one.
    pub outcomes: Seq<Option<FileInfoView>>,
    /// The scan has ended, by cancellation or because nothing was left.
    pub finished: bool,
    /// The scan has ended by cancellation, with candidates left.
    pub cancelled: bool,
}

/// The files among `outcomes`, in order.
pub open spec fn accepted(outcomes: Seq<Option<FileInfoView>>) -> Seq<FileInfoView>
    decreases outcomes.len(),
{
    if outcomes.len() == 0 {
        Seq::<FileInfoView>::empty()
    } else {
        match outcomes.last() {
            Some(file) => accepted(outcomes.drop_last()).push(file),
            None => accepted(outcomes.drop_last()),
        }
    }
}

/// The one event of a scan that has no candidates.
pub open spec fn empty_scan_event() -> ProgressView {
    ProgressView { current: 0, total: 0, current_file: Seq::<char>::empty() }
}

/// The event for the candidate at position `k`.
pub open spec fn file_event(candidates: Seq<DirEntry>, k: int) -> ProgressView {
    ProgressView {
        current: (k + 1) as nat,
        total: candidates.len(),
        current_file: candidates[k].file_name->0@,
    }
}

impl ScanModel {
    /// How many candidates are done.
    pub open spec fn processed(self) -> nat {
        self.outcomes.len()
    }

    /// The events that the scan has emitted so far: one for each candidate
    /// that is done. A scan without candidates emits one event, which says
    /// so.
    pub open spec fn events(self) -> Seq<ProgressView> {
        if self.candidates.len() == 0 {
            seq![empty_scan_event()]
        } else {
            Seq::new(self.processed(), |k: int| file_event(self.candidates, k))
        }
    }

    /// The files that the scan has found so far.
    pub open spec fn files(self) -> Seq<FileInfoView> {
        accepted(self.outcomes)
    }

    /// What holds of every state that a scan can reach.
    pub open spec fn inv(self) -> bool {
        &&& self.processed() <= self.candidates.len()
        &&& forall|k: int|
            0 <= k < self.candidates.len() ==> is_candidate(#[trigger] self.candidates[k])
        &&& self.cancelled ==> self.finished && self.processed() < self.candidates.len()
    }

    /// The file that candidate `k` gives when `facts` were read of it.
    pub open spec fn gives(
        self,
        k: int,
        facts: Option<FileFacts>,
        outcome: Option<FileInfoView>,
    ) -> bool {
        match facts {
            Some(read) => if read.header.timescale == 0 {
                outcome is None
            } else {
                &&& outcome is Some
                &&& outcome->0.file_path == self.candidates[k].path@
                &&& outcome->0.file_name == self.candidates[k].file_name->0@
                &&& outcome->0.size == read.size
                &&& outcome->0.modified == read.modified
                &&& describes(outcome->0, read.header)
            },
            None => outcome is None,
        }
    }
}

/// The view of what a candidate gave.
pub open spec fn outcome_view(parsed: Option<Mp4FileInfo>) -> Option<FileInfoView> {
    match parsed {
        Some(file) => Some(file@),
        None => None,
    }
}

/// A scan of one directory.
pub struct ScanTask {
    candidates: Vec<DirEntry>,
    files: Vec<Mp4FileInfo>,
    processed: usize,
    finished: bool,
    cancelled: bool,
    outcomes: Ghost<Seq<Option<FileInfoView>>>,
}

impl View for ScanTask {
    type V = ScanModel;

    closed spec fn view(&self) -> ScanModel {
        ScanModel {
            candidates: self.candidates@,
            outcomes: self.outcomes@,
            finished: self.finished,
            cancelled: self.cancelled,
        }
    }
}

/// Whether `name` has the extension `mp4`, in any mix of upper and lower
/// case.
pub fn has_mp4_extension(name: &str) -> (yes: bool)
    ensures
        yes == is_mp4_name(name@),
{
    let chars = chars_of(name);
    let n: usize = chars.len();
    n > 4 && chars[n - 4] == '.' && to_ascii_lower(chars[n - 3]) == 'm' && to_ascii_lower(
        chars[n - 2],
    ) == 'p' && chars[n - 1] == '4'
}

/// Whether an entry is scanned.
pub fn entry_is_candidate(entry: &DirEntry) -> (yes: bool)
    ensures
        yes == is_candidate(*entry),
{
    if !entry.is_file {
        return false;
    }
    match &entry.file_name {
        Some(name) => has_mp4_extension(name.as_str()),
        None => false,
    }
}

/// The candidates among the entries of a listing, in the listing's order.
pub fn select_candidates(entries: Vec<DirEntry>) -> (candidates: Vec<DirEntry>)
    ensures
        candidates@ == candidates_of(entries@),
        forall|k: int| 0 <= k < candidates@.len() ==> is_candidate(#[trigger] candidates@[k]),
{
    let ghost all = entries@;
    let ghost pred = |entry: DirEntry| is_candidate(entry);
    let mut candidates: Vec<DirEntry> = Vec::new();
    proof {
        assert(all.take(0) =~= Seq::<DirEntry>::empty());
        reveal(Seq::filter);
    }
    for entry in it: entries
        invariant
            it.seq() == all,
            pred == |entry: DirEntry| is_candidate(entry),
            candidates@ == all.take(it.index() as int).filter(pred),
            forall|k: int| 0 <= k < candidates@.len() ==> is_candidate(#[trigger] candidates@[k]),
    {
        proof {
            let k = it.index() as int;
            assert(all.take(k + 1).drop_last() =~= all.take(k));
            assert(all.take(k + 1).last() == entry);
            reveal(Seq::filter);
        }
        if entry_is_candidate(&entry) {
            candidates.push(entry);
        }
    }
    proof {
        assert(all.take(all.len() as int) =~= all);
    }
    candidates
}

impl ScanTask {
    /// The task's state is one that a scan can reach.
    pub closed spec fn wf(&self) -> bool {
        &&& self@.inv()
        &&& self.processed == self.outcomes@.len()
        &&& file_views(self.files@) == accepted(self.outcomes@)
    }

    /// The state of a task is one that a scan can reach.
    pub proof fn lemma_reachable(&self)
        requires
            self.wf(),
        ensures
            self@.inv(),
    {
    }

    /// Begins a scan of a directory with these entries. Returns the task
    /// and, where the directory has no candidates, the one event of such a
    /// scan.
    pub fn start(entries: Vec<DirEntry>) -> (out: (ScanTask, Option<ScanProgress>))
        ensures
            out.0.wf(),
            out.0@.candidates == candidates_of(entries@),
            out.0@.outcomes.len() == 0,
            !out.0@.finished,
            !out.0@.cancelled,
            out.1 is Some <==> out.0@.candidates.len() == 0,
            out.1 matches Some(event) ==> event@ == empty_scan_event(),
            out.0@.events() == match out.1 {
                Some(event) => seq![event@],
                None => Seq::<ProgressView>::empty(),
            },
    {
        let candidates = select_candidates(entries);
        let progress = if candidates.len() == 0 {
            Some(ScanProgress::default())
        } else {
            None
        };
        let task = ScanTask {
            candidates,
            files: Vec::new(),
            processed: 0,
            finished: false,
            cancelled: false,
            outcomes: Ghost(Seq::empty()),
        };
        proof {
            assert(file_views(task.files@) =~= accepted(task.outcomes@));
            assert(task@.events() =~= match progress {
                Some(event) => seq![event@],
                None => Seq::<ProgressView>::empty(),
            });
        }
        (task, progress)
    }

    /// How many candidates there are.
    pub fn total(&self) -> (total: usize)
        ensures
            total == self@.candidates.len(),
    {
        self.candidates.len()
    }

    /// How many candidates are done.
    pub fn processed(&self) -> (done: usize)
        requires
            self.wf(),
        ensures
            done == self@.processed(),
    {
        self.processed
    }

    /// Whether the scan has ended.
    pub fn is_finished(&self) -> (finished: bool)
        ensures
            finished == self@.finished,
    {
        self.finished
    }

    /// The candidate at `index`.
    pub fn candidate(&self, index: usize) -> (entry: &DirEntry)
        requires
            index < self@.candidates.len(),
        ensures
            *entry == self@.candidates[index as int],
    {
        &self.candidates[index]
    }

    /// Whether the scan has ended by cancellation.
    pub fn is_cancelled(&self) -> (cancelled: bool)
        ensures
            cancelled == self@.cancelled,
    {
        self.cancelled
    }

    /// Says what to do next. `cancel_requested` is the cancellation flag as
    /// it stands now: it is looked at before each candidate, and a scan that
    /// sees it set ends there, cancelled. A scan with no candidate left ends
    /// without looking at the flag. Once ended, a scan stays as it ended.
    pub fn next(&mut self, cancel_requested: bool) -> (command: ScanCommand)
        requires
            old(self).wf(),
        ensures
            final(self).wf(),
            final(self)@.candidates == old(self)@.candidates,
            final(self)@.outcomes == old(self)@.outcomes,
            final(self)@.finished == (old(self)@.finished || cancel_requested || old(
                self,
            )@.processed() == old(self)@.candidates.len()),
            final(self)@.cancelled == (old(self)@.cancelled || (!old(self)@.finished
                && cancel_requested && old(self)@.processed() < old(self)@.candidates.len())),
            command == if final(self)@.finished {
                ScanCommand::Finish
            } else {
                ScanCommand::Parse(old(self)@.processed() as usize)
            },
    {
        if self.finished {
            ScanCommand::Finish
        } else if self.processed == self.candidates.len() {
            self.finished = true;
            ScanCommand::Finish
        } else if cancel_requested {
            self.finished = true;
            self.cancelled = true;
            ScanCommand::Finish
        } else {
            ScanCommand::Parse(self.processed)
        }
    }

    /// Takes what was read of the next candidate, `None` when it could not
    /// be read or parsed. A candidate that gives no file is left out of the
    /// result and the scan goes on. Returns the progress event for the
    /// candidate; `None`, and nothing changes, when the scan has ended or
    /// no candidate is left.
    pub fn record(&mut self, facts: Option<FileFacts>) -> (progress: Option<ScanProgress>)
        requires
            old(self).wf(),
        ensures
            final(self).wf(),
            final(self)@.candidates == old(self)@.candidates,
            final(self)@.finished == old(self)@.finished,
            final(self)@.cancelled == old(self)@.cancelled,
            progress is Some <==> !old(self)@.finished && old(self)@.processed() < old(
                self,
            )@.candidates.len(),
            progress is None ==> final(self)@ == old(self)@,
            progress matches Some(event) ==> {
                &&& final(self)@.outcomes.len() == old(self)@.outcomes.len() + 1
                &&& final(self)@.outcomes.drop_last() == old(self)@.outcomes
                &&& old(self)@.gives(
                    old(self)@.processed() as int,
                    facts,
                    final(self)@.outcomes.last(),
                )
                &&& event@ == file_event(old(self)@.candidates, old(self)@.processed() as int)
                &&& final(self)@.events() == old(self)@.events().push(event@)
            },
    {
        if self.finished || self.processed >= self.candidates.len() {
            return None;
        }
        let index: usize = self.processed;
        let ghost before = self@;
        let name = match &self.candidates[index].file_name {
            Some(name) => name.clone(),
            None => String::new(),
        };
        let parsed: Option<Mp4FileInfo> = match facts {
            Some(read) => match parse_mp4_info(
                self.candidates[index].path.clone(),
                Some(name.clone()),
                read.size,
                read.modified,
                &read.header,
            ) {
                Ok(file) => Some(file),
                Err(_) => None,
            },
            None => None,
        };
        let ghost outcome: Option<FileInfoView> = outcome_view(parsed);
        let ghost old_files = self.files@;
        match parsed {
            Some(file) => {
                self.files.push(file);
            },
            None => {},
        }
        self.processed = index + 1;
        self.outcomes = Ghost(self.outcomes@.push(outcome));
        proof {
            let log = self.outcomes@;
            assert(log.drop_last() =~= before.outcomes);
            assert(log.last() == outcome);
            assert(file_views(self.files@) =~= accepted(log));
            assert(self@.events() =~= before.events().push(
                file_event(before.candidates, index as int),
            ));
        }
        Some(ScanProgress { current: index + 1, total: self.candidates.len(), current_file: name })
    }

    /// The files found so far, in the order of their candidates.
    pub fn files(&self) -> (files: &Vec<Mp4FileInfo>)
        requires
            self.wf(),
        ensures
            file_views(files@) == self@.files(),
    {
        &self.files
    }

    /// The event that ends the scan's stream when the scan did not run to
    /// its end: the error `cancelled` for a scan that was cancelled.
    pub fn terminal_error(&self) -> (message: Option<String>)
        ensures
            message is Some <==> self@.cancelled,
            message matches Some(text) ==> text@ == "cancelled"@,
    {
        if self.cancelled {
            Some(String::from_str("cancelled"))
        } else {
            None
        }
    }

    /// Ends the task and hands over the files that were found.
    pub fn into_files(self) -> (files: Vec<Mp4FileInfo>)
        requires
            self.wf(),
        ensures
            file_views(files@) == self@.files(),
    {
        self.files
    }
}

/// The error that ends the stream of a scan whose directory could not be
/// listed.
pub fn listing_failed(reason: &str) -> (message: String)
    ensures
        message@ == "无法读取目录: "@ + reason@,
{
    let mut chars: Vec<char> = Vec::new();
    push_str(&mut chars, "无法读取目录: ");
    push_str(&mut chars, reason);
    string_of(&chars)
}

/// An earlier state of the same scan: the same candidates, and the
/// outcomes of `earlier` are the first outcomes of `later`.
pub open spec fn scan_extends(earlier: ScanModel, later: ScanModel) -> bool {
    &&& earlier.candidates == later.candidates
    &&& earlier.outcomes.len() <= later.outcomes.len()
    &&& forall|k: int|
        0 <= k < earlier.outcomes.len() ==> #[trigger] earlier.outcomes[k] == later.outcomes[k]
}

/// The events of a scan name its candidates, in the order of the listing,
/// one event each, up to the point where the scan stands or was cancelled.
/// A scan without candidates is left out: its one event names no file.
pub proof fn lemma_events_name_candidates(m: ScanModel)
    requires
        m.inv(),
        m.candidates.len() > 0,
    ensures
        m.events().len() == m.processed(),
        forall|k: int|
            0 <= k < m.processed() ==> (#[trigger] m.events()[k]).current_file
                == m.candidates[k].file_name->0@,
{
}

/// Within a scan, `current` never decreases from one event to the next,
/// never exceeds `total`, and `total` is the same in every event.
pub proof fn lemma_progress_is_ordered(m: ScanModel, i: int, j: int)
    requires
        m.inv(),
        0 <= i <= j < m.events().len(),
    ensures
        m.events()[i].current <= m.events()[j].current <= m.events()[j].total,
        m.events()[i].total == m.events()[j].total,
{
}

/// The files among fewer outcomes are the first of the files among more.
pub proof fn lemma_accepted_prefix(
    shorter: Seq<Option<FileInfoView>>,
    longer: Seq<Option<FileInfoView>>,
)
    requires
        shorter.len() <= longer.len(),
        forall|k: int| 0 <= k < shorter.len() ==> #[trigger] shorter[k] == longer[k],
    ensures
        accepted(shorter).len() <= accepted(longer).len(),
        forall|k: int|
            0 <= k < accepted(shorter).len() ==> #[trigger] accepted(shorter)[k] == accepted(
                longer,
            )[k],
    decreases longer.len(),
{
    if shorter.len() == longer.len() {
        assert(shorter =~= longer);
    } else {
        lemma_accepted_prefix(shorter, longer.drop_last());
    }
}

/// A scan that was cancelled returns the first files of what the same scan
/// returns when it is left to run.
pub proof fn lemma_cancelled_result_is_prefix(cancelled: ScanModel, complete: ScanModel)
    requires
        scan_extends(cancelled, complete),
    ensures
        cancelled.files().len() <= complete.files().len(),
        forall|k: int|
            0 <= k < cancelled.files().len() ==> #[trigger] cancelled.files()[k]
                == complete.files()[k],
{
    lemma_accepted_prefix(cancelled.outcomes, complete.outcomes);
}

} // verus!
