//! Decisions of the indexing actor: which asset roots are indexed, queued or refused, what it
//! reports to the scheduler, and when it stops; and the directory bookkeeping of one indexing
//! run.
//!
//! The driver performs the work (spawning indexing runs, sending messages) and hands back
//! what happened.
use vstd::prelude::*;

use crate::config::{path_components, path_components_of, path_skipped_spec, texts, PathFilter};
use crate::model::{AssetId, AssetRootDirId};

verus! {

/// Most asset roots indexed at once.
pub const MAX_TASKS: usize = 4;

/// Most indexing requests waiting.
pub const MAX_QUEUE_SIZE: usize = 10;

/// A message from the indexing actor (or one of its indexing runs) to the scheduler.
#[derive(Debug)]
pub enum MsgFromIndexing {
    ActivityChange { running_tasks: usize, queued_tasks: usize },
    DroppedMessage,
    NewAsset(AssetId),
    IndexingError { root_dir_id: AssetRootDirId, path: Option<String>, report: eyre::Report },
    IndexingComplete { root_dir_id: AssetRootDirId },
    FailedToStartIndexing { root_dir_id: AssetRootDirId, report: eyre::Report },
    IndexingCancelled { root_dir_id: AssetRootDirId },
}

/// A request to index an asset root.
#[derive(Debug, Clone, Copy, PartialEq, Eq, Structural)]
pub enum DoTaskMsg {
    IndexAssetRootDir { root_dir_id: AssetRootDirId },
}

/// A message to the indexing actor.
#[derive(Debug, Clone, Copy, PartialEq, Eq, Structural)]
pub enum MsgToIndexing {
    Pause,
    Resume,
    Shutdown,
    DoTask(DoTaskMsg),
}

/// A report of the actor's own to the scheduler.
#[derive(Debug, Clone, Copy, PartialEq, Eq, Structural)]
pub enum IndexingNotice {
    ActivityChange { running_tasks: usize, queued_tasks: usize },
    DroppedMessage,
}

/// What the driver does after an event.
#[derive(Debug, Clone, PartialEq, Eq)]
pub struct ActorStep {
    /// Reports to send to the scheduler, in order.
    pub notices: Vec<IndexingNotice>,
    /// An asset root to start indexing; the driver reports the outcome with
    /// [`IndexingActor::on_start_result`] before the next event.
    pub start: Option<AssetRootDirId>,
    /// Whether the message from the indexing run is passed on to the scheduler.
    pub forward: bool,
    /// Whether the actor stops.
    pub exit: bool,
}

/// State of the indexing actor.
#[derive(Debug, Clone, PartialEq, Eq)]
pub struct IndexingActor {
    /// Whether new requests start indexing (else they wait).
    pub is_running: bool,
    /// Whether the actor is shutting down and its runs are cancelled.
    pub cancelled: bool,
    /// Asset roots being indexed.
    pub running_tasks: Vec<AssetRootDirId>,
    /// Requests waiting.
    pub queue: Vec<DoTaskMsg>,
    /// The asset root whose start the driver has still to report.
    pub pending_start: Option<AssetRootDirId>,
}

/// Whether `msg` ends an indexing run of `root_dir_id`'s kind: completion, cancellation or a
/// failure to start.
pub open spec fn ends_run(msg: MsgFromIndexing) -> bool {
    msg is IndexingComplete || msg is IndexingCancelled || msg is FailedToStartIndexing
}

impl IndexingActor {
    /// The actor's invariant: no root runs twice, at most [`MAX_TASKS`] run or are starting,
    /// at most [`MAX_QUEUE_SIZE`] requests wait.
    pub open spec fn wf(&self) -> bool {
        &&& self.running_tasks@.no_duplicates()
        &&& self.running_tasks@.len() + (if self.pending_start is Some { 1int } else { 0int })
            <= MAX_TASKS
        &&& self.queue@.len() <= MAX_QUEUE_SIZE
        &&& self.pending_start matches Some(r) ==> !self.running_tasks@.contains(r)
    }

    /// An actor that runs, with nothing running or waiting.
    pub fn new() -> (a: Self)
        ensures
            a.wf(),
            a.is_running,
            !a.cancelled,
            a.running_tasks@.len() == 0,
            a.queue@.len() == 0,
            a.pending_start is None,
    {
        IndexingActor {
            is_running: true,
            cancelled: false,
            running_tasks: Vec::new(),
            queue: Vec::new(),
            pending_start: None,
        }
    }

    fn is_indexing(&self, root: AssetRootDirId) -> (b: bool)
        ensures
            b == self.running_tasks@.contains(root),
    {
        let mut i: usize = 0;
        while i < self.running_tasks.len()
            invariant
                i <= self.running_tasks@.len(),
                forall|k: int| 0 <= k < i ==> self.running_tasks@[k] != root,
            decreases self.running_tasks@.len() - i,
        {
            if self.running_tasks[i] == root {
                return true;
            }
            i = i + 1;
        }
        false
    }

    /// Handles a message to the actor.
    ///
    /// `Shutdown` stops new work and cancels the runs, and the actor stops at once when none
    /// runs. `Pause` and `Resume` switch whether requests start. A request starts (after an
    /// activity report) when the actor runs and fewer than [`MAX_TASKS`] roots are indexed,
    /// unless the actor is shutting down or the root is indexed already; otherwise it waits
    /// when fewer than [`MAX_QUEUE_SIZE`] wait (then reported), and is dropped (and reported)
    /// otherwise.
    pub fn on_control(&mut self, msg: MsgToIndexing) -> (step: ActorStep)
        requires
            old(self).wf(),
            old(self).pending_start is None,
        ensures
            final(self).wf(),
            !step.forward,
            final(self).pending_start == step.start,
            final(self).running_tasks == old(self).running_tasks,
            match msg {
                MsgToIndexing::Shutdown => {
                    &&& !final(self).is_running
                    &&& final(self).cancelled
                    &&& final(self).queue == old(self).queue
                    &&& step.notices@.len() == 0
                    &&& step.start is None
                    &&& step.exit == (old(self).running_tasks@.len() == 0)
                },
                MsgToIndexing::Pause => {
                    &&& !final(self).is_running
                    &&& final(self).cancelled == old(self).cancelled
                    &&& final(self).queue == old(self).queue
                    &&& step.notices@.len() == 0 && step.start is None && !step.exit
                },
                MsgToIndexing::Resume => {
                    &&& final(self).is_running
                    &&& final(self).cancelled == old(self).cancelled
                    &&& final(self).queue == old(self).queue
                    &&& step.notices@.len() == 0 && step.start is None && !step.exit
                },
                MsgToIndexing::DoTask(task) => {
                    let root = match task {
                        DoTaskMsg::IndexAssetRootDir { root_dir_id } => root_dir_id,
                    };
                    &&& final(self).is_running == old(self).is_running
                    &&& final(self).cancelled == old(self).cancelled
                    &&& !step.exit
                    &&& if old(self).is_running && old(self).running_tasks@.len() < MAX_TASKS {
                        &&& final(self).queue == old(self).queue
                        &&& step.notices@ == seq![
                            IndexingNotice::ActivityChange {
                                running_tasks: old(self).running_tasks@.len() as usize,
                                queued_tasks: old(self).queue@.len() as usize,
                            },
                        ]
                        &&& step.start == (if old(self).cancelled || old(
                            self,
                        ).running_tasks@.contains(root) {
                            None
                        } else {
                            Some(root)
                        })
                    } else if old(self).queue@.len() < MAX_QUEUE_SIZE {
                        &&& final(self).queue@ == old(self).queue@.push(task)
                        &&& step.notices@ == seq![
                            IndexingNotice::ActivityChange {
                                running_tasks: old(self).running_tasks@.len() as usize,
                                queued_tasks: (old(self).queue@.len() + 1) as usize,
                            },
                        ]
                        &&& step.start is None
                    } else {
                        &&& final(self).queue == old(self).queue
                        &&& step.notices@ == seq![IndexingNotice::DroppedMessage]
                        &&& step.start is None
                    }
                },
            },
    {
        match msg {
            MsgToIndexing::Shutdown => {
                self.is_running = false;
                self.cancelled = true;
                ActorStep {
                    notices: Vec::new(),
                    start: None,
                    forward: false,
                    exit: self.running_tasks.len() == 0,
                }
            },
            MsgToIndexing::Pause => {
                self.is_running = false;
                ActorStep { notices: Vec::new(), start: None, forward: false, exit: false }
            },
            MsgToIndexing::Resume => {
                self.is_running = true;
                ActorStep { notices: Vec::new(), start: None, forward: false, exit: false }
            },
            MsgToIndexing::DoTask(task) => {
                if self.is_running && self.running_tasks.len() < MAX_TASKS {
                    let notices = vec![
                        IndexingNotice::ActivityChange {
                            running_tasks: self.running_tasks.len(),
                            queued_tasks: self.queue.len(),
                        },
                    ];
                    let DoTaskMsg::IndexAssetRootDir { root_dir_id } = task;
                    let start = if self.cancelled || self.is_indexing(root_dir_id) {
                        None
                    } else {
                        Some(root_dir_id)
                    };
                    self.pending_start = start;
                    ActorStep { notices, start, forward: false, exit: false }
                } else if self.queue.len() < MAX_QUEUE_SIZE {
                    self.queue.push(task);
                    let notices = vec![
                        IndexingNotice::ActivityChange {
                            running_tasks: self.running_tasks.len(),
                            queued_tasks: self.queue.len(),
                        },
                    ];
                    ActorStep { notices, start: None, forward: false, exit: false }
                } else {
                    ActorStep {
                        notices: vec![IndexingNotice::DroppedMessage],
                        start: None,
                        forward: false,
                        exit: false,
                    }
                }
            },
        }
    }

    /// Records whether the indexing run of the pending root started; a root that started is
    /// indexed from now on. Returns the root whose start failed, to be reported.
    pub fn on_start_result(&mut self, started: bool) -> (failed: Option<AssetRootDirId>)
        requires
            old(self).wf(),
            old(self).pending_start is Some,
        ensures
            final(self).wf(),
            final(self).pending_start is None,
            final(self).is_running == old(self).is_running,
            final(self).cancelled == old(self).cancelled,
            final(self).queue == old(self).queue,
            started ==> final(self).running_tasks@ == old(self).running_tasks@.push(
                old(self).pending_start->0,
            ) && failed is None,
            !started ==> final(self).running_tasks == old(self).running_tasks && failed
                == old(self).pending_start,
    {
        let root = self.pending_start.unwrap();
        self.pending_start = None;
        if started {
            let ghost before = self.running_tasks@;
            self.running_tasks.push(root);
            proof {
                assert forall|a: int, b: int|
                    0 <= a < b < self.running_tasks@.len() implies self.running_tasks@[a]
                    != self.running_tasks@[b] by {
                    if b == before.len() {
                        assert(before[a] == self.running_tasks@[a]);
                    }
                }
            }
            None
        } else {
            Some(root)
        }
    }

    /// Handles a message from the indexing run of `root`. A message that ends the run takes
    /// the root out of the running ones and is preceded by an activity report; when the actor
    /// shuts down and no run is left, it stops without passing the message on. Every other
    /// message is passed on.
    pub fn on_subtask_msg(&mut self, root: AssetRootDirId, msg: &MsgFromIndexing) -> (step: ActorStep)
        requires
            old(self).wf(),
            old(self).pending_start is None,
            !(msg is ActivityChange),
        ensures
            final(self).wf(),
            final(self).pending_start is None,
            final(self).is_running == old(self).is_running,
            final(self).cancelled == old(self).cancelled,
            final(self).queue == old(self).queue,
            step.start is None,
            ends_run(*msg) ==> {
                &&& final(self).running_tasks@ == old(self).running_tasks@.remove_value(root)
                &&& step.notices@ == seq![
                    IndexingNotice::ActivityChange {
                        running_tasks: final(self).running_tasks@.len() as usize,
                        queued_tasks: old(self).queue@.len() as usize,
                    },
                ]
                &&& step.exit == (old(self).cancelled && final(self).running_tasks@.len() == 0)
                &&& step.forward == !step.exit
            },
            !ends_run(*msg) ==> final(self).running_tasks == old(self).running_tasks
                && step.notices@.len() == 0 && !step.exit && step.forward,
    {
        let ends = match msg {
            MsgFromIndexing::FailedToStartIndexing { .. } => true,
            MsgFromIndexing::IndexingComplete { .. } => true,
            MsgFromIndexing::IndexingCancelled { .. } => true,
            _ => false,
        };
        if !ends {
            return ActorStep { notices: Vec::new(), start: None, forward: true, exit: false };
        }
        self.remove_running(root);
        let notices = vec![
            IndexingNotice::ActivityChange {
                running_tasks: self.running_tasks.len(),
                queued_tasks: self.queue.len(),
            },
        ];
        let exit = self.cancelled && self.running_tasks.len() == 0;
        ActorStep { notices, start: None, forward: !exit, exit }
    }

    fn remove_running(&mut self, root: AssetRootDirId)
        requires
            old(self).wf(),
            old(self).pending_start is None,
        ensures
            final(self).wf(),
            final(self).running_tasks@ == old(self).running_tasks@.remove_value(root),
            final(self).pending_start is None,
            final(self).is_running == old(self).is_running,
            final(self).cancelled == old(self).cancelled,
            final(self).queue == old(self).queue,
    {
        let ghost s = self.running_tasks@;
        let mut i: usize = 0;
        while i < self.running_tasks.len()
            invariant
                self.running_tasks@ == s,
                s == old(self).running_tasks@,
                s.no_duplicates(),
                old(self).wf(),
                old(self).pending_start is None,
                self.queue == old(self).queue,
                self.pending_start == old(self).pending_start,
                self.is_running == old(self).is_running,
                self.cancelled == old(self).cancelled,
                i <= s.len(),
                forall|k: int| 0 <= k < i ==> s[k] != root,
            decreases s.len() - i,
        {
            if self.running_tasks[i] == root {
                self.running_tasks.remove(i);
                proof {
                    s.index_of_first_ensures(root);
                    assert(s.index_of_first(root) == Some(i as int));
                    assert(self.running_tasks@ == s.remove(i as int));
                    assert forall|a: int, b: int|
                        0 <= a < b < self.running_tasks@.len() implies self.running_tasks@[a]
                        != self.running_tasks@[b] by {
                        let a2 = if a < i { a } else { a + 1 };
                        let b2 = if b < i { b } else { b + 1 };
                        assert(self.running_tasks@[a] == s[a2]);
                        assert(self.running_tasks@[b] == s[b2]);
                    }
                }
                return;
            }
            i = i + 1;
        }
        proof {
            s.index_of_first_ensures(root);
            assert(s.remove_value(root) == s);
        }
    }
}

/// An actor in a consistent state indexes at most [`MAX_TASKS`] asset roots at once (counting
/// one whose start is pending), each at most once, and holds at most [`MAX_QUEUE_SIZE`]
/// waiting requests; every event handler keeps that state consistent.
pub proof fn lemma_indexing_bounds(a: IndexingActor)
    requires
        a.wf(),
    ensures
        a.running_tasks@.len() <= MAX_TASKS,
        a.queue@.len() <= MAX_QUEUE_SIZE,
        forall|i: int, j: int|
            0 <= i < j < a.running_tasks@.len() ==> a.running_tasks@[i] != a.running_tasks@[j],
{
}

// ---------------------------------------------------------------------------------------------
// Directory bookkeeping of one indexing run
// ---------------------------------------------------------------------------------------------

/// Whether the path `p` lies under the directory `dir` (both as path components).
pub open spec fn path_under(p: Seq<Seq<char>>, dir: Seq<Seq<char>>) -> bool {
    dir.len() <= p.len() && forall|i: int| 0 <= i < dir.len() ==> #[trigger] p[i] == dir[i]
}

/// Directories being walked, each with the number of new assets found directly in it, and the
/// number of new assets of the whole run.
#[derive(Debug, Clone, PartialEq, Eq)]
pub struct DirectoryWalk {
    pub stack: Vec<(Vec<String>, u64)>,
    pub new_asset_count: u64,
}

/// An entry that walking an asset root yields: a file, a directory, or an error while
/// listing. `utf8` tells whether the entry's path is valid UTF-8 (if not, `path` holds it with
/// the invalid parts replaced).
#[derive(Debug, Clone, PartialEq, Eq)]
pub enum WalkEntry {
    File { path: String, utf8: bool },
    Directory { path: String, utf8: bool },
    Error { path: Option<String> },
}

/// What the driver does with an entry of the walk.
#[derive(Debug, Clone, PartialEq, Eq)]
pub enum WalkAction {
    /// Leave the entry out, and for a directory everything under it.
    Skip,
    /// Stop the walk and report that it was cancelled.
    Cancel,
    /// Report an error while listing, at `path` if known.
    ReportError { path: Option<String> },
    /// Nothing to do.
    Ignore,
    /// Index the file.
    IndexFile,
    /// The directory was entered.
    Entered,
    /// The directory `dir` on top of the stack is complete, with `new_assets` new assets found
    /// directly in it; when there are some, the catalog's follow-up work runs.
    Completed { dir: Vec<String>, new_assets: u64 },
}

/// The path of an entry that the path filter sees (errors have none).
pub open spec fn entry_path(e: WalkEntry) -> Option<Seq<char>> {
    match e {
        WalkEntry::File { path, .. } => Some(path@),
        WalkEntry::Directory { path, .. } => Some(path@),
        WalkEntry::Error { .. } => None,
    }
}

/// Whether the walk with the path filter `filter` leaves the entry `e` out.
pub open spec fn entry_skipped(filter: &PathFilter, e: WalkEntry) -> bool {
    match entry_path(e) {
        Some(p) => path_skipped_spec(filter.excluded(), filter.included(), p),
        None => false,
    }
}

impl DirectoryWalk {
    /// A walk that has seen nothing.
    pub fn new() -> (w: Self)
        ensures
            w.stack@.len() == 0,
            w.new_asset_count == 0,
    {
        DirectoryWalk { stack: Vec::new(), new_asset_count: 0 }
    }

    /// Whether reaching the directory with components `comps` completes the directory on top of
    /// the stack: there is one, and `comps` is not under it.
    pub open spec fn completes_top(&self, comps: Seq<Seq<char>>) -> bool {
        self.stack@.len() > 0 && !path_under(comps, texts(self.stack@.last().0@))
    }

    /// Records that the walk reached the directory `path` (by components). When `path` is not
    /// under the directory on top of the stack, that directory is complete: it is taken off
    /// and returned with its count of new assets (and `path` is not pushed). Otherwise `path`
    /// is pushed.
    pub fn on_directory(&mut self, path: Vec<String>) -> (completed: Option<(Vec<String>, u64)>)
        ensures
            final(self).new_asset_count == old(self).new_asset_count,
            old(self).completes_top(texts(path@)) ==> {
                &&& completed == Some(old(self).stack@.last())
                &&& final(self).stack@ == old(self).stack@.drop_last()
            },
            !old(self).completes_top(texts(path@)) ==> {
                &&& completed is None
                &&& final(self).stack@ == old(self).stack@.push((path, 0u64))
            },
    {
        let n = self.stack.len();
        if n > 0 {
            let under = components_under(&path, &self.stack[n - 1].0);
            if !under {
                let top = self.stack.pop().unwrap();
                return Some(top);
            }
        }
        self.stack.push((path, 0));
        None
    }

    /// Records a new asset found in the directory on top of the stack. Both counts stop at
    /// `u64::MAX`.
    pub fn on_new_asset(&mut self)
        requires
            old(self).stack@.len() > 0,
        ensures
            final(self).new_asset_count == old(self).new_asset_count.saturating_add(1),
            final(self).stack@ == old(self).stack@.update(
                old(self).stack@.len() - 1,
                (old(self).stack@.last().0, old(self).stack@.last().1.saturating_add(1)),
            ),
    {
        self.new_asset_count = self.new_asset_count.saturating_add(1);
        let (dir, count) = self.stack.pop().unwrap();
        self.stack.push((dir, count.saturating_add(1)));
        proof {
            assert(self.stack@ =~= old(self).stack@.update(
                old(self).stack@.len() - 1,
                (old(self).stack@.last().0, old(self).stack@.last().1.saturating_add(1)),
            ));
        }
    }

    /// One entry of the walk of an asset root with the path filter `filter`; `cancelled`
    /// tells whether indexing was cancelled. In order: an entry the filter leaves out is
    /// skipped; else a cancelled walk stops; else an error
    /// is reported, a file is indexed (if its path is UTF-8), and a directory (if its path is
    /// UTF-8) is recorded as with [`DirectoryWalk::on_directory`].
    pub fn on_entry(&mut self, filter: &PathFilter, entry: WalkEntry, cancelled: bool) -> (a: WalkAction)
        ensures
            entry_skipped(filter, entry) ==> a == WalkAction::Skip && *final(self) == *old(self),
            !entry_skipped(filter, entry) && cancelled ==> a == WalkAction::Cancel && *final(self)
                == *old(self),
            !entry_skipped(filter, entry) && !cancelled ==> match entry {
                WalkEntry::Error { path } => a == (WalkAction::ReportError { path }) && *final(self)
                    == *old(self),
                WalkEntry::File { utf8, .. } => a == (if utf8 {
                    WalkAction::IndexFile
                } else {
                    WalkAction::Ignore
                }) && *final(self) == *old(self),
                WalkEntry::Directory { path, utf8 } => if !utf8 {
                    a == WalkAction::Ignore && *final(self) == *old(self)
                } else if old(self).completes_top(path_components_of(path@)) {
                    &&& a == (WalkAction::Completed {
                        dir: old(self).stack@.last().0,
                        new_assets: old(self).stack@.last().1,
                    })
                    &&& final(self).stack@ == old(self).stack@.drop_last()
                    &&& final(self).new_asset_count == old(self).new_asset_count
                } else {
                    &&& a == WalkAction::Entered
                    &&& final(self).stack@.drop_last() == old(self).stack@
                    &&& texts(final(self).stack@.last().0@) == path_components_of(path@)
                    &&& final(self).stack@.last().1 == 0
                    &&& final(self).new_asset_count == old(self).new_asset_count
                },
            },
    {
        let skipped = match &entry {
            WalkEntry::File { path, .. } => filter.is_skipped(path.as_str()),
            WalkEntry::Directory { path, .. } => filter.is_skipped(path.as_str()),
            WalkEntry::Error { .. } => false,
        };
        if skipped {
            return WalkAction::Skip;
        }
        if cancelled {
            return WalkAction::Cancel;
        }
        match entry {
            WalkEntry::Error { path } => WalkAction::ReportError { path },
            WalkEntry::File { utf8, .. } => if utf8 {
                WalkAction::IndexFile
            } else {
                WalkAction::Ignore
            },
            WalkEntry::Directory { path, utf8 } => {
                if !utf8 {
                    return WalkAction::Ignore;
                }
                let comps = path_components(path.as_str());
                match self.on_directory(comps) {
                    Some((dir, new_assets)) => WalkAction::Completed { dir, new_assets },
                    None => WalkAction::Entered,
                }
            },
        }
    }

    /// The outcome of indexing the file `path` of the asset root `root_dir_id`: nothing when
    /// the file added no asset; a new asset is counted (in the directory on top of the stack,
    /// which the root's directory entry put there) and reported; an error is reported with
    /// the file's path.
    pub fn on_indexed(
        &mut self,
        root_dir_id: AssetRootDirId,
        path: String,
        result: Result<Option<AssetId>, eyre::Report>,
    ) -> (msg: Option<MsgFromIndexing>)
        requires
            result matches Ok(Some(_)) ==> old(self).stack@.len() > 0,
        ensures
            match result {
                Ok(None) => msg is None && *final(self) == *old(self),
                Ok(Some(id)) => {
                    &&& msg == Some(MsgFromIndexing::NewAsset(id))
                    &&& final(self).new_asset_count == old(self).new_asset_count.saturating_add(1)
                    &&& final(self).stack@ == old(self).stack@.update(
                        old(self).stack@.len() - 1,
                        (old(self).stack@.last().0, old(self).stack@.last().1.saturating_add(1)),
                    )
                },
                Err(report) => msg == Some(
                    MsgFromIndexing::IndexingError { root_dir_id, path: Some(path), report },
                ) && *final(self) == *old(self),
            },
    {
        match result {
            Ok(None) => None,
            Ok(Some(id)) => {
                self.on_new_asset();
                Some(MsgFromIndexing::NewAsset(id))
            },
            Err(report) => Some(MsgFromIndexing::IndexingError { root_dir_id, path: Some(path), report }),
        }
    }
}

/// Whether the path `p` lies under the directory `dir` (both as path components).
pub fn components_under(p: &Vec<String>, dir: &Vec<String>) -> (b: bool)
    ensures
        b == path_under(texts(p@), texts(dir@)),
{
    if dir.len() > p.len() {
        return false;
    }
    let mut i: usize = 0;
    while i < dir.len()
        invariant
            dir@.len() <= p@.len(),
            i <= dir@.len(),
            forall|k: int| 0 <= k < i ==> #[trigger] texts(p@)[k] == texts(dir@)[k],
        decreases dir@.len() - i,
    {
        if !crate::text::str_eq(p[i].as_str(), dir[i].as_str()) {
            assert(texts(p@)[i as int] != texts(dir@)[i as int]);
            return false;
        }
        i = i + 1;
    }
    true
}

} // verus!
