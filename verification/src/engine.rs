//! The engine's admission rule and the state behind it.
//!
//! At most one scan and one merge run at a time; asking for a second of
//! either kind while the first runs is refused. The engine also holds the
//! settings and the set of files that are being deleted.

use vstd::prelude::*;
use crate::config::{AppConfig, ConfigView};
use crate::merge::MergeEvent;
use crate::path_set::PathSet;

verus! {

/// The two kinds of task.
#[derive(Clone, Copy, Debug, PartialEq, Eq, Structural)]
pub enum TaskKind {
    Scan,
    Merge,
}

/// Why the engine refused.
#[derive(Clone, Copy, Debug, PartialEq, Eq, Structural)]
pub enum EngineError {
    /// A task of this kind is running.
    Busy(TaskKind),
}

/// The engine's state as mathematics.
pub struct EngineModel {
    pub config: ConfigView,
    pub scan_active: bool,
    pub merge_active: bool,
    /// The paths that are being deleted.
    pub deleting: Seq<Seq<char>>,
}

impl EngineModel {
    /// A task of this kind is running.
    pub open spec fn active(self, kind: TaskKind) -> bool {
        match kind {
            TaskKind::Scan => self.scan_active,
            TaskKind::Merge => self.merge_active,
        }
    }

    /// The state with the activity of one kind of task set.
    pub open spec fn with_active(self, kind: TaskKind, active: bool) -> EngineModel {
        match kind {
            TaskKind::Scan => EngineModel { scan_active: active, ..self },
            TaskKind::Merge => EngineModel { merge_active: active, ..self },
        }
    }
}

/// The engine's state.
pub struct Engine {
    config: AppConfig,
    scan_active: bool,
    merge_active: bool,
    deleting: PathSet,
}

impl View for Engine {
    type V = EngineModel;

    closed spec fn view(&self) -> EngineModel {
        EngineModel {
            config: self.config@,
            scan_active: self.scan_active,
            merge_active: self.merge_active,
            deleting: self.deleting@,
        }
    }
}

impl Engine {
    /// The engine's state is one that it can reach.
    pub closed spec fn wf(&self) -> bool {
        self.deleting.wf()
    }

    /// An engine with these settings and nothing running.
    pub fn new(config: AppConfig) -> (engine: Engine)
        ensures
            engine.wf(),
            engine@.config == config@,
            !engine@.scan_active,
            !engine@.merge_active,
            engine@.deleting.len() == 0,
    {
        Engine { config, scan_active: false, merge_active: false, deleting: PathSet::new() }
    }

    /// The settings.
    pub fn config(&self) -> (config: &AppConfig)
        ensures
            config@ == self@.config,
    {
        &self.config
    }

    /// Whether a task of this kind is running.
    pub fn is_active(&self, kind: TaskKind) -> (active: bool)
        ensures
            active == self@.active(kind),
    {
        match kind {
            TaskKind::Scan => self.scan_active,
            TaskKind::Merge => self.merge_active,
        }
    }

    /// Admits a task of this kind, unless one is running already.
    pub fn begin(&mut self, kind: TaskKind) -> (admitted: Result<(), EngineError>)
        ensures
            admitted is Err <==> old(self)@.active(kind),
            admitted matches Err(e) ==> e == EngineError::Busy(kind) && final(self)@ == old(self)@,
            admitted is Ok ==> final(self)@ == old(self)@.with_active(kind, true),
            final(self).wf() == old(self).wf(),
    {
        match kind {
            TaskKind::Scan => {
                if self.scan_active {
                    return Err(EngineError::Busy(kind));
                }
                self.scan_active = true;
            },
            TaskKind::Merge => {
                if self.merge_active {
                    return Err(EngineError::Busy(kind));
                }
                self.merge_active = true;
            },
        }
        Ok(())
    }

    /// Admits a scan of `directory` and remembers the directory as the one
    /// that was last scanned. A refused scan changes nothing.
    pub fn begin_scan(&mut self, directory: String) -> (admitted: Result<(), EngineError>)
        ensures
            admitted is Err <==> old(self)@.scan_active,
            admitted matches Err(e) ==> e == EngineError::Busy(TaskKind::Scan) && final(self)@
                == old(self)@,
            admitted is Ok ==> final(self)@ == (EngineModel {
                scan_active: true,
                config: ConfigView {
                    last_query_directory: Some(directory@),
                    ..old(self)@.config
                },
                ..old(self)@
            }),
            final(self).wf() == old(self).wf(),
    {
        if self.scan_active {
            return Err(EngineError::Busy(TaskKind::Scan));
        }
        self.scan_active = true;
        self.config.set_last_query_directory(directory);
        Ok(())
    }

    /// Notes that the task of this kind has ended: its terminal event was
    /// delivered, or its cancellation was acknowledged.
    pub fn finish(&mut self, kind: TaskKind)
        ensures
            final(self)@ == old(self)@.with_active(kind, false),
            final(self).wf() == old(self).wf(),
    {
        match kind {
            TaskKind::Scan => {
                self.scan_active = false;
            },
            TaskKind::Merge => {
                self.merge_active = false;
            },
        }
    }

    /// Takes note of an event of the running merge: a terminal event ends
    /// it. Returns whether the event was terminal.
    pub fn merge_event(&mut self, event: &MergeEvent) -> (ended: bool)
        ensures
            ended == event@.is_terminal(),
            final(self)@ == if ended {
                old(self)@.with_active(TaskKind::Merge, false)
            } else {
                old(self)@
            },
            final(self).wf() == old(self).wf(),
    {
        match event {
            MergeEvent::Error(_) | MergeEvent::Success(_) => {
                self.merge_active = false;
                true
            },
            _ => false,
        }
    }

    /// Sets the output directory.
    pub fn set_output_directory(&mut self, path: String)
        ensures
            final(self)@ == (EngineModel {
                config: ConfigView { output_directory: Some(path@), ..old(self)@.config },
                ..old(self)@
            }),
            final(self).wf() == old(self).wf(),
    {
        self.config.set_output_directory(path);
    }

    /// Unsets the output directory.
    pub fn clear_output_directory(&mut self)
        ensures
            final(self)@ == (EngineModel {
                config: ConfigView { output_directory: None, ..old(self)@.config },
                ..old(self)@
            }),
            final(self).wf() == old(self).wf(),
    {
        self.config.clear_output_directory();
    }

    /// Sets the directory that inputs were last picked from.
    pub fn set_last_input_directory(&mut self, path: String)
        ensures
            final(self)@ == (EngineModel {
                config: ConfigView { last_input_directory: Some(path@), ..old(self)@.config },
                ..old(self)@
            }),
            final(self).wf() == old(self).wf(),
    {
        self.config.set_last_input_directory(path);
    }

    /// Marks `path` as being deleted. Returns `false`, and changes nothing,
    /// when it is being deleted already, so that a repeated request can be
    /// dropped.
    pub fn begin_delete(&mut self, path: String) -> (fresh: bool)
        requires
            old(self).wf(),
        ensures
            final(self).wf(),
            fresh == !old(self)@.deleting.contains(path@),
            final(self)@ == (EngineModel {
                deleting: if fresh {
                    old(self)@.deleting.push(path@)
                } else {
                    old(self)@.deleting
                },
                ..old(self)@
            }),
    {
        self.deleting.insert(path)
    }

    /// Notes that the deletion of `path` has ended, however it ended.
    pub fn finish_delete(&mut self, path: &String)
        requires
            old(self).wf(),
        ensures
            final(self).wf(),
            !final(self)@.deleting.contains(path@),
            forall|other: Seq<char>|
                other != path@ ==> (final(self)@.deleting.contains(other) <==> old(
                    self,
                )@.deleting.contains(other)),
            final(self)@.config == old(self)@.config,
            final(self)@.scan_active == old(self)@.scan_active,
            final(self)@.merge_active == old(self)@.merge_active,
    {
        let ghost before = self.deleting;
        self.deleting.remove(path);
        proof {
            assert forall|other: Seq<char>| other != path@ implies (self@.deleting.contains(other)
                <==> before@.contains(other)) by {
                assert(self.deleting.has(other) <==> before.has(other));
            }
        }
    }

    /// Whether `path` is being deleted.
    pub fn is_deleting(&self, path: &String) -> (yes: bool)
        ensures
            yes == self@.deleting.contains(path@),
    {
        self.deleting.contains(path)
    }
}

/// While a task of some kind runs, a second of that kind is refused, and a
/// task of the other kind is admitted or refused as if the first were not
/// there.
pub proof fn lemma_one_task_of_each_kind(m: EngineModel, kind: TaskKind, other: TaskKind)
    requires
        kind != other,
    ensures
        m.with_active(kind, true).active(kind),
        m.with_active(kind, true).active(other) == m.active(other),
        !m.with_active(kind, false).active(kind),
{
}

} // verus!
