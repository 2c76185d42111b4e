//! The merge driver: a state machine that turns what the runtime observes
//! into events for the consumer and into the next thing for the runtime to
//! do.
//!
//! The driver never touches a file or a process. The runtime tells it what
//! happened with a [`MergeReport`]; the driver answers with a [`MergeStep`]:
//! the events to deliver, in order, and one [`MergeCommand`].
//!
//! Progress is counted in hundredths of a percent, rounded down, so a full
//! bar is `10000`. Probing the inputs owns the first tenth of the bar and
//! the encoder's run the rest.

use vstd::prelude::*;
use vstd::arithmetic::div_mod::{lemma_div_is_ordered, lemma_fundamental_div_mod_converse};
use crate::probe::{parse_probe_output, parse_time_sample, probed_duration, sampled_time};
use crate::script::{build_concat_script, first_unscriptable, script_text};
use crate::text::{push_signed_decimal, push_str, signed_decimal, string_of, views};

verus! {

/// What the consumer is told.
#[derive(Debug, Clone, PartialEq, Eq)]
pub enum MergeEvent {
    /// Progress in hundredths of a percent, from `0` to `10000`.
    Progress(u32),
    /// A line of narration; consumers must tolerate any text.
    Status(String),
    /// The merge has failed. Nothing follows.
    Error(String),
    /// The merge has succeeded. Nothing follows.
    Success(String),
}

/// An event with its text as a sequence of characters.
pub enum EventView {
    Progress(nat),
    Status(Seq<char>),
    Error(Seq<char>),
    Success(Seq<char>),
}

impl EventView {
    /// The event ends the merge.
    pub open spec fn is_terminal(self) -> bool {
        self is Error || self is Success
    }
}

impl View for MergeEvent {
    type V = EventView;

    open spec fn view(&self) -> EventView {
        match self {
            MergeEvent::Progress(p) => EventView::Progress(*p as nat),
            MergeEvent::Status(s) => EventView::Status(s@),
            MergeEvent::Error(s) => EventView::Error(s@),
            MergeEvent::Success(s) => EventView::Success(s@),
        }
    }
}

/// The views of a list of events.
pub open spec fn event_views(events: Seq<MergeEvent>) -> Seq<EventView> {
    Seq::new(events.len(), |i: int| events[i]@)
}

/// The steps of a merge. `Resolving` and `Scripting` together make up the
/// writing of the concat list.
#[derive(Clone, Copy, Debug, PartialEq, Eq, Structural)]
pub enum MergePhase {
    /// Nothing has happened yet.
    Idle,
    /// The encoder is being looked for.
    Probing,
    /// The inputs are being probed for their durations, one at a time.
    Summing,
    /// The inputs' paths are being resolved to absolute ones.
    Resolving,
    /// The concat list is being written to a temporary file.
    Scripting,
    /// The encoder runs.
    Running,
    /// The terminal event has been emitted.
    Done,
}

/// What the runtime is to do next.
#[derive(Clone, Copy, Debug, PartialEq, Eq, Structural)]
pub enum MergeCommand {
    /// Look for the encoder and report `Encoder`.
    LocateEncoder,
    /// Probe the input at this position and report `Probed`.
    Probe(usize),
    /// Resolve every input path and report `Resolved`.
    ResolvePaths,
    /// Write the driver's script to a temporary file and report `Script`.
    WriteScript,
    /// Start the encoder with the driver's arguments, then report each line
    /// of its diagnostic output with `Line` and its end with `Exited`.
    RunEncoder,
    /// Go on reading the encoder's output.
    ReadOutput,
    /// Terminate the encoder, then go on reading its output.
    KillEncoder,
    /// The merge is over; release the temporary file.
    Stop,
    /// The report did not fit the driver's state and changed nothing.
    Ignored,
}

/// The kinds of failure of a merge.
#[derive(Clone, Copy, Debug, PartialEq, Eq, Structural)]
pub enum MergeErrorKind {
    /// There is no input, an input is missing or is no regular file, or
    /// the output directory does not exist.
    Input,
    /// The encoder was not found.
    EncoderMissing,
    /// An input could not be probed, or its probe stated no duration.
    Probe,
    /// An input's path could not be resolved, or holds a quote.
    Path,
    /// The concat list could not be written.
    Script,
    /// The encoder could not be started or waited for.
    Spawn,
    /// The encoder exited with this status, which is not zero, or ended
    /// without one.
    Process(Option<i32>),
    /// The merge was cancelled.
    Cancelled,
}

/// One file to merge, with what the runtime found out about it.
pub struct MergeInput {
    pub path: String,
    pub exists: bool,
    pub is_file: bool,
}

/// The directory that will hold the output, with whether it exists.
pub struct OutputParent {
    pub path: String,
    pub exists: bool,
}

/// How the probe of one input ended.
pub enum ProbeOutcome {
    /// The probe stated this duration, in hundredths of a second.
    Duration(u64),
    /// The probe ran, and its output held no duration.
    NoDuration,
    /// The probe could not be run, or ran out of time.
    Failed(String),
}

/// How writing the concat list ended.
pub enum ScriptOutcome {
    /// The list is in the file at this path.
    Written(String),
    /// No temporary file could be made.
    NotCreated(String),
    /// The temporary file could not be written.
    NotWritten(String),
}

/// How the encoder's run ended.
pub enum ExitOutcome {
    /// The encoder exited with this status.
    Code(i32),
    /// The encoder ended without an exit status.
    Killed,
    /// The encoder could not be started or waited for.
    Failed(String),
}

/// What the runtime observed.
pub enum MergeReport {
    /// The consumer asked for the merge to begin.
    Start,
    /// The search for the encoder ended; `true` when it was found.
    Encoder(bool),
    /// The probe that was asked for ended.
    Probed(ProbeOutcome),
    /// The inputs' absolute paths, or why one could not be resolved, in the
    /// order of the inputs.
    Resolved(Vec<Result<String, String>>),
    /// Writing the concat list ended.
    Script(ScriptOutcome),
    /// The encoder printed a line, which holds this `time=` sample, in
    /// hundredths of a second, if it holds one.
    Line { text: String, time: Option<u64> },
    /// The encoder's run ended.
    Exited(ExitOutcome),
    /// The consumer asked for the merge to be cancelled.
    Cancel,
}

/// The driver's answer to a report.
pub struct MergeStep {
    pub events: Vec<MergeEvent>,
    pub command: MergeCommand,
}

/// One input, as the model sees it.
pub struct InputModel {
    pub path: Seq<char>,
    pub exists: bool,
    pub is_file: bool,
}

/// The driver's state as mathematics.
pub struct MergeModel {
    pub inputs: Seq<InputModel>,
    pub output: Seq<char>,
    pub output_parent: Option<(Seq<char>, bool)>,
    pub phase: MergePhase,
    /// How many inputs have been probed.
    pub probed: nat,
    /// The sum of the probed durations, in hundredths of a second.
    pub total: nat,
    /// The last progress that was emitted.
    pub last_percent: nat,
    /// The consumer has cancelled and the encoder has been told to end.
    pub cancelling: bool,
    pub script: Seq<char>,
    pub script_path: Seq<char>,
    /// Why the merge failed, if it failed.
    pub failure: Option<MergeErrorKind>,
}

/// A model's answer to a report.
pub struct StepModel {
    pub model: MergeModel,
    pub events: Seq<EventView>,
    pub command: MergeCommand,
}

/// Why a merge cannot begin, if anything is in its way: the first of no
/// inputs at all, the first input that is missing or is no regular file,
/// and an output directory that does not exist.
pub open spec fn preflight_failure(m: MergeModel) -> Option<Seq<char>> {
    if m.inputs.len() == 0 {
        Some(text_no_inputs())
    } else {
        match first_bad_input(m.inputs) {
            Some(i) => Some(
                if !m.inputs[i as int].exists {
                    text_input_missing(m.inputs[i as int].path)
                } else {
                    text_not_a_file(m.inputs[i as int].path)
                },
            ),
            None => match m.output_parent {
                Some((path, exists)) => if exists {
                    None
                } else {
                    Some(text_output_directory_missing(path))
                },
                None => None,
            },
        }
    }
}

/// An input can be merged: it exists and is a regular file.
pub open spec fn usable(input: InputModel) -> bool {
    input.exists && input.is_file
}

/// The position of the first input that cannot be merged.
pub open spec fn first_bad_input(inputs: Seq<InputModel>) -> Option<nat>
    decreases inputs.len(),
{
    if inputs.len() == 0 {
        None
    } else {
        match first_bad_input(inputs.drop_last()) {
            Some(i) => Some(i),
            None => if usable(inputs.last()) {
                None
            } else {
                Some((inputs.len() - 1) as nat)
            },
        }
    }
}

/// `first_bad_input` names the first input that cannot be merged.
pub proof fn lemma_first_bad_input(inputs: Seq<InputModel>)
    ensures
        match first_bad_input(inputs) {
            Some(i) => i < inputs.len() && !usable(inputs[i as int]) && forall|k: int|
                0 <= k < i ==> usable(#[trigger] inputs[k]),
            None => forall|k: int| 0 <= k < inputs.len() ==> usable(#[trigger] inputs[k]),
        },
    decreases inputs.len(),
{
    if inputs.len() > 0 {
        lemma_first_bad_input(inputs.drop_last());
        assert(forall|k: int| 0 <= k < inputs.len() - 1 ==> inputs.drop_last()[k] == inputs[k]);
    }
}

/// The failure of a merge that has no inputs.
pub open spec fn text_no_inputs() -> Seq<char> {
    "请先选择要合并的MP4文件"@
}

/// The failure of a merge whose input at `path` does not exist.
pub open spec fn text_input_missing(path: Seq<char>) -> Seq<char> {
    "文件不存在: "@ + path
}

/// The failure of a merge whose input at `path` is no regular file.
pub open spec fn text_not_a_file(path: Seq<char>) -> Seq<char> {
    "不是文件: "@ + path
}

/// The failure of a merge whose output directory, `path`, does not exist.
pub open spec fn text_output_directory_missing(path: Seq<char>) -> Seq<char> {
    "输出目录不存在: "@ + path
}

/// The status while the encoder is looked for.
pub open spec fn text_checking() -> Seq<char> {
    "checking environment"@
}

/// The failure of a merge without an encoder.
pub open spec fn text_encoder_missing() -> Seq<char> {
    "encoder not found on PATH"@
}

/// The status while the inputs are probed.
pub open spec fn text_summing() -> Seq<char> {
    "computing total duration"@
}

/// The failure of a merge whose input at `path` states no duration.
pub open spec fn text_no_duration(path: Seq<char>) -> Seq<char> {
    "无法读取视频时长 "@ + path + ": "@ + "无法解析视频时长信息"@
}

/// The failure of a merge whose input at `path` could not be probed.
pub open spec fn text_probe_failed(path: Seq<char>, reason: Seq<char>) -> Seq<char> {
    "无法读取视频时长 "@ + path + ": "@ + "执行FFmpeg失败: "@ + reason
}

/// The failure of a merge whose input at `path` could not be resolved.
pub open spec fn text_path_unresolved(path: Seq<char>, reason: Seq<char>) -> Seq<char> {
    "无法解析文件路径 "@ + path + ": "@ + reason
}

/// The failure of a merge whose input at `path` resolves to a path with a
/// quote in it.
pub open spec fn text_path_quoted(path: Seq<char>) -> Seq<char> {
    "无法解析文件路径 "@ + path + ": "@ + "路径包含单引号"@
}

/// The failure of a merge for whose concat list no file could be made.
pub open spec fn text_script_not_created(reason: Seq<char>) -> Seq<char> {
    "创建临时文件失败: "@ + reason
}

/// The failure of a merge whose concat list could not be written.
pub open spec fn text_script_not_written(reason: Seq<char>) -> Seq<char> {
    "写入临时文件失败: "@ + reason
}

/// The success of a merge that wrote `output`.
pub open spec fn text_saved(output: Seq<char>) -> Seq<char> {
    "saved to "@ + output
}

/// The failure of a merge whose encoder exited with the status `code`.
pub open spec fn text_exit_status(code: int) -> Seq<char> {
    "encoder exited with status "@ + signed_decimal(code)
}

/// The failure of a merge whose encoder ended without an exit status.
pub open spec fn text_killed() -> Seq<char> {
    "encoder exited with status unknown"@
}

/// The failure of a merge that was cancelled.
pub open spec fn text_cancelled() -> Seq<char> {
    "cancelled"@
}

/// Where the bar stands when `probed` of `count` inputs have been probed.
pub open spec fn probing_percent(probed: nat, count: nat) -> nat {
    (1000 * probed / count) as nat
}

/// Where the bar stands when the encoder has written `time` of `total`,
/// both in hundredths of a second and `total` positive: a tenth for the
/// probing and nine tenths of the share that is written, which counts as
/// `0.99` at most.
pub open spec fn running_percent(time: nat, total: nat) -> nat {
    if 9000 * time / total >= 8910 {
        (1000 + 8910) as nat
    } else {
        (1000 + 9000 * time / total) as nat
    }
}

/// The position of the first path that could not be resolved.
pub open spec fn first_unresolved(resolved: Seq<Result<String, String>>) -> Option<nat>
    decreases resolved.len(),
{
    if resolved.len() == 0 {
        None
    } else {
        match first_unresolved(resolved.drop_last()) {
            Some(i) => Some(i),
            None => if resolved.last() is Ok {
                None
            } else {
                Some((resolved.len() - 1) as nat)
            },
        }
    }
}

/// `first_unresolved` names the first path that could not be resolved.
pub proof fn lemma_first_unresolved(resolved: Seq<Result<String, String>>)
    ensures
        match first_unresolved(resolved) {
            Some(i) => i < resolved.len() && resolved[i as int] is Err && forall|k: int|
                0 <= k < i ==> (#[trigger] resolved[k]) is Ok,
            None => forall|k: int| 0 <= k < resolved.len() ==> (#[trigger] resolved[k]) is Ok,
        },
    decreases resolved.len(),
{
    if resolved.len() > 0 {
        lemma_first_unresolved(resolved.drop_last());
        assert(forall|k: int|
            0 <= k < resolved.len() - 1 ==> resolved.drop_last()[k] == resolved[k]);
    }
}

/// The resolved paths that come before the first that could not be
/// resolved: all of them, when every path was resolved.
pub open spec fn resolved_paths(resolved: Seq<Result<String, String>>) -> Seq<Seq<char>> {
    let stop = match first_unresolved(resolved) {
        Some(i) => i,
        None => resolved.len(),
    };
    Seq::new(
        stop,
        |i: int|
            match resolved[i] {
                Ok(path) => path@,
                Err(_) => Seq::<char>::empty(),
            },
    )
}

/// The model after a failure of this kind, with the event that reports it.
pub open spec fn fails(m: MergeModel, kind: MergeErrorKind, text: Seq<char>) -> StepModel {
    StepModel {
        model: MergeModel {
            phase: MergePhase::Done,
            cancelling: false,
            failure: Some(kind),
            ..m
        },
        events: seq![EventView::Error(text)],
        command: MergeCommand::Stop,
    }
}

/// The answer to a report that does not fit the state.
pub open spec fn ignores(m: MergeModel) -> StepModel {
    StepModel { model: m, events: Seq::<EventView>::empty(), command: MergeCommand::Ignored }
}

/// The answer to `Start`.
pub open spec fn on_start(m: MergeModel) -> StepModel {
    match preflight_failure(m) {
        Some(text) => fails(m, MergeErrorKind::Input, text),
        None => StepModel {
            model: MergeModel { phase: MergePhase::Probing, ..m },
            events: seq![EventView::Status(text_checking())],
            command: MergeCommand::LocateEncoder,
        },
    }
}

/// The answer to `Encoder`.
pub open spec fn on_encoder(m: MergeModel, found: bool) -> StepModel {
    if found {
        StepModel {
            model: MergeModel { phase: MergePhase::Summing, ..m },
            events: seq![EventView::Status(text_summing())],
            command: MergeCommand::Probe(0),
        }
    } else {
        fails(m, MergeErrorKind::EncoderMissing, text_encoder_missing())
    }
}

/// The answer to `Probed`.
pub open spec fn on_probed(m: MergeModel, outcome: ProbeOutcome) -> StepModel {
    let path = m.inputs[m.probed as int].path;
    match outcome {
        ProbeOutcome::Duration(d) => {
            let probed = m.probed + 1;
            let percent = probing_percent(probed, m.inputs.len());
            let last = probed == m.inputs.len();
            StepModel {
                model: MergeModel {
                    phase: if last {
                        MergePhase::Resolving
                    } else {
                        MergePhase::Summing
                    },
                    probed: probed,
                    total: m.total + d as nat,
                    last_percent: percent,
                    ..m
                },
                events: seq![EventView::Progress(percent)],
                command: if last {
                    MergeCommand::ResolvePaths
                } else {
                    MergeCommand::Probe(probed as usize)
                },
            }
        },
        ProbeOutcome::NoDuration => fails(m, MergeErrorKind::Probe, text_no_duration(path)),
        ProbeOutcome::Failed(reason) => fails(
            m,
            MergeErrorKind::Probe,
            text_probe_failed(path, reason@),
        ),
    }
}

/// The answer to `Resolved`. The paths are taken in order: the first that
/// was not resolved, or that holds a quote, fails the merge.
pub open spec fn on_resolved(m: MergeModel, resolved: Seq<Result<String, String>>) -> StepModel {
    if resolved.len() != m.inputs.len() {
        ignores(m)
    } else {
        let paths = resolved_paths(resolved);
        match first_unscriptable(paths) {
            Some(i) => fails(m, MergeErrorKind::Path, text_path_quoted(m.inputs[i as int].path)),
            None => match first_unresolved(resolved) {
                Some(i) => fails(
                    m,
                    MergeErrorKind::Path,
                    text_path_unresolved(m.inputs[i as int].path, resolved[i as int]->Err_0@),
                ),
                None => StepModel {
                    model: MergeModel {
                        phase: MergePhase::Scripting,
                        script: script_text(paths),
                        ..m
                    },
                    events: Seq::<EventView>::empty(),
                    command: MergeCommand::WriteScript,
                },
            },
        }
    }
}

/// The answer to `Script`.
pub open spec fn on_script(m: MergeModel, outcome: ScriptOutcome) -> StepModel {
    match outcome {
        ScriptOutcome::Written(path) => StepModel {
            model: MergeModel { phase: MergePhase::Running, script_path: path@, ..m },
            events: Seq::<EventView>::empty(),
            command: MergeCommand::RunEncoder,
        },
        ScriptOutcome::NotCreated(reason) => fails(
            m,
            MergeErrorKind::Script,
            text_script_not_created(reason@),
        ),
        ScriptOutcome::NotWritten(reason) => fails(
            m,
            MergeErrorKind::Script,
            text_script_not_written(reason@),
        ),
    }
}

/// Whether a sample moves the bar: there is one, the total is known, and
/// the bar would not move back.
pub open spec fn sample_counts(m: MergeModel, time: Option<u64>) -> bool {
    time is Some && m.total > 0 && running_percent(time->0 as nat, m.total) >= m.last_percent
}

/// The answer to `Line`.
pub open spec fn on_line(m: MergeModel, text: Seq<char>, time: Option<u64>) -> StepModel {
    if m.cancelling {
        StepModel {
            model: m,
            events: Seq::<EventView>::empty(),
            command: MergeCommand::ReadOutput,
        }
    } else if sample_counts(m, time) {
        let percent = running_percent(time->0 as nat, m.total);
        StepModel {
            model: MergeModel { last_percent: percent, ..m },
            events: seq![EventView::Status(text), EventView::Progress(percent)],
            command: MergeCommand::ReadOutput,
        }
    } else {
        StepModel {
            model: m,
            events: seq![EventView::Status(text)],
            command: MergeCommand::ReadOutput,
        }
    }
}

/// The answer to `Exited`.
pub open spec fn on_exited(m: MergeModel, outcome: ExitOutcome) -> StepModel {
    if m.cancelling {
        fails(m, MergeErrorKind::Cancelled, text_cancelled())
    } else {
        match outcome {
            ExitOutcome::Code(code) => if code == 0 {
                StepModel {
                    model: MergeModel { phase: MergePhase::Done, last_percent: 10000, ..m },
                    events: seq![
                        EventView::Progress(10000),
                        EventView::Success(text_saved(m.output)),
                    ],
                    command: MergeCommand::Stop,
                }
            } else {
                fails(m, MergeErrorKind::Process(Some(code)), text_exit_status(code as int))
            },
            ExitOutcome::Killed => fails(m, MergeErrorKind::Process(None), text_killed()),
            ExitOutcome::Failed(reason) => fails(m, MergeErrorKind::Spawn, reason@),
        }
    }
}

/// The answer to `Cancel`. While the encoder runs it is told to end and the
/// merge fails when it has; before that the merge fails at once; after the
/// merge is over, and when asked again, nothing happens.
pub open spec fn on_cancel(m: MergeModel) -> StepModel {
    match m.phase {
        MergePhase::Done => ignores(m),
        MergePhase::Running => if m.cancelling {
            ignores(m)
        } else {
            StepModel {
                model: MergeModel { cancelling: true, ..m },
                events: Seq::<EventView>::empty(),
                command: MergeCommand::KillEncoder,
            }
        },
        _ => fails(m, MergeErrorKind::Cancelled, text_cancelled()),
    }
}

/// The driver's transition function: the state after `report`, the events
/// it emits and the next command. A report that does not fit the phase is
/// ignored.
pub open spec fn advance(m: MergeModel, report: MergeReport) -> StepModel {
    match report {
        MergeReport::Cancel => on_cancel(m),
        MergeReport::Start => if m.phase is Idle {
            on_start(m)
        } else {
            ignores(m)
        },
        MergeReport::Encoder(found) => if m.phase is Probing {
            on_encoder(m, found)
        } else {
            ignores(m)
        },
        MergeReport::Probed(outcome) => if m.phase is Summing {
            on_probed(m, outcome)
        } else {
            ignores(m)
        },
        MergeReport::Resolved(resolved) => if m.phase is Resolving {
            on_resolved(m, resolved@)
        } else {
            ignores(m)
        },
        MergeReport::Script(outcome) => if m.phase is Scripting {
            on_script(m, outcome)
        } else {
            ignores(m)
        },
        MergeReport::Line { text, time } => if m.phase is Running {
            on_line(m, text@, time)
        } else {
            ignores(m)
        },
        MergeReport::Exited(outcome) => if m.phase is Running {
            on_exited(m, outcome)
        } else {
            ignores(m)
        },
    }
}

impl MergeModel {
    /// What holds of every state that a driver can reach.
    pub open spec fn inv(self) -> bool {
        &&& self.probed <= self.inputs.len()
        &&& self.total <= self.probed * 0xffff_ffff_ffff_ffff
        &&& self.last_percent <= 10000
        &&& self.cancelling ==> self.phase is Running
        &&& self.failure is Some ==> self.phase is Done
        &&& match self.phase {
            MergePhase::Idle => self.probed == 0 && self.last_percent == 0,
            MergePhase::Probing => self.probed == 0 && self.last_percent == 0
                && self.inputs.len() > 0,
            MergePhase::Summing => self.probed < self.inputs.len() && self.last_percent
                == probing_percent(self.probed, self.inputs.len()),
            MergePhase::Resolving | MergePhase::Scripting | MergePhase::Running => 1000
                <= self.last_percent <= 9910,
            MergePhase::Done => true,
        }
    }

    /// The state of a driver that has just been made.
    pub open spec fn fresh(self) -> bool {
        &&& self.phase is Idle
        &&& self.probed == 0
        &&& self.total == 0
        &&& self.last_percent == 0
        &&& !self.cancelling
        &&& self.failure is None
    }
}

/// The state and the events after a series of reports, from `m` on.
pub open spec fn run(m: MergeModel, reports: Seq<MergeReport>) -> (MergeModel, Seq<EventView>)
    decreases reports.len(),
{
    if reports.len() == 0 {
        (m, Seq::<EventView>::empty())
    } else {
        let (before, events) = run(m, reports.drop_last());
        let step = advance(before, reports.last());
        (step.model, events + step.events)
    }
}

/// Every progress in `events` is at most `bound`.
pub open spec fn progress_below(events: Seq<EventView>, bound: nat) -> bool {
    forall|i: int|
        0 <= i < events.len() ==> ((#[trigger] events[i]) matches EventView::Progress(p) ==> p
            <= bound)
}

/// The progress values in `events` never decrease.
pub open spec fn progress_ordered(events: Seq<EventView>) -> bool {
    forall|i: int, j: int|
        0 <= i <= j < events.len() ==> ((#[trigger] events[i]) matches EventView::Progress(p) ==> (
        (#[trigger] events[j]) matches EventView::Progress(q) ==> p <= q))
}

/// No event in `events` is terminal, except perhaps the last.
pub open spec fn terminal_only_last(events: Seq<EventView>) -> bool {
    forall|i: int| 0 <= i < events.len() - 1 ==> !(#[trigger] events[i]).is_terminal()
}

/// The events of a merge are well formed for the phase it is in: the
/// terminal event has been emitted exactly when the merge is over, it is
/// the last event, and it is an error exactly when the merge has failed.
pub open spec fn events_fit(m: MergeModel, events: Seq<EventView>) -> bool {
    &&& terminal_only_last(events)
    &&& m.phase is Done <==> events.len() > 0 && events.last().is_terminal()
    &&& m.failure is Some <==> events.len() > 0 && events.last() is Error
    &&& progress_ordered(events)
    &&& progress_below(events, m.last_percent)
}

/// The bar never moves back while the inputs are probed, and stands at a
/// tenth when the last of them has been.
proof fn lemma_probing_percent(probed: nat, count: nat)
    requires
        probed < count,
    ensures
        probing_percent(probed, count) <= probing_percent(probed + 1, count) <= 1000,
        probed + 1 == count ==> probing_percent(probed + 1, count) == 1000,
{
    lemma_div_is_ordered(1000 * probed as int, 1000 * (probed + 1) as int, count as int);
    lemma_div_is_ordered(1000 * (probed + 1) as int, 1000 * count as int, count as int);
    lemma_fundamental_div_mod_converse(1000 * count as int, count as int, 1000, 0);
}

/// While the encoder runs the bar stands between a tenth and the cap.
proof fn lemma_running_percent(time: nat, total: nat)
    requires
        total > 0,
    ensures
        1000 <= running_percent(time, total) <= 9910,
{
    lemma_div_is_ordered(0, 9000 * time as int, total as int);
    assert(0int / (total as int) == 0) by (nonlinear_arith)
        requires
            total > 0,
    ;
}

/// One step keeps the state's invariant.
pub proof fn lemma_advance_keeps_invariant(m: MergeModel, report: MergeReport)
    requires
        m.inv(),
    ensures
        advance(m, report).model.inv(),
{
    if m.phase is Summing {
        lemma_probing_percent(m.probed, m.inputs.len());
    }
    if m.phase is Probing {
        lemma_fundamental_div_mod_converse(0, m.inputs.len() as int, 0, 0);
    }
    if m.total > 0 {
        if let MergeReport::Line { text, time } = report {
            if let Some(t) = time {
                lemma_running_percent(t as nat, m.total);
            }
        }
    }
}

/// One step keeps the events well formed.
proof fn lemma_advance_keeps_events(m: MergeModel, events: Seq<EventView>, report: MergeReport)
    requires
        m.inv(),
        events_fit(m, events),
    ensures
        events_fit(advance(m, report).model, events + advance(m, report).events),
{
    let step = advance(m, report);
    let all = events + step.events;
    lemma_advance_keeps_invariant(m, report);
    if m.phase is Summing {
        lemma_probing_percent(m.probed, m.inputs.len());
    }
    if m.phase is Done {
        assert(step.events.len() == 0);
        assert(all =~= events);
    } else {
        assert(m.last_percent <= step.model.last_percent);
        assert(forall|i: int| 0 <= i < events.len() ==> all[i] == events[i]);
        assert(forall|i: int|
            0 <= i < step.events.len() ==> all[events.len() + i] == step.events[i]);
        assert(forall|i: int| 0 <= i < events.len() ==> !(#[trigger] events[i]).is_terminal());
        assert(forall|i: int|
            0 <= i < step.events.len() ==> ((#[trigger] step.events[i]) matches EventView::Progress(
                p,
            ) ==> m.last_percent <= p <= step.model.last_percent));
        assert(forall|i: int|
            0 <= i < step.events.len() - 1 ==> !(#[trigger] step.events[i]).is_terminal());
        assert(progress_ordered(step.events));
        assert(forall|i: int|
            0 <= i < all.len() ==> (if i < events.len() {
                (#[trigger] all[i]) == events[i]
            } else {
                all[i] == step.events[i - events.len()]
            }));
    }
}

/// A series of steps keeps the invariant and the events well formed.
pub proof fn lemma_run_is_well_formed(m: MergeModel, reports: Seq<MergeReport>)
    requires
        m.fresh(),
    ensures
        run(m, reports).0.inv(),
        events_fit(run(m, reports).0, run(m, reports).1),
    decreases reports.len(),
{
    if reports.len() > 0 {
        lemma_run_is_well_formed(m, reports.drop_last());
        let (before, events) = run(m, reports.drop_last());
        lemma_advance_keeps_invariant(before, reports.last());
        lemma_advance_keeps_events(before, events, reports.last());
    }
}

/// Whatever the runtime reports, in whatever order, the progress that a
/// merge emits never decreases, and it stays within the bar.
pub proof fn lemma_progress_never_decreases(
    m: MergeModel,
    reports: Seq<MergeReport>,
    i: int,
    j: int,
)
    requires
        m.fresh(),
        0 <= i <= j < run(m, reports).1.len(),
        run(m, reports).1[i] is Progress,
        run(m, reports).1[j] is Progress,
    ensures
        run(m, reports).1[i]->Progress_0 <= run(m, reports).1[j]->Progress_0 <= 10000,
{
    lemma_run_is_well_formed(m, reports);
}

/// Whatever the runtime reports, a merge emits at most one terminal event
/// and nothing after it; it has emitted one exactly when it is over, and
/// that one is an error exactly when the merge has failed.
pub proof fn lemma_one_terminal_event(m: MergeModel, reports: Seq<MergeReport>)
    requires
        m.fresh(),
    ensures
        forall|i: int|
            0 <= i < run(m, reports).1.len() && (#[trigger] run(m, reports).1[i]).is_terminal()
                ==> i == run(m, reports).1.len() - 1,
        run(m, reports).0.phase is Done <==> run(m, reports).1.len() > 0 && run(
            m,
            reports,
        ).1.last().is_terminal(),
        run(m, reports).0.failure is Some <==> run(m, reports).1.len() > 0 && run(
            m,
            reports,
        ).1.last() is Error,
{
    lemma_run_is_well_formed(m, reports);
}

/// A merge can always be brought to its end: cancelling it and, where the
/// encoder runs, reporting the encoder's end leaves it over.
pub proof fn lemma_cancel_ends_every_merge(m: MergeModel, outcome: ExitOutcome)
    requires
        m.inv(),
    ensures
        advance(advance(m, MergeReport::Cancel).model, MergeReport::Exited(outcome)).model.phase
            is Done,
{
}

/// Once a merge is over, no report makes it emit anything more.
pub proof fn lemma_silent_when_done(m: MergeModel, report: MergeReport)
    requires
        m.phase is Done,
    ensures
        advance(m, report).events.len() == 0,
        advance(m, report).model == m,
{
}

/// The models of a list of inputs.
pub open spec fn input_models(inputs: Seq<MergeInput>) -> Seq<InputModel> {
    Seq::new(
        inputs.len(),
        |i: int|
            InputModel {
                path: inputs[i].path@,
                exists: inputs[i].exists,
                is_file: inputs[i].is_file,
            },
    )
}

/// The arguments that make the encoder concatenate the files listed in the
/// script at `script_path` into `output` without re-encoding.
pub open spec fn encoder_arguments(script_path: Seq<char>, output: Seq<char>) -> Seq<Seq<char>> {
    seq!["-f"@, "concat"@, "-safe"@, "0"@, "-i"@, script_path, "-c"@, "copy"@, "-y"@, output]
}

/// The arguments that make the encoder describe `input` and exit.
pub open spec fn probe_arguments(input: Seq<char>) -> Seq<Seq<char>> {
    seq!["-i"@, input]
}

/// The merge driver. It is made with the inputs and what the runtime found
/// out about them, and is then fed reports until it answers `Stop`.
pub struct MergeDriver {
    inputs: Vec<MergeInput>,
    output: String,
    output_parent: Option<OutputParent>,
    phase: MergePhase,
    probed: usize,
    total: u128,
    last_percent: u32,
    cancelling: bool,
    script: String,
    script_path: String,
    failure: Option<MergeErrorKind>,
}

impl View for MergeDriver {
    type V = MergeModel;

    closed spec fn view(&self) -> MergeModel {
        MergeModel {
            inputs: input_models(self.inputs@),
            output: self.output@,
            output_parent: match self.output_parent {
                Some(parent) => Some((parent.path@, parent.exists)),
                None => None,
            },
            phase: self.phase,
            probed: self.probed as nat,
            total: self.total as nat,
            last_percent: self.last_percent as nat,
            cancelling: self.cancelling,
            script: self.script@,
            script_path: self.script_path@,
            failure: self.failure,
        }
    }
}

/// Two texts, one after the other.
fn join2(a: &str, b: &str) -> (out: String)
    ensures
        out@ == a@ + b@,
{
    let mut chars: Vec<char> = Vec::new();
    push_str(&mut chars, a);
    push_str(&mut chars, b);
    string_of(&chars)
}

/// Four texts, one after the other.
fn join4(a: &str, b: &str, c: &str, d: &str) -> (out: String)
    ensures
        out@ == a@ + b@ + c@ + d@,
{
    let mut chars: Vec<char> = Vec::new();
    push_str(&mut chars, a);
    push_str(&mut chars, b);
    push_str(&mut chars, c);
    push_str(&mut chars, d);
    string_of(&chars)
}

/// Five texts, one after the other.
fn join5(a: &str, b: &str, c: &str, d: &str, e: &str) -> (out: String)
    ensures
        out@ == a@ + b@ + c@ + d@ + e@,
{
    let mut chars: Vec<char> = Vec::new();
    push_str(&mut chars, a);
    push_str(&mut chars, b);
    push_str(&mut chars, c);
    push_str(&mut chars, d);
    push_str(&mut chars, e);
    string_of(&chars)
}

/// The failure text for an encoder that exited with `code`.
fn exit_status_message(code: i32) -> (out: String)
    ensures
        out@ == text_exit_status(code as int),
{
    let mut chars: Vec<char> = Vec::new();
    push_str(&mut chars, "encoder exited with status ");
    push_signed_decimal(&mut chars, code);
    string_of(&chars)
}

/// The position of the first input that cannot be merged.
fn find_bad_input(inputs: &Vec<MergeInput>) -> (out: Option<usize>)
    ensures
        match out {
            Some(i) => first_bad_input(input_models(inputs@)) == Some(i as nat) && i
                < inputs.len(),
            None => first_bad_input(input_models(inputs@)) is None,
        },
{
    let ghost models = input_models(inputs@);
    let mut i: usize = 0;
    assert(models.take(0) =~= Seq::<InputModel>::empty());
    while i < inputs.len()
        invariant
            i <= inputs.len(),
            models == input_models(inputs@),
            first_bad_input(models.take(i as int)) is None,
        decreases inputs.len() - i,
    {
        assert(models.take(i + 1).drop_last() =~= models.take(i as int));
        assert(models.take(i + 1).last() == models[i as int]);
        if !(inputs[i].exists && inputs[i].is_file) {
            proof {
                lemma_first_bad_input_extends(models, i + 1);
            }
            return Some(i);
        }
        i += 1;
    }
    assert(models.take(i as int) =~= models);
    None
}

/// What is first among a prefix of the inputs is first among all of them.
proof fn lemma_first_bad_input_extends(inputs: Seq<InputModel>, n: int)
    requires
        0 <= n <= inputs.len(),
        first_bad_input(inputs.take(n)) is Some,
    ensures
        first_bad_input(inputs) == first_bad_input(inputs.take(n)),
    decreases inputs.len() - n,
{
    if n < inputs.len() {
        assert(inputs.take(n + 1).drop_last() =~= inputs.take(n));
        lemma_first_bad_input_extends(inputs, n + 1);
    } else {
        assert(inputs.take(n) =~= inputs);
    }
}

/// What is first among a prefix of the paths is first among all of them.
proof fn lemma_first_unresolved_extends(resolved: Seq<Result<String, String>>, n: int)
    requires
        0 <= n <= resolved.len(),
        first_unresolved(resolved.take(n)) is Some,
    ensures
        first_unresolved(resolved) == first_unresolved(resolved.take(n)),
    decreases resolved.len() - n,
{
    if n < resolved.len() {
        assert(resolved.take(n + 1).drop_last() =~= resolved.take(n));
        lemma_first_unresolved_extends(resolved, n + 1);
    } else {
        assert(resolved.take(n) =~= resolved);
    }
}

/// Copies out the resolved paths that come before the first failure, and
/// says where that failure is.
fn leading_paths(resolved: &Vec<Result<String, String>>) -> (out: (Vec<String>, Option<usize>))
    ensures
        views(out.0@) == resolved_paths(resolved@),
        match out.1 {
            Some(i) => first_unresolved(resolved@) == Some(i as nat) && i < resolved.len(),
            None => first_unresolved(resolved@) is None,
        },
{
    let mut paths: Vec<String> = Vec::new();
    let mut i: usize = 0;
    assert(resolved@.take(0) =~= Seq::<Result<String, String>>::empty());
    while i < resolved.len()
        invariant
            i <= resolved.len(),
            first_unresolved(resolved@.take(i as int)) is None,
            paths@.len() == i,
            forall|k: int|
                0 <= k < i ==> ((#[trigger] resolved@[k]) matches Ok(path) && paths@[k]@
                    == path@),
        decreases resolved.len() - i,
    {
        assert(resolved@.take(i + 1).drop_last() =~= resolved@.take(i as int));
        assert(resolved@.take(i + 1).last() == resolved@[i as int]);
        match &resolved[i] {
            Ok(path) => {
                paths.push(path.clone());
            },
            Err(_) => {
                proof {
                    lemma_first_unresolved_extends(resolved@, i + 1);
                    assert(views(paths@) =~= resolved_paths(resolved@));
                }
                return (paths, Some(i));
            },
        }
        i += 1;
    }
    proof {
        assert(resolved@.take(i as int) =~= resolved@);
        assert(views(paths@) =~= resolved_paths(resolved@));
    }
    (paths, None)
}

/// A list of one event.
fn one_event(event: MergeEvent) -> (events: Vec<MergeEvent>)
    ensures
        event_views(events@) == seq![event@],
{
    let mut events: Vec<MergeEvent> = Vec::new();
    events.push(event);
    assert(event_views(events@) =~= seq![event@]);
    events
}

/// A list of no events.
fn no_events() -> (events: Vec<MergeEvent>)
    ensures
        event_views(events@) == Seq::<EventView>::empty(),
{
    let events: Vec<MergeEvent> = Vec::new();
    assert(event_views(events@) =~= Seq::<EventView>::empty());
    events
}

/// A list of two events.
fn two_events(first: MergeEvent, second: MergeEvent) -> (events: Vec<MergeEvent>)
    ensures
        event_views(events@) == seq![first@, second@],
{
    let mut events: Vec<MergeEvent> = Vec::new();
    events.push(first);
    events.push(second);
    assert(event_views(events@) =~= seq![first@, second@]);
    events
}

impl MergeDriver {
    /// The driver's state is one that a driver can reach.
    pub open spec fn wf(&self) -> bool {
        self@.inv()
    }

    /// A driver for merging `inputs`, in this order, into `output`.
    /// `output_parent` is the directory that will hold the output, if the
    /// output's path names one.
    pub fn new(
        inputs: Vec<MergeInput>,
        output: String,
        output_parent: Option<OutputParent>,
    ) -> (driver: MergeDriver)
        ensures
            driver.wf(),
            driver@.fresh(),
            driver@.inputs == input_models(inputs@),
            driver@.output == output@,
            driver@.output_parent == match output_parent {
                Some(parent) => Some((parent.path@, parent.exists)),
                None => None,
            },
    {
        MergeDriver {
            inputs,
            output,
            output_parent,
            phase: MergePhase::Idle,
            probed: 0,
            total: 0,
            last_percent: 0,
            cancelling: false,
            script: String::new(),
            script_path: String::new(),
            failure: None,
        }
    }

    /// The phase that the merge is in.
    pub fn phase(&self) -> (phase: MergePhase)
        ensures
            phase == self@.phase,
    {
        self.phase
    }

    /// Whether the terminal event has been emitted.
    pub fn is_done(&self) -> (done: bool)
        ensures
            done == (self@.phase is Done),
    {
        matches!(self.phase, MergePhase::Done)
    }

    /// Why the merge failed, if it failed.
    pub fn failure(&self) -> (failure: Option<MergeErrorKind>)
        ensures
            failure == self@.failure,
    {
        self.failure
    }

    /// How many inputs there are.
    pub fn input_count(&self) -> (count: usize)
        ensures
            count == self@.inputs.len(),
    {
        self.inputs.len()
    }

    /// The path of the input at `index`.
    pub fn input_path(&self, index: usize) -> (path: &String)
        requires
            index < self@.inputs.len(),
        ensures
            path@ == self@.inputs[index as int].path,
    {
        &self.inputs[index].path
    }

    /// The sum of the durations probed so far, in hundredths of a second.
    pub fn total_duration(&self) -> (total: u128)
        ensures
            total == self@.total,
    {
        self.total
    }

    /// The last progress that was emitted, in hundredths of a percent.
    pub fn last_percent(&self) -> (percent: u32)
        ensures
            percent == self@.last_percent,
    {
        self.last_percent
    }

    /// The text of the concat list, once the paths have been resolved.
    pub fn script(&self) -> (text: &String)
        ensures
            text@ == self@.script,
    {
        &self.script
    }

    /// The arguments with which the encoder probes the input at `index`.
    pub fn probe_arguments(&self, index: usize) -> (arguments: Vec<String>)
        requires
            index < self@.inputs.len(),
        ensures
            views(arguments@) == probe_arguments(self@.inputs[index as int].path),
    {
        let mut arguments: Vec<String> = Vec::new();
        arguments.push(String::from_str("-i"));
        arguments.push(self.inputs[index].path.clone());
        assert(views(arguments@) =~= probe_arguments(self@.inputs[index as int].path));
        arguments
    }

    /// The arguments with which the encoder is run, once the concat list
    /// has been written.
    pub fn encoder_arguments(&self) -> (arguments: Vec<String>)
        ensures
            views(arguments@) == encoder_arguments(self@.script_path, self@.output),
    {
        let mut arguments: Vec<String> = Vec::new();
        arguments.push(String::from_str("-f"));
        arguments.push(String::from_str("concat"));
        arguments.push(String::from_str("-safe"));
        arguments.push(String::from_str("0"));
        arguments.push(String::from_str("-i"));
        arguments.push(self.script_path.clone());
        arguments.push(String::from_str("-c"));
        arguments.push(String::from_str("copy"));
        arguments.push(String::from_str("-y"));
        arguments.push(self.output.clone());
        assert(views(arguments@) =~= encoder_arguments(self@.script_path, self@.output));
        arguments
    }

    /// Ends the merge with a failure.
    fn fail(&mut self, kind: MergeErrorKind, message: String) -> (step: MergeStep)
        ensures
            final(self)@ == fails(old(self)@, kind, message@).model,
            event_views(step.events@) == fails(old(self)@, kind, message@).events,
            step.command == fails(old(self)@, kind, message@).command,
    {
        self.phase = MergePhase::Done;
        self.cancelling = false;
        self.failure = Some(kind);
        MergeStep { events: one_event(MergeEvent::Error(message)), command: MergeCommand::Stop }
    }

    /// Answers a report that does not fit.
    fn ignore(&self) -> (step: MergeStep)
        ensures
            event_views(step.events@) == ignores(self@).events,
            step.command == ignores(self@).command,
    {
        MergeStep { events: no_events(), command: MergeCommand::Ignored }
    }

    /// Answers `Start`.
    fn start(&mut self) -> (step: MergeStep)
        requires
            old(self)@.phase is Idle,
        ensures
            final(self)@ == on_start(old(self)@).model,
            event_views(step.events@) == on_start(old(self)@).events,
            step.command == on_start(old(self)@).command,
    {
        if self.inputs.len() == 0 {
            let message = String::from_str("请先选择要合并的MP4文件");
            return self.fail(MergeErrorKind::Input, message);
        }
        match find_bad_input(&self.inputs) {
            Some(i) => {
                let message = if !self.inputs[i].exists {
                    join2("文件不存在: ", self.inputs[i].path.as_str())
                } else {
                    join2("不是文件: ", self.inputs[i].path.as_str())
                };
                return self.fail(MergeErrorKind::Input, message);
            },
            None => {},
        }
        let missing: Option<String> = match &self.output_parent {
            Some(parent) => if parent.exists {
                None
            } else {
                Some(join2("输出目录不存在: ", parent.path.as_str()))
            },
            None => None,
        };
        match missing {
            Some(message) => self.fail(MergeErrorKind::Input, message),
            None => {
                self.phase = MergePhase::Probing;
                MergeStep {
                    events: one_event(
                        MergeEvent::Status(String::from_str("checking environment")),
                    ),
                    command: MergeCommand::LocateEncoder,
                }
            },
        }
    }

    /// Answers `Encoder`.
    fn encoder(&mut self, found: bool) -> (step: MergeStep)
        requires
            old(self)@.phase is Probing,
        ensures
            final(self)@ == on_encoder(old(self)@, found).model,
            event_views(step.events@) == on_encoder(old(self)@, found).events,
            step.command == on_encoder(old(self)@, found).command,
    {
        if found {
            self.phase = MergePhase::Summing;
            MergeStep {
                events: one_event(
                    MergeEvent::Status(String::from_str("computing total duration")),
                ),
                command: MergeCommand::Probe(0),
            }
        } else {
            self.fail(MergeErrorKind::EncoderMissing, String::from_str("encoder not found on PATH"))
        }
    }

    /// Answers `Probed`.
    fn probed(&mut self, outcome: ProbeOutcome) -> (step: MergeStep)
        requires
            old(self)@.phase is Summing,
            old(self)@.inv(),
        ensures
            final(self)@ == on_probed(old(self)@, outcome).model,
            event_views(step.events@) == on_probed(old(self)@, outcome).events,
            step.command == on_probed(old(self)@, outcome).command,
    {
        match outcome {
            ProbeOutcome::Duration(d) => {
                let count: usize = self.inputs.len();
                let probed: usize = self.probed + 1;
                proof {
                    lemma_probing_percent(self.probed as nat, count as nat);
                }
                let percent: u32 = (1000u128 * (probed as u128) / (count as u128)) as u32;
                self.probed = probed;
                self.total = self.total + d as u128;
                self.last_percent = percent;
                let last = probed == count;
                if last {
                    self.phase = MergePhase::Resolving;
                }
                MergeStep {
                    events: one_event(MergeEvent::Progress(percent)),
                    command: if last {
                        MergeCommand::ResolvePaths
                    } else {
                        MergeCommand::Probe(probed)
                    },
                }
            },
            ProbeOutcome::NoDuration => {
                let message = join4(
                    "无法读取视频时长 ",
                    self.inputs[self.probed].path.as_str(),
                    ": ",
                    "无法解析视频时长信息",
                );
                self.fail(MergeErrorKind::Probe, message)
            },
            ProbeOutcome::Failed(reason) => {
                let message = join5(
                    "无法读取视频时长 ",
                    self.inputs[self.probed].path.as_str(),
                    ": ",
                    "执行FFmpeg失败: ",
                    reason.as_str(),
                );
                self.fail(MergeErrorKind::Probe, message)
            },
        }
    }

    /// Answers `Resolved`.
    fn resolved(&mut self, resolved: Vec<Result<String, String>>) -> (step: MergeStep)
        requires
            old(self)@.phase is Resolving,
        ensures
            final(self)@ == on_resolved(old(self)@, resolved@).model,
            event_views(step.events@) == on_resolved(old(self)@, resolved@).events,
            step.command == on_resolved(old(self)@, resolved@).command,
    {
        if resolved.len() != self.inputs.len() {
            return self.ignore();
        }
        let (paths, unresolved) = leading_paths(&resolved);
        proof {
            lemma_first_unscriptable_in_range(views(paths@));
        }
        match build_concat_script(&paths) {
            Err(i) => {
                let message = join4(
                    "无法解析文件路径 ",
                    self.inputs[i].path.as_str(),
                    ": ",
                    "路径包含单引号",
                );
                self.fail(MergeErrorKind::Path, message)
            },
            Ok(text) => match unresolved {
                Some(i) => {
                    assert(resolved@[i as int] is Err) by {
                        lemma_first_unresolved(resolved@);
                    }
                    let message = match &resolved[i] {
                        Err(reason) => join4(
                            "无法解析文件路径 ",
                            self.inputs[i].path.as_str(),
                            ": ",
                            reason.as_str(),
                        ),
                        Ok(_) => String::new(),
                    };
                    self.fail(MergeErrorKind::Path, message)
                },
                None => {
                    self.phase = MergePhase::Scripting;
                    self.script = text;
                    MergeStep { events: no_events(), command: MergeCommand::WriteScript }
                },
            },
        }
    }

    /// Answers `Script`.
    fn script_written(&mut self, outcome: ScriptOutcome) -> (step: MergeStep)
        requires
            old(self)@.phase is Scripting,
        ensures
            final(self)@ == on_script(old(self)@, outcome).model,
            event_views(step.events@) == on_script(old(self)@, outcome).events,
            step.command == on_script(old(self)@, outcome).command,
    {
        match outcome {
            ScriptOutcome::Written(path) => {
                self.phase = MergePhase::Running;
                self.script_path = path;
                MergeStep { events: no_events(), command: MergeCommand::RunEncoder }
            },
            ScriptOutcome::NotCreated(reason) => {
                let message = join2("创建临时文件失败: ", reason.as_str());
                self.fail(MergeErrorKind::Script, message)
            },
            ScriptOutcome::NotWritten(reason) => {
                let message = join2("写入临时文件失败: ", reason.as_str());
                self.fail(MergeErrorKind::Script, message)
            },
        }
    }

    /// Answers `Line`.
    fn line(&mut self, text: String, time: Option<u64>) -> (step: MergeStep)
        requires
            old(self)@.phase is Running,
            old(self)@.inv(),
        ensures
            final(self)@ == on_line(old(self)@, text@, time).model,
            event_views(step.events@) == on_line(old(self)@, text@, time).events,
            step.command == on_line(old(self)@, text@, time).command,
    {
        if self.cancelling {
            return MergeStep { events: no_events(), command: MergeCommand::ReadOutput };
        }
        let sample: Option<u32> = match time {
            Some(t) => if self.total > 0 {
                proof {
                    lemma_running_percent(t as nat, self.total as nat);
                }
                let share: u128 = 9000u128 * (t as u128) / self.total;
                let percent: u32 = if share >= 8910 {
                    9910
                } else {
                    1000 + share as u32
                };
                if percent >= self.last_percent {
                    Some(percent)
                } else {
                    None
                }
            } else {
                None
            },
            None => None,
        };
        match sample {
            Some(percent) => {
                self.last_percent = percent;
                MergeStep {
                    events: two_events(MergeEvent::Status(text), MergeEvent::Progress(percent)),
                    command: MergeCommand::ReadOutput,
                }
            },
            None => MergeStep {
                events: one_event(MergeEvent::Status(text)),
                command: MergeCommand::ReadOutput,
            },
        }
    }

    /// Answers `Exited`.
    fn exited(&mut self, outcome: ExitOutcome) -> (step: MergeStep)
        requires
            old(self)@.phase is Running,
        ensures
            final(self)@ == on_exited(old(self)@, outcome).model,
            event_views(step.events@) == on_exited(old(self)@, outcome).events,
            step.command == on_exited(old(self)@, outcome).command,
    {
        if self.cancelling {
            return self.fail(MergeErrorKind::Cancelled, String::from_str("cancelled"));
        }
        match outcome {
            ExitOutcome::Code(code) => {
                if code == 0 {
                    self.phase = MergePhase::Done;
                    self.last_percent = 10000;
                    let message = join2("saved to ", self.output.as_str());
                    MergeStep {
                        events: two_events(
                            MergeEvent::Progress(10000),
                            MergeEvent::Success(message),
                        ),
                        command: MergeCommand::Stop,
                    }
                } else {
                    let message = exit_status_message(code);
                    self.fail(MergeErrorKind::Process(Some(code)), message)
                }
            },
            ExitOutcome::Killed => self.fail(
                MergeErrorKind::Process(None),
                String::from_str("encoder exited with status unknown"),
            ),
            ExitOutcome::Failed(reason) => self.fail(MergeErrorKind::Spawn, reason),
        }
    }

    /// Answers `Cancel`.
    fn cancel(&mut self) -> (step: MergeStep)
        ensures
            final(self)@ == on_cancel(old(self)@).model,
            event_views(step.events@) == on_cancel(old(self)@).events,
            step.command == on_cancel(old(self)@).command,
    {
        match self.phase {
            MergePhase::Done => self.ignore(),
            MergePhase::Running => {
                if self.cancelling {
                    self.ignore()
                } else {
                    self.cancelling = true;
                    MergeStep { events: no_events(), command: MergeCommand::KillEncoder }
                }
            },
            _ => self.fail(MergeErrorKind::Cancelled, String::from_str("cancelled")),
        }
    }

    /// Takes one report and answers with the events to deliver and the next
    /// command, as [`advance`] says.
    pub fn step(&mut self, report: MergeReport) -> (step: MergeStep)
        requires
            old(self).wf(),
        ensures
            final(self).wf(),
            final(self)@ == advance(old(self)@, report).model,
            event_views(step.events@) == advance(old(self)@, report).events,
            step.command == advance(old(self)@, report).command,
    {
        proof {
            lemma_advance_keeps_invariant(self@, report);
        }
        match report {
            MergeReport::Cancel => self.cancel(),
            MergeReport::Start => match self.phase {
                MergePhase::Idle => self.start(),
                _ => self.ignore(),
            },
            MergeReport::Encoder(found) => match self.phase {
                MergePhase::Probing => self.encoder(found),
                _ => self.ignore(),
            },
            MergeReport::Probed(outcome) => match self.phase {
                MergePhase::Summing => self.probed(outcome),
                _ => self.ignore(),
            },
            MergeReport::Resolved(resolved) => match self.phase {
                MergePhase::Resolving => self.resolved(resolved),
                _ => self.ignore(),
            },
            MergeReport::Script(outcome) => match self.phase {
                MergePhase::Scripting => self.script_written(outcome),
                _ => self.ignore(),
            },
            MergeReport::Line { text, time } => match self.phase {
                MergePhase::Running => self.line(text, time),
                _ => self.ignore(),
            },
            MergeReport::Exited(outcome) => match self.phase {
                MergePhase::Running => self.exited(outcome),
                _ => self.ignore(),
            },
        }
    }

    /// Takes the output of the probe that was asked for: reads the
    /// duration out of it and reports it.
    pub fn probe_output(&mut self, output: &str) -> (step: MergeStep)
        requires
            old(self).wf(),
        ensures
            final(self).wf(),
            final(self)@ == advance(old(self)@, probe_report(output@)).model,
            event_views(step.events@) == advance(old(self)@, probe_report(output@)).events,
            step.command == advance(old(self)@, probe_report(output@)).command,
    {
        let outcome = match parse_probe_output(output) {
            Some(d) => ProbeOutcome::Duration(d),
            None => ProbeOutcome::NoDuration,
        };
        self.step(MergeReport::Probed(outcome))
    }

    /// Takes a line of the encoder's output: reads the `time=` sample out
    /// of it, if it holds one, and reports the line.
    pub fn encoder_line(&mut self, text: String) -> (step: MergeStep)
        requires
            old(self).wf(),
        ensures
            final(self).wf(),
            final(self)@ == on_any_line(old(self)@, text@).model,
            event_views(step.events@) == on_any_line(old(self)@, text@).events,
            step.command == on_any_line(old(self)@, text@).command,
    {
        let time = parse_time_sample(text.as_str());
        self.step(MergeReport::Line { text, time })
    }
}

/// The report that a probe's output amounts to.
pub open spec fn probe_report(output: Seq<char>) -> MergeReport {
    MergeReport::Probed(
        match probed_duration(output) {
            Some(d) => ProbeOutcome::Duration(d as u64),
            None => ProbeOutcome::NoDuration,
        },
    )
}

/// The answer to a line of the encoder's output, whatever the phase.
pub open spec fn on_any_line(m: MergeModel, text: Seq<char>) -> StepModel {
    if m.phase is Running {
        on_line(
            m,
            text,
            match sampled_time(text) {
                Some(t) => Some(t as u64),
                None => None,
            },
        )
    } else {
        ignores(m)
    }
}

/// A position that `first_unscriptable` names lies within the paths.
proof fn lemma_first_unscriptable_in_range(paths: Seq<Seq<char>>)
    ensures
        first_unscriptable(paths) matches Some(i) ==> i < paths.len(),
{
    crate::script::lemma_first_unscriptable(paths);
}

} // verus!
