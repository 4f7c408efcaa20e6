//! The decisions of a batch run: whether a batch may start, the task of each
//! file, what each task does (skip, fail before any work, or run a
//! process), how a finished process is judged, and the tally that ends the
//! batch.

use vstd::prelude::*;
use crate::invocation::{
    InvocationError,
    ProcessSpec,
    ProcessView,
    ToolPaths,
    build_invocation,
    invocation_spec,
};
use crate::path::{FilePath, PathView, opt_text, opt_view, parent_of, render};
use crate::resolve::{
    PathError,
    find_common_parent_dir,
    output_path_spec,
    output_path_under_dir,
    reference_dir,
    result_view,
    views,
};
use crate::tools::{ConversionMode, ConverterTool, OutputFormat};

verus! {

/// The settings of a batch, captured once when it starts.
#[derive(Debug)]
pub struct BatchConfig {
    pub output_root: Option<FilePath>,
    pub suffix: String,
    pub custom_extension: Option<String>,
    pub tool: ConverterTool,
    pub mode: ConversionMode,
    pub format: OutputFormat,
    pub skeleton: Option<FilePath>,
}

/// Why a batch cannot start.
#[derive(Clone, Copy, Debug, PartialEq, Eq, Structural)]
pub enum StartError {
    NoInputFiles,
    NoOutputFolder,
    MissingSkeleton,
}

impl StartError {
    /// The message shown for the error.
    pub fn message(&self) -> (r: &'static str)
        ensures
            r@ == match self {
                StartError::NoInputFiles => "No input files selected"@,
                StartError::NoOutputFolder => "No output folder selected"@,
                StartError::MissingSkeleton => "Skeleton file is required for animation conversion"@,
            },
    {
        match self {
            StartError::NoInputFiles => "No input files selected",
            StartError::NoOutputFolder => "No output folder selected",
            StartError::MissingSkeleton => "Skeleton file is required for animation conversion",
        }
    }
}

/// The checks made once before any task exists, in order.
pub open spec fn start_check(
    n_files: int,
    has_output_root: bool,
    mode: ConversionMode,
    has_skeleton: bool,
) -> Option<StartError> {
    if n_files == 0 {
        Some(StartError::NoInputFiles)
    } else if !has_output_root {
        Some(StartError::NoOutputFolder)
    } else if mode.spec_requires_skeleton() && !has_skeleton {
        Some(StartError::MissingSkeleton)
    } else {
        None
    }
}

pub open spec fn config_start_check(n_files: int, config: BatchConfig) -> Option<StartError> {
    start_check(n_files, config.output_root is Some, config.mode, config.skeleton is Some)
}

/// Whether a batch of `files` may start under `config`.
pub fn check_start(files: &Vec<FilePath>, config: &BatchConfig) -> (r: Result<(), StartError>)
    ensures
        match config_start_check(files@.len() as int, *config) {
            Some(e) => r == Err::<(), StartError>(e),
            None => r is Ok,
        },
{
    if files.len() == 0 {
        Err(StartError::NoInputFiles)
    } else if config.output_root.is_none() {
        Err(StartError::NoOutputFolder)
    } else if config.mode.requires_skeleton() && config.skeleton.is_none() {
        Err(StartError::MissingSkeleton)
    } else {
        Ok(())
    }
}

/// One file of a batch: its place, its input, and its output (or why it
/// has none).
#[derive(Debug)]
pub struct ConversionTask {
    pub index: usize,
    pub input: FilePath,
    pub output: Result<FilePath, PathError>,
}

/// The task's output is the derived one, or the same error.
pub open spec fn output_as_derived(
    output: Result<FilePath, PathError>,
    expected: Result<PathView, PathError>,
) -> bool {
    result_view(output) == expected
}

/// The output the batch derives for file `i`.
pub open spec fn derived_output(files: Seq<FilePath>, i: int, config: BatchConfig) -> Result<
    PathView,
    PathError,
> {
    output_path_spec(
        files[i]@,
        config.output_root.unwrap()@,
        views(files),
        config.suffix@,
        opt_text(config.custom_extension),
        config.mode,
        config.format,
    )
}

/// Checks that the batch may start, then makes one task per file, in
/// order, each with its derived output.
pub fn plan_batch(files: &Vec<FilePath>, config: &BatchConfig) -> (r: Result<
    Vec<ConversionTask>,
    StartError,
>)
    ensures
        match config_start_check(files@.len() as int, *config) {
            Some(e) => r == Err::<Vec<ConversionTask>, StartError>(e),
            None => r matches Ok(tasks) && tasks@.len() == files@.len() && forall|i: int|
                0 <= i < files@.len() ==> {
                    &&& (#[trigger] tasks@[i]).index == i
                    &&& tasks@[i].input@ == files@[i]@
                    &&& output_as_derived(tasks@[i].output, derived_output(files@, i, *config))
                },
        },
{
    match check_start(files, config) {
        Err(e) => {
            return Err(e);
        },
        Ok(()) => {},
    }
    let root = match &config.output_root {
        Some(p) => p,
        None => {
            return Err(StartError::NoOutputFolder);
        },
    };
    let ghost vs = views(files@);
    assert(vs.len() == files@.len());
    let base = if files.len() == 1 {
        Some(files[0].parent_or_empty())
    } else {
        find_common_parent_dir(files)
    };
    let mut tasks: Vec<ConversionTask> = Vec::new();
    let mut i: usize = 0;
    while i < files.len()
        invariant
            0 <= i <= files@.len(),
            vs == views(files@),
            vs.len() == files@.len(),
            config.output_root == Some(*root),
            config_start_check(files@.len() as int, *config) is None,
            files@.len() == 1 ==> opt_view(base) == reference_dir(files@[0]@, vs),
            files@.len() != 1 ==> forall|j: int|
                0 <= j < files@.len() ==> opt_view(base) == reference_dir(#[trigger] files@[j]@, vs),
            tasks@.len() == i,
            forall|j: int|
                0 <= j < i ==> {
                    &&& (#[trigger] tasks@[j]).index == j
                    &&& tasks@[j].input@ == files@[j]@
                    &&& output_as_derived(tasks@[j].output, derived_output(files@, j, *config))
                },
        decreases files@.len() - i,
    {
        let output = output_path_under_dir(
            &files[i],
            root,
            &base,
            config.suffix.as_str(),
            &config.custom_extension,
            config.mode,
            config.format,
        );
        assert(vs[i as int] == files@[i as int]@);
        let task = ConversionTask { index: i, input: files[i].duplicate(), output };
        tasks.push(task);
        i = i + 1;
    }
    Ok(tasks)
}

/// Why one file failed.
#[derive(Debug)]
pub enum ConversionError {
    /// The batch was cancelled before the task began.
    Cancelled,
    /// No output path could be derived.
    Path(PathError),
    /// No process could be set up.
    Invocation(InvocationError),
    /// A file-system or spawn failure, as reported by the system.
    Io { message: String },
    /// The tool exited with a failure.
    ToolFailed { tool: ConverterTool, exit_code: Option<i32>, stdout: String, stderr: String },
    /// The tool reported success but the output file is not there.
    OutputMissing { path: String },
}

/// What a task does.
#[derive(Debug)]
pub enum TaskPlan {
    /// The batch was cancelled before the task began: report it, touch
    /// nothing.
    Skip,
    /// The task fails before any work.
    Fail(ConversionError),
    /// Create `dir` (where there is one), run `process`, then check that
    /// `output` exists.
    Run { dir: Option<FilePath>, process: ProcessSpec, output: FilePath },
}

/// The task's process, as the configuration sets it up.
pub open spec fn task_invocation(
    task: ConversionTask,
    output: PathView,
    config: BatchConfig,
    cwd: PathView,
    paths: crate::invocation::ToolPathsView,
) -> Result<ProcessView, InvocationError> {
    invocation_spec(
        config.tool,
        config.mode,
        config.format,
        task.input@,
        output,
        opt_view(config.skeleton),
        cwd,
        paths,
    )
}

/// Decides what a task does. A cancelled batch skips the task; a task
/// without an output, or whose process cannot be set up, fails without
/// touching the file system; otherwise it creates the output's directory,
/// runs the process and checks the output.
pub fn plan_task(
    task: &ConversionTask,
    config: &BatchConfig,
    cwd: &FilePath,
    paths: &ToolPaths,
    cancelled: bool,
) -> (r: TaskPlan)
    ensures
        cancelled <==> r is Skip,
        !cancelled ==> match task.output {
            Err(e) => (r matches TaskPlan::Fail(ConversionError::Path(pe)) && pe == e),
            Ok(o) => match task_invocation(*task, o@, *config, cwd@, paths@) {
                Err(ie) => (r matches TaskPlan::Fail(ConversionError::Invocation(x)) && x == ie),
                Ok(pv) => (r matches TaskPlan::Run { dir, process, output } && process@ == pv
                    && opt_view(dir) == parent_of(o@) && output@ == o@),
            },
        },
{
    if cancelled {
        return TaskPlan::Skip;
    }
    let output = match &task.output {
        Err(e) => {
            return TaskPlan::Fail(ConversionError::Path(*e));
        },
        Ok(o) => o,
    };
    match build_invocation(
        config.tool,
        config.mode,
        config.format,
        &task.input,
        output,
        &config.skeleton,
        cwd,
        paths,
    ) {
        Err(e) => TaskPlan::Fail(ConversionError::Invocation(e)),
        Ok(process) => TaskPlan::Run { dir: output.parent(), process, output: output.duplicate() },
    }
}

/// Judges a finished process: a failed exit is `ToolFailed` with what the
/// tool printed; a successful exit without the output file is
/// `OutputMissing`; otherwise the task succeeded.
pub fn run_outcome(
    tool: ConverterTool,
    success: bool,
    exit_code: Option<i32>,
    stdout: String,
    stderr: String,
    output_exists: bool,
    output: &FilePath,
) -> (r: Result<(), ConversionError>)
    ensures
        !success ==> (r matches Err(
            ConversionError::ToolFailed { tool: t, exit_code: c, stdout: o, stderr: e },
        ) && t == tool && c == exit_code && o@ == stdout@ && e@ == stderr@),
        success && !output_exists ==> (r matches Err(ConversionError::OutputMissing { path })
            && path@ == render(output@)),
        success && output_exists ==> r is Ok,
{
    if !success {
        Err(ConversionError::ToolFailed { tool, exit_code, stdout, stderr })
    } else if !output_exists {
        Err(ConversionError::OutputMissing { path: output.to_text() })
    } else {
        Ok(())
    }
}

/// After an in-place rewrite, an output as large as the input suggests the
/// tool changed nothing. This is a warning, never a failure.
pub fn in_place_size_suspicious(input_size: u64, output_size: u64) -> (r: bool)
    ensures
        r == (input_size == output_size),
{
    input_size == output_size
}

/// Where one file of a batch stands.
#[derive(Clone, Copy, Debug, PartialEq, Eq, Structural)]
pub enum SlotState {
    Waiting,
    Running,
    Succeeded,
    Failed,
}

/// How a batch ended.
#[derive(Clone, Copy, Debug, PartialEq, Eq, Structural)]
pub enum BatchOutcome {
    Completed { successful: usize, total: usize },
    Cancelled,
}

/// The state carried by a progress event.
#[derive(Debug)]
pub enum ProgressState {
    Started,
    Succeeded,
    Failed { message: String },
    BatchCompleted { successful: usize, total: usize },
    BatchCancelled,
}

/// One update sent from the batch to whoever shows it.
#[derive(Debug)]
pub struct ProgressEvent {
    pub file_index: usize,
    pub file_name: String,
    pub total_files: usize,
    pub state: ProgressState,
}

pub open spec fn is_resolved(s: SlotState) -> bool {
    s == SlotState::Succeeded || s == SlotState::Failed
}

pub open spec fn all_resolved(slots: Seq<SlotState>) -> bool {
    forall|i: int| 0 <= i < slots.len() ==> is_resolved(#[trigger] slots[i])
}

/// How many slots succeeded.
pub open spec fn count_succeeded(slots: Seq<SlotState>) -> nat
    decreases slots.len(),
{
    if slots.len() == 0 {
        0
    } else {
        count_succeeded(slots.drop_last()) + if slots.last() == SlotState::Succeeded {
            1nat
        } else {
            0nat
        }
    }
}

pub ghost struct TrackerView {
    pub slots: Seq<SlotState>,
    pub concluded: bool,
}

/// The tally of a batch: each file's state, and whether the batch's final
/// event has been given.
#[derive(Debug)]
pub struct BatchTracker {
    slots: Vec<SlotState>,
    concluded: bool,
}

impl View for BatchTracker {
    type V = TrackerView;

    closed spec fn view(&self) -> TrackerView {
        TrackerView { slots: self.slots@, concluded: self.concluded }
    }
}

/// What concluding does to a tally: once every file is resolved, and only
/// the first time, it gives the batch's outcome.
pub open spec fn conclude_spec(v: TrackerView, cancelled: bool) -> (TrackerView, Option<BatchOutcome>) {
    if v.concluded || !all_resolved(v.slots) {
        (v, None)
    } else {
        (
            TrackerView { slots: v.slots, concluded: true },
            Some(
                if cancelled {
                    BatchOutcome::Cancelled
                } else {
                    BatchOutcome::Completed {
                        successful: count_succeeded(v.slots) as usize,
                        total: v.slots.len() as usize,
                    }
                },
            ),
        )
    }
}

proof fn lemma_count_bounded(slots: Seq<SlotState>)
    ensures
        count_succeeded(slots) <= slots.len(),
    decreases slots.len(),
{
    if slots.len() > 0 {
        lemma_count_bounded(slots.drop_last());
    }
}

proof fn lemma_count_all(slots: Seq<SlotState>)
    requires
        forall|i: int| 0 <= i < slots.len() ==> slots[i] == SlotState::Succeeded,
    ensures
        count_succeeded(slots) == slots.len(),
    decreases slots.len(),
{
    if slots.len() > 0 {
        lemma_count_all(slots.drop_last());
    }
}

impl BatchTracker {
    /// A tally of `total` waiting files.
    pub fn new(total: usize) -> (r: BatchTracker)
        ensures
            r@.slots == Seq::new(total as nat, |i: int| SlotState::Waiting),
            !r@.concluded,
    {
        let mut slots: Vec<SlotState> = Vec::new();
        let mut i: usize = 0;
        while i < total
            invariant
                0 <= i <= total,
                slots@ == Seq::new(i as nat, |j: int| SlotState::Waiting),
            decreases total - i,
        {
            slots.push(SlotState::Waiting);
            i = i + 1;
            assert(slots@ =~= Seq::new(i as nat, |j: int| SlotState::Waiting));
        }
        BatchTracker { slots, concluded: false }
    }

    /// The number of files.
    pub fn total(&self) -> (r: usize)
        ensures
            r == self@.slots.len(),
    {
        self.slots.len()
    }

    /// Where file `i` stands.
    pub fn slot(&self, i: usize) -> (r: SlotState)
        requires
            i < self@.slots.len(),
        ensures
            r == self@.slots[i as int],
    {
        self.slots[i]
    }

    /// Records that file `i` began; accepted only for a waiting file.
    pub fn start(&mut self, i: usize) -> (ok: bool)
        ensures
            ok == (i < old(self)@.slots.len() && old(self)@.slots[i as int] == SlotState::Waiting),
            ok ==> final(self)@.slots == old(self)@.slots.update(i as int, SlotState::Running),
            !ok ==> final(self)@.slots == old(self)@.slots,
            final(self)@.concluded == old(self)@.concluded,
    {
        if i < self.slots.len() && self.slots[i] == SlotState::Waiting {
            self.slots.set(i, SlotState::Running);
            true
        } else {
            false
        }
    }

    /// Records how running file `i` ended; accepted only for a running file.
    pub fn finish(&mut self, i: usize, succeeded: bool) -> (ok: bool)
        ensures
            ok == (i < old(self)@.slots.len() && old(self)@.slots[i as int] == SlotState::Running),
            ok ==> final(self)@.slots == old(self)@.slots.update(
                i as int,
                if succeeded {
                    SlotState::Succeeded
                } else {
                    SlotState::Failed
                },
            ),
            !ok ==> final(self)@.slots == old(self)@.slots,
            final(self)@.concluded == old(self)@.concluded,
    {
        if i < self.slots.len() && self.slots[i] == SlotState::Running {
            self.slots.set(i, if succeeded { SlotState::Succeeded } else { SlotState::Failed });
            true
        } else {
            false
        }
    }

    /// Records that waiting file `i` was skipped because the batch was
    /// cancelled; it counts as failed.
    pub fn skip(&mut self, i: usize) -> (ok: bool)
        ensures
            ok == (i < old(self)@.slots.len() && old(self)@.slots[i as int] == SlotState::Waiting),
            ok ==> final(self)@.slots == old(self)@.slots.update(i as int, SlotState::Failed),
            !ok ==> final(self)@.slots == old(self)@.slots,
            final(self)@.concluded == old(self)@.concluded,
    {
        if i < self.slots.len() && self.slots[i] == SlotState::Waiting {
            self.slots.set(i, SlotState::Failed);
            true
        } else {
            false
        }
    }

    /// How many files succeeded so far.
    pub fn successful(&self) -> (r: usize)
        ensures
            r == count_succeeded(self@.slots),
    {
        let mut count: usize = 0;
        let mut i: usize = 0;
        while i < self.slots.len()
            invariant
                0 <= i <= self.slots@.len(),
                count == count_succeeded(self.slots@.take(i as int)),
                count <= i,
            decreases self.slots@.len() - i,
        {
            assert(self.slots@.take(i + 1).drop_last() =~= self.slots@.take(i as int));
            if self.slots[i] == SlotState::Succeeded {
                count = count + 1;
            }
            i = i + 1;
        }
        assert(self.slots@.take(self.slots@.len() as int) =~= self.slots@);
        count
    }

    /// The batch's final outcome, given once every file is resolved, and
    /// only the first time: `Cancelled` where cancellation was seen, else
    /// the count of successes out of the total.
    pub fn conclude(&mut self, cancelled: bool) -> (r: Option<BatchOutcome>)
        ensures
            (final(self)@, r) == conclude_spec(old(self)@, cancelled),
    {
        if self.concluded {
            return None;
        }
        let mut i: usize = 0;
        while i < self.slots.len()
            invariant
                0 <= i <= self.slots@.len(),
                forall|j: int| 0 <= j < i ==> is_resolved(#[trigger] self.slots@[j]),
            decreases self.slots@.len() - i,
        {
            let s = self.slots[i];
            if s != SlotState::Succeeded && s != SlotState::Failed {
                return None;
            }
            i = i + 1;
        }
        let successful = self.successful();
        self.concluded = true;
        if cancelled {
            Some(BatchOutcome::Cancelled)
        } else {
            Some(BatchOutcome::Completed { successful, total: self.slots.len() })
        }
    }
}

/// A batch whose every file started and succeeded ends exactly once, with
/// all of them counted: concluding gives `Completed` with the total as the
/// count of successes, and gives nothing after that. Before every file is
/// resolved, concluding gives nothing.
pub proof fn law_completion_once(v: TrackerView, cancelled_later: bool)
    ensures
        !all_resolved(v.slots) ==> conclude_spec(v, false).1 is None && conclude_spec(
            v,
            true,
        ).1 is None,
        (!v.concluded && v.slots.len() <= usize::MAX && forall|i: int|
            0 <= i < v.slots.len() ==> v.slots[i] == SlotState::Succeeded) ==> {
            &&& conclude_spec(v, false).1 == Some(
                BatchOutcome::Completed {
                    successful: v.slots.len() as usize,
                    total: v.slots.len() as usize,
                },
            )
            &&& conclude_spec(conclude_spec(v, false).0, cancelled_later).1 is None
        },
{
    if forall|i: int| 0 <= i < v.slots.len() ==> v.slots[i] == SlotState::Succeeded {
        lemma_count_all(v.slots);
        assert(all_resolved(v.slots));
    }
}

/// Cancellation seen before a batch's tasks begin: every task is skipped
/// and touches nothing, and once all are recorded the batch ends as
/// cancelled.
pub proof fn law_cancelled_before_start(v: TrackerView)
    requires
        !v.concluded,
        forall|i: int| 0 <= i < v.slots.len() ==> v.slots[i] == SlotState::Failed,
    ensures
        conclude_spec(v, true).1 == Some(BatchOutcome::Cancelled),
{
}

} // verus!
