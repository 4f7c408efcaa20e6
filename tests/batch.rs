use hkx_tools::batch::{
    check_start, in_place_size_suspicious, plan_batch, plan_task, run_outcome, BatchConfig, BatchOutcome,
    BatchTracker, ConversionError, SlotState, StartError, TaskPlan,
};
use hkx_tools::invocation::{InvocationError, ToolPaths};
use hkx_tools::path::FilePath;
use hkx_tools::resolve::PathError;
use hkx_tools::tools::{ConversionMode, ConverterTool, OutputFormat};

fn p(s: &str) -> FilePath {
    FilePath::parse(s)
}

fn tool_paths() -> ToolPaths {
    ToolPaths {
        hkxcmd: p("/opt/t/hkxcmd.exe"),
        hkxc: p("/opt/t/hkxc.exe"),
        hkxconv: p("/opt/t/hkxconv.exe"),
        sse_to_le_hko: p("/opt/t/_SSEtoLE.hko"),
        havok_behavior_post_process: p("/opt/t/HavokBehaviorPostProcess.exe"),
    }
}

fn config(mode: ConversionMode, skeleton: Option<&str>) -> BatchConfig {
    BatchConfig {
        output_root: Some(p("C:/out")),
        suffix: String::new(),
        custom_extension: None,
        tool: ConverterTool::HkxCmd,
        mode,
        format: OutputFormat::Xml,
        skeleton: skeleton.map(p),
    }
}

fn files(list: &[&str]) -> Vec<FilePath> {
    list.iter().map(|f| p(f)).collect()
}

#[test]
fn start_errors() {
    let c = config(ConversionMode::Regular, None);
    assert_eq!(check_start(&Vec::new(), &c), Err(StartError::NoInputFiles));
    let mut no_root = config(ConversionMode::Regular, None);
    no_root.output_root = None;
    assert_eq!(check_start(&files(&["C:/a.hkx"]), &no_root), Err(StartError::NoOutputFolder));
    assert_eq!(
        check_start(&files(&["C:/a.kf"]), &config(ConversionMode::HkxToKf, None)),
        Err(StartError::MissingSkeleton)
    );
    assert_eq!(check_start(&files(&["C:/a.hkx"]), &c), Ok(()));
    assert_eq!(StartError::NoInputFiles.message(), "No input files selected");
    assert_eq!(StartError::NoOutputFolder.message(), "No output folder selected");
    assert_eq!(StartError::MissingSkeleton.message(), "Skeleton file is required for animation conversion");
}

#[test]
fn animation_mode_without_skeleton_never_starts() {
    let r = plan_batch(&files(&["C:/anims/walk.kf"]), &config(ConversionMode::KfToHkx, None));
    assert_eq!(r.unwrap_err(), StartError::MissingSkeleton);
    let r = plan_batch(&files(&["C:/anims/walk.kf"]), &config(ConversionMode::KfToHkx, Some("C:/sk.hkx")));
    assert_eq!(r.unwrap().len(), 1);
}

#[test]
fn batch_plan_has_one_task_per_file() {
    let fs = files(&["C:/a/x/f1.hkx", "C:/a/y/f2.hkx", "C:/a/.."]);
    let tasks = plan_batch(&fs, &config(ConversionMode::Regular, None)).unwrap();
    assert_eq!(tasks.len(), 3);
    for (i, t) in tasks.iter().enumerate() {
        assert_eq!(t.index, i);
        assert!(t.input == fs[i]);
    }
    assert_eq!(tasks[0].output.as_ref().unwrap().to_text(), "C:/out/x/f1.xml");
    assert_eq!(tasks[1].output.as_ref().unwrap().to_text(), "C:/out/y/f2.xml");
    assert_eq!(tasks[2].output.as_ref().unwrap_err(), &PathError::NoFileStem);
}

#[test]
fn task_plans() {
    let fs = files(&["C:/a/x/f1.hkx", "C:/a/y/f2.hkx", "C:/a/.."]);
    let c = config(ConversionMode::Regular, None);
    let tasks = plan_batch(&fs, &c).unwrap();
    let cwd = p("/work");
    let paths = tool_paths();
    match plan_task(&tasks[0], &c, &cwd, &paths, false) {
        TaskPlan::Run { dir, process, output } => {
            assert_eq!(dir.unwrap().to_text(), "C:/out/x");
            assert_eq!(output.to_text(), "C:/out/x/f1.xml");
            assert_eq!(process.args[2], "C:/a/x/f1.hkx");
        }
        other => panic!("unexpected plan {:?}", other),
    }
    assert!(matches!(plan_task(&tasks[2], &c, &cwd, &paths, false), TaskPlan::Fail(ConversionError::Path(PathError::NoFileStem))));
    let mut hct = config(ConversionMode::Regular, None);
    hct.tool = ConverterTool::Hct;
    assert!(matches!(
        plan_task(&tasks[0], &hct, &cwd, &paths, false),
        TaskPlan::Fail(ConversionError::Invocation(InvocationError::Unsupported { .. }))
    ));
}

#[test]
fn cancelled_tasks_do_nothing() {
    let fs = files(&["C:/a/x/f1.hkx", "C:/a/y/f2.hkx"]);
    let c = config(ConversionMode::Regular, None);
    let tasks = plan_batch(&fs, &c).unwrap();
    let mut tracker = BatchTracker::new(tasks.len());
    for t in &tasks {
        assert!(matches!(plan_task(t, &c, &p("/work"), &tool_paths(), true), TaskPlan::Skip));
        assert!(tracker.skip(t.index));
    }
    assert_eq!(tracker.conclude(true), Some(BatchOutcome::Cancelled));
    assert_eq!(tracker.conclude(true), None);
}

#[test]
fn process_outcomes() {
    let out = p("C:/out/f.xml");
    match run_outcome(ConverterTool::HkxC, false, Some(3), "so".to_string(), "se".to_string(), false, &out) {
        Err(ConversionError::ToolFailed { tool, exit_code, stdout, stderr }) => {
            assert_eq!(tool, ConverterTool::HkxC);
            assert_eq!(exit_code, Some(3));
            assert_eq!(stdout, "so");
            assert_eq!(stderr, "se");
        }
        other => panic!("unexpected outcome {:?}", other),
    }
    match run_outcome(ConverterTool::HkxC, true, Some(0), String::new(), String::new(), false, &out) {
        Err(ConversionError::OutputMissing { path }) => assert_eq!(path, "C:/out/f.xml"),
        other => panic!("unexpected outcome {:?}", other),
    }
    assert!(run_outcome(ConverterTool::HkxC, true, Some(0), String::new(), String::new(), true, &out).is_ok());
    assert!(in_place_size_suspicious(10, 10));
    assert!(!in_place_size_suspicious(10, 12));
}

#[test]
fn batch_completes_once_after_every_file() {
    let n = 5;
    let mut tracker = BatchTracker::new(n);
    assert_eq!(tracker.total(), n);
    for i in 0..n {
        assert!(tracker.start(i));
        assert_eq!(tracker.conclude(false), None);
    }
    for i in 0..n {
        assert_eq!(tracker.conclude(false), None);
        assert!(tracker.finish(i, true));
    }
    assert_eq!(tracker.successful(), n);
    assert_eq!(tracker.conclude(false), Some(BatchOutcome::Completed { successful: n, total: n }));
    assert_eq!(tracker.conclude(false), None);
}

#[test]
fn partial_failures_are_counted() {
    let mut tracker = BatchTracker::new(3);
    for i in 0..3 {
        assert!(tracker.start(i));
    }
    assert!(tracker.finish(0, true));
    assert!(tracker.finish(1, false));
    assert!(tracker.finish(2, true));
    assert_eq!(tracker.slot(1), SlotState::Failed);
    assert_eq!(tracker.conclude(false), Some(BatchOutcome::Completed { successful: 2, total: 3 }));
}

#[test]
fn tracker_rejects_out_of_order_events() {
    let mut tracker = BatchTracker::new(2);
    assert!(!tracker.finish(0, true));
    assert!(!tracker.start(2));
    assert!(tracker.start(0));
    assert!(!tracker.start(0));
    assert!(!tracker.skip(0));
    assert!(tracker.finish(0, true));
    assert!(!tracker.finish(0, false));
    assert_eq!(tracker.slot(0), SlotState::Succeeded);
    assert_eq!(tracker.slot(1), SlotState::Waiting);
}

#[test]
fn cancellation_seen_at_fan_in() {
    let mut tracker = BatchTracker::new(2);
    assert!(tracker.start(0));
    assert!(tracker.start(1));
    assert!(tracker.finish(0, true));
    assert!(tracker.finish(1, true));
    assert_eq!(tracker.conclude(true), Some(BatchOutcome::Cancelled));
}

#[test]
fn empty_tracker_concludes_at_once() {
    let mut tracker = BatchTracker::new(0);
    assert_eq!(tracker.conclude(false), Some(BatchOutcome::Completed { successful: 0, total: 0 }));
}
