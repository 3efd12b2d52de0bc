use overlay_pipeline::codec::MoveTimeline;
use overlay_pipeline::orchestrate::{Action, Orchestrator, Phase, StageName, RENDER_COMMAND};
use overlay_pipeline::outcome::ExecutionOutcome;

fn sample_timeline() -> MoveTimeline {
    // input {timestamps:[0.2,0.4,0.6], timePerMove:0.2, x_offset:10, y_offset:20}
    MoveTimeline {
        timestamps_ms: vec![200, 400, 600],
        time_per_move_ms: 200,
        x_offset: 10,
        y_offset: 20,
    }
}

#[test]
fn successful_run_reports_success_payload() {
    let mut orch = Orchestrator::new(sample_timeline(), String::from("/proj"));
    assert_eq!(orch.phase, Phase::Idle);

    match orch.start() {
        Action::WriteFile { path, contents } => {
            assert_eq!(path, "/proj/remotion/export.json");
            assert_eq!(
                contents,
                "{\"timestamps\":[0.2,0.4,0.6],\"timePerMove\":0.2,\"x_offset\":10,\"y_offset\":20}"
            );
        }
        _ => panic!("expected a file write"),
    }

    match orch.on_persisted(true, "") {
        Action::RunShell { command_line, working_dir, timeout_secs } => {
            assert_eq!(command_line, RENDER_COMMAND);
            assert_eq!(working_dir, "/proj");
            assert_eq!(timeout_secs, 300);
        }
        _ => panic!("expected the rendering tool to run"),
    }
    assert_eq!(orch.phase, Phase::DataPersisted);

    let rendered = ExecutionOutcome::from_completion(Some(0), String::from("ok"), String::new());
    match orch.on_rendered(&rendered) {
        Action::RunEngine { working_dir, timeout_secs } => {
            assert_eq!(working_dir, "/proj");
            assert_eq!(timeout_secs, 300);
        }
        _ => panic!("expected the engine to run"),
    }
    assert_eq!(orch.phase, Phase::Synthesized);
    assert_eq!(orch.overlay.len(), 3);
    assert_eq!(orch.background.len(), 3);
    let graph = orch
        .engine_args
        .iter()
        .find(|a| a.contains("overlay="))
        .expect("filter graph argument");
    assert_eq!(graph.matches("overlay=").count(), 3);
    assert!(graph.contains("overlay=10:20"));

    let composited =
        ExecutionOutcome::from_completion(Some(0), String::from("engine done"), String::new());
    match orch.on_composited(&composited) {
        Action::Finish { result } => {
            let payload = result.unwrap();
            assert!(payload.contains("\"status\":\"success\""));
            assert!(payload.contains("\"overlay_segments\":[[0,0.2],[0.2,0.4],[0.4,0.6]]"));
            assert!(payload.contains(
                "\"background_segments\":[[0.2,0.4],[0.2,0.6],[0.4,7]]"
            ));
            assert!(payload.contains("\"xy_offset\":[10,20]"));
            assert!(payload.contains("\"ffmpeg_command\":\"ffmpeg -i "));
            assert!(payload.contains("\"ffmpeg_output\":\"engine done\""));
            let v: serde_json::Value = serde_json::from_str(payload.as_str()).unwrap();
            assert_eq!(v.get("status").unwrap().as_str().unwrap(), "success");
        }
        _ => panic!("expected the run to finish"),
    }
    assert_eq!(orch.phase, Phase::Done);
}

#[test]
fn failed_persist_ends_the_run_naming_the_stage() {
    let mut orch = Orchestrator::new(sample_timeline(), String::from("/proj"));
    match orch.on_persisted(false, "disk full") {
        Action::Finish { result } => {
            assert_eq!(result.unwrap_err(), "Failed to write export data: disk full");
        }
        _ => panic!("expected the run to finish"),
    }
    assert_eq!(orch.phase, Phase::Failed);
    assert_eq!(orch.failed_stage, Some(StageName::Persist));
}

#[test]
fn failed_render_ends_the_run_naming_the_stage() {
    let mut orch = Orchestrator::new(sample_timeline(), String::from("/proj"));
    orch.on_persisted(true, "");
    let rendered = ExecutionOutcome::from_completion(
        Some(2),
        String::from("partial"),
        String::from("codec missing"),
    );
    match orch.on_rendered(&rendered) {
        Action::Finish { result } => {
            assert_eq!(
                result.unwrap_err(),
                "Rendering failed: Process failed with return code 2\nSTDERR: codec missing\nSTDOUT: partial"
            );
        }
        _ => panic!("expected the run to finish"),
    }
    assert_eq!(orch.phase, Phase::Failed);
    assert_eq!(orch.failed_stage, Some(StageName::Render));
}

#[test]
fn empty_timeline_fails_at_the_planning_stage() {
    let empty = MoveTimeline {
        timestamps_ms: vec![],
        time_per_move_ms: 200,
        x_offset: 0,
        y_offset: 0,
    };
    let mut orch = Orchestrator::new(empty, String::from("/proj"));
    orch.on_persisted(true, "");
    let rendered = ExecutionOutcome::from_completion(Some(0), String::new(), String::new());
    match orch.on_rendered(&rendered) {
        Action::Finish { result } => {
            assert_eq!(
                result.unwrap_err(),
                "Failed to process overlay data: No timestamps found in export data"
            );
        }
        _ => panic!("expected the run to finish"),
    }
    assert_eq!(orch.failed_stage, Some(StageName::Plan));
}

#[test]
fn failed_composite_ends_the_run_naming_the_stage() {
    let mut orch = Orchestrator::new(sample_timeline(), String::from("/proj"));
    orch.on_persisted(true, "");
    let rendered = ExecutionOutcome::from_completion(Some(0), String::new(), String::new());
    orch.on_rendered(&rendered);
    let composited = ExecutionOutcome::from_timeout(300);
    match orch.on_composited(&composited) {
        Action::Finish { result } => {
            assert_eq!(
                result.unwrap_err(),
                "FFmpeg command failed: Process timed out after 300 seconds"
            );
        }
        _ => panic!("expected the run to finish"),
    }
    assert_eq!(orch.phase, Phase::Failed);
    assert_eq!(orch.failed_stage, Some(StageName::Composite));
}
