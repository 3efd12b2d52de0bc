//! Export orchestrator: a sequential state machine that drives the pipeline
//! persist -> render -> plan -> synthesize -> composite -> done.
//!
//! The orchestrator itself performs no I/O.  Each step returns an [`Action`]
//! for the surrounding program to carry out (write a file, run a bounded
//! external process, report the result); the surrounding program hands the
//! observed result back as the next event.  Each stage runs exactly once; the
//! first failure ends the run with a single message naming the stage and the
//! underlying cause.

use vstd::prelude::*;
use vstd::string::*;
use crate::codec::{MoveTimeline, timeline_json, timeline_renderable, join_comma,
    lemma_join_comma_push, json_escaped, json_escape};
use crate::decimal::{dec_int, ms_seconds, fmt_i64, fmt_ms};
use crate::errors::{InputError, error_message};
use crate::outcome::{ExecutionOutcome, DEFAULT_TIMEOUT_SECS};
use crate::plan::{Segment, plan, times_bounded, overlay_segments, background_segments, MAX_MOVES,
    MAX_TIME_MS};
use crate::synth::{synthesize, engine_args, media_path, segs_bounded,
    lemma_plan_outputs_bounded};

verus! {

/// The command line that renders the overlay animation clip.
pub const RENDER_COMMAND: &'static str =
    "npx remotion render remotion/index.ts Chess sample_exporting/chess-animation.mp4";

/// The name of the packaged compositing engine executable.
pub const ENGINE_PROGRAM: &'static str = "ffmpeg";

/// The pipeline stage a failure is attributed to.
#[derive(Clone, Copy, PartialEq, Eq, Structural, Debug)]
pub enum StageName {
    Persist,
    Render,
    Plan,
    Synthesize,
    Composite,
}

/// Where one orchestration run stands.
#[derive(Clone, Copy, PartialEq, Eq, Structural, Debug)]
pub enum Phase {
    Idle,
    DataPersisted,
    Rendered,
    Planned,
    Synthesized,
    Composited,
    Done,
    Failed,
}

/// What the surrounding program must do next.
#[derive(Debug)]
pub enum Action {
    /// Write `contents` to `path`.
    WriteFile { path: String, contents: String },
    /// Run a shell command line in `working_dir` under the bounded executor.
    RunShell { command_line: String, working_dir: String, timeout_secs: u64 },
    /// Run the compositing engine, with the orchestrator's synthesized
    /// argument list, in `working_dir` under the bounded executor.
    RunEngine { working_dir: String, timeout_secs: u64 },
    /// The run is over: the result payload, or the failure message.
    Finish { result: Result<String, String> },
}

/// The prefix of the message a failing stage surfaces.
pub open spec fn stage_text(stage: StageName) -> Seq<char> {
    match stage {
        StageName::Persist => "Failed to write export data"@,
        StageName::Render => "Rendering failed"@,
        StageName::Plan => "Failed to process overlay data"@,
        StageName::Synthesize => "Failed to generate FFmpeg command"@,
        StageName::Composite => "FFmpeg command failed"@,
    }
}

/// The single error string a failed run surfaces: the stage, then the cause.
pub open spec fn stage_failure_text(stage: StageName, cause: Seq<char>) -> Seq<char> {
    stage_text(stage) + ": "@ + cause
}

/// The fixed path the export document is persisted to, under the project
/// root.
pub open spec fn export_path(root: Seq<char>) -> Seq<char> {
    root + "/remotion/export.json"@
}

/// One segment as a two-element JSON array of seconds.
pub open spec fn seg_pair_json(s: Segment) -> Seq<char> {
    "["@ + ms_seconds(s.start_ms as int) + ","@ + ms_seconds(s.end_ms as int) + "]"@
}

/// A segment list as a JSON array of pairs.
pub open spec fn segments_json(ss: Seq<Segment>) -> Seq<char> {
    "["@ + join_comma(ss.map_values(|s: Segment| seg_pair_json(s))) + "]"@
}

/// Items joined with single spaces.
pub open spec fn join_space(items: Seq<Seq<char>>) -> Seq<char>
    decreases items.len(),
{
    if items.len() == 0 {
        Seq::empty()
    } else if items.len() == 1 {
        items[0]
    } else {
        join_space(items.drop_last()) + " "@ + items.last()
    }
}

/// The result payload of a successful run: the segment data, the offset, the
/// full engine command line (for diagnostics) and the captured engine output.
pub open spec fn success_payload(
    ov: Seq<Segment>,
    bg: Seq<Segment>,
    x: i64,
    y: i64,
    args: Seq<Seq<char>>,
    output: Seq<char>,
) -> Seq<char> {
    "{\"status\":\"success\",\"overlay_segments\":"@ + segments_json(ov)
        + ",\"background_segments\":"@ + segments_json(bg) + ",\"xy_offset\":["@ + dec_int(
        x as int,
    ) + ","@ + dec_int(y as int) + "],\"ffmpeg_command\":\""@ + json_escaped(
        "ffmpeg "@ + join_space(args),
    ) + "\",\"ffmpeg_output\":\""@ + json_escaped(output)
        + "\",\"message\":\"Chess animation rendered, overlay data processed, and FFmpeg command executed successfully\"}"@
}

/// The timeline values the orchestrator accepts: what the planner, the
/// synthesizer and the document renderer ask for.
pub open spec fn timeline_in_range(t: MoveTimeline) -> bool {
    &&& times_bounded(t.timestamps_ms@)
    &&& t.timestamps_ms@.len() <= MAX_MOVES
    &&& -MAX_TIME_MS <= t.time_per_move_ms <= MAX_TIME_MS
    &&& t.x_offset != i64::MIN
    &&& t.y_offset != i64::MIN
}

/// The message for a failing stage.
fn fail_message(stage: StageName, cause: &str) -> (r: String)
    ensures
        r@ == stage_failure_text(stage, cause@),
{
    let mut r = match stage {
        StageName::Persist => String::from_str("Failed to write export data"),
        StageName::Render => String::from_str("Rendering failed"),
        StageName::Plan => String::from_str("Failed to process overlay data"),
        StageName::Synthesize => String::from_str("Failed to generate FFmpeg command"),
        StageName::Composite => String::from_str("FFmpeg command failed"),
    };
    r.append(": ");
    r.append(cause);
    r
}

/// A segment list rendered as a JSON array of `[start, end]` second pairs.
fn segments_json_str(ss: &Vec<Segment>) -> (r: String)
    requires
        segs_bounded(ss@),
    ensures
        r@ == segments_json(ss@),
{
    let mut r = String::from_str("[");
    let ghost head = "["@;
    let n = ss.len();
    let mut i: usize = 0;
    while i < n
        invariant
            i <= n,
            n == ss@.len(),
            segs_bounded(ss@),
            r@ == head + join_comma(ss@.take(i as int).map_values(|s: Segment| seg_pair_json(s))),
        decreases n - i,
    {
        if i > 0 {
            r.append(",");
        }
        let s = ss[i];
        r.append("[");
        let start_str = fmt_ms(s.start_ms);
        r.append(start_str.as_str());
        r.append(",");
        let end_str = fmt_ms(s.end_ms);
        r.append(end_str.as_str());
        r.append("]");
        i += 1;
        proof {
            let prior = ss@.take(i as int - 1).map_values(|s: Segment| seg_pair_json(s));
            lemma_join_comma_push(prior, seg_pair_json(ss@[i as int - 1]));
            assert(ss@.take(i as int).map_values(|s: Segment| seg_pair_json(s)) =~~= prior.push(
                seg_pair_json(ss@[i as int - 1]),
            ));
            assert(r@ =~= head + join_comma(
                ss@.take(i as int).map_values(|s: Segment| seg_pair_json(s)),
            ));
        }
    }
    proof {
        assert(ss@.take(n as int) =~= ss@);
    }
    r.append("]");
    proof {
        assert(r@ =~= segments_json(ss@));
    }
    r
}

/// The arguments joined with single spaces.
pub(crate) fn join_with_spaces(args: &Vec<String>) -> (r: String)
    ensures
        r@ == join_space(args.deep_view()),
{
    let n = args.len();
    let mut r = String::new();
    let mut i: usize = 0;
    while i < n
        invariant
            i <= n,
            n == args@.len(),
            r@ == join_space(args.deep_view().take(i as int)),
        decreases n - i,
    {
        if i > 0 {
            r.append(" ");
        }
        r.append(args[i].as_str());
        i += 1;
        proof {
            assert(args.deep_view().take(i as int).drop_last() =~~= args.deep_view().take(
                i as int - 1,
            ));
            assert(args.deep_view().take(i as int).last() == args.deep_view()[i as int - 1]);
            assert(r@ =~= join_space(args.deep_view().take(i as int)));
        }
    }
    proof {
        assert(args.deep_view().take(n as int) =~~= args.deep_view());
    }
    r
}

/// Assembles the success payload.
fn assemble_success(
    overlay: &Vec<Segment>,
    background: &Vec<Segment>,
    offset: (i64, i64),
    args: &Vec<String>,
    output: &str,
) -> (r: String)
    requires
        segs_bounded(overlay@),
        segs_bounded(background@),
        offset.0 != i64::MIN,
        offset.1 != i64::MIN,
    ensures
        r@ == success_payload(
            overlay@,
            background@,
            offset.0,
            offset.1,
            args.deep_view(),
            output@,
        ),
{
    let mut r = String::from_str("{\"status\":\"success\",\"overlay_segments\":");
    let ov_json = segments_json_str(overlay);
    r.append(ov_json.as_str());
    r.append(",\"background_segments\":");
    let bg_json = segments_json_str(background);
    r.append(bg_json.as_str());
    r.append(",\"xy_offset\":[");
    let x_str = fmt_i64(offset.0);
    r.append(x_str.as_str());
    r.append(",");
    let y_str = fmt_i64(offset.1);
    r.append(y_str.as_str());
    r.append("],\"ffmpeg_command\":\"");
    let mut command = String::from_str("ffmpeg ");
    let joined = join_with_spaces(args);
    command.append(joined.as_str());
    let command_escaped = json_escape(command.as_str());
    r.append(command_escaped.as_str());
    r.append("\",\"ffmpeg_output\":\"");
    let output_escaped = json_escape(output);
    r.append(output_escaped.as_str());
    r.append(
        "\",\"message\":\"Chess animation rendered, overlay data processed, and FFmpeg command executed successfully\"}",
    );
    proof {
        assert(r@ =~= success_payload(
            overlay@,
            background@,
            offset.0,
            offset.1,
            args.deep_view(),
            output@,
        ));
    }
    r
}

/// One export run.  Events come in through the `on_*` methods; each returns
/// the next [`Action`].
pub struct Orchestrator {
    /// The validated input timeline.
    pub timeline: MoveTimeline,
    /// The explicitly injected project root every path is resolved against.
    pub project_root: String,
    /// Where the run stands.
    pub phase: Phase,
    /// The stage a failed run stopped at.
    pub failed_stage: Option<StageName>,
    /// The planned overlay segments (from the planning stage on).
    pub overlay: Vec<Segment>,
    /// The planned background segments (from the planning stage on).
    pub background: Vec<Segment>,
    /// The pixel offset of the overlay.
    pub offset: (i64, i64),
    /// The synthesized engine argument list (from the synthesis stage on).
    pub engine_args: Vec<String>,
}

impl Orchestrator {
    /// The internal invariant every step preserves.
    pub open spec fn wf(self) -> bool {
        &&& timeline_in_range(self.timeline)
        &&& self.phase == Phase::Synthesized ==> {
            &&& segs_bounded(self.overlay@)
            &&& segs_bounded(self.background@)
            &&& self.offset.0 != i64::MIN
            &&& self.offset.1 != i64::MIN
        }
    }

    /// Begins a run for a timeline, idle until the first event.
    pub fn new(timeline: MoveTimeline, project_root: String) -> (r: Orchestrator)
        requires
            timeline_in_range(timeline),
        ensures
            r.wf(),
            r.phase == Phase::Idle,
            r.timeline == timeline,
            r.project_root@ == project_root@,
    {
        Orchestrator {
            timeline,
            project_root,
            phase: Phase::Idle,
            failed_stage: None,
            overlay: Vec::new(),
            background: Vec::new(),
            offset: (0, 0),
            engine_args: Vec::new(),
        }
    }

    /// The first action of a run: persist the export document to its fixed
    /// path under the project root.
    pub fn start(&self) -> (a: Action)
        requires
            self.phase == Phase::Idle,
            self.wf(),
        ensures
            match a {
                Action::WriteFile { path, contents } => path@ == export_path(self.project_root@)
                    && contents@ == timeline_json(
                    self.timeline.timestamps_ms@,
                    self.timeline.time_per_move_ms,
                    self.timeline.x_offset,
                    self.timeline.y_offset,
                ),
                _ => false,
            },
    {
        let mut path = String::from_str(self.project_root.as_str());
        path.append("/remotion/export.json");
        proof {
            assert(timeline_renderable(self.timeline));
        }
        let contents = self.timeline.to_json();
        Action::WriteFile { path, contents }
    }

    /// The persistence result.  Success moves the run on to rendering the
    /// animation clip; failure ends the run naming the persistence stage.
    pub fn on_persisted(&mut self, ok: bool, error: &str) -> (a: Action)
        requires
            old(self).phase == Phase::Idle,
            old(self).wf(),
        ensures
            final(self).wf(),
            final(self).timeline == old(self).timeline,
            final(self).project_root@ == old(self).project_root@,
            ok ==> final(self).phase == Phase::DataPersisted && match a {
                Action::RunShell { command_line, working_dir, timeout_secs } => command_line@
                    == RENDER_COMMAND@ && working_dir@ == old(self).project_root@ && timeout_secs
                    == DEFAULT_TIMEOUT_SECS,
                _ => false,
            },
            !ok ==> final(self).phase == Phase::Failed && final(self).failed_stage == Some(
                StageName::Persist,
            ) && match a {
                Action::Finish { result } => result matches Err(m) && m@ == stage_failure_text(
                    StageName::Persist,
                    error@,
                ),
                _ => false,
            },
    {
        if ok {
            self.phase = Phase::DataPersisted;
            Action::RunShell {
                command_line: String::from_str(RENDER_COMMAND),
                working_dir: String::from_str(self.project_root.as_str()),
                timeout_secs: DEFAULT_TIMEOUT_SECS,
            }
        } else {
            self.phase = Phase::Failed;
            self.failed_stage = Some(StageName::Persist);
            Action::Finish { result: Err(fail_message(StageName::Persist, error)) }
        }
    }

    /// The rendering tool's outcome.  On success the planner and the
    /// synthesizer run (each exactly once); their output becomes the engine
    /// invocation.  Any failure ends the run naming its stage.
    pub fn on_rendered(&mut self, outcome: &ExecutionOutcome) -> (a: Action)
        requires
            old(self).phase == Phase::DataPersisted,
            old(self).wf(),
        ensures
            final(self).wf(),
            final(self).timeline == old(self).timeline,
            final(self).project_root@ == old(self).project_root@,
            !outcome.success ==> final(self).phase == Phase::Failed && final(self).failed_stage
                == Some(StageName::Render) && match a {
                Action::Finish { result } => result matches Err(m) && m@ == stage_failure_text(
                    StageName::Render,
                    outcome.stderr@,
                ),
                _ => false,
            },
            outcome.success && old(self).timeline.timestamps_ms@.len() == 0 ==> final(self).phase
                == Phase::Failed && final(self).failed_stage == Some(StageName::Plan) && match a {
                Action::Finish { result } => result matches Err(m) && m@ == stage_failure_text(
                    StageName::Plan,
                    error_message(InputError::EmptyInput),
                ),
                _ => false,
            },
            outcome.success && old(self).timeline.timestamps_ms@.len() > 0 ==> {
                let t = old(self).timeline;
                let args = engine_args(
                    overlay_segments(t.timestamps_ms@.len(), t.time_per_move_ms as int),
                    background_segments(t.timestamps_ms@, t.time_per_move_ms as int),
                    t.x_offset as int,
                    t.y_offset as int,
                    media_path(old(self).project_root@, "background.mp4"@),
                    media_path(old(self).project_root@, "chess-animation.mp4"@),
                    media_path(old(self).project_root@, "output.mp4"@),
                );
                &&& final(self).phase == Phase::Synthesized
                &&& final(self).overlay@ == overlay_segments(
                    t.timestamps_ms@.len(),
                    t.time_per_move_ms as int,
                )
                &&& final(self).background@ == background_segments(
                    t.timestamps_ms@,
                    t.time_per_move_ms as int,
                )
                &&& final(self).offset == (t.x_offset, t.y_offset)
                &&& final(self).engine_args.deep_view() == args
                &&& match a {
                    Action::RunEngine { working_dir, timeout_secs } => {
                        &&& working_dir@ == old(self).project_root@
                        &&& timeout_secs == DEFAULT_TIMEOUT_SECS
                    },
                    _ => false,
                }
            },
    {
        if !outcome.success {
            self.phase = Phase::Failed;
            self.failed_stage = Some(StageName::Render);
            return Action::Finish {
                result: Err(fail_message(StageName::Render, outcome.stderr.as_str())),
            };
        }
        self.phase = Phase::Rendered;
        let offset = (self.timeline.x_offset, self.timeline.y_offset);
        let planned = plan(&self.timeline.timestamps_ms, self.timeline.time_per_move_ms, Some(offset));
        match planned {
            Err(e) => {
                self.phase = Phase::Failed;
                self.failed_stage = Some(StageName::Plan);
                let cause = e.message();
                Action::Finish { result: Err(fail_message(StageName::Plan, cause.as_str())) }
            },
            Ok(parts) => {
                self.phase = Phase::Planned;
                let (overlay, background, off) = parts;
                proof {
                    lemma_plan_outputs_bounded(
                        self.timeline.timestamps_ms@,
                        self.timeline.time_per_move_ms,
                    );
                }
                let synthesized = synthesize(
                    &overlay,
                    &background,
                    Some(off),
                    self.project_root.as_str(),
                    None,
                    None,
                    None,
                );
                match synthesized {
                    // Unreachable: the planner returns equally long, non-empty
                    // lists, which the synthesizer never rejects.
                    Err(e) => {
                        proof {
                            assert(false);
                        }
                        self.phase = Phase::Failed;
                        self.failed_stage = Some(StageName::Synthesize);
                        let cause = e.message();
                        Action::Finish {
                            result: Err(fail_message(StageName::Synthesize, cause.as_str())),
                        }
                    },
                    Ok(args) => {
                        self.phase = Phase::Synthesized;
                        self.overlay = overlay;
                        self.background = background;
                        self.offset = off;
                        self.engine_args = args;
                        Action::RunEngine {
                            working_dir: String::from_str(self.project_root.as_str()),
                            timeout_secs: DEFAULT_TIMEOUT_SECS,
                        }
                    },
                }
            },
        }
    }

    /// The compositing engine's outcome: on success the run is done and the
    /// result payload is assembled; otherwise the run ends naming the
    /// compositing stage.
    pub fn on_composited(&mut self, outcome: &ExecutionOutcome) -> (a: Action)
        requires
            old(self).phase == Phase::Synthesized,
            old(self).wf(),
        ensures
            final(self).wf(),
            outcome.success ==> final(self).phase == Phase::Done && match a {
                Action::Finish { result } => result matches Ok(m) && m@ == success_payload(
                    old(self).overlay@,
                    old(self).background@,
                    old(self).offset.0,
                    old(self).offset.1,
                    old(self).engine_args.deep_view(),
                    outcome.stdout@,
                ),
                _ => false,
            },
            !outcome.success ==> final(self).phase == Phase::Failed && final(self).failed_stage
                == Some(StageName::Composite) && match a {
                Action::Finish { result } => result matches Err(m) && m@ == stage_failure_text(
                    StageName::Composite,
                    outcome.stderr@,
                ),
                _ => false,
            },
    {
        if outcome.success {
            self.phase = Phase::Composited;
            let payload = assemble_success(
                &self.overlay,
                &self.background,
                self.offset,
                &self.engine_args,
                outcome.stdout.as_str(),
            );
            self.phase = Phase::Done;
            Action::Finish { result: Ok(payload) }
        } else {
            self.phase = Phase::Failed;
            self.failed_stage = Some(StageName::Composite);
            Action::Finish {
                result: Err(fail_message(StageName::Composite, outcome.stderr.as_str())),
            }
        }
    }
}

} // verus!
