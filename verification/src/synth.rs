//! Filter-graph synthesizer: turns paired overlay/background segments, a
//! pixel offset and the media paths into the full ordered argument list for
//! the external compositing engine.
//!
//! The list has a fixed shape: one input for the background clip, one trimmed
//! input per overlay segment, a semicolon-joined filter graph with two stages
//! per segment (per-segment processing, then overlay application), and a
//! fixed tail selecting the last chained video label, passing the audio
//! stream through unchanged and overwriting the output file.

use vstd::prelude::*;
use vstd::string::*;
use crate::decimal::{dec_digits, dec_int, ms_seconds, fmt_u64, fmt_i64, fmt_ms};
use crate::errors::InputError;
use crate::plan::{Segment, MAX_MOVES, offset_or_default};

verus! {

/// Largest segment boundary magnitude, in milliseconds, the synthesizer
/// accepts; every planner output under [`crate::plan::plan`]'s bounds stays
/// within it, and every difference of two such boundaries fits `i64`.
pub const SEG_BOUND_MS: i64 = 1_000_000_000_000_000;

/// The segment's boundaries are within the magnitude the synthesizer accepts.
pub open spec fn seg_bounded(s: Segment) -> bool {
    &&& -SEG_BOUND_MS <= s.start_ms <= SEG_BOUND_MS
    &&& -SEG_BOUND_MS <= s.end_ms <= SEG_BOUND_MS
}

/// Every segment of the list is bounded.
pub open spec fn segs_bounded(ss: Seq<Segment>) -> bool {
    forall|i: int| 0 <= i < ss.len() ==> seg_bounded(#[trigger] ss[i])
}

/// Length of a segment in milliseconds.
pub open spec fn seg_duration(s: Segment) -> int {
    s.end_ms - s.start_ms
}

/// A media file name resolved against the project root, inside the fixed
/// working subdirectory.
pub open spec fn media_path(root: Seq<char>, name: Seq<char>) -> Seq<char> {
    root + "/sample_exporting/"@ + name
}

/// The caller's file name when given, the stage's default otherwise.
pub open spec fn name_or(name: Option<Seq<char>>, default_name: Seq<char>) -> Seq<char> {
    match name {
        Some(n) => n,
        None => default_name,
    }
}

/// The engine's label for the video stream of input `i`.
pub open spec fn input_label(i: int) -> Seq<char> {
    "["@ + dec_digits(i as nat) + ":v]"@
}

/// The label given to overlay input `i` after its per-segment processing.
pub open spec fn processed_label(i: int) -> Seq<char> {
    "[processed_overlay_"@ + dec_digits(i as nat) + "]"@
}

/// The label of the composited video after `i` overlay applications.
pub open spec fn out_label(i: int) -> Seq<char> {
    "[v_out_"@ + dec_digits(i as nat) + "]"@
}

/// The video stream the `i`-th overlay application draws on: the background
/// input for the first, the previous application's output afterwards.
pub open spec fn chain_source_label(i: int) -> Seq<char> {
    if i == 0 {
        input_label(0)
    } else {
        out_label(i)
    }
}

/// The trimmed engine input for one overlay segment: seek to its start and
/// read for its duration.
pub open spec fn overlay_input(s: Segment, ov_path: Seq<char>) -> Seq<Seq<char>> {
    seq![
        "-ss"@,
        ms_seconds(s.start_ms as int),
        "-t"@,
        ms_seconds(seg_duration(s)),
        "-i"@,
        ov_path,
    ]
}

/// The trimmed engine inputs for all overlay segments, in order.
pub open spec fn overlay_input_args(ov: Seq<Segment>, ov_path: Seq<char>) -> Seq<Seq<char>>
    decreases ov.len(),
{
    if ov.len() == 0 {
        Seq::empty()
    } else {
        overlay_input_args(ov.drop_last(), ov_path) + overlay_input(ov.last(), ov_path)
    }
}

/// The hold-last-frame padding prepended when the background interval is
/// longer than the overlay interval by more than one millisecond.
pub open spec fn tpad_prefix(freeze: int) -> Seq<char> {
    if freeze > 1 {
        "tpad=stop_mode=clone:stop_duration="@ + ms_seconds(freeze) + ","@
    } else {
        Seq::<char>::empty()
    }
}

/// Per-segment processing stage `i` (0-based): optional padding, then a
/// presentation-timestamp shift aligning the overlay to its background start.
pub open spec fn chain_part(i: int, ov: Segment, bg: Segment) -> Seq<char> {
    input_label(i + 1) + tpad_prefix(seg_duration(bg) - seg_duration(ov)) + "setpts=PTS+"@
        + ms_seconds(bg.start_ms as int) + "/TB"@ + processed_label(i + 1)
}

/// Overlay application stage `i` (0-based): places the processed overlay on
/// the running composited stream at the pixel offset, visible only during the
/// background interval.
pub open spec fn apply_part(i: int, bg: Segment, x: int, y: int) -> Seq<char> {
    chain_source_label(i) + processed_label(i + 1) + "overlay="@ + dec_int(x) + ":"@ + dec_int(y)
        + ":enable='between(t,"@ + ms_seconds(bg.start_ms as int) + ","@
        + ms_seconds(bg.end_ms as int) + ")'"@ + out_label(i + 1)
}

/// The filter-graph stages, two per segment, in order.
pub open spec fn filter_parts(ov: Seq<Segment>, bg: Seq<Segment>, x: int, y: int) -> Seq<
    Seq<char>,
>
    decreases ov.len(),
{
    if ov.len() == 0 {
        Seq::empty()
    } else {
        filter_parts(ov.drop_last(), bg.drop_last(), x, y) + seq![
            chain_part(ov.len() - 1, ov.last(), bg.last()),
            apply_part(ov.len() - 1, bg.last(), x, y),
        ]
    }
}

/// The stages joined with semicolons.
pub open spec fn join_semicolons(parts: Seq<Seq<char>>) -> Seq<char>
    decreases parts.len(),
{
    if parts.len() == 0 {
        Seq::empty()
    } else if parts.len() == 1 {
        parts[0]
    } else {
        join_semicolons(parts.drop_last()) + ";"@ + parts.last()
    }
}

/// The whole filter-graph expression.
pub open spec fn filter_graph(ov: Seq<Segment>, bg: Seq<Segment>, x: int, y: int) -> Seq<char> {
    join_semicolons(filter_parts(ov, bg, x, y))
}

/// The full ordered argument list handed to the compositing engine.
pub open spec fn engine_args(
    ov: Seq<Segment>,
    bg: Seq<Segment>,
    x: int,
    y: int,
    bg_path: Seq<char>,
    ov_path: Seq<char>,
    out_path: Seq<char>,
) -> Seq<Seq<char>> {
    seq!["-i"@, bg_path] + overlay_input_args(ov, ov_path) + seq![
        "-filter_complex"@,
        filter_graph(ov, bg, x, y),
        "-map"@,
        chain_source_label(ov.len() as int),
        "-map"@,
        "0:a?"@,
        "-c:a"@,
        "copy"@,
        "-y"@,
        out_path,
    ]
}

/// What the synthesizer returns: mismatched list lengths are rejected first,
/// then empty lists; otherwise the exact engine argument list over the
/// resolved media paths.
pub open spec fn synthesize_is_correct(
    ov: Seq<Segment>,
    bg: Seq<Segment>,
    offset: Option<(i64, i64)>,
    root: Seq<char>,
    bg_name: Option<Seq<char>>,
    ov_name: Option<Seq<char>>,
    out_name: Option<Seq<char>>,
    r: Result<Seq<Seq<char>>, InputError>,
) -> bool {
    let off = offset_or_default(offset);
    match r {
        Ok(args) => ov.len() == bg.len() && ov.len() > 0 && args == engine_args(
            ov,
            bg,
            off.0 as int,
            off.1 as int,
            media_path(root, name_or(bg_name, "background.mp4"@)),
            media_path(root, name_or(ov_name, "chess-animation.mp4"@)),
            media_path(root, name_or(out_name, "output.mp4"@)),
        ),
        Err(e) => if ov.len() != bg.len() {
            e == InputError::SegmentCountMismatch
        } else {
            ov.len() == 0 && e == InputError::EmptyInput
        },
    }
}

/// A file name resolved against the project root and the fixed working
/// subdirectory, with the stage's default when the caller gave none.
fn resolve_media_path(root: &str, name: Option<&str>, default_name: &str) -> (r: String)
    ensures
        r@ == media_path(
            root@,
            name_or(
                match name {
                    Some(n) => Some(n@),
                    None => None,
                },
                default_name@,
            ),
        ),
{
    let mut r = String::from_str(root);
    r.append("/sample_exporting/");
    match name {
        Some(n) => r.append(n),
        None => r.append(default_name),
    }
    r
}

/// The engine's label for the video stream of input `i`.
fn input_label_str(i: u64) -> (r: String)
    ensures
        r@ == input_label(i as int),
{
    let mut r = String::from_str("[");
    let digits = fmt_u64(i);
    r.append(digits.as_str());
    r.append(":v]");
    r
}

/// The label given to overlay input `i` after its processing stage.
fn processed_label_str(i: u64) -> (r: String)
    ensures
        r@ == processed_label(i as int),
{
    let mut r = String::from_str("[processed_overlay_");
    let digits = fmt_u64(i);
    r.append(digits.as_str());
    r.append("]");
    r
}

/// The label of the composited video after `i` overlay applications.
fn out_label_str(i: u64) -> (r: String)
    ensures
        r@ == out_label(i as int),
{
    let mut r = String::from_str("[v_out_");
    let digits = fmt_u64(i);
    r.append(digits.as_str());
    r.append("]");
    r
}

/// The stream the `i`-th overlay application draws on.
fn source_label_str(i: u64) -> (r: String)
    ensures
        r@ == chain_source_label(i as int),
{
    if i == 0 {
        input_label_str(0)
    } else {
        out_label_str(i)
    }
}

/// Joins the filter stages with semicolons.
fn join_with_semicolons(parts: &Vec<String>) -> (r: String)
    ensures
        r@ == join_semicolons(parts.deep_view()),
{
    let n = parts.len();
    let mut r = String::new();
    let mut i: usize = 0;
    while i < n
        invariant
            i <= n,
            n == parts@.len(),
            r@ == join_semicolons(parts.deep_view().take(i as int)),
        decreases n - i,
    {
        if i > 0 {
            r.append(";");
        }
        r.append(parts[i].as_str());
        i += 1;
        proof {
            assert(parts.deep_view().take(i as int).drop_last() =~~= parts.deep_view().take(
                i as int - 1,
            ));
            assert(parts.deep_view().take(i as int).last() == parts.deep_view()[i as int - 1]);
            assert(r@ =~= join_semicolons(parts.deep_view().take(i as int)));
        }
    }
    proof {
        assert(parts.deep_view().take(n as int) =~~= parts.deep_view());
    }
    r
}

/// Synthesizes the compositing engine's argument list for the paired
/// segments.
///
/// Rejects lists of different lengths with
/// [`InputError::SegmentCountMismatch`] and empty lists with
/// [`InputError::EmptyInput`]; otherwise returns exactly the argument list
/// [`engine_args`] describes, over the three media paths resolved against
/// `project_root` (with the fixed default file names where none is given).
#[verifier::rlimit(100)]
pub fn synthesize(
    overlay: &Vec<Segment>,
    background: &Vec<Segment>,
    offset: Option<(i64, i64)>,
    project_root: &str,
    background_file: Option<&str>,
    overlay_file: Option<&str>,
    output_file: Option<&str>,
) -> (r: Result<Vec<String>, InputError>)
    requires
        segs_bounded(overlay@),
        segs_bounded(background@),
        overlay@.len() <= MAX_MOVES,
        match offset {
            Some(p) => p.0 != i64::MIN && p.1 != i64::MIN,
            None => true,
        },
    ensures
        synthesize_is_correct(
            overlay@,
            background@,
            offset,
            project_root@,
            match background_file {
                Some(n) => Some(n@),
                None => None,
            },
            match overlay_file {
                Some(n) => Some(n@),
                None => None,
            },
            match output_file {
                Some(n) => Some(n@),
                None => None,
            },
            match r {
                Ok(args) => Ok(args.deep_view()),
                Err(e) => Err(e),
            },
        ),
{
    let n = overlay.len();
    if n != background.len() {
        return Err(InputError::SegmentCountMismatch);
    }
    if n == 0 {
        return Err(InputError::EmptyInput);
    }

    let (x, y) = match offset {
        Some(p) => p,
        None => (0, 0),
    };

    let bg_path = resolve_media_path(project_root, background_file, "background.mp4");
    let ov_path = resolve_media_path(project_root, overlay_file, "chess-animation.mp4");
    let out_path = resolve_media_path(project_root, output_file, "output.mp4");

    let ghost header: Seq<Seq<char>> = seq!["-i"@, bg_path@];

    let mut args: Vec<String> = Vec::new();
    args.push(String::from_str("-i"));
    args.push(bg_path.clone());
    proof {
        assert(args.deep_view() =~~= header);
    }

    let mut i: usize = 0;
    while i < n
        invariant
            i <= n,
            n == overlay@.len(),
            n <= MAX_MOVES,
            segs_bounded(overlay@),
            args.deep_view() == header + overlay_input_args(overlay@.take(i as int), ov_path@),
        decreases n - i,
    {
        let ghost prefix = args.deep_view();
        let s = overlay[i];
        args.push(String::from_str("-ss"));
        args.push(fmt_ms(s.start_ms));
        args.push(String::from_str("-t"));
        args.push(fmt_ms(s.end_ms - s.start_ms));
        args.push(String::from_str("-i"));
        args.push(ov_path.clone());
        i += 1;
        proof {
            assert(args.deep_view() =~~= prefix + overlay_input(s, ov_path@));
            assert(overlay@.take(i as int).drop_last() =~= overlay@.take(i as int - 1));
            assert(overlay@.take(i as int).last() == overlay@[i as int - 1]);
            assert(args.deep_view() =~~= header + overlay_input_args(
                overlay@.take(i as int),
                ov_path@,
            ));
        }
    }
    proof {
        assert(overlay@.take(n as int) =~= overlay@);
    }

    let mut parts: Vec<String> = Vec::new();
    let mut k: usize = 0;
    while k < n
        invariant
            k <= n,
            n == overlay@.len(),
            n == background@.len(),
            n <= MAX_MOVES,
            segs_bounded(overlay@),
            segs_bounded(background@),
            x != i64::MIN,
            y != i64::MIN,
            parts.deep_view() == filter_parts(
                overlay@.take(k as int),
                background@.take(k as int),
                x as int,
                y as int,
            ),
        decreases n - k,
    {
        let ov_s = overlay[k];
        let bg_s = background[k];

        let mut chain = input_label_str((k + 1) as u64);
        let freeze = (bg_s.end_ms - bg_s.start_ms) - (ov_s.end_ms - ov_s.start_ms);
        if freeze > 1 {
            chain.append("tpad=stop_mode=clone:stop_duration=");
            let freeze_str = fmt_ms(freeze);
            chain.append(freeze_str.as_str());
            chain.append(",");
        }
        chain.append("setpts=PTS+");
        let shift_str = fmt_ms(bg_s.start_ms);
        chain.append(shift_str.as_str());
        chain.append("/TB");
        let plabel = processed_label_str((k + 1) as u64);
        chain.append(plabel.as_str());
        proof {
            assert(chain@ =~= chain_part(k as int, ov_s, bg_s));
        }

        let mut apply = source_label_str(k as u64);
        apply.append(plabel.as_str());
        apply.append("overlay=");
        let x_str = fmt_i64(x);
        apply.append(x_str.as_str());
        apply.append(":");
        let y_str = fmt_i64(y);
        apply.append(y_str.as_str());
        apply.append(":enable='between(t,");
        let from_str_ms = fmt_ms(bg_s.start_ms);
        apply.append(from_str_ms.as_str());
        apply.append(",");
        let to_str_ms = fmt_ms(bg_s.end_ms);
        apply.append(to_str_ms.as_str());
        apply.append(")'");
        let olabel = out_label_str((k + 1) as u64);
        apply.append(olabel.as_str());
        proof {
            assert(apply@ =~= apply_part(k as int, bg_s, x as int, y as int));
        }

        parts.push(chain);
        parts.push(apply);
        k += 1;
        proof {
            assert(overlay@.take(k as int).drop_last() =~= overlay@.take(k as int - 1));
            assert(background@.take(k as int).drop_last() =~= background@.take(k as int - 1));
            assert(overlay@.take(k as int).last() == overlay@[k as int - 1]);
            assert(background@.take(k as int).last() == background@[k as int - 1]);
            assert(parts.deep_view() =~~= filter_parts(
                overlay@.take(k as int),
                background@.take(k as int),
                x as int,
                y as int,
            ));
        }
    }
    proof {
        assert(overlay@.take(n as int) =~= overlay@);
        assert(background@.take(n as int) =~= background@);
    }

    let graph = join_with_semicolons(&parts);
    args.push(String::from_str("-filter_complex"));
    args.push(graph);
    args.push(String::from_str("-map"));
    args.push(source_label_str(n as u64));
    args.push(String::from_str("-map"));
    args.push(String::from_str("0:a?"));
    args.push(String::from_str("-c:a"));
    args.push(String::from_str("copy"));
    args.push(String::from_str("-y"));
    args.push(out_path);
    proof {
        assert(args.deep_view() =~~= engine_args(
            overlay@,
            background@,
            x as int,
            y as int,
            bg_path@,
            ov_path@,
            out_path@,
        ));
    }
    Ok(args)
}

/// Everything the planner emits under its own input bounds stays within the
/// magnitude the synthesizer accepts.
pub proof fn lemma_plan_outputs_bounded(ts: Seq<i64>, tpm: i64)
    requires
        ts.len() <= MAX_MOVES,
        crate::plan::times_bounded(ts),
        -crate::plan::MAX_TIME_MS <= tpm <= crate::plan::MAX_TIME_MS,
    ensures
        segs_bounded(crate::plan::overlay_segments(ts.len(), tpm as int)),
        segs_bounded(crate::plan::background_segments(ts, tpm as int)),
{
    let ov = crate::plan::overlay_segments(ts.len(), tpm as int);
    assert forall|i: int| 0 <= i < ov.len() implies seg_bounded(#[trigger] ov[i]) by {
        crate::plan::lemma_mul_bound(
            i,
            tpm as int,
            MAX_MOVES as int,
            crate::plan::MAX_TIME_MS as int,
        );
        crate::plan::lemma_mul_bound(
            i + 1,
            tpm as int,
            MAX_MOVES as int,
            crate::plan::MAX_TIME_MS as int,
        );
    }
}

/// Six input arguments per overlay segment.
proof fn lemma_overlay_input_args_len(ov: Seq<Segment>, ov_path: Seq<char>)
    ensures
        overlay_input_args(ov, ov_path).len() == 6 * ov.len(),
    decreases ov.len(),
{
    if ov.len() > 0 {
        lemma_overlay_input_args_len(ov.drop_last(), ov_path);
    }
}

/// The argument list scales linearly with the segment count: two header
/// arguments, six per overlay segment, and a fixed ten-argument tail.
pub proof fn lemma_engine_arg_count(
    ov: Seq<Segment>,
    bg: Seq<Segment>,
    x: int,
    y: int,
    bg_path: Seq<char>,
    ov_path: Seq<char>,
    out_path: Seq<char>,
)
    ensures
        engine_args(ov, bg, x, y, bg_path, ov_path, out_path).len() == 12 + 6 * ov.len(),
{
    lemma_overlay_input_args_len(ov, ov_path);
}

} // verus!
