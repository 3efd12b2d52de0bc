//! Segment planner: turns a timeline of move timestamps into paired
//! overlay/background time intervals, all in whole milliseconds.
//!
//! For `n` timestamps the overlay intervals tile `[0, n * time_per_move)` in
//! equal steps.  Background intervals run from each move (shifted back by the
//! per-move duration, except for the first) to the next move, the last one
//! ending at the fixed terminal boundary of the animation.

use vstd::prelude::*;
use crate::errors::InputError;

verus! {

/// Largest timestamp or per-move duration magnitude, in milliseconds, that
/// the planner accepts, so that every product and difference below fits `i64`.
pub const MAX_TIME_MS: i64 = 10_000_000_000;

/// Largest number of moves in one timeline.
pub const MAX_MOVES: usize = 100_000;

/// Fixed terminal boundary of the animation timeline, in milliseconds: the
/// last background segment always ends here.
pub const SENTINEL_END_MS: i64 = 7000;

/// A half-open time interval in whole milliseconds.
#[derive(Clone, Copy, PartialEq, Eq, Structural, Debug)]
pub struct Segment {
    pub start_ms: i64,
    pub end_ms: i64,
}

/// Every timestamp within the magnitude the planner accepts.
pub open spec fn times_bounded(ts: Seq<i64>) -> bool {
    forall|i: int| 0 <= i < ts.len() ==> -MAX_TIME_MS <= #[trigger] ts[i] <= MAX_TIME_MS
}

/// The `i`-th overlay segment: `[i, i+1)` per-move durations from zero.
pub open spec fn overlay_segments(n: nat, tpm: int) -> Seq<Segment> {
    Seq::new(
        n,
        |i: int|
            Segment { start_ms: (i * tpm) as i64, end_ms: ((i + 1) * tpm) as i64 },
    )
}

/// The background segments: each move's timestamp shifted back by the
/// per-move duration (except the first, which keeps its timestamp) up to the
/// next timestamp, the last ending at the terminal boundary.
pub open spec fn background_segments(ts: Seq<i64>, tpm: int) -> Seq<Segment> {
    Seq::new(
        ts.len(),
        |j: int|
            Segment {
                start_ms: if j == 0 {
                    ts[0]
                } else {
                    (ts[j] - tpm) as i64
                },
                end_ms: if j + 1 < ts.len() {
                    ts[j + 1]
                } else {
                    SENTINEL_END_MS
                },
            },
    )
}

/// The offset a timeline carries when the document gave none.
pub open spec fn offset_or_default(offset: Option<(i64, i64)>) -> (i64, i64) {
    match offset {
        Some(p) => p,
        None => (0, 0),
    }
}

/// What the planner returns: empty timelines are rejected, everything else
/// yields one overlay and one background segment per timestamp plus the
/// offset.
pub open spec fn plan_is_correct(
    ts: Seq<i64>,
    tpm: i64,
    offset: Option<(i64, i64)>,
    r: Result<(Seq<Segment>, Seq<Segment>, (i64, i64)), InputError>,
) -> bool {
    match r {
        Ok(parts) => ts.len() > 0 && parts == (
            overlay_segments(ts.len(), tpm as int),
            background_segments(ts, tpm as int),
            offset_or_default(offset),
        ),
        Err(e) => ts.len() == 0 && e == InputError::EmptyInput,
    }
}

/// `|a * b| <= amax * bmax` whenever `0 <= a <= amax` and `|b| <= bmax`.
pub(crate) proof fn lemma_mul_bound(a: int, b: int, amax: int, bmax: int)
    by (nonlinear_arith)
    requires
        0 <= a <= amax,
        -bmax <= b <= bmax,
        0 <= bmax,
    ensures
        -(amax * bmax) <= a * b <= amax * bmax,
{
}

/// Plans the paired overlay and background segments for a timeline.
///
/// Rejects an empty timeline with [`InputError::EmptyInput`]; otherwise
/// returns exactly one overlay and one background segment per timestamp,
/// together with the pixel offset (defaulted to `(0, 0)` when absent).
pub fn plan(
    timestamps_ms: &Vec<i64>,
    time_per_move_ms: i64,
    offset: Option<(i64, i64)>,
) -> (r: Result<(Vec<Segment>, Vec<Segment>, (i64, i64)), InputError>)
    requires
        times_bounded(timestamps_ms@),
        -MAX_TIME_MS <= time_per_move_ms <= MAX_TIME_MS,
        timestamps_ms@.len() <= MAX_MOVES,
    ensures
        match r {
            Ok(parts) => plan_is_correct(
                timestamps_ms@,
                time_per_move_ms,
                offset,
                Ok((parts.0@, parts.1@, parts.2)),
            ),
            Err(e) => plan_is_correct(timestamps_ms@, time_per_move_ms, offset, Err(e)),
        },
{
    let n = timestamps_ms.len();
    if n == 0 {
        return Err(InputError::EmptyInput);
    }

    let mut overlay: Vec<Segment> = Vec::new();
    let mut i: usize = 0;
    while i < n
        invariant
            i <= n,
            n == timestamps_ms@.len(),
            n <= MAX_MOVES,
            -MAX_TIME_MS <= time_per_move_ms <= MAX_TIME_MS,
            overlay@ == overlay_segments(i as nat, time_per_move_ms as int),
        decreases n - i,
    {
        proof {
            lemma_mul_bound(
                i as int + 1,
                time_per_move_ms as int,
                MAX_MOVES as int,
                MAX_TIME_MS as int,
            );
            lemma_mul_bound(i as int, time_per_move_ms as int, MAX_MOVES as int, MAX_TIME_MS as int);
        }
        let start = (i as i64) * time_per_move_ms;
        let end = (i as i64 + 1) * time_per_move_ms;
        overlay.push(Segment { start_ms: start, end_ms: end });
        i += 1;
        proof {
            assert(overlay@ =~= overlay_segments(i as nat, time_per_move_ms as int));
        }
    }

    let mut background: Vec<Segment> = Vec::new();
    let mut j: usize = 0;
    while j < n
        invariant
            j <= n,
            n == timestamps_ms@.len(),
            n <= MAX_MOVES,
            n > 0,
            -MAX_TIME_MS <= time_per_move_ms <= MAX_TIME_MS,
            times_bounded(timestamps_ms@),
            background@ == background_segments(timestamps_ms@, time_per_move_ms as int).take(j as int),
        decreases n - j,
    {
        let start = if j == 0 {
            timestamps_ms[0]
        } else {
            timestamps_ms[j] - time_per_move_ms
        };
        let end = if j + 1 < n {
            timestamps_ms[j + 1]
        } else {
            SENTINEL_END_MS
        };
        background.push(Segment { start_ms: start, end_ms: end });
        j += 1;
        proof {
            assert(background@ =~= background_segments(
                timestamps_ms@,
                time_per_move_ms as int,
            ).take(j as int));
        }
    }

    proof {
        assert(background@ =~= background_segments(timestamps_ms@, time_per_move_ms as int));
    }
    let off = match offset {
        Some(p) => p,
        None => (0, 0),
    };
    Ok((overlay, background, off))
}

/// The planner is a pure function: any two results it may return for the
/// same input are equal.
pub proof fn lemma_plan_deterministic(
    ts: Seq<i64>,
    tpm: i64,
    offset: Option<(i64, i64)>,
    r1: Result<(Seq<Segment>, Seq<Segment>, (i64, i64)), InputError>,
    r2: Result<(Seq<Segment>, Seq<Segment>, (i64, i64)), InputError>,
)
    requires
        plan_is_correct(ts, tpm, offset, r1),
        plan_is_correct(ts, tpm, offset, r2),
    ensures
        r1 == r2,
{
}

/// Every background segment of a sorted timeline ends no earlier than it
/// starts, provided the per-move duration is non-negative and every move
/// falls before the terminal boundary of the animation.
pub proof fn lemma_background_segments_ordered(ts: Seq<i64>, tpm: i64)
    requires
        ts.len() > 0,
        ts.len() <= MAX_MOVES,
        times_bounded(ts),
        0 <= tpm <= MAX_TIME_MS,
        forall|j: int| 0 <= j < ts.len() - 1 ==> #[trigger] ts[j] <= ts[j + 1],
        forall|j: int| 0 <= j < ts.len() ==> #[trigger] ts[j] <= SENTINEL_END_MS,
    ensures
        forall|j: int|
            0 <= j < ts.len() ==> (#[trigger] background_segments(ts, tpm as int)[j]).end_ms
                >= background_segments(ts, tpm as int)[j].start_ms,
{
    let bg = background_segments(ts, tpm as int);
    assert forall|j: int| 0 <= j < ts.len() implies (#[trigger] bg[j]).end_ms
        >= bg[j].start_ms by {
        if j + 1 < ts.len() {
            assert(ts[j] <= ts[j + 1]);
        }
    }
}

/// For every non-empty timeline the planner succeeds and yields exactly one
/// overlay and one background segment per timestamp; with a positive per-move
/// duration every overlay segment ends strictly after it starts.
pub proof fn lemma_plan_segment_counts(ts: Seq<i64>, tpm: i64)
    requires
        ts.len() > 0,
        ts.len() <= MAX_MOVES,
        times_bounded(ts),
        -MAX_TIME_MS <= tpm <= MAX_TIME_MS,
    ensures
        overlay_segments(ts.len(), tpm as int).len() == ts.len(),
        background_segments(ts, tpm as int).len() == ts.len(),
        tpm > 0 ==> forall|i: int|
            0 <= i < ts.len() ==> (#[trigger] overlay_segments(ts.len(), tpm as int)[i]).end_ms
                > overlay_segments(ts.len(), tpm as int)[i].start_ms,
{
    if tpm > 0 {
        assert forall|i: int| 0 <= i < ts.len() implies (#[trigger] overlay_segments(
            ts.len(),
            tpm as int,
        )[i]).end_ms > overlay_segments(ts.len(), tpm as int)[i].start_ms by {
            lemma_mul_bound(i, tpm as int, MAX_MOVES as int, MAX_TIME_MS as int);
            lemma_mul_bound(i + 1, tpm as int, MAX_MOVES as int, MAX_TIME_MS as int);
            assert((i + 1) * tpm == i * tpm + tpm) by (nonlinear_arith);
        }
    }
}

} // verus!
