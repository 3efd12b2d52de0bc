//! Persistence of the export document: the timeline the UI hands in is
//! written to disk as a small JSON object and read back for planning.  The
//! document holds the timestamps and per-move duration as seconds with
//! millisecond precision, and the pixel offset as whole numbers.

use vstd::prelude::*;
use vstd::string::*;
use crate::decimal::{dec_int, ms_seconds, fmt_i64, fmt_ms, hex_char, hex_str};
use crate::errors::InputError;
use crate::parse::{parse_ms_at, parse_int_at, parse_ms_from, parse_int_from,
    lemma_parse_ms_at_advances, lemma_ms_round_trip, lemma_int_round_trip, lemma_ms_first_char};

verus! {

/// Per-move duration used when the document gives none, in milliseconds.
pub const DEFAULT_TIME_PER_MOVE_MS: i64 = 200;

/// A timeline of move events: ordered timestamps, the duration of one move,
/// and a two-dimensional pixel offset.  All times in whole milliseconds.
#[derive(Debug)]
pub struct MoveTimeline {
    pub timestamps_ms: Vec<i64>,
    pub time_per_move_ms: i64,
    pub x_offset: i64,
    pub y_offset: i64,
}

/// No field is the one magnitude the decimal renderer cannot negate.
pub open spec fn timeline_renderable(t: MoveTimeline) -> bool {
    &&& forall|i: int|
        0 <= i < t.timestamps_ms@.len() ==> #[trigger] t.timestamps_ms@[i] != i64::MIN
    &&& t.time_per_move_ms != i64::MIN
    &&& t.x_offset != i64::MIN
    &&& t.y_offset != i64::MIN
}

/// Items joined with commas.
pub open spec fn join_comma(items: Seq<Seq<char>>) -> Seq<char>
    decreases items.len(),
{
    if items.len() == 0 {
        Seq::empty()
    } else if items.len() == 1 {
        items[0]
    } else {
        items[0] + ","@ + join_comma(items.drop_first())
    }
}

/// Appending one item to a comma-joined list appends a comma and the item
/// (or just the item, to an empty list).
pub proof fn lemma_join_comma_push(items: Seq<Seq<char>>, x: Seq<char>)
    ensures
        join_comma(items.push(x)) == if items.len() == 0 {
            x
        } else {
            join_comma(items) + ","@ + x
        },
    decreases items.len(),
{
    if items.len() == 0 {
        assert(join_comma(items.push(x)) == items.push(x)[0]);
        assert(items.push(x)[0] == x);
    } else {
        lemma_join_comma_push(items.drop_first(), x);
        assert(items.push(x).drop_first() =~~= items.drop_first().push(x));
        if items.len() == 1 {
            assert(join_comma(items.push(x)) =~= join_comma(items) + ","@ + x);
        } else {
            assert(join_comma(items.push(x)) =~= join_comma(items) + ","@ + x);
        }
    }
}

/// The timestamps as a comma-separated list of seconds.
pub open spec fn seconds_list_json(ts: Seq<i64>) -> Seq<char> {
    join_comma(ts.map_values(|t: i64| ms_seconds(t as int)))
}

/// The persisted JSON document for a timeline.
pub open spec fn timeline_json(ts: Seq<i64>, tpm: i64, x: i64, y: i64) -> Seq<char> {
    "{\"timestamps\":["@ + seconds_list_json(ts) + "]"@ + ",\"timePerMove\":"@ + ms_seconds(
        tpm as int,
    ) + ",\"x_offset\":"@ + dec_int(x as int) + ",\"y_offset\":"@ + dec_int(y as int) + "}"@
}

impl MoveTimeline {
    /// Builds a timeline, filling each absent field with its default: a
    /// per-move duration of 200 milliseconds and a zero offset.
    pub fn from_parts(
        timestamps_ms: Vec<i64>,
        time_per_move_ms: Option<i64>,
        x_offset: Option<i64>,
        y_offset: Option<i64>,
    ) -> (r: MoveTimeline)
        ensures
            r.timestamps_ms@ == timestamps_ms@,
            r.time_per_move_ms == match time_per_move_ms {
                Some(v) => v,
                None => DEFAULT_TIME_PER_MOVE_MS,
            },
            r.x_offset == match x_offset {
                Some(v) => v,
                None => 0,
            },
            r.y_offset == match y_offset {
                Some(v) => v,
                None => 0,
            },
    {
        MoveTimeline {
            timestamps_ms,
            time_per_move_ms: match time_per_move_ms {
                Some(v) => v,
                None => DEFAULT_TIME_PER_MOVE_MS,
            },
            x_offset: match x_offset {
                Some(v) => v,
                None => 0,
            },
            y_offset: match y_offset {
                Some(v) => v,
                None => 0,
            },
        }
    }

    /// Serializes the timeline as the persisted JSON document.
    pub fn to_json(&self) -> (r: String)
        requires
            timeline_renderable(*self),
        ensures
            r@ == timeline_json(
                self.timestamps_ms@,
                self.time_per_move_ms,
                self.x_offset,
                self.y_offset,
            ),
    {
        let ghost head = "{\"timestamps\":["@;
        let mut r = String::from_str("{\"timestamps\":[");
        let n = self.timestamps_ms.len();
        let mut i: usize = 0;
        while i < n
            invariant
                i <= n,
                n == self.timestamps_ms@.len(),
                timeline_renderable(*self),
                r@ == head + seconds_list_json(self.timestamps_ms@.take(i as int)),
            decreases n - i,
        {
            if i > 0 {
                r.append(",");
            }
            let t_str = fmt_ms(self.timestamps_ms[i]);
            r.append(t_str.as_str());
            i += 1;
            proof {
                let prior = self.timestamps_ms@.take(i as int - 1).map_values(
                    |t: i64| ms_seconds(t as int),
                );
                lemma_join_comma_push(prior, ms_seconds(self.timestamps_ms@[i as int - 1] as int));
                assert(self.timestamps_ms@.take(i as int).map_values(|t: i64| ms_seconds(t as int))
                    =~~= prior.push(ms_seconds(self.timestamps_ms@[i as int - 1] as int)));
                assert(r@ =~= head + seconds_list_json(self.timestamps_ms@.take(i as int)));
            }
        }
        proof {
            assert(self.timestamps_ms@.take(n as int) =~= self.timestamps_ms@);
        }
        r.append("]");
        r.append(",\"timePerMove\":");
        let tpm_str = fmt_ms(self.time_per_move_ms);
        r.append(tpm_str.as_str());
        r.append(",\"x_offset\":");
        let x_str = fmt_i64(self.x_offset);
        r.append(x_str.as_str());
        r.append(",\"y_offset\":");
        let y_str = fmt_i64(self.y_offset);
        r.append(y_str.as_str());
        r.append("}");
        proof {
            assert(r@ =~= timeline_json(
                self.timestamps_ms@,
                self.time_per_move_ms,
                self.x_offset,
                self.y_offset,
            ));
        }
        r
    }
}

/// `lit` occurs in `s` at position `i`.
pub open spec fn has_lit(s: Seq<char>, i: int, lit: Seq<char>) -> bool {
    &&& 0 <= i
    &&& i + lit.len() <= s.len()
    &&& s.subrange(i, i + lit.len()) == lit
}

/// Checks for `lit` at position `i`, returning the position after it.
fn expect_lit(s: &str, i: usize, len: usize, lit: &str) -> (r: Option<usize>)
    requires
        i <= len,
        len == s@.len(),
    ensures
        match r {
            Some(e) => has_lit(s@, i as int, lit@) && e == i + lit@.len() && e <= len,
            None => !has_lit(s@, i as int, lit@),
        },
{
    let m = lit.unicode_len();
    if m > len - i {
        return None;
    }
    let mut k: usize = 0;
    while k < m
        invariant
            k <= m,
            m == lit@.len(),
            i + m <= len,
            len == s@.len(),
            forall|j: int| 0 <= j < k ==> s@[i + j] == lit@[j],
        decreases m - k,
    {
        if s.get_char(i + k) != lit.get_char(k) {
            proof {
                assert(s@.subrange(i as int, i + m) [k as int] == s@[i + k]);
            }
            return None;
        }
        k += 1;
    }
    proof {
        assert(s@.subrange(i as int, i + m) =~= lit@);
    }
    Some(i + m)
}

/// The timestamp list at `i`, just after its opening bracket: numbers
/// separated by commas up to a closing bracket.  Yields the timestamps in
/// milliseconds and the position after the bracket.
pub open spec fn parse_list_at(s: Seq<char>, i: int) -> Option<(Seq<i64>, int)>
    decreases s.len() - i,
    when 0 <= i <= s.len()
    via parse_list_at_decreases
{
    if i < s.len() && s[i] == ']' {
        Some((Seq::empty(), i + 1))
    } else {
        match parse_ms_at(s, i) {
            None => None,
            Some((v, e)) => {
                if v < i64::MIN as int || v > i64::MAX as int {
                    None
                } else if e < s.len() && s[e] == ',' {
                    match parse_list_at(s, e + 1) {
                        None => None,
                        Some((rest, e2)) => Some((seq![v as i64] + rest, e2)),
                    }
                } else if e < s.len() && s[e] == ']' {
                    Some((seq![v as i64], e + 1))
                } else {
                    None
                }
            },
        }
    }
}

#[via_fn]
proof fn parse_list_at_decreases(s: Seq<char>, i: int) {
    lemma_parse_ms_at_advances(s, i);
}

/// The whole persisted document: the fixed field layout around a timestamp
/// list, a per-move duration and the two offsets, with nothing after the
/// closing brace.
pub open spec fn parse_timeline_doc(s: Seq<char>) -> Option<(Seq<i64>, i64, i64, i64)> {
    if !has_lit(s, 0, "{\"timestamps\":["@) {
        None
    } else {
        match parse_list_at(s, "{\"timestamps\":["@.len() as int) {
            None => None,
            Some((ts, i2)) => if !has_lit(s, i2, ",\"timePerMove\":"@) {
                None
            } else {
                match parse_ms_at(s, i2 + ",\"timePerMove\":"@.len()) {
                    None => None,
                    Some((tpm, i4)) => if tpm < i64::MIN as int || tpm > i64::MAX as int
                        || !has_lit(s, i4, ",\"x_offset\":"@) {
                        None
                    } else {
                        match parse_int_at(s, i4 + ",\"x_offset\":"@.len()) {
                            None => None,
                            Some((x, i6)) => if x < i64::MIN as int || x > i64::MAX as int
                                || !has_lit(s, i6, ",\"y_offset\":"@) {
                                None
                            } else {
                                match parse_int_at(s, i6 + ",\"y_offset\":"@.len()) {
                                    None => None,
                                    Some((y, i8)) => if y >= i64::MIN as int && y <= i64::MAX as int
                                        && i8 < s.len() && s[i8] == '}' && i8 + 1 == s.len() {
                                        Some((ts, tpm as i64, x as i64, y as i64))
                                    } else {
                                        None
                                    },
                                }
                            },
                        }
                    },
                }
            },
        }
    }
}

/// Parses the timestamp list.
fn parse_list_from(s: &str, i: usize, len: usize) -> (r: Option<(Vec<i64>, usize)>)
    requires
        i <= len,
        len == s@.len(),
    ensures
        match r {
            Some(p) => parse_list_at(s@, i as int) == Some((p.0@, p.1 as int)) && p.1 <= len,
            None => parse_list_at(s@, i as int) is None,
        },
    decreases len - i,
{
    if i < len && s.get_char(i) == ']' {
        return Some((Vec::new(), i + 1));
    }
    match parse_ms_from(s, i, len) {
        None => None,
        Some((v, e)) => {
            if e < len && s.get_char(e) == ',' {
                match parse_list_from(s, e + 1, len) {
                    None => None,
                    Some((rest, e2)) => {
                        let mut vs: Vec<i64> = Vec::new();
                        vs.push(v);
                        let mut tail = rest;
                        vs.append(&mut tail);
                        proof {
                            assert(vs@ =~= seq![v] + rest@);
                        }
                        Some((vs, e2))
                    },
                }
            } else if e < len && s.get_char(e) == ']' {
                let mut vs: Vec<i64> = Vec::new();
                vs.push(v);
                proof {
                    assert(vs@ =~= seq![v]);
                }
                Some((vs, e + 1))
            } else {
                None
            }
        },
    }
}

impl MoveTimeline {
    /// Parses a persisted export document back into a timeline; anything not
    /// of the exact persisted shape is rejected as malformed.
    pub fn parse_json(s: &str) -> (r: Result<MoveTimeline, InputError>)
        ensures
            match r {
                Ok(t) => parse_timeline_doc(s@) == Some(
                    (t.timestamps_ms@, t.time_per_move_ms, t.x_offset, t.y_offset),
                ),
                Err(e) => e == InputError::MalformedDocument && parse_timeline_doc(s@) is None,
            },
    {
        let len = s.unicode_len();
        let i1 = match expect_lit(s, 0, len, "{\"timestamps\":[") {
            Some(e) => e,
            None => {
                return Err(InputError::MalformedDocument);
            },
        };
        let (ts, i2) = match parse_list_from(s, i1, len) {
            Some(p) => p,
            None => {
                return Err(InputError::MalformedDocument);
            },
        };
        let i3 = match expect_lit(s, i2, len, ",\"timePerMove\":") {
            Some(e) => e,
            None => {
                return Err(InputError::MalformedDocument);
            },
        };
        let (tpm, i4) = match parse_ms_from(s, i3, len) {
            Some(p) => p,
            None => {
                return Err(InputError::MalformedDocument);
            },
        };
        let i5 = match expect_lit(s, i4, len, ",\"x_offset\":") {
            Some(e) => e,
            None => {
                return Err(InputError::MalformedDocument);
            },
        };
        let (x, i6) = match parse_int_from(s, i5, len) {
            Some(p) => p,
            None => {
                return Err(InputError::MalformedDocument);
            },
        };
        let i7 = match expect_lit(s, i6, len, ",\"y_offset\":") {
            Some(e) => e,
            None => {
                return Err(InputError::MalformedDocument);
            },
        };
        let (y, i8) = match parse_int_from(s, i7, len) {
            Some(p) => p,
            None => {
                return Err(InputError::MalformedDocument);
            },
        };
        if i8 < len && s.get_char(i8) == '}' && i8 + 1 == len {
            Ok(MoveTimeline { timestamps_ms: ts, time_per_move_ms: tpm, x_offset: x, y_offset: y })
        } else {
            Err(InputError::MalformedDocument)
        }
    }
}

/// Largest offset magnitude the persisted document's round trip covers.
pub const MAX_DOC_OFFSET: i64 = 999_999_999_999_999;

/// A rendered timestamp list, followed by its closing bracket, parses back to
/// exactly its values.
#[verifier::rlimit(100)]
proof fn lemma_list_round_trip(ts: Seq<i64>, pre: Seq<char>, suf: Seq<char>)
    requires
        forall|k: int|
            0 <= k < ts.len() ==> -1000000000000000000 < #[trigger] ts[k] < 1000000000000000000,
    ensures
        parse_list_at(pre + seconds_list_json(ts) + "]"@ + suf, pre.len() as int) == Some(
            (ts, (pre.len() + seconds_list_json(ts).len() + 1) as int),
        ),
    decreases ts.len(),
{
    reveal_strlit("]");
    reveal_strlit(",");
    let body = seconds_list_json(ts);
    let s = pre + body + "]"@ + suf;
    let i = pre.len() as int;
    if ts.len() == 0 {
        assert(ts.map_values(|t: i64| ms_seconds(t as int)) =~= Seq::<Seq<char>>::empty());
        assert(body =~= Seq::<char>::empty());
        assert(s[i] == ']');
    } else {
        let m = ts[0] as int;
        let items = ts.map_values(|t: i64| ms_seconds(t as int));
        let num = ms_seconds(m);
        assert(items[0] == num);
        lemma_ms_first_char(m);
        assert(s[i] == num[0]);
        assert(s[i] != ']');
        if ts.len() == 1 {
            assert(body == num);
            lemma_ms_round_trip(m, pre, "]"@ + suf);
            assert(pre + num + ("]"@ + suf) =~= s);
            let e = i + num.len();
            assert(s[e] == ']');
            assert(s[e] != ',');
            assert(seq![ts[0]] =~= ts);
        } else {
            let rest = seconds_list_json(ts.drop_first());
            assert(items.drop_first() =~= ts.drop_first().map_values(|t: i64| ms_seconds(t as int)));
            assert(body == num + ","@ + rest);
            let tail: Seq<char> = ","@ + rest + "]"@ + suf;
            lemma_ms_round_trip(m, pre, tail);
            assert(pre + num + tail =~= s);
            let e = i + num.len();
            assert(s[e] == ',');
            let pre2 = pre + num + ","@;
            assert(pre2.len() == e + 1);
            lemma_list_round_trip(ts.drop_first(), pre2, suf);
            assert(pre2 + rest + "]"@ + suf =~= s);
            assert(seq![ts[0]] + ts.drop_first() =~= ts);
        }
    }
}

/// Persistence round trip: rendering a timeline as its JSON document and
/// parsing the document back yields the identical field values.
/// A literal occurs where a concatenation places it.
proof fn lemma_has_lit_concat(a: Seq<char>, lit: Seq<char>, b: Seq<char>)
    ensures
        has_lit(a + lit + b, a.len() as int, lit),
{
    assert((a + lit + b).subrange(a.len() as int, (a.len() + lit.len()) as int) =~= lit);
}

/// The front of the document parses: the opening literal, the list, the
/// per-move literal and the per-move number.
#[verifier::rlimit(100)]
proof fn lemma_timeline_round_trip_front(ts: Seq<i64>, tpm: i64, x: i64, y: i64)
    requires
        crate::plan::times_bounded(ts),
        -crate::plan::MAX_TIME_MS <= tpm <= crate::plan::MAX_TIME_MS,
    ensures
        ({
            let s = timeline_json(ts, tpm, x, y);
            let body = seconds_list_json(ts);
            let i2 = ("{\"timestamps\":["@.len() + body.len() + 1) as int;
            let i3 = i2 + ",\"timePerMove\":"@.len();
            &&& has_lit(s, 0, "{\"timestamps\":["@)
            &&& parse_list_at(s, "{\"timestamps\":["@.len() as int) == Some((ts, i2))
            &&& has_lit(s, i2, ",\"timePerMove\":"@)
            &&& parse_ms_at(s, i3) == Some((tpm as int, i3 + ms_seconds(tpm as int).len()))
        }),
{
    reveal_strlit(",\"x_offset\":");
    reveal_strlit("]");
    let l0 = "{\"timestamps\":["@;
    let l1 = ",\"timePerMove\":"@;
    let l2 = ",\"x_offset\":"@;
    let l3 = ",\"y_offset\":"@;
    let body = seconds_list_json(ts);
    let ntpm = ms_seconds(tpm as int);
    let nx = dec_int(x as int);
    let ny = dec_int(y as int);
    let s = timeline_json(ts, tpm, x, y);
    let p1 = l0 + body + "]"@;
    let p2 = p1 + l1;
    let i2: int = (l0.len() + body.len() + 1) as int;
    let i3: int = i2 + l1.len();
    assert(has_lit(s, 0, l0)) by {
        assert(s.subrange(0, l0.len() as int) =~= l0);
    }
    assert(parse_list_at(s, l0.len() as int) == Some((ts, i2))) by {
        let suf1 = l1 + ntpm + l2 + nx + l3 + ny + "}"@;
        assert(l0 + body + "]"@ + suf1 =~= s);
        lemma_list_round_trip(ts, l0, suf1);
    }
    assert(has_lit(s, i2, l1)) by {
        assert(s =~= p1 + l1 + (ntpm + l2 + nx + l3 + ny + "}"@));
        lemma_has_lit_concat(p1, l1, ntpm + l2 + nx + l3 + ny + "}"@);
    }
    assert(parse_ms_at(s, i3) == Some((tpm as int, i3 + ntpm.len()))) by {
        let suf3 = l2 + nx + l3 + ny + "}"@;
        assert(p2 + ntpm + suf3 =~= s);
        assert(suf3[0] == ',');
        lemma_ms_round_trip(tpm as int, p2, suf3);
    }
}

/// The back of the document parses: both offset literals and numbers, and the
/// closing brace ends the text.
#[verifier::rlimit(100)]
proof fn lemma_timeline_round_trip_back(ts: Seq<i64>, tpm: i64, x: i64, y: i64)
    requires
        -MAX_DOC_OFFSET <= x <= MAX_DOC_OFFSET,
        -MAX_DOC_OFFSET <= y <= MAX_DOC_OFFSET,
    ensures
        ({
            let s = timeline_json(ts, tpm, x, y);
            let i4 = ("{\"timestamps\":["@.len() + seconds_list_json(ts).len() + 1
                + ",\"timePerMove\":"@.len() + ms_seconds(tpm as int).len()) as int;
            let i5 = i4 + ",\"x_offset\":"@.len();
            let i6 = i5 + dec_int(x as int).len();
            let i7 = i6 + ",\"y_offset\":"@.len();
            let i8 = i7 + dec_int(y as int).len();
            &&& has_lit(s, i4, ",\"x_offset\":"@)
            &&& parse_int_at(s, i5) == Some((x as int, i6))
            &&& has_lit(s, i6, ",\"y_offset\":"@)
            &&& parse_int_at(s, i7) == Some((y as int, i8))
            &&& i8 + 1 == s.len()
            &&& s[i8] == '}'
        }),
{
    reveal_strlit(",\"x_offset\":");
    reveal_strlit(",\"y_offset\":");
    reveal_strlit("}");
    reveal_strlit("]");
    let l0 = "{\"timestamps\":["@;
    let l1 = ",\"timePerMove\":"@;
    let l2 = ",\"x_offset\":"@;
    let l3 = ",\"y_offset\":"@;
    let body = seconds_list_json(ts);
    let ntpm = ms_seconds(tpm as int);
    let nx = dec_int(x as int);
    let ny = dec_int(y as int);
    let s = timeline_json(ts, tpm, x, y);
    let p3 = l0 + body + "]"@ + l1 + ntpm;
    let p4 = p3 + l2;
    let p5 = p4 + nx;
    let p6 = p5 + l3;
    let p7 = p6 + ny;
    let i4: int = p3.len() as int;
    let i5: int = i4 + l2.len();
    let i6: int = i5 + nx.len();
    let i7: int = i6 + l3.len();
    let i8: int = i7 + ny.len();
    assert(has_lit(s, i4, l2)) by {
        assert(s =~= p3 + l2 + (nx + l3 + ny + "}"@));
        lemma_has_lit_concat(p3, l2, nx + l3 + ny + "}"@);
    }
    assert(parse_int_at(s, i5) == Some((x as int, i6))) by {
        let suf5 = l3 + ny + "}"@;
        assert(p4 + nx + suf5 =~= s);
        assert(suf5[0] == ',');
        lemma_int_round_trip(x as int, p4, suf5);
    }
    assert(has_lit(s, i6, l3)) by {
        assert(s =~= p5 + l3 + (ny + "}"@));
        lemma_has_lit_concat(p5, l3, ny + "}"@);
    }
    assert(parse_int_at(s, i7) == Some((y as int, i8))) by {
        assert(p6 + ny + "}"@ =~= s);
        assert(("}"@)[0] == '}');
        lemma_int_round_trip(y as int, p6, "}"@);
    }
    assert(s[i8] == '}');
    assert(i8 + 1 == s.len());
}

/// Persistence round trip: rendering a timeline as its JSON document and
/// parsing the document back yields the identical field values.
#[verifier::rlimit(100)]
pub proof fn lemma_timeline_round_trip(ts: Seq<i64>, tpm: i64, x: i64, y: i64)
    requires
        crate::plan::times_bounded(ts),
        -crate::plan::MAX_TIME_MS <= tpm <= crate::plan::MAX_TIME_MS,
        -MAX_DOC_OFFSET <= x <= MAX_DOC_OFFSET,
        -MAX_DOC_OFFSET <= y <= MAX_DOC_OFFSET,
    ensures
        parse_timeline_doc(timeline_json(ts, tpm, x, y)) == Some((ts, tpm, x, y)),
{
    lemma_timeline_round_trip_front(ts, tpm, x, y);
    lemma_timeline_round_trip_back(ts, tpm, x, y);
}

/// How one character is written inside a JSON string literal.
pub open spec fn escaped_char(c: char) -> Seq<char> {
    if c == '"' {
        "\\\""@
    } else if c == '\\' {
        "\\\\"@
    } else if c == '\n' {
        "\\n"@
    } else if c == '\r' {
        "\\r"@
    } else if c == '\t' {
        "\\t"@
    } else if (c as u32) < 32 {
        "\\u00"@ + seq![hex_char(c as u32 as int / 16), hex_char(c as u32 as int % 16)]
    } else {
        seq![c]
    }
}

/// A text written inside a JSON string literal, character by character.
pub open spec fn json_escaped(s: Seq<char>) -> Seq<char>
    decreases s.len(),
{
    if s.len() == 0 {
        Seq::empty()
    } else {
        json_escaped(s.drop_last()) + escaped_char(s.last())
    }
}

/// Escapes a text for inclusion in a JSON string literal.
pub fn json_escape(s: &str) -> (r: String)
    ensures
        r@ == json_escaped(s@),
{
    let n = s.unicode_len();
    let mut r = String::new();
    let mut i: usize = 0;
    while i < n
        invariant
            i <= n,
            n == s@.len(),
            r@ == json_escaped(s@.take(i as int)),
        decreases n - i,
    {
        let c = s.get_char(i);
        if c == '"' {
            r.append("\\\"");
        } else if c == '\\' {
            r.append("\\\\");
        } else if c == '\n' {
            r.append("\\n");
        } else if c == '\r' {
            r.append("\\r");
        } else if c == '\t' {
            r.append("\\t");
        } else if (c as u32) < 32 {
            r.append("\\u00");
            let v = c as u32;
            r.append(hex_str((v / 16) as u8));
            r.append(hex_str((v % 16) as u8));
        } else {
            let piece = s.substring_char(i, i + 1);
            r.append(piece);
            proof {
                assert(piece@ =~= seq![s@[i as int]]);
            }
        }
        i += 1;
        proof {
            assert(s@.take(i as int).drop_last() =~= s@.take(i as int - 1));
            assert(s@.take(i as int).last() == s@[i as int - 1]);
            assert(r@ =~= json_escaped(s@.take(i as int)));
        }
    }
    proof {
        assert(s@.take(n as int) =~= s@);
    }
    r
}

} // verus!
