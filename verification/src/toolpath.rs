use vstd::prelude::*;

use crate::error::{ErrorKind, ParseError};
use crate::mesh::Vec3Fix;

verus! {

/// Bound on any coordinate a toolpath file may carry, in fixed-point
/// milli-units; a larger value is rejected as malformed.
pub const GCODE_COORD_LIMIT: i64 = 1_000_000_000;

/// A parsed toolpath position with its "draw a segment to the previous
/// point" flag.
#[derive(Clone, Copy, Debug, PartialEq, Eq, Structural)]
pub struct ToolpathPoint {
    pub pos: Vec3Fix,
    pub draw: bool,
}

pub open spec fn is_digit(b: u8) -> bool {
    48 <= b <= 57
}

/// A character of a numeric field: a digit or a dot.
pub open spec fn is_num_char(b: u8) -> bool {
    is_digit(b) || b == 46
}

/// An ASCII whitespace character, as a move line may separate its fields.
pub open spec fn is_space_char(b: u8) -> bool {
    b == 32 || b == 9 || b == 10 || b == 11 || b == 12 || b == 13
}

/// The end of the numeric-character run starting at `j`.
pub open spec fn num_run_end(s: Seq<u8>, j: int) -> int
    decreases s.len() - j,
{
    if j < 0 || j >= s.len() {
        j
    } else if is_num_char(s[j]) {
        num_run_end(s, j + 1)
    } else {
        j
    }
}

/// The end of the whitespace run starting at `j`.
pub open spec fn space_run_end(s: Seq<u8>, j: int) -> int
    decreases s.len() - j,
{
    if j < 0 || j >= s.len() {
        j
    } else if is_space_char(s[j]) {
        space_run_end(s, j + 1)
    } else {
        j
    }
}

/// The value of a digit string, most significant first.
pub open spec fn digits_val(s: Seq<u8>) -> int
    decreases s.len(),
{
    if s.len() == 0 {
        0
    } else {
        digits_val(s.drop_last()) * 10 + (s.last() - 48)
    }
}

/// The index of the first dot, or the length when there is none.
pub open spec fn first_dot(s: Seq<u8>) -> int
    decreases s.len(),
{
    if s.len() == 0 {
        0
    } else if s.first() == 46 {
        0
    } else {
        1 + first_dot(s.drop_first())
    }
}

/// A numeric field is valid when it consists of digits and at most one
/// dot, with at least one digit: what the source format's number syntax
/// accepts.
pub open spec fn token_valid(s: Seq<u8>) -> bool {
    &&& forall|i: int| 0 <= i < s.len() ==> is_num_char(#[trigger] s[i])
    &&& exists|i: int| 0 <= i < s.len() && is_digit(#[trigger] s[i])
    &&& forall|j: int| first_dot(s) < j < s.len() ==> #[trigger] s[j] != 46
}

/// The fractional digits of a numeric field, after its dot.
pub open spec fn frac_digits(s: Seq<u8>) -> Seq<u8> {
    if first_dot(s) == s.len() {
        Seq::empty()
    } else {
        s.skip(first_dot(s) + 1)
    }
}

/// The value of the fractional part in thousandths: the first three
/// fractional digits, zero-padded on the right.
pub open spec fn frac_millis(s: Seq<u8>) -> int {
    let f = frac_digits(s);
    if f.len() >= 3 {
        digits_val(f.take(3))
    } else if f.len() == 2 {
        digits_val(f) * 10
    } else if f.len() == 1 {
        digits_val(f) * 100
    } else {
        0
    }
}

/// The value of a numeric field in fixed-point milli-units, fractional
/// digits beyond the third truncated.
pub open spec fn token_millis(s: Seq<u8>) -> int {
    digits_val(s.take(first_dot(s))) * 1000 + frac_millis(s)
}

/// The parsed value of a numeric field: `None` when the field is invalid
/// or its value is out of range.
pub open spec fn token_value_opt(tok: Seq<u8>) -> Option<i64> {
    if token_valid(tok) && token_millis(tok) <= GCODE_COORD_LIMIT {
        Some(token_millis(tok) as i64)
    } else {
        None
    }
}

/// An axis letter followed by at least one numeric character, at `i`.
pub open spec fn axis_match_at(s: Seq<u8>, i: int, letter: u8) -> bool {
    &&& 0 <= i < s.len()
    &&& s[i] == letter
    &&& num_run_end(s, i + 1) > i + 1
}

/// A draw move's coordinate pair at `i`: `X<num>`, whitespace, `Y<num>`,
/// whitespace, `E`.
pub open spec fn xye_match_at(s: Seq<u8>, i: int) -> bool {
    &&& axis_match_at(s, i, 88)
    &&& ({
        let xe = num_run_end(s, i + 1);
        let se = space_run_end(s, xe);
        &&& se > xe
        &&& axis_match_at(s, se, 89)
        &&& ({
            let ye = num_run_end(s, se + 1);
            let se2 = space_run_end(s, ye);
            &&& se2 > ye
            &&& se2 < s.len()
            &&& s[se2] == 69
        })
    })
}

/// A travel move's coordinate pair at `i`: `X<num>`, whitespace,
/// `Y<num>`.
pub open spec fn xy_match_at(s: Seq<u8>, i: int) -> bool {
    &&& axis_match_at(s, i, 88)
    &&& ({
        let xe = num_run_end(s, i + 1);
        let se = space_run_end(s, xe);
        &&& se > xe
        &&& axis_match_at(s, se, 89)
    })
}

/// A height field at `i`: `Z<num>`.
pub open spec fn z_match_at(s: Seq<u8>, i: int) -> bool {
    axis_match_at(s, i, 90)
}

/// The leftmost draw-pair match position at or after `i`.
pub open spec fn first_xye_from(s: Seq<u8>, i: int) -> Option<int>
    decreases s.len() - i,
{
    if i < 0 || i >= s.len() {
        None
    } else if xye_match_at(s, i) {
        Some(i)
    } else {
        first_xye_from(s, i + 1)
    }
}

/// The leftmost travel-pair match position at or after `i`.
pub open spec fn first_xy_from(s: Seq<u8>, i: int) -> Option<int>
    decreases s.len() - i,
{
    if i < 0 || i >= s.len() {
        None
    } else if xy_match_at(s, i) {
        Some(i)
    } else {
        first_xy_from(s, i + 1)
    }
}

/// The leftmost height-field match position at or after `i`.
pub open spec fn first_z_from(s: Seq<u8>, i: int) -> Option<int>
    decreases s.len() - i,
{
    if i < 0 || i >= s.len() {
        None
    } else if z_match_at(s, i) {
        Some(i)
    } else {
        first_z_from(s, i + 1)
    }
}

/// A move command line: one starting with `G0` or `G1`.
pub open spec fn is_move_line(line: Seq<u8>) -> bool {
    line.len() >= 2 && line[0] == 71 && (line[1] == 48 || line[1] == 49)
}

/// The parser state while walking a toolpath file: the running last-known
/// coordinates, whether the next draw point must be preceded by a
/// synthetic break point, and the points collected so far.
pub ghost struct GcodeState {
    pub x: i64,
    pub y: i64,
    pub z: i64,
    pub pending: bool,
    pub pts: Seq<ToolpathPoint>,
}

/// The render-space point of format coordinates: the format's X becomes
/// the negated render X, the running height becomes render Y, and the
/// format's Y becomes render Z.
pub open spec fn remap_point(x: i64, y: i64, z: i64, draw: bool) -> ToolpathPoint {
    ToolpathPoint { pos: Vec3Fix { x: (-(x as int)) as i64, y: z, z: y }, draw }
}

/// Apply a line's height field, if any; `None` when its value is
/// malformed.
pub open spec fn z_stage(st: GcodeState, line: Seq<u8>) -> Option<GcodeState> {
    match first_z_from(line, 0) {
        None => Some(st),
        Some(zi) => {
            let tok = line.subrange(zi + 1, num_run_end(line, zi + 1));
            match token_value_opt(tok) {
                None => None,
                Some(v) => Some(GcodeState { z: v, ..st }),
            }
        },
    }
}

/// Apply a draw move: a pending travel first contributes a synthetic
/// non-draw break point at the travel destination, then the draw point
/// itself is collected.
pub open spec fn xye_stage(st: GcodeState, line: Seq<u8>, i: int) -> Option<GcodeState> {
    let xe = num_run_end(line, i + 1);
    let se = space_run_end(line, xe);
    let ye = num_run_end(line, se + 1);
    let xt = line.subrange(i + 1, xe);
    let yt = line.subrange(se + 1, ye);
    match (token_value_opt(xt), token_value_opt(yt)) {
        (Some(xv), Some(yv)) => {
            let pts0 = if st.pending {
                st.pts.push(remap_point(st.x, st.y, st.z, false))
            } else {
                st.pts
            };
            Some(
                GcodeState {
                    x: xv,
                    y: yv,
                    z: st.z,
                    pending: false,
                    pts: pts0.push(remap_point(xv, yv, st.z, true)),
                },
            )
        },
        _ => None,
    }
}

/// Apply a travel move: the position advances and the next draw point is
/// flagged to need a break point, but no point is collected yet.
pub open spec fn xy_stage(st: GcodeState, line: Seq<u8>, i: int) -> Option<GcodeState> {
    let xe = num_run_end(line, i + 1);
    let se = space_run_end(line, xe);
    let ye = num_run_end(line, se + 1);
    let xt = line.subrange(i + 1, xe);
    let yt = line.subrange(se + 1, ye);
    match (token_value_opt(xt), token_value_opt(yt)) {
        (Some(xv), Some(yv)) => Some(
            GcodeState { x: xv, y: yv, z: st.z, pending: true, pts: st.pts },
        ),
        _ => None,
    }
}

/// Process one line: only move commands matter; the height field is
/// consumed first, then the leftmost draw pair, else the leftmost travel
/// pair. `None` when a matched numeric field does not parse.
pub open spec fn step_line(st: GcodeState, line: Seq<u8>) -> Option<GcodeState> {
    if !is_move_line(line) {
        Some(st)
    } else {
        match z_stage(st, line) {
            None => None,
            Some(st1) => match first_xye_from(line, 0) {
                Some(i) => xye_stage(st1, line, i),
                None => match first_xy_from(line, 0) {
                    Some(i) => xy_stage(st1, line, i),
                    None => Some(st1),
                },
            },
        }
    }
}

/// The end of the line starting at `pos`: the next newline, or the end of
/// the input.
pub open spec fn line_end(s: Seq<u8>, pos: int) -> int
    decreases s.len() - pos,
{
    if pos < 0 || pos >= s.len() {
        s.len() as int
    } else if s[pos] == 10 {
        pos
    } else {
        line_end(s, pos + 1)
    }
}

/// The line starting at `pos`: its bytes up to the newline, with one
/// carriage return before the newline stripped.
pub open spec fn line_at(s: Seq<u8>, pos: int) -> Seq<u8> {
    let e = line_end(s, pos);
    let raw = s.subrange(pos, e);
    if e < s.len() && raw.len() > 0 && raw.last() == 13 {
        raw.drop_last()
    } else {
        raw
    }
}

/// Walk the input line by line from `pos`, threading the parser state;
/// `None` when some line is malformed.
pub open spec fn run_toolpath(s: Seq<u8>, pos: int, st: GcodeState) -> Option<GcodeState>
    decreases s.len() - pos,
    via run_toolpath_decreases
{
    if pos < 0 || pos >= s.len() {
        Some(st)
    } else {
        let e = line_end(s, pos);
        match step_line(st, line_at(s, pos)) {
            None => None,
            Some(st1) => run_toolpath(
                s,
                if e + 1 <= s.len() {
                    e + 1
                } else {
                    s.len() as int
                },
                st1,
            ),
        }
    }
}

#[via_fn]
proof fn run_toolpath_decreases(s: Seq<u8>, pos: int, st: GcodeState) {
    if 0 <= pos < s.len() {
        lemma_line_end_bounds(s, pos);
    }
}

/// A line ends no earlier than it starts and no later than the input.
pub proof fn lemma_line_end_bounds(s: Seq<u8>, pos: int)
    requires
        0 <= pos <= s.len(),
    ensures
        pos <= line_end(s, pos) <= s.len(),
    decreases s.len() - pos,
{
    if pos < s.len() && s[pos] != 10 {
        lemma_line_end_bounds(s, pos + 1);
    }
}

/// The first dot's index lies within the string.
pub proof fn lemma_first_dot_bounds(s: Seq<u8>)
    ensures
        0 <= first_dot(s) <= s.len(),
    decreases s.len(),
{
    if s.len() > 0 && s.first() != 46 {
        lemma_first_dot_bounds(s.drop_first());
    }
}

/// The initial parser state: the origin, no pending travel, no points.
pub open spec fn initial_state() -> GcodeState {
    GcodeState { x: 0, y: 0, z: 0, pending: false, pts: Seq::empty() }
}

/// A collected point stays within the coordinate bound.
pub open spec fn point_in_gcode_range(p: ToolpathPoint) -> bool {
    &&& -GCODE_COORD_LIMIT <= p.pos.x <= GCODE_COORD_LIMIT
    &&& -GCODE_COORD_LIMIT <= p.pos.y <= GCODE_COORD_LIMIT
    &&& -GCODE_COORD_LIMIT <= p.pos.z <= GCODE_COORD_LIMIT
}

/// Scan to the end of the numeric-character run starting at `j`.
fn find_num_end(line: &[u8], j: usize) -> (e: usize)
    requires
        j <= line@.len(),
    ensures
        e == num_run_end(line@, j as int),
        j <= e <= line@.len(),
{
    let mut k: usize = j;
    while k < line.len()
        invariant
            j <= k <= line@.len(),
            num_run_end(line@, j as int) == num_run_end(line@, k as int),
        decreases line@.len() - k,
    {
        let b = line[k];
        if !((48 <= b && b <= 57) || b == 46) {
            return k;
        }
        k = k + 1;
    }
    k
}

/// Scan to the end of the whitespace run starting at `j`.
fn find_space_end(line: &[u8], j: usize) -> (e: usize)
    requires
        j <= line@.len(),
    ensures
        e == space_run_end(line@, j as int),
        j <= e <= line@.len(),
{
    let mut k: usize = j;
    while k < line.len()
        invariant
            j <= k <= line@.len(),
            space_run_end(line@, j as int) == space_run_end(line@, k as int),
        decreases line@.len() - k,
    {
        let b = line[k];
        if !(b == 32 || b == 9 || b == 10 || b == 11 || b == 12 || b == 13) {
            return k;
        }
        k = k + 1;
    }
    k
}

/// Check for a draw-pair match at `i`.
fn xye_match_here(line: &[u8], i: usize) -> (b: bool)
    requires
        i < line@.len(),
    ensures
        b == xye_match_at(line@, i as int),
{
    if line[i] != 88 {
        return false;
    }
    let xe = find_num_end(line, i + 1);
    if xe == i + 1 {
        return false;
    }
    let se = find_space_end(line, xe);
    if se == xe || se >= line.len() || line[se] != 89 {
        return false;
    }
    let ye = find_num_end(line, se + 1);
    if ye == se + 1 {
        return false;
    }
    let se2 = find_space_end(line, ye);
    se2 > ye && se2 < line.len() && line[se2] == 69
}

/// Check for a travel-pair match at `i`.
fn xy_match_here(line: &[u8], i: usize) -> (b: bool)
    requires
        i < line@.len(),
    ensures
        b == xy_match_at(line@, i as int),
{
    if line[i] != 88 {
        return false;
    }
    let xe = find_num_end(line, i + 1);
    if xe == i + 1 {
        return false;
    }
    let se = find_space_end(line, xe);
    if se == xe || se >= line.len() || line[se] != 89 {
        return false;
    }
    let ye = find_num_end(line, se + 1);
    ye > se + 1
}

/// Check for a height-field match at `i`.
fn z_match_here(line: &[u8], i: usize) -> (b: bool)
    requires
        i < line@.len(),
    ensures
        b == z_match_at(line@, i as int),
{
    if line[i] != 90 {
        return false;
    }
    let ze = find_num_end(line, i + 1);
    ze > i + 1
}

/// Find the leftmost draw-pair match.
fn find_first_xye(line: &[u8]) -> (r: Option<usize>)
    ensures
        r matches Some(i) ==> first_xye_from(line@, 0) == Some(i as int) && i < line@.len()
            && xye_match_at(line@, i as int),
        r is None <==> first_xye_from(line@, 0) is None,
{
    let mut i: usize = 0;
    while i < line.len()
        invariant
            0 <= i <= line@.len(),
            first_xye_from(line@, 0) == first_xye_from(line@, i as int),
        decreases line@.len() - i,
    {
        if xye_match_here(line, i) {
            return Some(i);
        }
        i = i + 1;
    }
    None
}

/// Find the leftmost travel-pair match.
fn find_first_xy(line: &[u8]) -> (r: Option<usize>)
    ensures
        r matches Some(i) ==> first_xy_from(line@, 0) == Some(i as int) && i < line@.len()
            && xy_match_at(line@, i as int),
        r is None <==> first_xy_from(line@, 0) is None,
{
    let mut i: usize = 0;
    while i < line.len()
        invariant
            0 <= i <= line@.len(),
            first_xy_from(line@, 0) == first_xy_from(line@, i as int),
        decreases line@.len() - i,
    {
        if xy_match_here(line, i) {
            return Some(i);
        }
        i = i + 1;
    }
    None
}

/// Find the leftmost height-field match.
fn find_first_z(line: &[u8]) -> (r: Option<usize>)
    ensures
        r matches Some(i) ==> first_z_from(line@, 0) == Some(i as int) && i < line@.len()
            && z_match_at(line@, i as int),
        r is None <==> first_z_from(line@, 0) is None,
{
    let mut i: usize = 0;
    while i < line.len()
        invariant
            0 <= i <= line@.len(),
            first_z_from(line@, 0) == first_z_from(line@, i as int),
        decreases line@.len() - i,
    {
        if z_match_here(line, i) {
            return Some(i);
        }
        i = i + 1;
    }
    None
}

/// Parse a numeric field into fixed-point milli-units; `None` when the
/// field is invalid or out of range.
fn parse_token(tok: &[u8]) -> (r: Option<i64>)
    ensures
        r == token_value_opt(tok@),
        r matches Some(v) ==> 0 <= v <= GCODE_COORD_LIMIT,
{
    // locate the dot and check there is no second one and some digit
    let mut fd: usize = tok.len();
    let mut have_digit = false;
    let mut i: usize = 0;
    while i < tok.len()
        invariant
            0 <= i <= tok@.len(),
            fd == tok@.len() || (0 <= fd < i && tok@[fd as int] == 46),
            forall|j: int| 0 <= j < i ==> is_num_char(#[trigger] tok@[j]),
            (fd == tok@.len() ==> forall|j: int| 0 <= j < i ==> tok@[j] != 46),
            (fd < tok@.len() ==> forall|j: int| 0 <= j < fd ==> tok@[j] != 46),
            (fd < tok@.len() ==> forall|j: int| fd < j < i ==> tok@[j] != 46),
            have_digit <==> exists|j: int| 0 <= j < i && is_digit(#[trigger] tok@[j]),
        decreases tok@.len() - i,
    {
        let b = tok[i];
        if b == 46 {
            if fd == tok.len() {
                fd = i;
            } else {
                // a second dot: invalid whatever else the field holds
                proof {
                    lemma_first_dot_at(tok@, fd as int);
                    assert(tok@[i as int] == 46);
                    assert(!token_valid(tok@));
                }
                return None;
            }
        } else if 48 <= b && b <= 57 {
            have_digit = true;
        } else {
            proof {
                assert(!is_num_char(tok@[i as int]));
                assert(!token_valid(tok@));
            }
            return None;
        }
        i = i + 1;
    }
    proof {
        if fd == tok@.len() {
            lemma_first_dot_none(tok@);
        } else {
            lemma_first_dot_at(tok@, fd as int);
        }
        assert(fd == first_dot(tok@));
    }
    if !have_digit {
        proof {
            assert(!token_valid(tok@));
        }
        return None;
    }
    proof {
        assert(forall|j: int| 0 <= j < fd ==> is_digit(#[trigger] tok@[j]));
        assert(forall|j: int| fd < j < tok@.len() ==> is_digit(#[trigger] tok@[j]));
        assert(token_valid(tok@));
    }
    // integer part
    let mut acc: i64 = 0;
    let mut k: usize = 0;
    while k < fd
        invariant
            0 <= k <= fd <= tok@.len(),
            fd == first_dot(tok@),
            token_valid(tok@),
            forall|j: int| 0 <= j < fd ==> is_digit(#[trigger] tok@[j]),
            forall|j: int| fd < j < tok@.len() ==> is_digit(#[trigger] tok@[j]),
            0 <= acc <= 10_000_009,
            acc == digits_val(tok@.subrange(0, k as int)),
        decreases fd - k,
    {
        if acc > 1_000_000 {
            // the integer part alone already exceeds the bound
            proof {
                assert(tok@.take(first_dot(tok@)).take(k as int) =~= tok@.subrange(0, k as int));
                lemma_digits_val_prefix_bound(tok@.take(first_dot(tok@)), k as int);
                lemma_frac_millis_nonneg(tok@);
                assert(token_millis(tok@) > GCODE_COORD_LIMIT);
            }
            return None;
        }
        let d = tok[k];
        proof {
            assert(tok@.subrange(0, k + 1 as int).drop_last() =~= tok@.subrange(0, k as int));
        }
        acc = acc * 10 + (d - 48) as i64;
        k = k + 1;
    }
    proof {
        assert(tok@.subrange(0, fd as int) =~= tok@.take(first_dot(tok@)));
    }
    // fractional part: at most three digits, zero-padded
    let mut frac: i64 = 0;
    let frac_start = if fd < tok.len() {
        fd + 1
    } else {
        fd
    };
    let mut taken: usize = 0;
    let mut p: usize = frac_start;
    while p < tok.len() && taken < 3
        invariant
            fd == first_dot(tok@),
            fd <= tok@.len(),
            frac_start == if fd < tok@.len() {
                fd + 1
            } else {
                fd as int
            },
            frac_start <= p <= tok@.len(),
            taken == p - frac_start,
            0 <= taken <= 3,
            taken == 0 ==> frac == 0,
            taken == 1 ==> 0 <= frac < 10,
            taken == 2 ==> 0 <= frac < 100,
            taken == 3 ==> 0 <= frac < 1000,
            0 <= frac < 1000,
            forall|j: int| frac_start <= j < tok@.len() ==> is_digit(#[trigger] tok@[j]),
            frac == digits_val(tok@.subrange(frac_start as int, p as int)),
        decreases tok@.len() - p,
    {
        let d = tok[p];
        proof {
            assert(tok@.subrange(frac_start as int, p + 1 as int).drop_last() =~= tok@.subrange(
                frac_start as int,
                p as int,
            ));
        }
        frac = frac * 10 + (d - 48) as i64;
        taken = taken + 1;
        p = p + 1;
    }
    let padded = if taken == 0 {
        0
    } else if taken == 1 {
        frac * 100
    } else if taken == 2 {
        frac * 10
    } else {
        frac
    };
    proof {
        if fd < tok@.len() {
            assert(frac_digits(tok@) =~= tok@.skip(first_dot(tok@) + 1));
            if frac_digits(tok@).len() >= 3 {
                assert(tok@.subrange(frac_start as int, p as int) =~= frac_digits(tok@).take(3));
            } else {
                assert(tok@.subrange(frac_start as int, p as int) =~= frac_digits(tok@));
            }
        } else {
            assert(frac_digits(tok@) =~= Seq::<u8>::empty());
            assert(tok@.subrange(frac_start as int, p as int) =~= Seq::<u8>::empty());
        }
        assert(padded == frac_millis(tok@));
        assert(token_valid(tok@));
    }
    let value = acc * 1000 + padded;
    if value > GCODE_COORD_LIMIT {
        return None;
    }
    Some(value)
}

/// The walking parser's concrete state.
struct ParserState {
    x: i64,
    y: i64,
    z: i64,
    pending: bool,
    pts: Vec<ToolpathPoint>,
}

/// The abstract state a concrete parser state denotes.
spec fn abs_state(st: ParserState) -> GcodeState {
    GcodeState { x: st.x, y: st.y, z: st.z, pending: st.pending, pts: st.pts@ }
}

/// The concrete state's coordinates are in range, as are all collected
/// points.
spec fn state_ok(st: ParserState) -> bool {
    &&& 0 <= st.x <= GCODE_COORD_LIMIT
    &&& 0 <= st.y <= GCODE_COORD_LIMIT
    &&& 0 <= st.z <= GCODE_COORD_LIMIT
    &&& forall|i: int| 0 <= i < st.pts@.len() ==> point_in_gcode_range(#[trigger] st.pts@[i])
}

/// Process one line of the file, mutating the parser state as the line's
/// fields dictate.
fn step_move_line(st: &mut ParserState, line: &[u8]) -> (r: Result<(), ParseError>)
    requires
        state_ok(*old(st)),
    ensures
        state_ok(*final(st)),
        match step_line(abs_state(*old(st)), line@) {
            None => r matches Err(e) && e.kind == ErrorKind::MalformedInput,
            Some(st1) => r is Ok && abs_state(*final(st)) == st1,
        },
{
    if line.len() < 2 || line[0] != 71 || (line[1] != 48 && line[1] != 49) {
        proof {
            assert(!is_move_line(line@));
        }
        return Ok(());
    }
    proof {
        assert(is_move_line(line@));
    }
    let ghost st0 = abs_state(*st);
    // height field first: it applies to the points of this very line
    match find_first_z(line) {
        None => {
            proof {
                assert(z_stage(st0, line@) == Some(st0));
            }
        },
        Some(zi) => {
            let ze = find_num_end(line, zi + 1);
            let tok = &line[zi + 1..ze];
            proof {
                assert(tok@ == line@.subrange(zi + 1 as int, num_run_end(line@, zi + 1 as int)));
            }
            match parse_token(tok) {
                Some(v) => {
                    st.z = v;
                    proof {
                        assert(z_stage(st0, line@) == Some(abs_state(*st)));
                    }
                },
                None => {
                    proof {
                        assert(z_stage(st0, line@) is None);
                    }
                    return Err(ParseError::with_detail(
                        ErrorKind::MalformedInput,
                        "bad height field",
                    ));
                },
            }
        },
    }
    let ghost st1 = abs_state(*st);
    proof {
        assert(z_stage(st0, line@) == Some(st1));
    }
    match find_first_xye(line) {
        Some(i) => {
            let xe = find_num_end(line, i + 1);
            let se = find_space_end(line, xe);
            let ye = find_num_end(line, se + 1);
            let xt = &line[i + 1..xe];
            let yt = &line[se + 1..ye];
            let xv = match parse_token(xt) {
                Some(v) => v,
                None => {
                    return Err(ParseError::with_detail(
                        ErrorKind::MalformedInput,
                        "bad draw coordinate",
                    ));
                },
            };
            let yv = match parse_token(yt) {
                Some(v) => v,
                None => {
                    return Err(ParseError::with_detail(
                        ErrorKind::MalformedInput,
                        "bad draw coordinate",
                    ));
                },
            };
            if st.pending {
                let bp = ToolpathPoint {
                    pos: Vec3Fix { x: -st.x, y: st.z, z: st.y },
                    draw: false,
                };
                st.pts.push(bp);
                st.pending = false;
            }
            st.x = xv;
            st.y = yv;
            let dp = ToolpathPoint { pos: Vec3Fix { x: -xv, y: st.z, z: yv }, draw: true };
            st.pts.push(dp);
            proof {
                assert(xye_stage(st1, line@, i as int) == Some(abs_state(*st)));
            }
            Ok(())
        },
        None => {
            match find_first_xy(line) {
                Some(i) => {
                    let xe = find_num_end(line, i + 1);
                    let se = find_space_end(line, xe);
                    let ye = find_num_end(line, se + 1);
                    let xt = &line[i + 1..xe];
                    let yt = &line[se + 1..ye];
                    let xv = match parse_token(xt) {
                        Some(v) => v,
                        None => {
                            return Err(ParseError::with_detail(
                                ErrorKind::MalformedInput,
                                "bad travel coordinate",
                            ));
                        },
                    };
                    let yv = match parse_token(yt) {
                        Some(v) => v,
                        None => {
                            return Err(ParseError::with_detail(
                                ErrorKind::MalformedInput,
                                "bad travel coordinate",
                            ));
                        },
                    };
                    st.x = xv;
                    st.y = yv;
                    st.pending = true;
                    proof {
                        assert(xy_stage(st1, line@, i as int) == Some(abs_state(*st)));
                    }
                    Ok(())
                },
                None => Ok(()),
            }
        },
    }
}

/// Scan to the end of the line starting at `pos`.
fn find_line_end(data: &[u8], pos: usize) -> (e: usize)
    requires
        pos <= data@.len(),
    ensures
        e == line_end(data@, pos as int),
        pos <= e <= data@.len(),
{
    let mut k: usize = pos;
    while k < data.len()
        invariant
            pos <= k <= data@.len(),
            line_end(data@, pos as int) == line_end(data@, k as int),
        decreases data@.len() - k,
    {
        if data[k] == 10 {
            return k;
        }
        k = k + 1;
    }
    k
}

/// Parse a toolpath file into its collected points: draw points, and the
/// synthetic break points that guard travel gaps. Fails with
/// `MalformedInput` when a matched numeric field does not parse, and with
/// `NoGeometryFound` when fewer than three points were collected.
pub fn parse_toolpath(data: &[u8]) -> (r: Result<Vec<ToolpathPoint>, ParseError>)
    ensures
        match run_toolpath(data@, 0, initial_state()) {
            None => r matches Err(e) && e.kind == ErrorKind::MalformedInput,
            Some(st) => if st.pts.len() <= 2 {
                r matches Err(e) && e.kind == ErrorKind::NoGeometryFound
            } else {
                r matches Ok(pts) && pts@ == st.pts
            },
        },
        r matches Ok(pts) ==> pts@.len() > 2 && forall|i: int|
            0 <= i < pts@.len() ==> point_in_gcode_range(#[trigger] pts@[i]),
{
    let mut st = ParserState { x: 0, y: 0, z: 0, pending: false, pts: Vec::new() };
    let mut pos: usize = 0;
    proof {
        assert(abs_state(st) == initial_state());
    }
    while pos < data.len()
        invariant
            0 <= pos <= data@.len(),
            state_ok(st),
            run_toolpath(data@, 0, initial_state()) == run_toolpath(
                data@,
                pos as int,
                abs_state(st),
            ),
        decreases data@.len() - pos,
    {
        let ghost st_before = abs_state(st);
        let e = find_line_end(data, pos);
        let mut trim = e;
        if e < data.len() && e > pos && data[e - 1] == 13 {
            trim = e - 1;
        }
        let line = &data[pos..trim];
        proof {
            let raw = data@.subrange(pos as int, e as int);
            if e < data@.len() && raw.len() > 0 && raw.last() == 13 {
                assert(data@.subrange(pos as int, trim as int) =~= raw.drop_last());
            } else {
                assert(trim == e);
            }
            assert(line@ == line_at(data@, pos as int));
        }
        match step_move_line(&mut st, line) {
            Ok(()) => {},
            Err(err) => {
                proof {
                    assert(run_toolpath(data@, pos as int, st_before) is None);
                }
                return Err(err);
            },
        }
        let next = if e < data.len() {
            e + 1
        } else {
            data.len()
        };
        proof {
            assert(run_toolpath(data@, pos as int, st_before) == run_toolpath(
                data@,
                next as int,
                abs_state(st),
            ));
        }
        pos = next;
    }
    if st.pts.len() <= 2 {
        return Err(ParseError::with_detail(
            ErrorKind::NoGeometryFound,
            "file contains no drawable moves",
        ));
    }
    Ok(st.pts)
}

/// The first dot of `s` stands at `i`.
proof fn lemma_first_dot_at(s: Seq<u8>, i: int)
    requires
        0 <= i < s.len(),
        s[i] == 46,
        forall|j: int| 0 <= j < i ==> s[j] != 46,
    ensures
        first_dot(s) == i,
    decreases i,
{
    if i > 0 {
        assert(s.first() != 46);
        lemma_first_dot_at(s.drop_first(), i - 1);
    }
}

/// `s` holds no dot at all.
proof fn lemma_first_dot_none(s: Seq<u8>)
    requires
        forall|j: int| 0 <= j < s.len() ==> s[j] != 46,
    ensures
        first_dot(s) == s.len(),
    decreases s.len(),
{
    if s.len() > 0 {
        lemma_first_dot_none(s.drop_first());
    }
}

/// A digit string is at least as large as the value of any of its
/// prefixes.
proof fn lemma_digits_val_prefix_bound(s: Seq<u8>, k: int)
    requires
        0 <= k <= s.len(),
        forall|j: int| 0 <= j < s.len() ==> is_digit(#[trigger] s[j]),
    ensures
        digits_val(s) >= digits_val(s.take(k)),
        digits_val(s) >= 0,
    decreases s.len() - k,
{
    if k < s.len() {
        lemma_digits_val_prefix_bound(s, k + 1);
        assert(s.take(k + 1).drop_last() =~= s.take(k));
        lemma_digits_val_nonneg(s.take(k));
    } else {
        assert(s.take(k) =~= s);
        lemma_digits_val_nonneg(s);
    }
}

/// The fractional part of a token whose characters after the dot are
/// digits is nonnegative.
proof fn lemma_frac_millis_nonneg(s: Seq<u8>)
    requires
        forall|j: int| first_dot(s) < j < s.len() ==> is_digit(#[trigger] s[j]),
    ensures
        frac_millis(s) >= 0,
{
    lemma_first_dot_bounds(s);
    let f = frac_digits(s);
    assert(forall|j: int| 0 <= j < f.len() ==> is_digit(#[trigger] f[j]));
    if f.len() >= 3 {
        assert(forall|j: int|
            0 <= j < f.take(3).len() ==> is_digit(#[trigger] f.take(3)[j]));
        lemma_digits_val_nonneg(f.take(3));
    } else {
        lemma_digits_val_nonneg(f);
    }
}

proof fn lemma_digits_val_nonneg(s: Seq<u8>)
    requires
        forall|j: int| 0 <= j < s.len() ==> is_digit(#[trigger] s[j]),
    ensures
        digits_val(s) >= 0,
    decreases s.len(),
{
    if s.len() > 0 {
        assert(s.drop_last() =~= s.take(s.len() - 1));
        assert(forall|j: int| 0 <= j < s.drop_last().len() ==> is_digit(#[trigger] s.drop_last()[j]));
        lemma_digits_val_nonneg(s.drop_last());
    }
}

} // verus!
