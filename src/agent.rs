//! A single agent and the per-agent rules: heading arithmetic, the steering
//! decision and the move with its wall collision.
//!
//! Positions are in hundredths of a grid cell. Headings are indices into a
//! table of `HEADINGS` unit vectors that splits the full turn evenly, each
//! component scaled by `DIR_ONE`.
use vstd::prelude::*;

verus! {

/// Position units per grid cell.
pub const POS_SCALE: i64 = 100;

/// Number of distinct headings in a full turn.
pub const HEADINGS: u32 = 4096;

/// Fixed-point scale of a direction vector's components.
pub const DIR_ONE: i64 = 65536;

/// Fixed-point scale of a steering strength: a strength `s` stands for `s / STEER_ONE`.
pub const STEER_ONE: u64 = 65536;

/// Largest distance (in position units) that an agent moves or senses in one step.
pub const REACH_LIMIT: u64 = 0x2000_0000_0000;

/// Bound on the magnitude of every agent coordinate.
pub const POS_LIMIT: i64 = 0x10_0000_0000_0000;

#[derive(Clone, Copy, Debug, PartialEq, Eq, Structural)]
pub struct Agent {
    pub x: i64,
    pub y: i64,
    pub angle: u32,
}

impl Agent {
    pub fn new(x: i64, y: i64, angle: u32) -> (r: Self)
        ensures
            r == (Agent { x, y, angle }),
    {
        Self { x: x, y: y, angle: angle }
    }
}

/// `a / d` rounded towards zero, as a cast from a real number to an integer does.
pub open spec fn trunc_div(a: int, d: int) -> int {
    if a >= 0 {
        a / d
    } else {
        -((-a) / d)
    }
}

/// The heading opposite to `h`.
pub open spec fn opposite(h: int) -> int {
    (h + HEADINGS / 2) % (HEADINGS as int)
}

/// A table of headings: `HEADINGS` vectors, each no longer than `DIR_ONE`, and
/// each the negation of the vector half a turn away.
pub open spec fn directions_ok(dirs: Seq<(i32, i32)>) -> bool {
    &&& dirs.len() == HEADINGS
    &&& forall|h: int|
        0 <= h < dirs.len() ==> #[trigger] dirs[h].0 * dirs[h].0 + dirs[h].1 * dirs[h].1 <= DIR_ONE
            * DIR_ONE
    &&& forall|h: int|
        0 <= h < dirs.len() ==> dirs[#[trigger] opposite(h)].0 == -dirs[h].0 && dirs[opposite(h)].1
            == -dirs[h].1
}

/// Displacement along one component `c` of a direction vector over `dist`.
pub open spec fn along(c: int, dist: int) -> int {
    trunc_div(c * dist, DIR_ONE as int)
}

pub proof fn lemma_component_bound(a: int, b: int)
    requires
        a * a + b * b <= DIR_ONE * DIR_ONE,
    ensures
        -DIR_ONE <= a <= DIR_ONE,
        -DIR_ONE <= b <= DIR_ONE,
{
    assert(-DIR_ONE <= a <= DIR_ONE) by (nonlinear_arith)
        requires
            a * a + b * b <= DIR_ONE * DIR_ONE,
    ;
    assert(-DIR_ONE <= b <= DIR_ONE) by (nonlinear_arith)
        requires
            a * a + b * b <= DIR_ONE * DIR_ONE,
    ;
}

pub proof fn lemma_along_bound(c: int, dist: int)
    requires
        -DIR_ONE <= c <= DIR_ONE,
        0 <= dist,
    ensures
        -dist <= along(c, dist) <= dist,
{
    if c >= 0 {
        assert(0 <= c * dist <= DIR_ONE * dist) by (nonlinear_arith)
            requires
                0 <= c <= DIR_ONE,
                0 <= dist,
        ;
        assert((c * dist) / (DIR_ONE as int) <= dist) by (nonlinear_arith)
            requires
                0 <= c * dist <= DIR_ONE * dist,
        ;
        assert((c * dist) / (DIR_ONE as int) >= 0) by (nonlinear_arith)
            requires
                0 <= c * dist,
        ;
    } else {
        assert(0 <= -(c * dist) <= DIR_ONE * dist) by (nonlinear_arith)
            requires
                -DIR_ONE <= c < 0,
                0 <= dist,
        ;
        assert((-(c * dist)) / (DIR_ONE as int) <= dist) by (nonlinear_arith)
            requires
                0 <= -(c * dist) <= DIR_ONE * dist,
        ;
        assert((-(c * dist)) / (DIR_ONE as int) >= 0) by (nonlinear_arith)
            requires
                0 <= -(c * dist),
        ;
    }
}

/// Displacement along direction component `c` over `dist`, rounded towards zero.
pub fn offset_along(c: i32, dist: u64) -> (r: i64)
    requires
        -DIR_ONE <= c <= DIR_ONE,
        dist <= REACH_LIMIT,
    ensures
        r as int == along(c as int, dist as int),
        -(dist as int) <= r <= dist,
{
    proof {
        lemma_along_bound(c as int, dist as int);
        assert(-DIR_ONE * REACH_LIMIT <= c * dist <= DIR_ONE * REACH_LIMIT) by (nonlinear_arith)
            requires
                -DIR_ONE <= c <= DIR_ONE,
                0 <= dist <= REACH_LIMIT,
        ;
    }
    let prod: i64 = (c as i64) * (dist as i64);
    if prod >= 0 {
        prod / DIR_ONE
    } else {
        -((-prod) / DIR_ONE)
    }
}

/// Heading `h` turned by `a` steps towards increasing angle.
pub open spec fn turn_left(h: int, a: int) -> int {
    (h + a % (HEADINGS as int)) % (HEADINGS as int)
}

/// Heading `h` turned by `a` steps towards decreasing angle.
pub open spec fn turn_right(h: int, a: int) -> int {
    (h + HEADINGS - a % (HEADINGS as int)) % (HEADINGS as int)
}

pub fn rotate_left(h: u32, a: u64) -> (r: u32)
    requires
        h < HEADINGS,
    ensures
        r as int == turn_left(h as int, a as int),
        r < HEADINGS,
{
    ((h as u64 + a % (HEADINGS as u64)) % (HEADINGS as u64)) as u32
}

pub fn rotate_right(h: u32, a: u64) -> (r: u32)
    requires
        h < HEADINGS,
    ensures
        r as int == turn_right(h as int, a as int),
        r < HEADINGS,
{
    ((h as u64 + HEADINGS as u64 - a % (HEADINGS as u64)) % (HEADINGS as u64)) as u32
}

/// Which way an agent turns, from its three sensor readings.
#[derive(Clone, Copy, Debug, PartialEq, Eq, Structural)]
pub enum Steer {
    /// Keep the heading.
    Straight,
    /// Turn by a random signed amount.
    Wander,
    /// Turn towards decreasing angle.
    Right,
    /// Turn towards increasing angle.
    Left,
}

/// The steering rule, tested in this order: forward strictly best keeps the
/// heading; forward strictly worst wanders; right above left turns right; left
/// below right turns left; otherwise the heading is kept.
pub open spec fn steer_rule(forward: int, left: int, right: int) -> Steer {
    if forward > left && forward > right {
        Steer::Straight
    } else if forward < left && forward < right {
        Steer::Wander
    } else if right > left {
        Steer::Right
    } else if left < right {
        Steer::Left
    } else {
        Steer::Straight
    }
}

pub fn steer_decision(forward: u128, left: u128, right: u128) -> (r: Steer)
    ensures
        r == steer_rule(forward as int, left as int, right as int),
{
    if forward > left && forward > right {
        Steer::Straight
    } else if forward < left && forward < right {
        Steer::Wander
    } else if right > left {
        Steer::Right
    } else if left < right {
        Steer::Left
    } else {
        Steer::Straight
    }
}

/// The heading after steering by `choice` with strength `steer` (out of
/// `STEER_ONE`), where `max_turn` is the largest turn of this step.
pub open spec fn steered(h: int, choice: Steer, steer: int, max_turn: int) -> int {
    match choice {
        Steer::Straight => h,
        Steer::Wander => if 2 * steer >= STEER_ONE {
            turn_left(h, (2 * steer - STEER_ONE) * max_turn / (STEER_ONE as int))
        } else {
            turn_right(h, (STEER_ONE - 2 * steer) * max_turn / (STEER_ONE as int))
        },
        Steer::Right => turn_right(h, steer * max_turn / (STEER_ONE as int)),
        Steer::Left => turn_left(h, steer * max_turn / (STEER_ONE as int)),
    }
}

pub fn apply_steer(h: u32, choice: Steer, steer: u64, max_turn: u64) -> (r: u32)
    requires
        h < HEADINGS,
        steer < STEER_ONE,
        max_turn <= REACH_LIMIT,
    ensures
        r as int == steered(h as int, choice, steer as int, max_turn as int),
        r < HEADINGS,
{
    proof {
        assert(0 <= steer * max_turn <= STEER_ONE * REACH_LIMIT) by (nonlinear_arith)
            requires
                steer < STEER_ONE,
                0 <= max_turn <= REACH_LIMIT,
        ;
        if 2 * steer >= STEER_ONE {
        assert(0 <= (2 * steer - STEER_ONE) * max_turn <= STEER_ONE * REACH_LIMIT)
            by (nonlinear_arith)
            requires
                STEER_ONE <= 2 * steer < 2 * STEER_ONE,
                0 <= max_turn <= REACH_LIMIT,
        ;
        } else {
        assert(0 <= (STEER_ONE - 2 * steer) * max_turn <= STEER_ONE * REACH_LIMIT)
            by (nonlinear_arith)
            requires
                0 <= 2 * steer < STEER_ONE,
                0 <= max_turn <= REACH_LIMIT,
        ;
        }
    }
    match choice {
        Steer::Straight => h,
        Steer::Wander => {
            if 2 * steer >= STEER_ONE {
                rotate_left(h, (2 * steer - STEER_ONE) * max_turn / STEER_ONE)
            } else {
                rotate_right(h, (STEER_ONE - 2 * steer) * max_turn / STEER_ONE)
            }
        },
        Steer::Right => rotate_right(h, steer * max_turn / STEER_ONE),
        Steer::Left => rotate_left(h, steer * max_turn / STEER_ONE),
    }
}

pub open spec fn min(a: int, b: int) -> int {
    if a < b {
        a
    } else {
        b
    }
}

pub open spec fn max(a: int, b: int) -> int {
    if a > b {
        a
    } else {
        b
    }
}

/// The agent after moving `travel` along heading `h` on a `width × height`
/// grid. Leaving the grid on either axis clamps both coordinates into
/// `[0, dimension - 1.01]` and takes the heading `bounce` instead.
pub open spec fn moved(
    a: Agent,
    dirs: Seq<(i32, i32)>,
    h: int,
    travel: int,
    width: int,
    height: int,
    bounce: int,
) -> Agent {
    let nx = a.x + along(dirs[h].0 as int, travel);
    let ny = a.y + along(dirs[h].1 as int, travel);
    if nx < 0 || nx >= width * POS_SCALE || ny < 0 || ny >= height * POS_SCALE {
        Agent {
            x: min(width * POS_SCALE - 101, max(0, nx)) as i64,
            y: min(height * POS_SCALE - 101, max(0, ny)) as i64,
            angle: bounce as u32,
        }
    } else {
        Agent { x: nx as i64, y: ny as i64, angle: h as u32 }
    }
}

pub open spec fn agent_ok(a: Agent) -> bool {
    &&& -POS_LIMIT <= a.x <= POS_LIMIT
    &&& -POS_LIMIT <= a.y <= POS_LIMIT
    &&& a.angle < HEADINGS
}

/// Moves `a` by `travel` along heading `h` (see `moved`).
pub fn move_agent(
    a: Agent,
    dirs: &Vec<(i32, i32)>,
    h: u32,
    travel: u64,
    width: u16,
    height: u16,
    bounce: u32,
) -> (r: Agent)
    requires
        agent_ok(a),
        directions_ok(dirs@),
        h < HEADINGS,
        bounce < HEADINGS,
        travel <= REACH_LIMIT,
        0 < width,
        0 < height,
    ensures
        r == moved(a, dirs@, h as int, travel as int, width as int, height as int, bounce as int),
        agent_ok(r),
{
    let d = dirs[h as usize];
    proof {
        lemma_component_bound(d.0 as int, d.1 as int);
    }
    let nx: i64 = a.x + offset_along(d.0, travel);
    let ny: i64 = a.y + offset_along(d.1, travel);
    let w: i64 = width as i64 * POS_SCALE;
    let hh: i64 = height as i64 * POS_SCALE;
    if nx < 0 || nx >= w || ny < 0 || ny >= hh {
        let cx: i64 = if nx < 0 { 0 } else { nx };
        let cy: i64 = if ny < 0 { 0 } else { ny };
        let x: i64 = if w - 101 < cx { w - 101 } else { cx };
        let y: i64 = if hh - 101 < cy { hh - 101 } else { cy };
        Agent { x, y, angle: bounce }
    } else {
        Agent { x: nx, y: ny, angle: h }
    }
}

} // verus!
