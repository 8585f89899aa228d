//! Properties of the simulation that hold for every state and every draw.
use crate::agent::{opposite, along, steer_rule, trunc_div, Steer, steered, turn_left, turn_right, Agent, DIR_ONE, HEADINGS, POS_SCALE};
use crate::field::{
    angles_ok, center, circle_agent, circle_agents, deposit, draws_ok, inward_circle_agents,
    per_step, reading, radius_draw_ok, root, step_view, stepped_agent, view_ok, FieldView,
};
use crate::grid::{column_sum, sensed_cell, window_sum, window_sum_upto, cell_or_zero, grid_ok, lemma_index_in_grid, neighborhood_sum, stencil, stencil_value, ONE};
use vstd::prelude::*;

verus! {

/// A stencil pass never leaves a negative cell: every new value is the
/// non-negative, in-range number that `stencil_value` gives.
pub proof fn stencil_keeps_cells_nonnegative(cells: Seq<u32>, width: int, height: int, k: int, e: int)
    requires
        0 <= k,
        0 <= e,
    ensures
        forall|p: int|
            0 <= p < cells.len() ==> 0 <= stencil_value(
                cells[p] as int,
                neighborhood_sum(cells, width, height, p / height, p % height),
                k,
                e,
            ) <= u32::MAX && #[trigger] stencil(cells, width, height, k, e)[p] as int
                == stencil_value(
                cells[p] as int,
                neighborhood_sum(cells, width, height, p / height, p % height),
                k,
                e,
            ),
{
}

proof fn lemma_cell_at_most_one(cells: Seq<u32>, width: int, height: int, i: int, j: int)
    requires
        grid_ok(cells, width, height),
        forall|q: int| 0 <= q < cells.len() ==> #[trigger] cells[q] <= ONE,
    ensures
        0 <= cell_or_zero(cells, width, height, i, j) <= ONE,
{
    if 0 <= i < width && 0 <= j < height {
        lemma_index_in_grid(width, height, i, j);
    }
}

/// With a per-step diffusion rate of at most 1, a stencil pass over cells that
/// are all at most `ONE` leaves them all at most `ONE`; since a deposit writes
/// exactly `ONE`, every step then keeps the grid within `[0, ONE]`.
pub proof fn stencil_keeps_cells_at_most_one(cells: Seq<u32>, width: int, height: int, k: int, e: int)
    requires
        grid_ok(cells, width, height),
        forall|q: int| 0 <= q < cells.len() ==> #[trigger] cells[q] <= ONE,
        0 <= k <= ONE,
        0 <= e,
    ensures
        forall|p: int| 0 <= p < cells.len() ==> #[trigger] stencil(cells, width, height, k, e)[p] <= ONE,
{
    assert forall|p: int| 0 <= p < cells.len() implies #[trigger] stencil(cells, width, height, k, e)[p]
        <= ONE by {
        let i = p / height;
        let j = p % height;
        lemma_cell_at_most_one(cells, width, height, i - 1, j - 1);
        lemma_cell_at_most_one(cells, width, height, i - 1, j);
        lemma_cell_at_most_one(cells, width, height, i - 1, j + 1);
        lemma_cell_at_most_one(cells, width, height, i, j - 1);
        lemma_cell_at_most_one(cells, width, height, i, j);
        lemma_cell_at_most_one(cells, width, height, i, j + 1);
        lemma_cell_at_most_one(cells, width, height, i + 1, j - 1);
        lemma_cell_at_most_one(cells, width, height, i + 1, j);
        lemma_cell_at_most_one(cells, width, height, i + 1, j + 1);
        let sum = neighborhood_sum(cells, width, height, i, j);
        let c = cells[p] as int;
        let b = sum / 9;
        assert(0 <= b <= ONE);
        let one = ONE as int;
        assert(0 <= (one - k) * c + k * b <= one * one) by (nonlinear_arith)
            requires
                0 <= k <= one,
                0 <= c <= one,
                0 <= b <= one,
        ;
        let diffused = (one - k) * c + k * b;
        assert(diffused / one <= one) by (nonlinear_arith)
            requires
                0 <= diffused <= one * one,
                one > 0,
        ;
    }
}

/// After a step on a grid at least two cells wide and high, every agent lies
/// within `[0, width) × [0, height)` (in position units).
pub proof fn step_keeps_agents_on_grid(v: FieldView, dt: int, steers: Seq<u64>, bounces: Seq<u32>)
    requires
        view_ok(v),
        draws_ok(v.agents.len() as int, steers, bounces),
        v.width >= 2,
        v.height >= 2,
    ensures
        forall|i: int|
            0 <= i < v.agents.len() ==> {
                let a = #[trigger] step_view(v, dt, steers, bounces).agents[i];
                &&& 0 <= a.x < v.width * POS_SCALE
                &&& 0 <= a.y < v.height * POS_SCALE
            },
{
}

proof fn lemma_along_squared(c: int, r: int)
    requires
        0 <= r,
    ensures
        along(c, r) * along(c, r) * (DIR_ONE * DIR_ONE) <= c * c * (r * r),
{
    let t = along(c, r);
    let d = DIR_ONE as int;
    if c * r >= 0 {
        assert(0 <= t * d <= c * r);
        assert(t * t * (d * d) == (t * d) * (t * d)) by (nonlinear_arith);
        assert((t * d) * (t * d) <= (c * r) * (c * r)) by (nonlinear_arith)
            requires
                0 <= t * d <= c * r,
        ;
    } else {
        assert(0 <= -t * d <= -(c * r));
        assert(t * t * (d * d) == (-t * d) * (-t * d)) by (nonlinear_arith);
        assert((-t * d) * (-t * d) <= (c * r) * (c * r)) by (nonlinear_arith)
            requires
                0 <= -t * d <= -(c * r),
        ;
    }
    assert((c * r) * (c * r) == c * c * (r * r)) by (nonlinear_arith);
}

/// A circle-spawned agent lies within `radius` (in position units) of the grid
/// centre, for every angle and every admissible distance draw.
pub proof fn circle_spawn_within_radius(v: FieldView, angle: u32, draw: u64, radius: u32)
    requires
        view_ok(v),
        angle < HEADINGS,
        radius_draw_ok(draw as int, radius as int),
    ensures
        ({
            let a = circle_agent(v, angle, draw, angle);
            let dx = a.x - center(v.width as int);
            let dy = a.y - center(v.height as int);
            dx * dx + dy * dy <= radius * radius
        }),
{
    let r = root(draw as nat) as int;
    crate::field::lemma_root(draw as nat);
    let rad = radius as int;
    if r > rad {
        assert(rad * rad < r * r) by (nonlinear_arith)
            requires
                0 <= rad < r,
        ;
    }
    let c = v.dirs[angle as int].0 as int;
    let s = v.dirs[angle as int].1 as int;
    assert(c * c + s * s <= DIR_ONE * DIR_ONE);
    crate::agent::lemma_component_bound(c, s);
    crate::agent::lemma_along_bound(c, r);
    crate::agent::lemma_along_bound(s, r);
    lemma_along_squared(c, r);
    lemma_along_squared(s, r);
    let tx = along(c, r);
    let ty = along(s, r);
    let d2 = DIR_ONE * DIR_ONE;
    assert((tx * tx + ty * ty) * d2 <= (c * c + s * s) * (r * r)) by (nonlinear_arith)
        requires
            tx * tx * d2 <= c * c * (r * r),
            ty * ty * d2 <= s * s * (r * r),
    ;
    assert((c * c + s * s) * (r * r) <= d2 * (r * r)) by (nonlinear_arith)
        requires
            c * c + s * s <= d2,
    ;
    assert(tx * tx + ty * ty <= r * r) by (nonlinear_arith)
        requires
            (tx * tx + ty * ty) * d2 <= d2 * (r * r),
            d2 > 0,
    ;
    assert(r * r <= rad * rad) by (nonlinear_arith)
        requires
            0 <= r <= rad,
    ;
    assert(r <= 0x1_0000_0000) by (nonlinear_arith)
        requires
            0 <= r,
            r * r <= draw,
            draw < 0x1_0000_0000_0000_0000,
    ;
    assert(0 <= center(v.width as int) <= 0xffff * 50);
    assert(0 <= center(v.height as int) <= 0xffff * 50);
    let a = circle_agent(v, angle, draw, angle);
    assert(a.x - center(v.width as int) == tx);
    assert(a.y - center(v.height as int) == ty);
}

/// The same draws place inward-circle agents exactly where circle agents go,
/// with the heading turned by half a turn.
pub proof fn inward_circle_is_rotated(v: FieldView, angles: Seq<u32>, draws: Seq<u64>)
    requires
        angles_ok(angles),
        draws.len() == angles.len(),
    ensures
        inward_circle_agents(v, angles, draws).len() == circle_agents(v, angles, draws).len(),
        forall|i: int|
            0 <= i < angles.len() ==> {
                let a = #[trigger] circle_agents(v, angles, draws)[i];
                inward_circle_agents(v, angles, draws)[i] == (Agent {
                    angle: opposite(a.angle as int) as u32,
                    ..a
                })
            },
{
}

/// An inward-circle agent faces the centre: it is placed at `root(draw)` along
/// the vector of heading `angle` from the centre, and its own heading's vector
/// is the negation of that vector.
pub proof fn inward_circle_faces_center(v: FieldView, angle: u32, draw: u64)
    requires
        view_ok(v),
        angle < HEADINGS,
    ensures
        ({
            let a = circle_agent(v, angle, draw, opposite(angle as int) as u32);
            let r = root(draw as nat) as int;
            let d = v.dirs[angle as int];
            &&& a.x == center(v.width as int) + along(d.0 as int, r)
            &&& a.y == center(v.height as int) + along(d.1 as int, r)
            &&& v.dirs[a.angle as int].0 == -d.0
            &&& v.dirs[a.angle as int].1 == -d.1
        }),
{
    let r = root(draw as nat) as int;
    crate::field::lemma_root(draw as nat);
    let d = v.dirs[angle as int];
    assert(d.0 * d.0 + d.1 * d.1 <= DIR_ONE * DIR_ONE);
    crate::agent::lemma_component_bound(d.0 as int, d.1 as int);
    assert(r <= 0x1_0000_0000) by (nonlinear_arith)
        requires
            0 <= r,
            r * r <= draw,
            draw < 0x1_0000_0000_0000_0000,
    ;
    crate::agent::lemma_along_bound(d.0 as int, r);
    crate::agent::lemma_along_bound(d.1 as int, r);
    assert(POS_SCALE / 2 == 50);
    assert(center(v.width as int) == v.width * 50);
    assert(center(v.height as int) == v.height * 50);
    assert(0 <= opposite(angle as int) < HEADINGS);
    assert(v.dirs.len() == HEADINGS);
    let o = opposite(angle as int);
    assert(v.dirs[o].0 == -d.0 && v.dirs[o].1 == -d.1);
    assert(circle_agent(v, angle, draw, o as u32).angle as int == o);
}

/// Every cell of the window of half-width `s` around `(cx, cy)` holds zero.
pub open spec fn window_clear(cells: Seq<u32>, width: int, height: int, cx: int, cy: int, s: int) -> bool {
    forall|dx: int, dy: int|
        -s <= dx <= s && -s <= dy <= s ==> #[trigger] sensed_cell(cells, width, height, cx, cy, dx, dy)
            == 0
}

proof fn lemma_clear_column(
    cells: Seq<u32>,
    width: int,
    height: int,
    cx: int,
    cy: int,
    s: int,
    dx: int,
    n: nat,
)
    requires
        window_clear(cells, width, height, cx, cy, s),
        -s <= dx <= s,
        n <= 2 * s + 1,
    ensures
        column_sum(cells, width, height, cx, cy, s, dx, n) == 0,
    decreases n,
{
    if n > 0 {
        lemma_clear_column(cells, width, height, cx, cy, s, dx, (n - 1) as nat);
        assert(sensed_cell(cells, width, height, cx, cy, dx, -s + n - 1) == 0);
    }
}

proof fn lemma_clear_window(cells: Seq<u32>, width: int, height: int, cx: int, cy: int, s: int, m: nat)
    requires
        window_clear(cells, width, height, cx, cy, s),
        m <= 2 * s + 1,
    ensures
        window_sum_upto(cells, width, height, cx, cy, s, m) == 0,
    decreases m,
{
    if m > 0 {
        lemma_clear_window(cells, width, height, cx, cy, s, (m - 1) as nat);
        lemma_clear_column(cells, width, height, cx, cy, s, -s + m - 1, (2 * s + 1) as nat);
    }
}

/// A window whose cells all hold zero sums to zero.
pub proof fn clear_window_reads_zero(cells: Seq<u32>, width: int, height: int, cx: int, cy: int, s: int)
    requires
        0 <= s,
        window_clear(cells, width, height, cx, cy, s),
    ensures
        window_sum(cells, width, height, cx, cy, s) == 0,
{
    lemma_clear_window(cells, width, height, cx, cy, s, (2 * s + 1) as nat);
}

/// The sensor of agent `a` that looks along heading `h` sees only zero cells.
pub open spec fn sensor_clear(v: FieldView, a: Agent, h: int) -> bool {
    let d = v.dirs[h];
    let sx = a.x + along(d.0 as int, v.params.sense_distance as int);
    let sy = a.y + along(d.1 as int, v.params.sense_distance as int);
    window_clear(
        v.cells,
        v.width as int,
        v.height as int,
        trunc_div(sx, POS_SCALE as int),
        trunc_div(sy, POS_SCALE as int),
        v.params.sense_size as int,
    )
}

/// Trail that none of the three sensors' windows reaches (a hotspot beyond the
/// sensing distance) leaves the three readings at zero, so the agent goes
/// straight on: its heading before the move is unchanged, whatever the draw.
pub proof fn unseen_trail_keeps_heading(v: FieldView, a: Agent, dt: int, steer: int)
    requires
        a.angle < HEADINGS,
        sensor_clear(v, a, a.angle as int),
        sensor_clear(v, a, turn_left(a.angle as int, v.params.sense_angle_difference as int)),
        sensor_clear(v, a, turn_right(a.angle as int, v.params.sense_angle_difference as int)),
    ensures
        ({
            let off = v.params.sense_angle_difference as int;
            let forward = reading(v, a, a.angle as int);
            let left = reading(v, a, turn_left(a.angle as int, off));
            let right = reading(v, a, turn_right(a.angle as int, off));
            &&& forward == 0 && left == 0 && right == 0
            &&& steer_rule(forward, left, right) == Steer::Straight
            &&& steered(
                a.angle as int,
                steer_rule(forward, left, right),
                steer,
                per_step(v.params.turn_speed as int, dt),
            ) == a.angle
        }),
{
    let off = v.params.sense_angle_difference as int;
    let s = v.params.sense_size as int;
    let hs = seq![a.angle as int, turn_left(a.angle as int, off), turn_right(a.angle as int, off)];
    assert forall|k: int| 0 <= k < 3 implies reading(v, a, #[trigger] hs[k]) == 0 by {
        let h = hs[k];
        let d = v.dirs[h];
        let sx = a.x + along(d.0 as int, v.params.sense_distance as int);
        let sy = a.y + along(d.1 as int, v.params.sense_distance as int);
        clear_window_reads_zero(
            v.cells,
            v.width as int,
            v.height as int,
            trunc_div(sx, POS_SCALE as int),
            trunc_div(sy, POS_SCALE as int),
            s,
        );
    }
    assert(reading(v, a, hs[0]) == 0);
    assert(reading(v, a, hs[1]) == 0);
    assert(reading(v, a, hs[2]) == 0);
}

/// A step of zero duration keeps every agent where it is and keeps the grid,
/// except that the cells under agents are set to `ONE`; it needs every agent
/// already on the grid, since one off it is clamped back by any step.
pub proof fn zero_step_only_deposits(v: FieldView, steers: Seq<u64>, bounces: Seq<u32>)
    requires
        view_ok(v),
        draws_ok(v.agents.len() as int, steers, bounces),
        forall|i: int|
            0 <= i < v.agents.len() ==> 0 <= (#[trigger] v.agents[i]).x < v.width * POS_SCALE && 0
                <= v.agents[i].y < v.height * POS_SCALE,
    ensures
        step_view(v, 0, steers, bounces).agents == v.agents,
        step_view(v, 0, steers, bounces).cells == deposit(v.cells, v.height as int, v.agents),
{
    assert forall|rate: int| per_step(rate, 0) == 0 by {}
    assert forall|i: int| 0 <= i < v.agents.len() implies #[trigger] stepped_agent(
        v,
        0,
        v.agents[i],
        steers[i] as int,
        bounces[i] as int,
    ) == v.agents[i] by {
        let a = v.agents[i];
        let h = a.angle as int;
        assert(turn_left(h, 0) == h);
        assert(turn_right(h, 0) == h);
        assert(along(v.dirs[h].0 as int, 0) == 0);
        assert(along(v.dirs[h].1 as int, 0) == 0);
    }
    assert(step_view(v, 0, steers, bounces).agents =~= v.agents);
    let s = stencil(v.cells, v.width as int, v.height as int, 0, 0);
    assert(s =~= v.cells);
}

/// A sequence of steps, each with its elapsed time and its draws.
pub open spec fn run(v: FieldView, dts: Seq<u32>, steers: Seq<Seq<u64>>, bounces: Seq<Seq<u32>>) -> FieldView
    decreases dts.len(),
{
    if dts.len() == 0 {
        v
    } else {
        let n = (dts.len() - 1) as int;
        step_view(
            run(v, dts.subrange(0, n), steers.subrange(0, n), bounces.subrange(0, n)),
            dts[n] as int,
            steers[n],
            bounces[n],
        )
    }
}

/// Two runs from the same state with the same elapsed times and the same draws
/// end in the same state.
pub proof fn runs_are_deterministic(
    v1: FieldView,
    v2: FieldView,
    dts: Seq<u32>,
    steers: Seq<Seq<u64>>,
    bounces: Seq<Seq<u32>>,
)
    requires
        v1 == v2,
    ensures
        run(v1, dts, steers, bounces) == run(v2, dts, steers, bounces),
{
}

} // verus!
