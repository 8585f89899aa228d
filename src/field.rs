//! The simulation: a trail grid, its agents, their parameters and the random
//! source that seeds and steers them.
use crate::agent::{
    opposite, along, agent_ok, apply_steer, directions_ok, max, move_agent, moved, offset_along, rotate_left,
    rotate_right, steer_decision, steer_rule, steered, trunc_div, turn_left, turn_right, Agent,
    HEADINGS, POS_SCALE, REACH_LIMIT, STEER_ONE,
};
use crate::grid::{cell_index, grid_ok, stencil, stencil_into, window_sum, window_total, ONE};
use crate::random::{below_u32, below_u64, seeded};
use rand::rngs::StdRng;
use vstd::prelude::*;

verus! {

/// Rates of one run, in the library's fixed-point units.
#[derive(Clone, Copy, Debug, PartialEq, Eq, Structural)]
pub struct SimulationParams {
    /// Position units (hundredths of a cell) per second.
    pub move_speed: u32,
    /// Trail intensity (`ONE` = 1.0) lost per second.
    pub evaporation_speed: u32,
    /// Diffusion rate per second, scaled by `ONE`.
    pub diffuse_speed: u32,
    /// Angle between the forward and each side sensor, in headings.
    pub sense_angle_difference: u32,
    /// Distance from the agent to each sensor, in position units.
    pub sense_distance: u32,
    /// Half-width of the sensing window, in cells.
    pub sense_size: u16,
    /// Largest turn per second, in headings.
    pub turn_speed: u32,
}

impl Default for SimulationParams {
    fn default() -> (r: Self)
        ensures
            r == (SimulationParams {
                move_speed: 5000,
                evaporation_speed: 16384,
                diffuse_speed: 524288,
                sense_angle_difference: 652,
                sense_distance: 1000,
                sense_size: 3,
                turn_speed: 19557,
            }),
    {
        SimulationParams {
            move_speed: 5000,
            evaporation_speed: 16384,
            diffuse_speed: 524288,
            sense_angle_difference: 652,
            sense_distance: 1000,
            sense_size: 3,
            turn_speed: 19557,
        }
    }
}

/// What a simulation holds, as mathematical values.
pub ghost struct FieldView {
    pub width: u16,
    pub height: u16,
    pub cells: Seq<u32>,
    pub agents: Seq<Agent>,
    pub can_run: bool,
    pub params: SimulationParams,
    pub dirs: Seq<(i32, i32)>,
}

/// A consistent simulation state: the grid fills `width × height`, the heading
/// table is valid and every agent is within the coordinate bounds.
pub open spec fn view_ok(v: FieldView) -> bool {
    &&& grid_ok(v.cells, v.width as int, v.height as int)
    &&& directions_ok(v.dirs)
    &&& forall|i: int| 0 <= i < v.agents.len() ==> agent_ok(#[trigger] v.agents[i])
}

pub open spec fn zero_cells(n: int) -> Seq<u32> {
    Seq::new(n as nat, |p: int| 0u32)
}

/// The grid centre in position units.
pub open spec fn center(size: int) -> int {
    size * (POS_SCALE / 2)
}

pub open spec fn point_agents(v: FieldView, angles: Seq<u32>) -> Seq<Agent> {
    Seq::new(
        angles.len(),
        |i: int|
            Agent {
                x: center(v.width as int) as i64,
                y: center(v.height as int) as i64,
                angle: angles[i],
            },
    )
}

pub open spec fn random_agents(xs: Seq<u16>, ys: Seq<u16>, angles: Seq<u32>) -> Seq<Agent> {
    Seq::new(
        angles.len(),
        |i: int| Agent { x: (xs[i] * POS_SCALE) as i64, y: (ys[i] * POS_SCALE) as i64, angle: angles[i] },
    )
}

/// Integer square root: the largest `r` with `r * r <= v`.
pub open spec fn root(v: nat) -> nat
    decreases v,
{
    if v == 0 {
        0
    } else {
        let r = root((v - 1) as nat);
        if (r + 1) * (r + 1) <= v {
            r + 1
        } else {
            r
        }
    }
}

/// A draw for the distance from the centre: any value below `radius²`, or zero.
pub open spec fn radius_draw_ok(v: int, radius: int) -> bool {
    v == 0 || v < radius * radius
}

/// An agent placed at angle `angle`, at distance `root(v)` from the centre, so
/// that for a uniform `v < radius²` the placement is uniform over the disk.
pub open spec fn circle_agent(v: FieldView, angle: u32, draw: u64, heading: u32) -> Agent {
    let r = root(draw as nat) as int;
    Agent {
        x: (center(v.width as int) + along(v.dirs[angle as int].0 as int, r)) as i64,
        y: (center(v.height as int) + along(v.dirs[angle as int].1 as int, r)) as i64,
        angle: heading,
    }
}


pub open spec fn circle_agents(v: FieldView, angles: Seq<u32>, draws: Seq<u64>) -> Seq<Agent> {
    Seq::new(angles.len(), |i: int| circle_agent(v, angles[i], draws[i], angles[i]))
}

pub open spec fn inward_circle_agents(v: FieldView, angles: Seq<u32>, draws: Seq<u64>) -> Seq<
    Agent,
> {
    Seq::new(
        angles.len(),
        |i: int| circle_agent(v, angles[i], draws[i], opposite(angles[i] as int) as u32),
    )
}

pub open spec fn angles_ok(angles: Seq<u32>) -> bool {
    forall|i: int| 0 <= i < angles.len() ==> #[trigger] angles[i] < HEADINGS
}

pub proof fn lemma_root(v: nat)
    ensures
        (root(v) as int) * (root(v) as int) <= v as int,
        (v as int) < (root(v) as int + 1) * (root(v) as int + 1),
    decreases v,
{
    if v > 0 {
        lemma_root((v - 1) as nat);
        let r = root((v - 1) as nat) as int;
        let q = root(v) as int;
        if (r + 1) * (r + 1) <= v {
            assert(q == r + 1);
            assert(q * q <= v < (q + 1) * (q + 1)) by (nonlinear_arith)
                requires
                    q == r + 1,
                    (r + 1) * (r + 1) <= v,
                    v - 1 < (r + 1) * (r + 1),
                    r >= 0,
            ;
        } else {
            assert(q == r);
            assert(q * q <= v < (q + 1) * (q + 1)) by (nonlinear_arith)
                requires
                    q == r,
                    r * r <= v - 1,
                    v < (r + 1) * (r + 1),
            ;
        }
    } else {
        assert(root(v) == 0);
    }
}

proof fn lemma_root_unique(v: nat, r: int)
    requires
        0 <= r,
        r * r <= v < (r + 1) * (r + 1),
    ensures
        r == root(v),
{
    lemma_root(v);
    let q = root(v) as int;
    assert(q * q <= v < (q + 1) * (q + 1));
    if r < q {
        assert((r + 1) * (r + 1) <= q * q) by (nonlinear_arith)
            requires
                0 <= r + 1 <= q,
        ;
    } else if q < r {
        assert((q + 1) * (q + 1) <= r * r) by (nonlinear_arith)
            requires
                0 <= q + 1 <= r,
        ;
    }
}

/// Integer square root by bisection.
pub fn isqrt(v: u64) -> (r: u64)
    ensures
        r as nat == root(v as nat),
        r <= 0xffff_ffff,
{
    let mut lo: u64 = 0;
    let mut hi: u64 = 0x1_0000_0000;
    proof {
        assert(v < (hi as int) * (hi as int));
    }
    while hi - lo > 1
        invariant
            lo < hi <= 0x1_0000_0000,
            (lo as int) * (lo as int) <= v,
            v < (hi as int) * (hi as int),
        decreases hi - lo,
    {
        let mid: u64 = lo + (hi - lo) / 2;
        proof {
            assert((mid as int) * (mid as int) <= 0x1_0000_0000 * 0x1_0000_0000) by (nonlinear_arith)
                requires
                    0 <= mid <= 0x1_0000_0000,
            ;
        }
        if (mid as u128) * (mid as u128) <= v as u128 {
            lo = mid;
        } else {
            hi = mid;
        }
    }
    proof {
        lemma_root_unique(v as nat, lo as int);
    }
    lo
}

/// Microseconds per second: the unit of a step's elapsed time.
pub const MICROS: u64 = 1_000_000;

/// What a per-second `rate` amounts to over `dt` microseconds.
pub open spec fn per_step(rate: int, dt: int) -> int {
    rate * dt / (MICROS as int)
}

/// Trail sum seen by agent `a` through the sensor that looks along heading `h`.
pub open spec fn reading(v: FieldView, a: Agent, h: int) -> int {
    let d = v.dirs[h];
    let sx = a.x + along(d.0 as int, v.params.sense_distance as int);
    let sy = a.y + along(d.1 as int, v.params.sense_distance as int);
    window_sum(
        v.cells,
        v.width as int,
        v.height as int,
        trunc_div(sx, POS_SCALE as int),
        trunc_div(sy, POS_SCALE as int),
        v.params.sense_size as int,
    )
}

/// One agent's sense, steer and move over `dt` microseconds, with steering
/// strength `steer` and the heading `bounce` taken if it hits a wall.
pub open spec fn stepped_agent(v: FieldView, dt: int, a: Agent, steer: int, bounce: int) -> Agent {
    let off = v.params.sense_angle_difference as int;
    let forward = reading(v, a, a.angle as int);
    let left = reading(v, a, turn_left(a.angle as int, off));
    let right = reading(v, a, turn_right(a.angle as int, off));
    let h = steered(
        a.angle as int,
        steer_rule(forward, left, right),
        steer,
        per_step(v.params.turn_speed as int, dt),
    );
    moved(a, v.dirs, h, per_step(v.params.move_speed as int, dt), v.width as int, v.height as int, bounce)
}

/// The cell an agent deposits into: its position truncated to whole cells.
pub open spec fn deposit_index(height: int, a: Agent) -> int {
    cell_index(
        height,
        max(0, trunc_div(a.x as int, POS_SCALE as int)),
        max(0, trunc_div(a.y as int, POS_SCALE as int)),
    )
}

/// `cells` with every cell that holds an agent set to `ONE`.
pub open spec fn deposit(cells: Seq<u32>, height: int, agents: Seq<Agent>) -> Seq<u32> {
    Seq::new(
        cells.len(),
        |p: int|
            if exists|i: int| 0 <= i < agents.len() && #[trigger] deposit_index(height, agents[i]) == p {
                ONE
            } else {
                cells[p]
            },
    )
}

pub open spec fn stepped_agents(v: FieldView, dt: int, steers: Seq<u64>, bounces: Seq<u32>) -> Seq<
    Agent,
> {
    Seq::new(
        v.agents.len(),
        |i: int| stepped_agent(v, dt, v.agents[i], steers[i] as int, bounces[i] as int),
    )
}

/// One whole step: every agent senses the previous grid, steers and moves;
/// the grid takes one stencil pass; then the agents deposit.
pub open spec fn step_view(v: FieldView, dt: int, steers: Seq<u64>, bounces: Seq<u32>) -> FieldView {
    let agents = stepped_agents(v, dt, steers, bounces);
    FieldView {
        cells: deposit(
            stencil(
                v.cells,
                v.width as int,
                v.height as int,
                per_step(v.params.diffuse_speed as int, dt),
                per_step(v.params.evaporation_speed as int, dt),
            ),
            v.height as int,
            agents,
        ),
        agents,
        ..v
    }
}

/// Random draws for one step of `n` agents: a steering strength and a wall
/// heading for each.
pub open spec fn draws_ok(n: int, steers: Seq<u64>, bounces: Seq<u32>) -> bool {
    &&& steers.len() == n
    &&& bounces.len() == n
    &&& forall|i: int| 0 <= i < n ==> #[trigger] steers[i] < STEER_ONE
    &&& angles_ok(bounces)
}

/// An agent within a `width × height` grid (at most 0.01 cells below zero,
/// where a wall clamp of a one-cell-wide grid puts it).
pub open spec fn agent_on_grid(a: Agent, width: int, height: int) -> bool {
    &&& -POS_SCALE < a.x < width * POS_SCALE
    &&& -POS_SCALE < a.y < height * POS_SCALE
}

fn per_step_amount(rate: u32, dt: u32) -> (r: u64)
    ensures
        r as int == per_step(rate as int, dt as int),
        r <= REACH_LIMIT,
{
    proof {
        assert(0 <= rate * dt <= 0xffff_ffff * 0xffff_ffff) by (nonlinear_arith)
            requires
                0 <= rate <= 0xffff_ffff,
                0 <= dt <= 0xffff_ffff,
        ;
    }
    (rate as u64 * dt as u64) / MICROS
}

fn cell_of(v: i64) -> (r: i64)
    requires
        v > i64::MIN,
    ensures
        r as int == trunc_div(v as int, POS_SCALE as int),
{
    if v >= 0 {
        v / POS_SCALE
    } else {
        -((-v) / POS_SCALE)
    }
}

fn deposit_all(cells: &mut Vec<u32>, width: u16, height: u16, agents: &Vec<Agent>)
    requires
        grid_ok(old(cells)@, width as int, height as int),
        forall|i: int|
            0 <= i < agents@.len() ==> agent_on_grid(#[trigger] agents@[i], width as int, height as int),
    ensures
        final(cells)@ == deposit(old(cells)@, height as int, agents@),
{
    let ghost base = cells@;
    let mut i: usize = 0;
    while i < agents.len()
        invariant
            grid_ok(base, width as int, height as int),
            cells@.len() == base.len(),
            i <= agents@.len(),
            forall|j: int|
                0 <= j < agents@.len() ==> agent_on_grid(#[trigger] agents@[j], width as int, height as int),
            forall|p: int|
                0 <= p < base.len() ==> cells@[p] == if exists|j: int|
                    0 <= j < i && #[trigger] deposit_index(height as int, agents@[j]) == p {
                    ONE
                } else {
                    base[p]
                },
        decreases agents.len() - i,
    {
        let a = agents[i];
        let cx: i64 = if a.x < 0 { 0 } else { a.x / POS_SCALE };
        let cy: i64 = if a.y < 0 { 0 } else { a.y / POS_SCALE };
        proof {
            crate::grid::lemma_index_in_grid(width as int, height as int, cx as int, cy as int);
            assert(cells@.len() == cells.len());
            assert(deposit_index(height as int, agents@[i as int]) == cx * height + cy);
        }
        let idx: usize = (cx as usize) * (height as usize) + (cy as usize);
        cells[idx] = ONE;
        proof {
            assert forall|p: int| 0 <= p < base.len() implies cells@[p] == if exists|j: int|
                0 <= j < i + 1 && #[trigger] deposit_index(height as int, agents@[j]) == p {
                ONE
            } else {
                base[p]
            } by {
                if p == idx {
                    assert(deposit_index(height as int, agents@[i as int]) == p);
                } else {
                    if exists|j: int|
                        0 <= j < i + 1 && #[trigger] deposit_index(height as int, agents@[j]) == p {
                        let j = choose|j: int|
                            0 <= j < i + 1 && #[trigger] deposit_index(height as int, agents@[j]) == p;
                        assert(j < i);
                    }
                }
            }
        }
        i = i + 1;
    }
    proof {
        assert(cells@ =~= deposit(base, height as int, agents@));
    }
}

fn zeros(n: usize) -> (r: Vec<u32>)
    ensures
        r@ == zero_cells(n as int),
{
    let mut cells: Vec<u32> = Vec::new();
    let mut p: usize = 0;
    while p < n
        invariant
            p <= n,
            cells@ == zero_cells(p as int),
        decreases n - p,
    {
        cells.push(0);
        p = p + 1;
        proof {
            assert(cells@ =~= zero_cells(p as int));
        }
    }
    cells
}

pub struct Field {
    width: u16,
    height: u16,
    field: Vec<u32>,
    scratch: Vec<u32>,
    agents: Vec<Agent>,
    directions: Vec<(i32, i32)>,
    can_run: bool,
    settings: SimulationParams,
    rng: StdRng,
}

impl View for Field {
    type V = FieldView;

    closed spec fn view(&self) -> FieldView {
        FieldView {
            width: self.width,
            height: self.height,
            cells: self.field@,
            agents: self.agents@,
            can_run: self.can_run,
            params: self.settings,
            dirs: self.directions@,
        }
    }
}

impl Field {
    /// The state invariant: a consistent view and a second grid buffer of the
    /// same size.
    pub closed spec fn wf(&self) -> bool {
        &&& view_ok(self@)
        &&& self.scratch@.len() == self.field@.len()
    }

    /// Every well-formed simulation has a consistent view.
    pub proof fn lemma_wf_view(&self)
        requires
            self.wf(),
        ensures
            view_ok(self@),
    {
    }

    /// A `width × height` simulation with an all-zero grid and no agents, whose
    /// random source is seeded from `seed`. `directions[h]` is the unit vector of
    /// heading `h`.
    pub fn new(
        width: u16,
        height: u16,
        params: SimulationParams,
        directions: Vec<(i32, i32)>,
        seed: u64,
    ) -> (r: Self)
        requires
            width > 0,
            height > 0,
            directions_ok(directions@),
        ensures
            r.wf(),
            r@ == (FieldView {
                width,
                height,
                cells: zero_cells(width * height),
                agents: Seq::empty(),
                can_run: false,
                params,
                dirs: directions@,
            }),
    {
        proof {
            assert(0 <= width * height <= 0xffff * 0xffff) by (nonlinear_arith)
                requires
                    0 < width <= 0xffff,
                    0 < height <= 0xffff,
            ;
        }
        let n: usize = (width as usize) * (height as usize);
        let r = Field {
            width,
            height,
            field: zeros(n),
            scratch: zeros(n),
            agents: Vec::new(),
            directions,
            can_run: false,
            settings: params,
            rng: seeded(seed),
        };
        assert(r@.agents =~= Seq::empty());
        r
    }

    /// Clears the agents, zeroes the grid and leaves the simulation waiting for
    /// a spawn.
    pub fn reset(&mut self)
        requires
            old(self).wf(),
        ensures
            final(self).wf(),
            final(self)@ == (FieldView {
                cells: zero_cells(old(self)@.cells.len() as int),
                agents: Seq::empty(),
                can_run: false,
                ..old(self)@
            }),
    {
        let n = self.field.len();
        self.field = zeros(n);
        self.agents = Vec::new();
        self.can_run = false;
        assert(self@.agents =~= Seq::empty());
    }

    /// Replaces the agents by one at the grid centre for each of `angles`,
    /// heading that way.
    pub fn add_point_with(&mut self, angles: &Vec<u32>)
        requires
            old(self).wf(),
            angles_ok(angles@),
        ensures
            final(self).wf(),
            final(self)@ == (FieldView {
                agents: point_agents(old(self)@, angles@),
                can_run: true,
                ..old(self)@
            }),
    {
        let x: i64 = self.width as i64 * (POS_SCALE / 2);
        let y: i64 = self.height as i64 * (POS_SCALE / 2);
        let mut agents: Vec<Agent> = Vec::new();
        let mut i: usize = 0;
        while i < angles.len()
            invariant
                i <= angles@.len(),
                angles_ok(angles@),
                x == center(self@.width as int),
                y == center(self@.height as int),
                agents@ =~= point_agents(self@, angles@.subrange(0, i as int)),
            decreases angles.len() - i,
        {
            agents.push(Agent::new(x, y, angles[i]));
            i = i + 1;
            assert(agents@ =~= point_agents(self@, angles@.subrange(0, i as int)));
        }
        assert(angles@.subrange(0, i as int) =~= angles@);
        self.agents = agents;
        self.can_run = true;
    }

    /// `add_point_with` on `n_agents` headings drawn uniformly.
    pub fn add_point(&mut self, n_agents: usize)
        requires
            old(self).wf(),
        ensures
            final(self).wf(),
            final(self)@.agents.len() == n_agents,
            exists|angles: Seq<u32>|
                #![trigger point_agents(old(self)@, angles)]
                angles_ok(angles) && angles.len() == n_agents && final(self)@.agents == point_agents(
                    old(self)@,
                    angles,
                ),
            final(self)@ == (FieldView { agents: final(self)@.agents, can_run: true, ..old(self)@ }),
    {
        let angles = self.draw_headings(n_agents);
        self.add_point_with(&angles);
        assert(point_agents(old(self)@, angles@) == final(self)@.agents);
    }

    fn draw_headings(&mut self, n: usize) -> (r: Vec<u32>)
        requires
            old(self).wf(),
        ensures
            final(self).wf(),
            final(self)@ == old(self)@,
            r@.len() == n,
            angles_ok(r@),
    {
        let mut angles: Vec<u32> = Vec::new();
        let mut i: usize = 0;
        while i < n
            invariant
                self.wf(),
                self@ == old(self)@,
                i <= n,
                angles@.len() == i,
                angles_ok(angles@),
            decreases n - i,
        {
            let a = below_u32(&mut self.rng, HEADINGS);
            angles.push(a);
            i = i + 1;
        }
        angles
    }

    /// Replaces the agents by one at cell `(xs[i], ys[i])` with heading
    /// `angles[i]` for each `i`.
    pub fn add_random_with(&mut self, xs: &Vec<u16>, ys: &Vec<u16>, angles: &Vec<u32>)
        requires
            old(self).wf(),
            angles_ok(angles@),
            xs@.len() == angles@.len(),
            ys@.len() == angles@.len(),
            forall|i: int| 0 <= i < xs@.len() ==> #[trigger] xs@[i] < old(self)@.width,
            forall|i: int| 0 <= i < ys@.len() ==> #[trigger] ys@[i] < old(self)@.height,
        ensures
            final(self).wf(),
            final(self)@ == (FieldView {
                agents: random_agents(xs@, ys@, angles@),
                can_run: true,
                ..old(self)@
            }),
    {
        let mut agents: Vec<Agent> = Vec::new();
        let mut i: usize = 0;
        while i < angles.len()
            invariant
                i <= angles@.len(),
                xs@.len() == angles@.len(),
                ys@.len() == angles@.len(),
                agents@ =~= random_agents(xs@, ys@, angles@).subrange(0, i as int),
            decreases angles.len() - i,
        {
            agents.push(Agent::new(xs[i] as i64 * POS_SCALE, ys[i] as i64 * POS_SCALE, angles[i]));
            i = i + 1;
            assert(agents@ =~= random_agents(xs@, ys@, angles@).subrange(0, i as int));
        }
        assert(random_agents(xs@, ys@, angles@).subrange(0, i as int) =~= random_agents(
            xs@,
            ys@,
            angles@,
        ));
        self.agents = agents;
        self.can_run = true;
    }

    /// `add_random_with` on `n_agents` cells and headings drawn uniformly.
    pub fn add_random(&mut self, n_agents: usize)
        requires
            old(self).wf(),
        ensures
            final(self).wf(),
            final(self)@.agents.len() == n_agents,
            exists|xs: Seq<u16>, ys: Seq<u16>, angles: Seq<u32>|
                #![trigger random_agents(xs, ys, angles)]
                angles_ok(angles) && angles.len() == n_agents && xs.len() == n_agents && ys.len()
                    == n_agents && (forall|i: int|
                    0 <= i < n_agents ==> #[trigger] xs[i] < old(self)@.width) && (forall|i: int|
                    0 <= i < n_agents ==> #[trigger] ys[i] < old(self)@.height)
                    && final(self)@.agents == random_agents(xs, ys, angles),
            final(self)@ == (FieldView { agents: final(self)@.agents, can_run: true, ..old(self)@ }),
    {
        let mut xs: Vec<u16> = Vec::new();
        let mut ys: Vec<u16> = Vec::new();
        let mut i: usize = 0;
        while i < n_agents
            invariant
                self.wf(),
                self@ == old(self)@,
                i <= n_agents,
                xs@.len() == i,
                ys@.len() == i,
                forall|j: int| 0 <= j < xs@.len() ==> #[trigger] xs@[j] < self@.width,
                forall|j: int| 0 <= j < ys@.len() ==> #[trigger] ys@[j] < self@.height,
            decreases n_agents - i,
        {
            let x = below_u32(&mut self.rng, self.width as u32) as u16;
            let y = below_u32(&mut self.rng, self.height as u32) as u16;
            xs.push(x);
            ys.push(y);
            i = i + 1;
        }
        let angles = self.draw_headings(n_agents);
        self.add_random_with(&xs, &ys, &angles);
        assert(random_agents(xs@, ys@, angles@) == final(self)@.agents);
    }

    fn circle_point(&self, angle: u32, draw: u64, heading: u32) -> (r: Agent)
        requires
            self.wf(),
            angle < HEADINGS,
            heading < HEADINGS,
        ensures
            r == circle_agent(self@, angle, draw, heading),
            agent_ok(r),
    {
        let dist = isqrt(draw);
        let d = self.directions[angle as usize];
        proof {
            crate::agent::lemma_component_bound(d.0 as int, d.1 as int);
        }
        let x: i64 = self.width as i64 * (POS_SCALE / 2) + offset_along(d.0, dist);
        let y: i64 = self.height as i64 * (POS_SCALE / 2) + offset_along(d.1, dist);
        Agent::new(x, y, heading)
    }

    fn draw_radii(&mut self, n: usize, radius: u32) -> (r: Vec<u64>)
        requires
            old(self).wf(),
        ensures
            final(self).wf(),
            final(self)@ == old(self)@,
            r@.len() == n,
            forall|i: int| 0 <= i < n ==> radius_draw_ok(#[trigger] r@[i] as int, radius as int),
    {
        let mut draws: Vec<u64> = Vec::new();
        let mut i: usize = 0;
        while i < n
            invariant
                self.wf(),
                self@ == old(self)@,
                i <= n,
                draws@.len() == i,
                forall|j: int| 0 <= j < i ==> radius_draw_ok(#[trigger] draws@[j] as int, radius as int),
            decreases n - i,
        {
            proof {
                assert(0 <= radius * radius <= 0xffff_ffff * 0xffff_ffff) by (nonlinear_arith)
                    requires
                        0 <= radius <= 0xffff_ffff,
                ;
                if radius > 0 {
                    assert(radius * radius > 0) by (nonlinear_arith)
                        requires
                            radius > 0,
                    ;
                }
            }
            let v: u64 = if radius > 0 {
                below_u64(&mut self.rng, radius as u64 * radius as u64)
            } else {
                0
            };
            draws.push(v);
            i = i + 1;
        }
        draws
    }

    /// Replaces the agents by one for each `i`, at angle `angles[i]` and
    /// distance `root(draws[i])` from the centre, heading away from it.
    pub fn add_circle_with(&mut self, angles: &Vec<u32>, draws: &Vec<u64>)
        requires
            old(self).wf(),
            angles_ok(angles@),
            draws@.len() == angles@.len(),
        ensures
            final(self).wf(),
            final(self)@ == (FieldView {
                agents: circle_agents(old(self)@, angles@, draws@),
                can_run: true,
                ..old(self)@
            }),
    {
        let mut agents: Vec<Agent> = Vec::new();
        let mut i: usize = 0;
        while i < angles.len()
            invariant
                self.wf(),
                i <= angles@.len(),
                angles_ok(angles@),
                draws@.len() == angles@.len(),
                agents@ =~= circle_agents(self@, angles@, draws@).subrange(0, i as int),
                forall|j: int| 0 <= j < agents@.len() ==> agent_ok(#[trigger] agents@[j]),
            decreases angles.len() - i,
        {
            let a = self.circle_point(angles[i], draws[i], angles[i]);
            agents.push(a);
            i = i + 1;
            assert(agents@ =~= circle_agents(self@, angles@, draws@).subrange(0, i as int));
        }
        assert(circle_agents(self@, angles@, draws@).subrange(0, i as int) =~= circle_agents(
            self@,
            angles@,
            draws@,
        ));
        self.agents = agents;
        self.can_run = true;
    }

    /// As `add_circle_with`, with every agent heading towards the centre.
    pub fn add_inward_circle_with(&mut self, angles: &Vec<u32>, draws: &Vec<u64>)
        requires
            old(self).wf(),
            angles_ok(angles@),
            draws@.len() == angles@.len(),
        ensures
            final(self).wf(),
            final(self)@ == (FieldView {
                agents: inward_circle_agents(old(self)@, angles@, draws@),
                can_run: true,
                ..old(self)@
            }),
    {
        let mut agents: Vec<Agent> = Vec::new();
        let mut i: usize = 0;
        while i < angles.len()
            invariant
                self.wf(),
                i <= angles@.len(),
                angles_ok(angles@),
                draws@.len() == angles@.len(),
                agents@ =~= inward_circle_agents(self@, angles@, draws@).subrange(0, i as int),
                forall|j: int| 0 <= j < agents@.len() ==> agent_ok(#[trigger] agents@[j]),
            decreases angles.len() - i,
        {
            let heading = (angles[i] + HEADINGS / 2) % HEADINGS;
            let a = self.circle_point(angles[i], draws[i], heading);
            agents.push(a);
            i = i + 1;
            assert(agents@ =~= inward_circle_agents(self@, angles@, draws@).subrange(0, i as int));
        }
        assert(inward_circle_agents(self@, angles@, draws@).subrange(0, i as int)
            =~= inward_circle_agents(self@, angles@, draws@));
        self.agents = agents;
        self.can_run = true;
    }

    /// `add_circle_with` on `n_agents` uniform angles and distance draws below
    /// `radius²` (in position units).
    pub fn add_circle(&mut self, n_agents: usize, radius: u32)
        requires
            old(self).wf(),
        ensures
            final(self).wf(),
            final(self)@.agents.len() == n_agents,
            exists|angles: Seq<u32>, draws: Seq<u64>|
                #![trigger circle_agents(old(self)@, angles, draws)]
                angles_ok(angles) && angles.len() == n_agents && draws.len() == n_agents && (forall|
                    i: int,
                | 0 <= i < n_agents ==> radius_draw_ok(#[trigger] draws[i] as int, radius as int))
                    && final(self)@.agents == circle_agents(old(self)@, angles, draws),
            final(self)@ == (FieldView { agents: final(self)@.agents, can_run: true, ..old(self)@ }),
    {
        let angles = self.draw_headings(n_agents);
        let draws = self.draw_radii(n_agents, radius);
        self.add_circle_with(&angles, &draws);
    }

    /// `add_inward_circle_with` on draws made as in `add_circle`.
    pub fn add_inward_circle(&mut self, n_agents: usize, radius: u32)
        requires
            old(self).wf(),
        ensures
            final(self).wf(),
            final(self)@.agents.len() == n_agents,
            exists|angles: Seq<u32>, draws: Seq<u64>|
                #![trigger inward_circle_agents(old(self)@, angles, draws)]
                angles_ok(angles) && angles.len() == n_agents && draws.len() == n_agents && (forall|
                    i: int,
                | 0 <= i < n_agents ==> radius_draw_ok(#[trigger] draws[i] as int, radius as int))
                    && final(self)@.agents == inward_circle_agents(old(self)@, angles, draws),
            final(self)@ == (FieldView { agents: final(self)@.agents, can_run: true, ..old(self)@ }),
    {
        let angles = self.draw_headings(n_agents);
        let draws = self.draw_radii(n_agents, radius);
        self.add_inward_circle_with(&angles, &draws);
    }

    /// Trail sum in the sensing window ahead of `agent` along heading `heading`.
    fn sense(&self, agent: &Agent, heading: u32) -> (r: u128)
        requires
            self.wf(),
            agent_ok(*agent),
            heading < HEADINGS,
        ensures
            r as int == reading(self@, *agent, heading as int),
    {
        let d = self.directions[heading as usize];
        proof {
            crate::agent::lemma_component_bound(d.0 as int, d.1 as int);
        }
        let dist = self.settings.sense_distance as u64;
        let sx: i64 = agent.x + offset_along(d.0, dist);
        let sy: i64 = agent.y + offset_along(d.1, dist);
        let cx = cell_of(sx);
        let cy = cell_of(sy);
        window_total(&self.field, self.width, self.height, cx, cy, self.settings.sense_size)
    }

    fn step_agent(&self, dt: u32, travel: u64, max_turn: u64, a: Agent, steer: u64, bounce: u32) -> (r:
        Agent)
        requires
            self.wf(),
            agent_ok(a),
            travel == per_step(self@.params.move_speed as int, dt as int),
            max_turn == per_step(self@.params.turn_speed as int, dt as int),
            travel <= REACH_LIMIT,
            max_turn <= REACH_LIMIT,
            steer < STEER_ONE,
            bounce < HEADINGS,
        ensures
            r == stepped_agent(self@, dt as int, a, steer as int, bounce as int),
            agent_ok(r),
            agent_on_grid(r, self@.width as int, self@.height as int),
    {
        let off = self.settings.sense_angle_difference as u64;
        let forward = self.sense(&a, a.angle);
        let left = self.sense(&a, rotate_left(a.angle, off));
        let right = self.sense(&a, rotate_right(a.angle, off));
        let choice = steer_decision(forward, left, right);
        let h = apply_steer(a.angle, choice, steer, max_turn);
        move_agent(a, &self.directions, h, travel, self.width, self.height, bounce)
    }

    /// Advances the simulation by `dt` microseconds with the given draws:
    /// `steers[i]` is agent `i`'s steering strength and `bounces[i]` the heading
    /// it takes if it hits a wall (see `step_view`).
    pub fn update_with(&mut self, dt: u32, steers: &Vec<u64>, bounces: &Vec<u32>)
        requires
            old(self).wf(),
            draws_ok(old(self)@.agents.len() as int, steers@, bounces@),
        ensures
            final(self).wf(),
            final(self)@ == step_view(old(self)@, dt as int, steers@, bounces@),
    {
        let travel = per_step_amount(self.settings.move_speed, dt);
        let max_turn = per_step_amount(self.settings.turn_speed, dt);
        let k = per_step_amount(self.settings.diffuse_speed, dt);
        let e = per_step_amount(self.settings.evaporation_speed, dt);
        let ghost v0 = self@;
        let ghost target = stepped_agents(v0, dt as int, steers@, bounces@);
        let mut next: Vec<Agent> = Vec::new();
        let mut i: usize = 0;
        while i < self.agents.len()
            invariant
                self.wf(),
                self@ == v0,
                draws_ok(v0.agents.len() as int, steers@, bounces@),
                travel == per_step(v0.params.move_speed as int, dt as int),
                max_turn == per_step(v0.params.turn_speed as int, dt as int),
                travel <= REACH_LIMIT,
                max_turn <= REACH_LIMIT,
                target == stepped_agents(v0, dt as int, steers@, bounces@),
                i <= v0.agents.len(),
                next@ =~= target.subrange(0, i as int),
                forall|j: int| 0 <= j < i ==> agent_ok(#[trigger] next@[j]),
                forall|j: int|
                    0 <= j < i ==> agent_on_grid(#[trigger] next@[j], v0.width as int, v0.height as int),
            decreases v0.agents.len() - i,
        {
            let a = self.agents[i];
            let na = self.step_agent(dt, travel, max_turn, a, steers[i], bounces[i]);
            next.push(na);
            i = i + 1;
            assert(next@ =~= target.subrange(0, i as int));
        }
        assert(next@ =~= target);
        self.agents = next;
        stencil_into(&self.field, &mut self.scratch, self.width, self.height, k, e);
        std::mem::swap(&mut self.field, &mut self.scratch);
        deposit_all(&mut self.field, self.width, self.height, &self.agents);
        proof {
            assert(self@.agents == target);
        }
    }

    /// Advances the simulation by `dt` microseconds, drawing a uniform steering
    /// strength and wall heading for every agent.
    pub fn update(&mut self, dt: u32)
        requires
            old(self).wf(),
        ensures
            final(self).wf(),
            exists|steers: Seq<u64>, bounces: Seq<u32>|
                #![trigger step_view(old(self)@, dt as int, steers, bounces)]
                draws_ok(old(self)@.agents.len() as int, steers, bounces) && final(self)@
                    == step_view(old(self)@, dt as int, steers, bounces),
    {
        let n = self.agents.len();
        let mut steers: Vec<u64> = Vec::new();
        let mut i: usize = 0;
        while i < n
            invariant
                self.wf(),
                self@ == old(self)@,
                n == self@.agents.len(),
                i <= n,
                steers@.len() == i,
                forall|j: int| 0 <= j < i ==> #[trigger] steers@[j] < STEER_ONE,
            decreases n - i,
        {
            let s = below_u64(&mut self.rng, STEER_ONE);
            steers.push(s);
            i = i + 1;
        }
        let bounces = self.draw_headings(n);
        self.update_with(dt, &steers, &bounces);
    }

    pub fn width(&self) -> (r: u16)
        ensures
            r == self@.width,
    {
        self.width
    }

    pub fn height(&self) -> (r: u16)
        ensures
            r == self@.height,
    {
        self.height
    }

    /// Whether a spawn has happened since construction or the last reset.
    pub fn can_run(&self) -> (r: bool)
        ensures
            r == self@.can_run,
    {
        self.can_run
    }

    /// The trail grid, column by column.
    pub fn field_snapshot(&self) -> (r: &Vec<u32>)
        ensures
            r@ == self@.cells,
    {
        &self.field
    }

    pub fn agents(&self) -> (r: &Vec<Agent>)
        ensures
            r@ == self@.agents,
    {
        &self.agents
    }

    pub fn settings(&self) -> (r: SimulationParams)
        ensures
            r == self@.params,
    {
        self.settings
    }
}

} // verus!
