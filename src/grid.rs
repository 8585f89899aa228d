//! The trail grid: a dense `width × height` array of fixed-point intensities,
//! stored column by column (`cells[i * height + j]` is the cell at column `i`,
//! row `j`), with the diffusion/evaporation stencil and the sensing window.
use vstd::arithmetic::div_mod::lemma_fundamental_div_mod_converse;
use vstd::prelude::*;

verus! {

/// Fixed-point scale of trail intensity: `ONE` stands for 1.0.
pub const ONE: u32 = 65536;

/// Largest per-step rate (diffusion or evaporation) the stencil accepts.
pub const RATE_LIMIT: u64 = 0x2000_0000_0000;

/// Flat index of the cell at column `i`, row `j`.
pub open spec fn cell_index(height: int, i: int, j: int) -> int {
    i * height + j
}

/// The value of cell `(i, j)`, or zero where `(i, j)` lies outside the grid.
pub open spec fn cell_or_zero(cells: Seq<u32>, width: int, height: int, i: int, j: int) -> int {
    if 0 <= i < width && 0 <= j < height {
        cells[cell_index(height, i, j)] as int
    } else {
        0
    }
}

/// Sum over the 3×3 neighbourhood of `(i, j)`, skipping cells outside the grid.
pub open spec fn neighborhood_sum(cells: Seq<u32>, width: int, height: int, i: int, j: int) -> int {
    cell_or_zero(cells, width, height, i - 1, j - 1) + cell_or_zero(cells, width, height, i - 1, j)
        + cell_or_zero(cells, width, height, i - 1, j + 1) + cell_or_zero(cells, width, height, i, j - 1)
        + cell_or_zero(cells, width, height, i, j) + cell_or_zero(cells, width, height, i, j + 1)
        + cell_or_zero(cells, width, height, i + 1, j - 1) + cell_or_zero(cells, width, height, i + 1, j)
        + cell_or_zero(cells, width, height, i + 1, j + 1)
}

/// New value of a cell holding `current`, whose neighbourhood sums to `sum`, for a
/// per-step diffusion rate `k` and evaporation amount `e` (both scaled by `ONE`):
/// `max(0, (1 - k)·current + k·(sum / 9) - e)`, saturated at `u32::MAX`.
pub open spec fn stencil_value(current: int, sum: int, k: int, e: int) -> int {
    let diffused = (ONE - k) * current + k * (sum / 9);
    if diffused < 0 {
        0
    } else {
        let v = diffused / (ONE as int) - e;
        if v < 0 {
            0
        } else if v > u32::MAX {
            u32::MAX as int
        } else {
            v
        }
    }
}

/// The whole grid after one stencil pass, every cell computed from `cells` alone.
pub open spec fn stencil(cells: Seq<u32>, width: int, height: int, k: int, e: int) -> Seq<u32> {
    Seq::new(
        cells.len(),
        |p: int|
            stencil_value(
                cells[p] as int,
                neighborhood_sum(cells, width, height, p / height, p % height),
                k,
                e,
            ) as u32,
    )
}

pub open spec fn clamp(v: int, lo: int, hi: int) -> int {
    if v < lo {
        lo
    } else if v > hi {
        hi
    } else {
        v
    }
}

/// The cell read for window offset `(dx, dy)` around `(cx, cy)`, each coordinate
/// clamped to the grid.
pub open spec fn sensed_cell(
    cells: Seq<u32>,
    width: int,
    height: int,
    cx: int,
    cy: int,
    dx: int,
    dy: int,
) -> int {
    cells[cell_index(height, clamp(cx + dx, 0, width - 1), clamp(cy + dy, 0, height - 1))] as int
}

/// Sum of the cells at offsets `dx` and `dy ∈ [-s, -s + n)`.
pub open spec fn column_sum(
    cells: Seq<u32>,
    width: int,
    height: int,
    cx: int,
    cy: int,
    s: int,
    dx: int,
    n: nat,
) -> int
    decreases n,
{
    if n == 0 {
        0
    } else {
        column_sum(cells, width, height, cx, cy, s, dx, (n - 1) as nat) + sensed_cell(
            cells,
            width,
            height,
            cx,
            cy,
            dx,
            -s + n - 1,
        )
    }
}

/// Sum of the cells at offsets `dx ∈ [-s, -s + m)` and `dy ∈ [-s, s]`.
pub open spec fn window_sum_upto(
    cells: Seq<u32>,
    width: int,
    height: int,
    cx: int,
    cy: int,
    s: int,
    m: nat,
) -> int
    decreases m,
{
    if m == 0 {
        0
    } else {
        window_sum_upto(cells, width, height, cx, cy, s, (m - 1) as nat) + column_sum(
            cells,
            width,
            height,
            cx,
            cy,
            s,
            -s + m - 1,
            (2 * s + 1) as nat,
        )
    }
}

/// Sum of the square window of half-width `s` centred on cell `(cx, cy)`.
pub open spec fn window_sum(cells: Seq<u32>, width: int, height: int, cx: int, cy: int, s: int) -> int {
    window_sum_upto(cells, width, height, cx, cy, s, (2 * s + 1) as nat)
}

pub open spec fn grid_ok(cells: Seq<u32>, width: int, height: int) -> bool {
    0 < width && 0 < height && cells.len() == width * height
}

pub proof fn lemma_index_in_grid(width: int, height: int, i: int, j: int)
    requires
        0 < width,
        0 < height,
        0 <= i < width,
        0 <= j < height,
    ensures
        0 <= cell_index(height, i, j) < width * height,
{
    assert(0 <= i * height <= (width - 1) * height) by (nonlinear_arith)
        requires
            0 <= i < width,
            0 < height,
    ;
    assert((width - 1) * height + height == width * height) by (nonlinear_arith);
}

proof fn lemma_column_sum_bound(
    cells: Seq<u32>,
    width: int,
    height: int,
    cx: int,
    cy: int,
    s: int,
    dx: int,
    n: nat,
)
    requires
        grid_ok(cells, width, height),
    ensures
        0 <= column_sum(cells, width, height, cx, cy, s, dx, n) <= n * (u32::MAX as int),
    decreases n,
{
    if n > 0 {
        lemma_column_sum_bound(cells, width, height, cx, cy, s, dx, (n - 1) as nat);
        lemma_index_in_grid(
            width,
            height,
            clamp(cx + dx, 0, width - 1),
            clamp(cy + (-s + n - 1), 0, height - 1),
        );
    }
}

proof fn lemma_window_sum_bound(
    cells: Seq<u32>,
    width: int,
    height: int,
    cx: int,
    cy: int,
    s: int,
    m: nat,
)
    requires
        grid_ok(cells, width, height),
        0 <= s,
    ensures
        0 <= window_sum_upto(cells, width, height, cx, cy, s, m) <= m * (2 * s + 1) * (
        u32::MAX as int),
    decreases m,
{
    if m > 0 {
        lemma_window_sum_bound(cells, width, height, cx, cy, s, (m - 1) as nat);
        lemma_column_sum_bound(cells, width, height, cx, cy, s, -s + m - 1, (2 * s + 1) as nat);
        assert((m - 1) * (2 * s + 1) * (u32::MAX as int) + (2 * s + 1) * (u32::MAX as int) == m * (
        2 * s + 1) * (u32::MAX as int)) by (nonlinear_arith);
    }
}

fn clamp_coord(v: i64, hi: u16) -> (r: usize)
    requires
        hi > 0,
    ensures
        r as int == clamp(v as int, 0, hi - 1),
{
    if v < 0 {
        0
    } else if v > (hi - 1) as i64 {
        (hi - 1) as usize
    } else {
        v as usize
    }
}

/// Sum of the trail values in the window of half-width `s` around cell `(cx, cy)`,
/// each sampled coordinate clamped to the grid.
pub fn window_total(cells: &Vec<u32>, width: u16, height: u16, cx: i64, cy: i64, s: u16) -> (r: u128)
    requires
        grid_ok(cells@, width as int, height as int),
        -0x1000_0000_0000_0000 <= cx <= 0x1000_0000_0000_0000,
        -0x1000_0000_0000_0000 <= cy <= 0x1000_0000_0000_0000,
    ensures
        r as int == window_sum(cells@, width as int, height as int, cx as int, cy as int, s as int),
{
    let side: u32 = 2 * (s as u32) + 1;
    let mut total: u128 = 0;
    let mut m: u32 = 0;
    while m < side
        invariant
            grid_ok(cells@, width as int, height as int),
            -0x1000_0000_0000_0000 <= cx <= 0x1000_0000_0000_0000,
            -0x1000_0000_0000_0000 <= cy <= 0x1000_0000_0000_0000,
            side == 2 * s + 1,
            m <= side,
            total as int == window_sum_upto(cells@, width as int, height as int, cx as int, cy as int, s as int, m as nat),
        decreases side - m,
    {
        let dx: i64 = m as i64 - s as i64;
        let mut col: u128 = 0;
        let mut n: u32 = 0;
        while n < side
            invariant
                grid_ok(cells@, width as int, height as int),
                -0x1000_0000_0000_0000 <= cx <= 0x1000_0000_0000_0000,
                -0x1000_0000_0000_0000 <= cy <= 0x1000_0000_0000_0000,
                side == 2 * s + 1,
                m < side,
                n <= side,
                dx == m - s,
                col as int == column_sum(cells@, width as int, height as int, cx as int, cy as int, s as int, dx as int, n as nat),
            decreases side - n,
        {
            let dy: i64 = n as i64 - s as i64;
            let i = clamp_coord(cx + dx, width);
            let j = clamp_coord(cy + dy, height);
            proof {
                lemma_index_in_grid(width as int, height as int, i as int, j as int);
                assert(cells@.len() == cells.len());
                lemma_column_sum_bound(cells@, width as int, height as int, cx as int, cy as int, s as int, dx as int, n as nat);
                assert(n * (u32::MAX as int) <= 0x2_0000 * (u32::MAX as int)) by (nonlinear_arith)
                    requires n < 0x2_0000;
            }
            col = col + cells[i * (height as usize) + j] as u128;
            n = n + 1;
        }
        proof {
            lemma_window_sum_bound(cells@, width as int, height as int, cx as int, cy as int, s as int, m as nat);
            lemma_column_sum_bound(cells@, width as int, height as int, cx as int, cy as int, s as int, dx as int, side as nat);
            assert(m * (2 * s + 1) * (u32::MAX as int) <= 0x2_0000 * 0x2_0000 * (u32::MAX as int)) by (nonlinear_arith)
                requires m < 0x2_0000, 2 * s + 1 < 0x2_0000, m >= 0, s >= 0;
            assert(side * (u32::MAX as int) <= 0x2_0000 * (u32::MAX as int)) by (nonlinear_arith)
                requires side < 0x2_0000;
        }
        total = total + col;
        m = m + 1;
    }
    total
}

fn cell_value_or_zero(cells: &Vec<u32>, width: u16, height: u16, i: i64, j: i64) -> (r: u64)
    requires
        grid_ok(cells@, width as int, height as int),
    ensures
        r as int == cell_or_zero(cells@, width as int, height as int, i as int, j as int),
{
    if 0 <= i && i < width as i64 && 0 <= j && j < height as i64 {
        proof {
            lemma_index_in_grid(width as int, height as int, i as int, j as int);
            assert(cells@.len() == cells.len());
        }
        cells[(i as usize) * (height as usize) + (j as usize)] as u64
    } else {
        0
    }
}

fn neighborhood_total(cells: &Vec<u32>, width: u16, height: u16, i: i64, j: i64) -> (r: u64)
    requires
        grid_ok(cells@, width as int, height as int),
        0 <= i <= u16::MAX,
        0 <= j <= u16::MAX,
    ensures
        r as int == neighborhood_sum(cells@, width as int, height as int, i as int, j as int),
        r <= 9 * (u32::MAX as int),
{
    cell_value_or_zero(cells, width, height, i - 1, j - 1) + cell_value_or_zero(cells, width, height, i - 1, j)
        + cell_value_or_zero(cells, width, height, i - 1, j + 1) + cell_value_or_zero(cells, width, height, i, j - 1)
        + cell_value_or_zero(cells, width, height, i, j) + cell_value_or_zero(cells, width, height, i, j + 1)
        + cell_value_or_zero(cells, width, height, i + 1, j - 1) + cell_value_or_zero(cells, width, height, i + 1, j)
        + cell_value_or_zero(cells, width, height, i + 1, j + 1)
}

/// One cell of the stencil pass: diffusion towards the neighbourhood mean (the
/// neighbourhood sum is always divided by 9), then evaporation, floored at zero.
pub fn stencil_cell(current: u32, sum: u64, k: u64, e: u64) -> (r: u32)
    requires
        sum <= 9 * (u32::MAX as int),
        k <= RATE_LIMIT,
        e <= RATE_LIMIT,
    ensures
        r as int == stencil_value(current as int, sum as int, k as int, e as int),
{
    let blur: i128 = (sum / 9) as i128;
    proof {
        let c = current as int;
        let kk = k as int;
        let b = blur as int;
        assert(-0x2000_0000_0000 * 0x1_0000_0000 <= (ONE - kk) * c <= 0x1_0000 * 0x1_0000_0000)
            by (nonlinear_arith)
            requires 0 <= kk <= 0x2000_0000_0000, 0 <= c <= 0x1_0000_0000;
        assert(0 <= kk * b <= 0x2000_0000_0000 * 0x1_0000_0000) by (nonlinear_arith)
            requires 0 <= kk <= 0x2000_0000_0000, 0 <= b <= 0x1_0000_0000;
    }
    let diffused: i128 = (ONE as i128 - k as i128) * (current as i128) + (k as i128) * blur;
    if diffused < 0 {
        0
    } else {
        let v: i128 = diffused / (ONE as i128) - e as i128;
        if v < 0 {
            0
        } else if v > u32::MAX as i128 {
            u32::MAX
        } else {
            v as u32
        }
    }
}

/// Writes into `out` one stencil pass over `cells`: every new value is computed
/// from the previous grid only, never from cells already updated in this pass.
pub fn stencil_into(cells: &Vec<u32>, out: &mut Vec<u32>, width: u16, height: u16, k: u64, e: u64)
    requires
        grid_ok(cells@, width as int, height as int),
        old(out)@.len() == cells@.len(),
        k <= RATE_LIMIT,
        e <= RATE_LIMIT,
    ensures
        final(out)@ == stencil(cells@, width as int, height as int, k as int, e as int),
{
    let ghost target = stencil(cells@, width as int, height as int, k as int, e as int);
    let mut i: u16 = 0;
    while i < width
        invariant
            grid_ok(cells@, width as int, height as int),
            out@.len() == cells@.len(),
            k <= RATE_LIMIT,
            e <= RATE_LIMIT,
            i <= width,
            target == stencil(cells@, width as int, height as int, k as int, e as int),
            forall|q: int| 0 <= q < i * height ==> out@[q] == target[q],
        decreases width - i,
    {
        let mut j: u16 = 0;
        while j < height
            invariant
                grid_ok(cells@, width as int, height as int),
                out@.len() == cells@.len(),
                k <= RATE_LIMIT,
                e <= RATE_LIMIT,
                i < width,
                j <= height,
                target == stencil(cells@, width as int, height as int, k as int, e as int),
                forall|q: int| 0 <= q < i * height + j ==> out@[q] == target[q],
            decreases height - j,
        {
            proof {
                lemma_index_in_grid(width as int, height as int, i as int, j as int);
                lemma_fundamental_div_mod_converse(i * height + j, height as int, i as int, j as int);
                assert(cells@.len() == cells.len());
            }
            let p: usize = (i as usize) * (height as usize) + (j as usize);
            let sum = neighborhood_total(cells, width, height, i as i64, j as i64);
            let v = stencil_cell(cells[p], sum, k, e);
            out[p] = v;
            j = j + 1;
        }
        proof {
            assert((i + 1) * height == i * height + height) by (nonlinear_arith);
        }
        i = i + 1;
    }
    proof {
        assert(width * height == cells@.len());
        assert(out@ =~= target);
    }
}

} // verus!
