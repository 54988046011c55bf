//! The diffusion and decay kernel.
//!
//! For every cell the kernel averages the three-by-three neighbourhood of
//! the current trail field (coordinates beyond an edge are clamped to the
//! edge), blends the average with the cell's own value, adds the cell's
//! deposit, and scales the result down by the decay of one time step. It
//! reads one copy of the trail field and writes the other.

use vstd::prelude::*;
use crate::config::GlobalSettings;
use crate::field::{cell_index, clamp_coord, lemma_cell_index_bounds, lemma_index_position,
    lemma_sum_pointwise, Field, Grid};
use crate::fixed::{lemma_scale_bounds, scale, scale_spec, ONE};

verus! {

/// The sum of the three cells of row `y` around column `x`.
pub open spec fn row_sum(g: Grid, x: int, y: int, layer: int) -> int {
    let w = g.width as int;
    g.at(clamp_coord(x - 1, w), y, layer) + g.at(x, y, layer) + g.at(clamp_coord(x + 1, w), y, layer)
}

/// The sum of the nine cells around `(x, y)`.
pub open spec fn neighborhood_sum(g: Grid, x: int, y: int, layer: int) -> int {
    let h = g.height as int;
    row_sum(g, x, clamp_coord(y - 1, h), layer) + row_sum(g, x, y, layer) + row_sum(
        g,
        x,
        clamp_coord(y + 1, h),
        layer,
    )
}

/// The share of the neighbourhood average in a blended cell: the diffuse
/// rate times the time step, held to at most one.
pub open spec fn blend_weight(settings: GlobalSettings, delta_time: u32) -> int {
    let w = scale_spec(settings.diffuse_rate as int, delta_time as int);
    if w > ONE {
        ONE as int
    } else {
        w
    }
}

/// The share of a cell that survives the decay of one time step: one less
/// the decay rate times the time step, held to at least zero.
pub open spec fn keep_factor(settings: GlobalSettings, delta_time: u32) -> int {
    let lost = scale_spec(settings.decay_rate as int, delta_time as int);
    if lost > ONE {
        0
    } else {
        ONE - lost
    }
}

/// The value of a cell blended with the average of its neighbourhood.
pub open spec fn blended(
    current: Grid,
    settings: GlobalSettings,
    delta_time: u32,
    x: int,
    y: int,
    layer: int,
) -> int {
    let w = blend_weight(settings, delta_time);
    let average = neighborhood_sum(current, x, y, layer) / 9;
    (current.at(x, y, layer) * (ONE - w) + average * w) / (ONE as int)
}

/// The value the kernel writes for a cell: the blended value plus the
/// deposit, decayed, and held to the largest intensity.
pub open spec fn diffused(
    current: Grid,
    deposits: Grid,
    settings: GlobalSettings,
    delta_time: u32,
    x: int,
    y: int,
    layer: int,
) -> int {
    let fed = blended(current, settings, delta_time, x, y, layer) + deposits.at(x, y, layer);
    let kept = fed * keep_factor(settings, delta_time) / (ONE as int);
    if kept > u32::MAX {
        u32::MAX as int
    } else {
        kept
    }
}

/// The trail field after one run of the kernel.
pub open spec fn diffuse_step(
    current: Grid,
    deposits: Grid,
    settings: GlobalSettings,
    delta_time: u32,
) -> Grid {
    Grid {
        width: current.width,
        height: current.height,
        layers: current.layers,
        cells: Seq::new(
            current.cells.len(),
            |i: int|
                diffused(
                    current,
                    deposits,
                    settings,
                    delta_time,
                    current.x_of(i),
                    current.y_of(i),
                    current.layer_of(i),
                ) as u32,
        ),
    }
}

/// A grid of the shape of `g` with every cell zero.
pub open spec fn zero_like(g: Grid) -> Grid {
    Grid {
        width: g.width,
        height: g.height,
        layers: g.layers,
        cells: Seq::new(g.cells.len(), |i: int| 0u32),
    }
}

/// The trail field after `n` runs of the kernel without any deposit.
pub open spec fn decayed(current: Grid, settings: GlobalSettings, delta_time: u32, n: nat) -> Grid
    decreases n,
{
    if n == 0 {
        current
    } else {
        let before = decayed(current, settings, delta_time, (n - 1) as nat);
        diffuse_step(before, zero_like(before), settings, delta_time)
    }
}

/// Both shares lie between zero and one.
pub proof fn lemma_factor_ranges(settings: GlobalSettings, delta_time: u32)
    ensures
        0 <= blend_weight(settings, delta_time) <= ONE,
        0 <= keep_factor(settings, delta_time) <= ONE,
        scale_spec(settings.diffuse_rate as int, delta_time as int) == 0 ==> blend_weight(
            settings,
            delta_time,
        ) == 0,
        scale_spec(settings.decay_rate as int, delta_time as int) == 0 ==> keep_factor(
            settings,
            delta_time,
        ) == ONE,
        scale_spec(settings.decay_rate as int, delta_time as int) > 0 ==> keep_factor(
            settings,
            delta_time,
        ) < ONE,
{
    lemma_scale_bounds(settings.diffuse_rate as int, delta_time as int);
    lemma_scale_bounds(settings.decay_rate as int, delta_time as int);
}

/// The nine cells around a cell of the grid are cells of the grid.
proof fn lemma_neighbors_inside(g: Grid, x: int, y: int, layer: int)
    requires
        g.wf(),
        g.contains(x, y, layer),
    ensures
        forall|dx: int, dy: int|
            -1 <= dx <= 1 && -1 <= dy <= 1 ==> 0 <= #[trigger] cell_index(
                g.width as int,
                g.height as int,
                clamp_coord(x + dx, g.width as int),
                clamp_coord(y + dy, g.height as int),
                layer,
            ) < g.cells.len(),
{
    assert forall|dx: int, dy: int| -1 <= dx <= 1 && -1 <= dy <= 1 implies 0 <= #[trigger] cell_index(
        g.width as int,
        g.height as int,
        clamp_coord(x + dx, g.width as int),
        clamp_coord(y + dy, g.height as int),
        layer,
    ) < g.cells.len() by {
        lemma_cell_index_bounds(
            g.width as int,
            g.height as int,
            g.layers as int,
            clamp_coord(x + dx, g.width as int),
            clamp_coord(y + dy, g.height as int),
            layer,
        );
    }
}

/// Where no cell exceeds `bound`, no neighbourhood sum exceeds nine times
/// `bound`.
pub proof fn lemma_neighborhood_bounds(g: Grid, x: int, y: int, layer: int, bound: int)
    requires
        g.wf(),
        g.contains(x, y, layer),
        g.bounded_by(bound),
    ensures
        0 <= neighborhood_sum(g, x, y, layer) <= 9 * bound,
        0 <= g.at(x, y, layer) <= bound,
{
    lemma_neighbors_inside(g, x, y, layer);
    let w = g.width as int;
    let h = g.height as int;
    assert(clamp_coord(x, w) == x && clamp_coord(y, h) == y);
    let i_mm = cell_index(w, h, clamp_coord(x + (-1), w), clamp_coord(y + (-1), h), layer);
    let i_0m = cell_index(w, h, clamp_coord(x + 0, w), clamp_coord(y + (-1), h), layer);
    let i_pm = cell_index(w, h, clamp_coord(x + 1, w), clamp_coord(y + (-1), h), layer);
    let i_m0 = cell_index(w, h, clamp_coord(x + (-1), w), clamp_coord(y + 0, h), layer);
    let i_00 = cell_index(w, h, clamp_coord(x + 0, w), clamp_coord(y + 0, h), layer);
    let i_p0 = cell_index(w, h, clamp_coord(x + 1, w), clamp_coord(y + 0, h), layer);
    let i_mp = cell_index(w, h, clamp_coord(x + (-1), w), clamp_coord(y + 1, h), layer);
    let i_0p = cell_index(w, h, clamp_coord(x + 0, w), clamp_coord(y + 1, h), layer);
    let i_pp = cell_index(w, h, clamp_coord(x + 1, w), clamp_coord(y + 1, h), layer);
    assert(g.cells[i_mm] <= bound && g.cells[i_0m] <= bound && g.cells[i_pm] <= bound);
    assert(g.cells[i_m0] <= bound && g.cells[i_00] <= bound && g.cells[i_p0] <= bound);
    assert(g.cells[i_mp] <= bound && g.cells[i_0p] <= bound && g.cells[i_pp] <= bound);
}

/// Blending never leaves the range of the cells: where no cell exceeds
/// `bound`, no blended value does.
pub proof fn lemma_blended_bounds(
    current: Grid,
    settings: GlobalSettings,
    delta_time: u32,
    x: int,
    y: int,
    layer: int,
    bound: int,
)
    requires
        current.wf(),
        current.contains(x, y, layer),
        current.bounded_by(bound),
    ensures
        0 <= blended(current, settings, delta_time, x, y, layer) <= bound,
        blend_weight(settings, delta_time) == 0 ==> blended(
            current,
            settings,
            delta_time,
            x,
            y,
            layer,
        ) == current.at(x, y, layer),
{
    lemma_factor_ranges(settings, delta_time);
    lemma_neighborhood_bounds(current, x, y, layer, bound);
    let w = blend_weight(settings, delta_time);
    let one = ONE as int;
    let c = current.at(x, y, layer) as int;
    let a = neighborhood_sum(current, x, y, layer) / 9;
    let mix = c * (one - w) + a * w;
    assert(0 <= mix <= bound * one) by (nonlinear_arith)
        requires
            0 <= c <= bound,
            0 <= a <= bound,
            0 <= w <= one,
            mix == c * (one - w) + a * w,
    ;
    assert(0 <= mix / one <= bound) by (nonlinear_arith)
        requires
            0 <= mix <= bound * one,
            one == 65536,
    ;
    if w == 0 {
        assert(mix == c * one) by (nonlinear_arith)
            requires
                mix == c * (one - w) + a * w,
                w == 0,
        ;
        assert(c * one / one == c) by (nonlinear_arith)
            requires
                one == 65536,
        ;
    }
}

/// Non-negativity and boundedness: whatever the fields and settings hold,
/// the kernel writes a value between zero and the largest intensity.
pub proof fn lemma_diffused_range(
    current: Grid,
    deposits: Grid,
    settings: GlobalSettings,
    delta_time: u32,
    x: int,
    y: int,
    layer: int,
)
    requires
        current.wf(),
        current.contains(x, y, layer),
    ensures
        0 <= diffused(current, deposits, settings, delta_time, x, y, layer) <= u32::MAX,
{
    lemma_factor_ranges(settings, delta_time);
    lemma_blended_bounds(current, settings, delta_time, x, y, layer, u32::MAX as int);
    let fed = blended(current, settings, delta_time, x, y, layer) + deposits.at(x, y, layer);
    let k = keep_factor(settings, delta_time);
    let one = ONE as int;
    assert(0 <= fed * k / one) by (nonlinear_arith)
        requires
            0 <= fed,
            0 <= k,
            one == 65536,
    ;
}

/// Decay bound: with no deposit in a cell, the kernel writes the blended
/// value times the share that survives one time step, and that is never
/// more than the blended value.
pub proof fn lemma_decay_bound(
    current: Grid,
    deposits: Grid,
    settings: GlobalSettings,
    delta_time: u32,
    x: int,
    y: int,
    layer: int,
)
    requires
        current.wf(),
        current.contains(x, y, layer),
        deposits.at(x, y, layer) == 0,
    ensures
        diffused(current, deposits, settings, delta_time, x, y, layer) == blended(
            current,
            settings,
            delta_time,
            x,
            y,
            layer,
        ) * keep_factor(settings, delta_time) / (ONE as int),
        diffused(current, deposits, settings, delta_time, x, y, layer) <= blended(
            current,
            settings,
            delta_time,
            x,
            y,
            layer,
        ),
        keep_factor(settings, delta_time) < ONE && blended(
            current,
            settings,
            delta_time,
            x,
            y,
            layer,
        ) > 0 ==> diffused(current, deposits, settings, delta_time, x, y, layer) < blended(
            current,
            settings,
            delta_time,
            x,
            y,
            layer,
        ),
{
    lemma_factor_ranges(settings, delta_time);
    lemma_blended_bounds(current, settings, delta_time, x, y, layer, u32::MAX as int);
    let b = blended(current, settings, delta_time, x, y, layer);
    let k = keep_factor(settings, delta_time);
    let one = ONE as int;
    assert(b * k / one <= b) by (nonlinear_arith)
        requires
            0 <= b,
            0 <= k <= one,
            one == 65536,
    ;
    if k < one && b > 0 {
        assert(b * k / one < b) by (nonlinear_arith)
            requires
                0 < b,
                0 <= k < one,
                one == 65536,
        ;
    }
}

/// One run of the kernel keeps the shape of the field.
pub proof fn lemma_diffuse_step_shape(
    current: Grid,
    deposits: Grid,
    settings: GlobalSettings,
    delta_time: u32,
)
    requires
        current.wf(),
    ensures
        diffuse_step(current, deposits, settings, delta_time).wf(),
        diffuse_step(current, deposits, settings, delta_time).same_shape(current),
{
}

/// One run of the kernel keeps the shape of the field, and the cell it
/// writes at a position is the diffused value of that position.
pub proof fn lemma_diffuse_step_cell(
    current: Grid,
    deposits: Grid,
    settings: GlobalSettings,
    delta_time: u32,
    x: int,
    y: int,
    layer: int,
)
    requires
        current.wf(),
        current.contains(x, y, layer),
    ensures
        diffuse_step(current, deposits, settings, delta_time).wf(),
        diffuse_step(current, deposits, settings, delta_time).same_shape(current),
        diffuse_step(current, deposits, settings, delta_time).at(x, y, layer) == diffused(
            current,
            deposits,
            settings,
            delta_time,
            x,
            y,
            layer,
        ),
{
    lemma_cell_index_bounds(
        current.width as int,
        current.height as int,
        current.layers as int,
        x,
        y,
        layer,
    );
    lemma_diffused_range(current, deposits, settings, delta_time, x, y, layer);
}

/// With a decay share below one and no deposits, one run of the kernel
/// lowers every bound on the cells by at least one, down to zero.
pub proof fn lemma_decay_lowers_bound(
    current: Grid,
    settings: GlobalSettings,
    delta_time: u32,
    bound: int,
)
    requires
        current.wf(),
        current.bounded_by(bound),
        bound >= 0,
        keep_factor(settings, delta_time) < ONE,
    ensures
        diffuse_step(current, zero_like(current), settings, delta_time).wf(),
        diffuse_step(current, zero_like(current), settings, delta_time).same_shape(current),
        diffuse_step(current, zero_like(current), settings, delta_time).bounded_by(
            if bound > 0 {
                bound - 1
            } else {
                0
            },
        ),
{
    let zero = zero_like(current);
    let next = diffuse_step(current, zero, settings, delta_time);
    let lower = if bound > 0 {
        bound - 1
    } else {
        0
    };
    assert forall|i: int| 0 <= i < next.cells.len() implies next.cells[i] <= lower by {
        lemma_index_position(current, i);
        let x = current.x_of(i);
        let y = current.y_of(i);
        let layer = current.layer_of(i);
        assert(zero.at(x, y, layer) == 0);
        lemma_decay_bound(current, zero, settings, delta_time, x, y, layer);
        lemma_blended_bounds(current, settings, delta_time, x, y, layer, bound);
        lemma_diffused_range(current, zero, settings, delta_time, x, y, layer);
    }
}

/// Convergence: with a decay share below one and no deposits, a field whose
/// cells start at or below `bound` is zero everywhere after `bound` runs of
/// the kernel, and stays zero from then on.
pub proof fn lemma_decay_converges(
    current: Grid,
    settings: GlobalSettings,
    delta_time: u32,
    bound: nat,
    n: nat,
)
    requires
        current.wf(),
        current.bounded_by(bound as int),
        keep_factor(settings, delta_time) < ONE,
    ensures
        decayed(current, settings, delta_time, n).wf(),
        decayed(current, settings, delta_time, n).same_shape(current),
        decayed(current, settings, delta_time, n).bounded_by(
            if n <= bound {
                bound - n
            } else {
                0
            },
        ),
        n >= bound ==> decayed(current, settings, delta_time, n).is_zero(),
    decreases n,
{
    if n > 0 {
        let before = decayed(current, settings, delta_time, (n - 1) as nat);
        lemma_decay_converges(current, settings, delta_time, bound, (n - 1) as nat);
        let b: int = if n - 1 <= bound {
            bound - (n - 1)
        } else {
            0
        };
        lemma_decay_lowers_bound(before, settings, delta_time, b);
    }
}

/// Mass conservation: with neither diffusion nor decay, and no cell at the
/// largest intensity, one run of the kernel adds every deposit to its cell,
/// so the mass of the field grows by exactly the mass of the deposits.
pub proof fn lemma_mass_without_decay(
    current: Grid,
    deposits: Grid,
    settings: GlobalSettings,
    delta_time: u32,
)
    requires
        current.wf(),
        deposits.wf(),
        deposits.same_shape(current),
        blend_weight(settings, delta_time) == 0,
        keep_factor(settings, delta_time) == ONE,
        forall|i: int|
            0 <= i < current.cells.len() ==> current.cells[i] + deposits.cells[i] <= u32::MAX,
    ensures
        forall|i: int|
            0 <= i < current.cells.len() ==> diffuse_step(
                current,
                deposits,
                settings,
                delta_time,
            ).cells[i] == current.cells[i] + deposits.cells[i],
        diffuse_step(current, deposits, settings, delta_time).mass() == current.mass()
            + deposits.mass(),
{
    let next = diffuse_step(current, deposits, settings, delta_time);
    let one = ONE as int;
    assert forall|i: int| 0 <= i < current.cells.len() implies next.cells[i] == current.cells[i]
        + deposits.cells[i] by {
        lemma_index_position(current, i);
        let x = current.x_of(i);
        let y = current.y_of(i);
        let layer = current.layer_of(i);
        lemma_blended_bounds(current, settings, delta_time, x, y, layer, u32::MAX as int);
        let fed = current.cells[i] + deposits.cells[i];
        assert(fed * one / one == fed) by (nonlinear_arith)
            requires
                one == 65536,
        ;
    }
    lemma_sum_pointwise(current.cells, deposits.cells, next.cells);
}

/// The sum of the nine cells around a cell.
fn neighbor_sum(current: &Field, x: u32, y: u32, layer: u32) -> (sum: u64)
    requires
        current.wf(),
        current.contains(x as int, y as int, layer as int),
    ensures
        sum == neighborhood_sum(current@, x as int, y as int, layer as int),
        sum <= 9 * 0xffff_ffff,
{
    let left: u32 = if x > 0 {
        x - 1
    } else {
        0
    };
    let right: u32 = if x < current.width - 1 {
        x + 1
    } else {
        x
    };
    let up: u32 = if y > 0 {
        y - 1
    } else {
        0
    };
    let down: u32 = if y < current.height - 1 {
        y + 1
    } else {
        y
    };
    let top: u64 = current.get(left, up, layer) as u64 + current.get(x, up, layer) as u64
        + current.get(right, up, layer) as u64;
    let middle: u64 = current.get(left, y, layer) as u64 + current.get(x, y, layer) as u64
        + current.get(right, y, layer) as u64;
    let bottom: u64 = current.get(left, down, layer) as u64 + current.get(x, down, layer) as u64
        + current.get(right, down, layer) as u64;
    top + middle + bottom
}

/// The value the kernel writes for one cell.
pub fn diffuse_cell(
    settings: &GlobalSettings,
    delta_time: u32,
    current: &Field,
    deposits: &Field,
    x: u32,
    y: u32,
    layer: u32,
) -> (value: u32)
    requires
        current.wf(),
        deposits.wf(),
        deposits.same_shape(current),
        current.contains(x as int, y as int, layer as int),
    ensures
        value == diffused(
            current@,
            deposits@,
            *settings,
            delta_time,
            x as int,
            y as int,
            layer as int,
        ),
{
    let one: u64 = ONE as u64;
    let spread: u64 = scale(settings.diffuse_rate, delta_time);
    let weight: u64 = if spread > one {
        one
    } else {
        spread
    };
    let lost: u64 = scale(settings.decay_rate, delta_time);
    let keep: u64 = if lost > one {
        0
    } else {
        one - lost
    };
    let own: u64 = current.get(x, y, layer) as u64;
    let average: u64 = neighbor_sum(current, x, y, layer) / 9;
    proof {
        lemma_blended_bounds(
            current@,
            *settings,
            delta_time,
            x as int,
            y as int,
            layer as int,
            u32::MAX as int,
        );
        assert(own * (one - weight) + average * weight <= 0xffff_ffff * 65536) by (nonlinear_arith)
            requires
                0 <= own <= 0xffff_ffff,
                0 <= average <= 0xffff_ffff,
                0 <= weight <= one,
                one == 65536,
        ;
        assert(0 <= own * (one - weight) <= 0xffff_ffff * 65536 && 0 <= average * weight
            <= 0xffff_ffff * 65536) by (nonlinear_arith)
            requires
                0 <= own <= 0xffff_ffff,
                0 <= average <= 0xffff_ffff,
                0 <= weight <= one,
                one == 65536,
        ;
    }
    let blend: u64 = (own * (one - weight) + average * weight) / one;
    let fed: u64 = blend + deposits.get(x, y, layer) as u64;
    assert(fed * keep <= 2 * 0xffff_ffff * 65536) by (nonlinear_arith)
        requires
            0 <= fed <= 2 * 0xffff_ffff,
            0 <= keep <= 65536,
    ;
    let kept: u64 = fed * keep / one;
    if kept > u32::MAX as u64 {
        u32::MAX
    } else {
        kept as u32
    }
}

/// Runs the kernel over every cell: reads `current` and `deposits`, and
/// overwrites `next` with the diffused and decayed field.
pub fn diffuse(
    settings: &GlobalSettings,
    delta_time: u32,
    current: &Field,
    deposits: &Field,
    next: &mut Field,
)
    requires
        current.wf(),
        deposits.wf(),
        old(next).wf(),
        deposits.same_shape(current),
        old(next).same_shape(current),
    ensures
        final(next).wf(),
        final(next)@ == diffuse_step(current@, deposits@, *settings, delta_time),
        forall|x: int, y: int, layer: int|
            current.contains(x, y, layer) ==> final(next).at(x, y, layer) == #[trigger] diffused(
                current@,
                deposits@,
                *settings,
                delta_time,
                x,
                y,
                layer,
            ),
{
    let n: usize = current.cells.len();
    let mut i: usize = 0;
    while i < n
        invariant
            i <= n,
            n == current.cells@.len(),
            current.wf(),
            deposits.wf(),
            next.wf(),
            deposits.same_shape(current),
            next.same_shape(current),
            forall|j: int|
                0 <= j < i ==> next.cells@[j] == diffuse_step(
                    current@,
                    deposits@,
                    *settings,
                    delta_time,
                ).cells[j],
        decreases n - i,
    {
        proof {
            lemma_index_position(current@, i as int);
        }
        let row: usize = i / (current.width as usize);
        let x: u32 = (i % (current.width as usize)) as u32;
        let y: u32 = (row % (current.height as usize)) as u32;
        let layer: u32 = (row / (current.height as usize)) as u32;
        let value = diffuse_cell(settings, delta_time, current, deposits, x, y, layer);
        next.cells[i] = value;
        i += 1;
    }
    assert(next@.cells =~= diffuse_step(current@, deposits@, *settings, delta_time).cells);
    assert forall|x: int, y: int, layer: int| current.contains(x, y, layer) implies next.at(
        x,
        y,
        layer,
    ) == #[trigger] diffused(current@, deposits@, *settings, delta_time, x, y, layer) by {
        lemma_diffuse_step_cell(current@, deposits@, *settings, delta_time, x, y, layer);
    }
}

} // verus!
