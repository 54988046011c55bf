//! Sensor readings: what an agent perceives of the trail field around a
//! cell.
//!
//! A reading weighs the agent's own species layer by one and every other
//! layer by the species' follow weight, sums the weighted values over the
//! square of cells within the sensor radius (coordinates beyond an edge are
//! clamped to the edge), and divides by the number of cells of the square.

use vstd::prelude::*;
use crate::config::{SpeciesSettings, MAX_SENSOR_SIZE};
use crate::field::{clamp_coord, lemma_cell_index_bounds, Field, Grid};
use crate::fixed::ONE;

verus! {

/// The weight of a layer in the readings of an agent of species `own`.
pub open spec fn layer_weight(settings: SpeciesSettings, own: u32, layer: int) -> int {
    if layer == own {
        ONE as int
    } else {
        settings.self_follow as int
    }
}

/// The weighted sum of the first `n` layers of cell `(cx, cy)`.
pub open spec fn cell_reading(
    trail: Grid,
    settings: SpeciesSettings,
    own: u32,
    cx: int,
    cy: int,
    n: nat,
) -> int
    decreases n,
{
    if n == 0 {
        0
    } else {
        cell_reading(trail, settings, own, cx, cy, (n - 1) as nat) + layer_weight(
            settings,
            own,
            n - 1,
        ) * trail.at(cx, cy, n - 1)
    }
}

/// The sum of the readings of the first `k` cells of row `cy` of the square
/// of radius `r` around column `cx`.
pub open spec fn row_reading(
    trail: Grid,
    settings: SpeciesSettings,
    own: u32,
    cx: int,
    cy: int,
    r: int,
    k: nat,
) -> int
    decreases k,
{
    if k == 0 {
        0
    } else {
        row_reading(trail, settings, own, cx, cy, r, (k - 1) as nat) + cell_reading(
            trail,
            settings,
            own,
            clamp_coord(cx - r + (k - 1), trail.width as int),
            cy,
            trail.layers,
        )
    }
}

/// The sum of the readings of the first `k` rows of the square of radius
/// `r` around cell `(cx, cy)`.
pub open spec fn area_reading(
    trail: Grid,
    settings: SpeciesSettings,
    own: u32,
    cx: int,
    cy: int,
    r: int,
    k: nat,
) -> int
    decreases k,
{
    if k == 0 {
        0
    } else {
        area_reading(trail, settings, own, cx, cy, r, (k - 1) as nat) + row_reading(
            trail,
            settings,
            own,
            cx,
            clamp_coord(cy - r + (k - 1), trail.height as int),
            r,
            (2 * r + 1) as nat,
        )
    }
}

/// The reading of a sensor centred on cell `(cx, cy)`: the average over the
/// square of the species' sensor radius.
pub open spec fn sensor_reading(
    trail: Grid,
    settings: SpeciesSettings,
    own: u32,
    cx: int,
    cy: int,
) -> int {
    let r = settings.sensor_size as int;
    let side = 2 * r + 1;
    area_reading(trail, settings, own, cx, cy, r, side as nat) / (side * side)
}

/// The reading of one cell over `n` layers is at most `n` times the square
/// of the largest intensity.
pub proof fn lemma_cell_reading_bounds(
    trail: Grid,
    settings: SpeciesSettings,
    own: u32,
    cx: int,
    cy: int,
    n: nat,
)
    ensures
        0 <= cell_reading(trail, settings, own, cx, cy, n) <= n * 0x1_0000_0000_0000_0000,
    decreases n,
{
    if n > 0 {
        lemma_cell_reading_bounds(trail, settings, own, cx, cy, (n - 1) as nat);
        let wgt = layer_weight(settings, own, n - 1);
        let v = trail.at(cx, cy, n - 1) as int;
        assert(0 <= wgt * v <= 0x1_0000_0000_0000_0000) by (nonlinear_arith)
            requires
                0 <= wgt <= 0xffff_ffff,
                0 <= v <= 0xffff_ffff,
        ;
        assert((n - 1) * 0x1_0000_0000_0000_0000 + 0x1_0000_0000_0000_0000 == n
            * 0x1_0000_0000_0000_0000) by (nonlinear_arith);
    }
}

/// The reading of `k` cells of a row is at most `k` times the bound of one
/// cell over all layers.
pub proof fn lemma_row_reading_bounds(
    trail: Grid,
    settings: SpeciesSettings,
    own: u32,
    cx: int,
    cy: int,
    r: int,
    k: nat,
)
    requires
        trail.layers <= 0xffff_ffff,
    ensures
        0 <= row_reading(trail, settings, own, cx, cy, r, k) <= k
            * 0x1_0000_0000_0000_0000_0000_0000,
    decreases k,
{
    if k > 0 {
        lemma_row_reading_bounds(trail, settings, own, cx, cy, r, (k - 1) as nat);
        let x = clamp_coord(cx - r + (k - 1), trail.width as int);
        lemma_cell_reading_bounds(trail, settings, own, x, cy, trail.layers);
        assert(trail.layers * 0x1_0000_0000_0000_0000 <= 0x1_0000_0000_0000_0000_0000_0000)
            by (nonlinear_arith)
            requires
                trail.layers <= 0xffff_ffff,
        ;
        assert((k - 1) * 0x1_0000_0000_0000_0000_0000_0000 + 0x1_0000_0000_0000_0000_0000_0000 == k
            * 0x1_0000_0000_0000_0000_0000_0000) by (nonlinear_arith);
    }
}

/// The reading of `k` rows of a square of radius at most the largest sensor
/// radius fits in 112 bits.
pub proof fn lemma_area_reading_bounds(
    trail: Grid,
    settings: SpeciesSettings,
    own: u32,
    cx: int,
    cy: int,
    r: int,
    k: nat,
)
    requires
        trail.layers <= 0xffff_ffff,
        0 <= r <= MAX_SENSOR_SIZE,
        k <= 2 * r + 1,
    ensures
        0 <= area_reading(trail, settings, own, cx, cy, r, k) <= k
            * 0x100_0000_0000_0000_0000_0000_0000,
        area_reading(trail, settings, own, cx, cy, r, k) <= 0x1_0000_0000_0000_0000_0000_0000_0000,
    decreases k,
{
    if k > 0 {
        lemma_area_reading_bounds(trail, settings, own, cx, cy, r, (k - 1) as nat);
        let y = clamp_coord(cy - r + (k - 1), trail.height as int);
        let side = (2 * r + 1) as nat;
        lemma_row_reading_bounds(trail, settings, own, cx, y, r, side);
        assert(side * 0x1_0000_0000_0000_0000_0000_0000 <= 0x100_0000_0000_0000_0000_0000_0000)
            by (nonlinear_arith)
            requires
                side <= 129,
        ;
        assert((k - 1) * 0x100_0000_0000_0000_0000_0000_0000 + 0x100_0000_0000_0000_0000_0000_0000
            == k * 0x100_0000_0000_0000_0000_0000_0000) by (nonlinear_arith);
    }
    assert(k * 0x100_0000_0000_0000_0000_0000_0000 <= 0x1_0000_0000_0000_0000_0000_0000_0000)
        by (nonlinear_arith)
        requires
            k <= 129,
    ;
}

/// On a field that is zero everywhere every sensor reads zero.
pub proof fn lemma_zero_field_reads_zero(
    trail: Grid,
    settings: SpeciesSettings,
    own: u32,
    cx: int,
    cy: int,
)
    requires
        trail.wf(),
        trail.is_zero(),
        0 <= cx < trail.width,
        0 <= cy < trail.height,
    ensures
        sensor_reading(trail, settings, own, cx, cy) == 0,
{
    let r = settings.sensor_size as int;
    let side = (2 * r + 1) as nat;
    lemma_zero_area(trail, settings, own, cx, cy, r, side);
    assert(0int / ((2 * r + 1) * (2 * r + 1)) == 0) by (nonlinear_arith)
        requires
            r >= 0,
    ;
}

proof fn lemma_zero_cell(trail: Grid, settings: SpeciesSettings, own: u32, cx: int, cy: int, n: nat)
    requires
        trail.wf(),
        trail.is_zero(),
        0 <= cx < trail.width,
        0 <= cy < trail.height,
        n <= trail.layers,
    ensures
        cell_reading(trail, settings, own, cx, cy, n) == 0,
    decreases n,
{
    if n > 0 {
        lemma_zero_cell(trail, settings, own, cx, cy, (n - 1) as nat);
        lemma_cell_index_bounds(
            trail.width as int,
            trail.height as int,
            trail.layers as int,
            cx,
            cy,
            n - 1,
        );
        let wgt = layer_weight(settings, own, n - 1);
        assert(wgt * 0 == 0) by (nonlinear_arith);
    }
}

proof fn lemma_zero_row(
    trail: Grid,
    settings: SpeciesSettings,
    own: u32,
    cx: int,
    cy: int,
    r: int,
    k: nat,
)
    requires
        trail.wf(),
        trail.is_zero(),
        0 < trail.width,
        0 <= cy < trail.height,
    ensures
        row_reading(trail, settings, own, cx, cy, r, k) == 0,
    decreases k,
{
    if k > 0 {
        lemma_zero_row(trail, settings, own, cx, cy, r, (k - 1) as nat);
        lemma_zero_cell(
            trail,
            settings,
            own,
            clamp_coord(cx - r + (k - 1), trail.width as int),
            cy,
            trail.layers,
        );
    }
}

proof fn lemma_zero_area(
    trail: Grid,
    settings: SpeciesSettings,
    own: u32,
    cx: int,
    cy: int,
    r: int,
    k: nat,
)
    requires
        trail.wf(),
        trail.is_zero(),
        0 < trail.width,
        0 < trail.height,
        r >= 0,
    ensures
        area_reading(trail, settings, own, cx, cy, r, k) == 0,
    decreases k,
{
    if k > 0 {
        lemma_zero_area(trail, settings, own, cx, cy, r, (k - 1) as nat);
        lemma_zero_row(
            trail,
            settings,
            own,
            cx,
            clamp_coord(cy - r + (k - 1), trail.height as int),
            r,
            (2 * r + 1) as nat,
        );
    }
}

/// The coordinate nearest to `center - r + k` among `0, .., cells - 1`.
fn clamped_offset(center: u32, r: u32, k: u32, cells: u32) -> (c: u32)
    requires
        cells > 0,
        r <= MAX_SENSOR_SIZE,
        k <= 2 * r,
    ensures
        c == clamp_coord(center as int - r as int + k as int, cells as int),
        c < cells,
{
    let v: i64 = center as i64 - r as i64 + k as i64;
    if v < 0 {
        0
    } else if v >= cells as i64 {
        cells - 1
    } else {
        v as u32
    }
}

/// The weighted sum of all layers of one cell.
fn read_cell(trail: &Field, settings: &SpeciesSettings, own: u32, cx: u32, cy: u32) -> (sum: u128)
    requires
        trail.wf(),
        cx < trail.width,
        cy < trail.height,
    ensures
        sum == cell_reading(trail@, *settings, own, cx as int, cy as int, trail.layers as nat),
{
    let mut sum: u128 = 0;
    let mut layer: u32 = 0;
    while layer < trail.layers
        invariant
            layer <= trail.layers,
            trail.wf(),
            cx < trail.width,
            cy < trail.height,
            sum == cell_reading(trail@, *settings, own, cx as int, cy as int, layer as nat),
        decreases trail.layers - layer,
    {
        proof {
            lemma_cell_reading_bounds(trail@, *settings, own, cx as int, cy as int, layer as nat);
            lemma_cell_reading_bounds(
                trail@,
                *settings,
                own,
                cx as int,
                cy as int,
                (layer + 1) as nat,
            );
            assert((layer + 1) * 0x1_0000_0000_0000_0000 <= 0x1_0000_0000_0000_0000_0000_0000)
                by (nonlinear_arith)
                requires
                    layer + 1 <= 0xffff_ffff,
            ;
        }
        let weight: u128 = if layer == own {
            ONE as u128
        } else {
            settings.self_follow as u128
        };
        let value: u128 = trail.get(cx, cy, layer) as u128;
        assert(0 <= weight * value <= 0x1_0000_0000_0000_0000) by (nonlinear_arith)
            requires
                0 <= weight <= 0xffff_ffff,
                0 <= value <= 0xffff_ffff,
        ;
        sum = sum + weight * value;
        layer += 1;
    }
    sum
}

/// The reading of a sensor centred on a cell of the field.
pub fn sense(trail: &Field, settings: &SpeciesSettings, own: u32, cx: u32, cy: u32) -> (reading:
    u128)
    requires
        trail.wf(),
        settings.wf(),
        cx < trail.width,
        cy < trail.height,
    ensures
        reading == sensor_reading(trail@, *settings, own, cx as int, cy as int),
{
    let r: u32 = settings.sensor_size;
    let side: u32 = 2 * r + 1;
    let mut total: u128 = 0;
    let mut row: u32 = 0;
    while row < side
        invariant
            row <= side,
            r == settings.sensor_size,
            side == 2 * r + 1,
            r <= MAX_SENSOR_SIZE,
            trail.wf(),
            cx < trail.width,
            cy < trail.height,
            total == area_reading(
                trail@,
                *settings,
                own,
                cx as int,
                cy as int,
                r as int,
                row as nat,
            ),
        decreases side - row,
    {
        let y: u32 = clamped_offset(cy, r, row, trail.height);
        let mut line: u128 = 0;
        let mut col: u32 = 0;
        while col < side
            invariant
                col <= side,
                side == 2 * r + 1,
                r <= MAX_SENSOR_SIZE,
                trail.wf(),
                cx < trail.width,
                y < trail.height,
                line == row_reading(
                    trail@,
                    *settings,
                    own,
                    cx as int,
                    y as int,
                    r as int,
                    col as nat,
                ),
            decreases side - col,
        {
            let x: u32 = clamped_offset(cx, r, col, trail.width);
            proof {
                lemma_row_reading_bounds(
                    trail@,
                    *settings,
                    own,
                    cx as int,
                    y as int,
                    r as int,
                    col as nat,
                );
                lemma_row_reading_bounds(
                    trail@,
                    *settings,
                    own,
                    cx as int,
                    y as int,
                    r as int,
                    (col + 1) as nat,
                );
                assert((col + 1) * 0x1_0000_0000_0000_0000_0000_0000
                    <= 0x100_0000_0000_0000_0000_0000_0000) by (nonlinear_arith)
                    requires
                        col + 1 <= 129,
                ;
            }
            let cell: u128 = read_cell(trail, settings, own, x, y);
            line = line + cell;
            col += 1;
        }
        proof {
            lemma_area_reading_bounds(
                trail@,
                *settings,
                own,
                cx as int,
                cy as int,
                r as int,
                row as nat,
            );
            lemma_area_reading_bounds(
                trail@,
                *settings,
                own,
                cx as int,
                cy as int,
                r as int,
                (row + 1) as nat,
            );
        }
        total = total + line;
        row += 1;
    }
    assert(0 < side * side <= 129 * 129) by (nonlinear_arith)
        requires
            1 <= side <= 129,
    ;
    let count: u128 = (side as u128) * (side as u128);
    total / count
}

} // verus!
