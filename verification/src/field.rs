//! Layered two-dimensional grids of fixed-point intensities.
//!
//! The persistent trail field and the transient deposit field share one
//! representation: `layers` planes of `width * height` cells, one plane per
//! species, stored plane after plane and row after row.

use vstd::prelude::*;
use crate::config::MAX_FIELD_CELLS;

verus! {

/// A grid of `width * height * layers` non-negative intensities.
#[derive(Clone, Debug, PartialEq, Eq)]
pub struct Field {
    pub width: u32,
    pub height: u32,
    pub layers: u32,
    pub cells: Vec<u32>,
}

/// The persistent per-species intensity grid. It exists in two copies.
pub type TrailField = Field;

/// The scratch grid that receives the deposits of one sub-step.
pub type DepositField = Field;

/// Position of cell `(x, y)` of plane `layer` in the storage of a grid with
/// the given plane size.
pub open spec fn cell_index(width: int, height: int, x: int, y: int, layer: int) -> int {
    (layer * height + y) * width + x
}

/// The coordinate nearest to `v` among `0, .., n - 1`.
pub open spec fn clamp_coord(v: int, n: int) -> int {
    if v < 0 {
        0
    } else if v >= n {
        n - 1
    } else {
        v
    }
}

/// The sum of a sequence of intensities.
pub open spec fn sum_cells(cells: Seq<u32>) -> int
    decreases cells.len(),
{
    if cells.len() == 0 {
        0
    } else {
        sum_cells(cells.drop_last()) + cells.last() as int
    }
}

/// A cell position inside a grid has a storage index inside the grid, and
/// distinct positions have distinct indices.
pub proof fn lemma_cell_index_bounds(width: int, height: int, layers: int, x: int, y: int, layer: int)
    requires
        0 <= x < width,
        0 <= y < height,
        0 <= layer < layers,
    ensures
        0 <= cell_index(width, height, x, y, layer) < width * height * layers,
        cell_index(width, height, x, y, layer) % width == x,
        cell_index(width, height, x, y, layer) / width == layer * height + y,
        (layer * height + y) % height == y,
        (layer * height + y) / height == layer,
{
    let row = layer * height + y;
    assert(0 <= row < layers * height) by (nonlinear_arith)
        requires
            0 <= y < height,
            0 <= layer < layers,
            row == layer * height + y,
    ;
    assert(0 <= row * width + x < width * height * layers) by (nonlinear_arith)
        requires
            0 <= x < width,
            0 <= row,
            row + 1 <= layers * height,
    ;
    assert((row * width + x) % width == x && (row * width + x) / width == row) by (nonlinear_arith)
        requires
            0 <= x < width,
            0 <= row,
    ;
    assert((layer * height + y) % height == y && (layer * height + y) / height == layer)
        by (nonlinear_arith)
        requires
            0 <= y < height,
            0 <= layer,
    ;
}

/// Two cell positions inside a grid with the same storage index are the
/// same position.
pub proof fn lemma_cell_index_injective(
    width: int,
    height: int,
    x1: int,
    y1: int,
    layer1: int,
    x2: int,
    y2: int,
    layer2: int,
)
    requires
        0 <= x1 < width,
        0 <= y1 < height,
        0 <= layer1,
        0 <= x2 < width,
        0 <= y2 < height,
        0 <= layer2,
        cell_index(width, height, x1, y1, layer1) == cell_index(width, height, x2, y2, layer2),
    ensures
        x1 == x2,
        y1 == y2,
        layer1 == layer2,
{
    lemma_cell_index_bounds(width, height, layer1 + 1, x1, y1, layer1);
    lemma_cell_index_bounds(width, height, layer2 + 1, x2, y2, layer2);
}

/// Replacing one cell changes the sum by the difference of the two values.
pub proof fn lemma_sum_update(cells: Seq<u32>, i: int, value: u32)
    requires
        0 <= i < cells.len(),
    ensures
        sum_cells(cells.update(i, value)) == sum_cells(cells) - cells[i] + value,
    decreases cells.len(),
{
    let updated = cells.update(i, value);
    if i == cells.len() - 1 {
        assert(updated.drop_last() =~= cells.drop_last());
    } else {
        lemma_sum_update(cells.drop_last(), i, value);
        assert(updated.drop_last() =~= cells.drop_last().update(i, value));
    }
}

/// The sum of intensities lies between zero and the sum of any bound on
/// the single cells.
pub proof fn lemma_sum_bounds(cells: Seq<u32>, bound: int)
    requires
        forall|i: int| 0 <= i < cells.len() ==> cells[i] <= bound,
    ensures
        0 <= sum_cells(cells) <= cells.len() * bound || cells.len() == 0,
        cells.len() == 0 ==> sum_cells(cells) == 0,
    decreases cells.len(),
{
    if cells.len() > 0 {
        let head = cells.drop_last();
        lemma_sum_bounds(head, bound);
        assert(head.len() * bound + bound == cells.len() * bound) by (nonlinear_arith)
            requires
                head.len() + 1 == cells.len(),
        ;
    }
}

/// Sums are additive: where every cell of `c` is the sum of the cells of
/// `a` and `b`, so is the total.
pub proof fn lemma_sum_pointwise(a: Seq<u32>, b: Seq<u32>, c: Seq<u32>)
    requires
        a.len() == b.len(),
        a.len() == c.len(),
        forall|i: int| 0 <= i < c.len() ==> c[i] == a[i] + b[i],
    ensures
        sum_cells(c) == sum_cells(a) + sum_cells(b),
    decreases c.len(),
{
    if c.len() > 0 {
        lemma_sum_pointwise(a.drop_last(), b.drop_last(), c.drop_last());
    }
}

/// The mathematical content of a [`Field`]: its shape and its cells.
pub struct Grid {
    pub width: nat,
    pub height: nat,
    pub layers: nat,
    pub cells: Seq<u32>,
}

impl Grid {
    /// The grid stores exactly one value per cell.
    pub open spec fn wf(self) -> bool {
        self.cells.len() == self.width * self.height * self.layers
    }

    /// Whether `(x, y, layer)` names a cell of the grid.
    pub open spec fn contains(self, x: int, y: int, layer: int) -> bool {
        &&& 0 <= x < self.width
        &&& 0 <= y < self.height
        &&& 0 <= layer < self.layers
    }

    /// The intensity of cell `(x, y)` of plane `layer`.
    pub open spec fn at(self, x: int, y: int, layer: int) -> u32 {
        self.cells[cell_index(self.width as int, self.height as int, x, y, layer)]
    }

    /// Whether two grids have the same width, height and number of planes.
    pub open spec fn same_shape(self, other: Grid) -> bool {
        &&& self.width == other.width
        &&& self.height == other.height
        &&& self.layers == other.layers
    }

    /// Whether every cell is zero.
    pub open spec fn is_zero(self) -> bool {
        forall|i: int| 0 <= i < self.cells.len() ==> self.cells[i] == 0
    }

    /// Whether no cell exceeds `bound`.
    pub open spec fn bounded_by(self, bound: int) -> bool {
        forall|i: int| 0 <= i < self.cells.len() ==> self.cells[i] <= bound
    }

    /// The sum of all cells: the mass held by the grid.
    pub open spec fn mass(self) -> int {
        sum_cells(self.cells)
    }

    /// The column of the cell stored at index `i`.
    pub open spec fn x_of(self, i: int) -> int {
        i % (self.width as int)
    }

    /// The row of the cell stored at index `i`.
    pub open spec fn y_of(self, i: int) -> int {
        (i / (self.width as int)) % (self.height as int)
    }

    /// The plane of the cell stored at index `i`.
    pub open spec fn layer_of(self, i: int) -> int {
        (i / (self.width as int)) / (self.height as int)
    }
}

/// Every storage index of a grid belongs to exactly one cell position.
pub proof fn lemma_index_position(g: Grid, i: int)
    requires
        g.wf(),
        0 <= i < g.cells.len(),
    ensures
        g.contains(g.x_of(i), g.y_of(i), g.layer_of(i)),
        cell_index(g.width as int, g.height as int, g.x_of(i), g.y_of(i), g.layer_of(i)) == i,
{
    let w = g.width as int;
    let h = g.height as int;
    let n = g.layers as int;
    assert(w > 0 && h > 0 && n > 0) by (nonlinear_arith)
        requires
            0 <= i < w * h * n,
            w >= 0,
            h >= 0,
            n >= 0,
    ;
    let row = i / w;
    assert(i == row * w + i % w && 0 <= i % w < w && 0 <= row) by (nonlinear_arith)
        requires
            row == i / w,
            w > 0,
            i >= 0,
    ;
    assert(row < h * n) by (nonlinear_arith)
        requires
            i == row * w + i % w,
            0 <= i % w,
            i < w * h * n,
            w > 0,
    ;
    let l = row / h;
    assert(row == l * h + row % h && 0 <= row % h < h && 0 <= l) by (nonlinear_arith)
        requires
            l == row / h,
            h > 0,
            row >= 0,
    ;
    assert(l < n) by (nonlinear_arith)
        requires
            row == l * h + row % h,
            0 <= row % h,
            row < h * n,
            h > 0,
    ;
}

impl View for Field {
    type V = Grid;

    open spec fn view(&self) -> Grid {
        Grid {
            width: self.width as nat,
            height: self.height as nat,
            layers: self.layers as nat,
            cells: self.cells@,
        }
    }
}

impl Field {
    /// The grid stores exactly one value per cell and fits the cell limit.
    pub open spec fn wf(&self) -> bool {
        &&& self@.wf()
        &&& self.cells@.len() <= MAX_FIELD_CELLS
    }

    /// Whether `(x, y, layer)` names a cell of the grid.
    pub open spec fn contains(&self, x: int, y: int, layer: int) -> bool {
        self@.contains(x, y, layer)
    }

    /// The intensity of cell `(x, y)` of plane `layer`.
    pub open spec fn at(&self, x: int, y: int, layer: int) -> u32 {
        self@.at(x, y, layer)
    }

    /// Whether two grids have the same width, height and number of planes.
    pub open spec fn same_shape(&self, other: &Field) -> bool {
        self@.same_shape(other@)
    }

    /// Whether every cell is zero.
    pub open spec fn is_zero(&self) -> bool {
        self@.is_zero()
    }

    /// The sum of all cells: the mass held by the grid.
    pub open spec fn mass(&self) -> int {
        self@.mass()
    }

    /// A grid of the given shape with every cell zero.
    pub fn new(width: u32, height: u32, layers: u32) -> (field: Field)
        requires
            width as int * height as int * layers as int <= MAX_FIELD_CELLS,
        ensures
            field.wf(),
            field.width == width,
            field.height == height,
            field.layers == layers,
            field.is_zero(),
            forall|x: int, y: int, layer: int|
                field.contains(x, y, layer) ==> #[trigger] field.at(x, y, layer) == 0,
    {
        assert(0 <= width as int * height as int <= 0xffff_ffff * 0xffff_ffff) by (nonlinear_arith)
            requires
                0 <= width <= 0xffff_ffff,
                0 <= height <= 0xffff_ffff,
        ;
        let area: u64 = (width as u64) * (height as u64);
        let count: u64 = if layers == 0 || area == 0 {
            assert(width as int * height as int * layers as int == 0) by (nonlinear_arith)
                requires
                    layers == 0 || width as int * height as int == 0,
            ;
            0
        } else {
            assert(area <= area * layers) by (nonlinear_arith)
                requires
                    layers >= 1,
                    area >= 0,
            ;
            area * (layers as u64)
        };
        let cells: Vec<u32> = vec![0u32; count as usize];
        let field = Field { width, height, layers, cells };
        proof {
            field.lemma_zero_cells();
        }
        field
    }

    /// In a grid that is zero everywhere every cell reads zero.
    pub proof fn lemma_zero_cells(&self)
        requires
            self.wf(),
            self.is_zero(),
        ensures
            forall|x: int, y: int, layer: int|
                self.contains(x, y, layer) ==> #[trigger] self.at(x, y, layer) == 0,
    {
        assert forall|x: int, y: int, layer: int| self.contains(x, y, layer) implies #[trigger] self.at(
            x,
            y,
            layer,
        ) == 0 by {
            lemma_cell_index_bounds(
                self.width as int,
                self.height as int,
                self.layers as int,
                x,
                y,
                layer,
            );
        }
    }

    /// After one cell of a grid was replaced, every other cell reads as
    /// before.
    pub proof fn lemma_other_cells(&self, before: &Field, x: int, y: int, layer: int)
        requires
            before.wf(),
            self.wf(),
            self.same_shape(before),
            before.contains(x, y, layer),
            self.cells@ == before.cells@.update(
                cell_index(before.width as int, before.height as int, x, y, layer),
                self.at(x, y, layer),
            ),
        ensures
            forall|x2: int, y2: int, layer2: int|
                self.contains(x2, y2, layer2) && !(x2 == x && y2 == y && layer2 == layer)
                    ==> #[trigger] self.at(x2, y2, layer2) == before.at(x2, y2, layer2),
    {
        let w = self.width as int;
        let h = self.height as int;
        let at = cell_index(w, h, x, y, layer);
        assert forall|x2: int, y2: int, layer2: int|
            self.contains(x2, y2, layer2) && !(x2 == x && y2 == y && layer2
                == layer) implies #[trigger] self.at(x2, y2, layer2) == before.at(x2, y2, layer2) by {
            let other = cell_index(w, h, x2, y2, layer2);
            lemma_cell_index_bounds(w, h, self.layers as int, x2, y2, layer2);
            lemma_cell_index_bounds(w, h, self.layers as int, x, y, layer);
            if other == at {
                lemma_cell_index_injective(w, h, x2, y2, layer2, x, y, layer);
            }
            assert(0 <= other < before.cells@.len());
            assert(0 <= at < before.cells@.len());
            assert(self.cells@[other] == before.cells@[other]);
        }
    }

    /// The storage index of a cell of the grid.
    pub fn index(&self, x: u32, y: u32, layer: u32) -> (i: usize)
        requires
            self.wf(),
            self.contains(x as int, y as int, layer as int),
        ensures
            i == cell_index(self.width as int, self.height as int, x as int, y as int, layer as int),
            i < self.cells@.len(),
    {
        proof {
            lemma_cell_index_bounds(
                self.width as int,
                self.height as int,
                self.layers as int,
                x as int,
                y as int,
                layer as int,
            );
            assert(0 <= layer as int * self.height as int + y as int
                <= self.width as int * self.height as int * self.layers as int) by (nonlinear_arith)
                requires
                    0 <= x < self.width,
                    0 <= y < self.height,
                    0 <= layer < self.layers,
            ;
        }
        let row: u64 = (layer as u64) * (self.height as u64) + (y as u64);
        let i: u64 = row * (self.width as u64) + (x as u64);
        i as usize
    }

    /// Reads one cell.
    pub fn get(&self, x: u32, y: u32, layer: u32) -> (value: u32)
        requires
            self.wf(),
            self.contains(x as int, y as int, layer as int),
        ensures
            value == self.at(x as int, y as int, layer as int),
    {
        let i = self.index(x, y, layer);
        self.cells[i]
    }

    /// Writes one cell and leaves all others as they are.
    pub fn put(&mut self, x: u32, y: u32, layer: u32, value: u32)
        requires
            old(self).wf(),
            old(self).contains(x as int, y as int, layer as int),
        ensures
            final(self).wf(),
            final(self).same_shape(old(self)),
            final(self).cells@ == old(self).cells@.update(
                cell_index(
                    old(self).width as int,
                    old(self).height as int,
                    x as int,
                    y as int,
                    layer as int,
                ),
                value,
            ),
            final(self).at(x as int, y as int, layer as int) == value,
            forall|x2: int, y2: int, layer2: int|
                old(self).contains(x2, y2, layer2) && !(x2 == x && y2 == y && layer2 == layer)
                    ==> #[trigger] final(self).at(x2, y2, layer2) == old(self).at(x2, y2, layer2),
    {
        let ghost before = *self;
        let i = self.index(x, y, layer);
        self.cells[i] = value;
        proof {
            self.lemma_other_cells(&before, x as int, y as int, layer as int);
        }
    }

    /// Adds `amount` to one cell, stopping at the largest intensity, and
    /// leaves all other cells as they are.
    pub fn deposit(&mut self, x: u32, y: u32, layer: u32, amount: u32)
        requires
            old(self).wf(),
            old(self).contains(x as int, y as int, layer as int),
        ensures
            final(self).wf(),
            final(self).same_shape(old(self)),
            final(self).cells@ == deposited(
                old(self).cells@,
                cell_index(
                    old(self).width as int,
                    old(self).height as int,
                    x as int,
                    y as int,
                    layer as int,
                ),
                amount,
            ),
            final(self).at(x as int, y as int, layer as int) == (if old(self).at(
                x as int,
                y as int,
                layer as int,
            ) + amount > u32::MAX {
                u32::MAX as int
            } else {
                old(self).at(x as int, y as int, layer as int) + amount
            }),
            forall|x2: int, y2: int, layer2: int|
                old(self).contains(x2, y2, layer2) && !(x2 == x && y2 == y && layer2 == layer)
                    ==> #[trigger] final(self).at(x2, y2, layer2) == old(self).at(x2, y2, layer2),
    {
        let ghost before = *self;
        let i = self.index(x, y, layer);
        let sum: u64 = self.cells[i] as u64 + amount as u64;
        let value: u32 = if sum > u32::MAX as u64 {
            u32::MAX
        } else {
            sum as u32
        };
        self.cells[i] = value;
        proof {
            self.lemma_other_cells(&before, x as int, y as int, layer as int);
        }
    }

    /// Sets every cell to zero.
    pub fn clear(&mut self)
        requires
            old(self).wf(),
        ensures
            final(self).wf(),
            final(self).same_shape(old(self)),
            final(self).is_zero(),
            final(self).mass() == 0,
            forall|x: int, y: int, layer: int|
                final(self).contains(x, y, layer) ==> #[trigger] final(self).at(x, y, layer) == 0,
    {
        let n: usize = self.cells.len();
        let mut i: usize = 0;
        while i < n
            invariant
                i <= n,
                n == self.cells@.len(),
                self.wf(),
                self.same_shape(old(self)),
                forall|j: int| 0 <= j < i ==> self.cells@[j] == 0,
            decreases n - i,
        {
            self.cells[i] = 0;
            i += 1;
        }
        proof {
            lemma_sum_bounds(self.cells@, 0);
            self.lemma_zero_cells();
        }
    }

    /// The sum of all cells.
    pub fn total(&self) -> (sum: u64)
        requires
            self.wf(),
        ensures
            sum == self.mass(),
    {
        let n: usize = self.cells.len();
        let mut sum: u64 = 0;
        let mut i: usize = 0;
        while i < n
            invariant
                i <= n,
                n == self.cells@.len(),
                n <= MAX_FIELD_CELLS,
                sum == sum_cells(self.cells@.subrange(0, i as int)),
                sum <= i * 0xffff_ffff,
            decreases n - i,
        {
            assert(self.cells@.subrange(0, i + 1).drop_last() =~= self.cells@.subrange(0, i as int));
            assert((i + 1) * 0xffff_ffff <= 0xffff_ffff * 0xffff_ffff) by (nonlinear_arith)
                requires
                    i + 1 <= 0xffff_ffff,
            ;
            sum = sum + self.cells[i] as u64;
            i += 1;
        }
        assert(self.cells@.subrange(0, n as int) =~= self.cells@);
        sum
    }
}

/// The storage of a grid after `amount` was added to cell `i`, stopping at
/// the largest intensity.
pub open spec fn deposited(cells: Seq<u32>, i: int, amount: u32) -> Seq<u32> {
    let sum = cells[i] + amount;
    cells.update(
        i,
        if sum > u32::MAX {
            u32::MAX
        } else {
            sum as u32
        },
    )
}

/// Deposits commute: two deposits leave the same grid in whichever order
/// they are made, into the same cell or into different ones.
pub proof fn lemma_deposits_commute(cells: Seq<u32>, i: int, a: u32, j: int, b: u32)
    requires
        0 <= i < cells.len(),
        0 <= j < cells.len(),
    ensures
        deposited(deposited(cells, i, a), j, b) == deposited(deposited(cells, j, b), i, a),
{
    assert(deposited(deposited(cells, i, a), j, b) =~= deposited(deposited(cells, j, b), i, a));
}

/// A deposit that does not reach the largest intensity adds exactly its
/// amount to the mass of the grid: nothing is lost when several deposits
/// fall into one cell.
pub proof fn lemma_deposit_mass(cells: Seq<u32>, i: int, amount: u32)
    requires
        0 <= i < cells.len(),
    ensures
        cells[i] + amount <= u32::MAX ==> sum_cells(deposited(cells, i, amount)) == sum_cells(cells)
            + amount,
        sum_cells(deposited(cells, i, amount)) <= sum_cells(cells) + amount,
        sum_cells(deposited(cells, i, amount)) >= sum_cells(cells),
{
    let sum = cells[i] + amount;
    let value: u32 = if sum > u32::MAX {
        u32::MAX
    } else {
        sum as u32
    };
    lemma_sum_update(cells, i, value);
}

} // verus!
