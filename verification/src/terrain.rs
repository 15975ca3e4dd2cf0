//! The height field that a plant's root stands on.

use crate::fixed::{div_toward_zero, trunc_div, within_trait_limit, SCALE, TRAIT_LIMIT};
use crate::random::draw_in_range;
use rand::rngs::StdRng;
use vstd::prelude::*;

verus! {

/// Number of rows, and of columns, of the standard grid.
pub const TERRAIN_GRID_ROWS: usize = 100;

/// Largest number of rows, and of columns, of a grid.
pub const TERRAIN_ROWS_LIMIT: usize = 1_000_000;

/// A square grid of heights that wraps around at its edges. Positions are in
/// thousandths of a cell.
#[derive(Debug)]
pub struct Terrain {
    /// Number of rows, and of columns.
    pub rows: usize,
    /// The heights, row by row.
    pub heights: Vec<i64>,
}

/// What covers the ground at a grid node.
#[derive(Clone, Copy, Debug, PartialEq, Eq, Structural)]
pub enum GroundType {
    Grass,
    Rock,
    Sand,
    Swamp,
    Snow,
}

/// What is known of the ground at one grid node, in thousandths: its height, its
/// height above the average of the nodes around it, and how dry and how rocky it
/// is, each of the last two between zero and one unit.
#[derive(Clone, Copy, Debug, PartialEq, Eq, Structural)]
pub struct TerrainGridNode {
    pub height: i64,
    pub local_height: i64,
    pub dryness: i64,
    pub rockiness: i64,
}

impl GroundType {
    /// The cover of a node: snow on high ground that is not a dry hollow, rock on
    /// high or rocky ground, sand where it is dry, swamp where it is wet and low,
    /// sand again just below the water line, and grass elsewhere.
    pub open spec fn from_grid_node_spec(node: TerrainGridNode) -> GroundType {
        if node.height > 55_000 && (node.dryness < 600 || node.local_height > 7_000)
            && node.local_height > -2_000 {
            GroundType::Snow
        } else if node.height > 45_000 || node.rockiness > 800 {
            GroundType::Rock
        } else if node.dryness > 600 || (node.dryness > 400 && node.height < 0) {
            GroundType::Sand
        } else if (node.dryness < 300 && node.height < 25_000) || (node.dryness < 400 && node.height
            < 5_000) || node.dryness < 100 {
            GroundType::Swamp
        } else if node.height < -1_000 {
            GroundType::Sand
        } else {
            GroundType::Grass
        }
    }

    /// The cover that stands for a draw: the five covers in order for the numbers
    /// from zero to four, and grass for any other number.
    pub open spec fn from_draw_spec(draw: int) -> GroundType {
        if draw == 1 {
            GroundType::Rock
        } else if draw == 2 {
            GroundType::Sand
        } else if draw == 3 {
            GroundType::Swamp
        } else if draw == 4 {
            GroundType::Snow
        } else {
            GroundType::Grass
        }
    }

    /// Turns a draw into a cover.
    pub fn from_draw(draw: i64) -> (cover: GroundType)
        ensures
            cover == Self::from_draw_spec(draw as int),
    {
        if draw == 1 {
            GroundType::Rock
        } else if draw == 2 {
            GroundType::Sand
        } else if draw == 3 {
            GroundType::Swamp
        } else if draw == 4 {
            GroundType::Snow
        } else {
            GroundType::Grass
        }
    }

    /// Picks one of the five covers by a draw from `source`.
    pub fn random(source: &mut StdRng) -> (cover: GroundType)
        ensures
            exists|draw: int| 0 <= draw < 5 && cover == #[trigger] Self::from_draw_spec(draw),
    {
        let draw: i64 = draw_in_range(source, 0, 5);
        Self::from_draw(draw)
    }

    /// Classifies the ground at a node.
    pub fn from_grid_node(grid_node: &TerrainGridNode) -> (cover: GroundType)
        ensures
            cover == Self::from_grid_node_spec(*grid_node),
    {
        if grid_node.height > 55_000 && (grid_node.dryness < 600 || grid_node.local_height > 7_000)
            && grid_node.local_height > -2_000 {
            return GroundType::Snow;
        }
        if grid_node.height > 45_000 || grid_node.rockiness > 800 {
            return GroundType::Rock;
        }
        if grid_node.dryness > 600 || (grid_node.dryness > 400 && grid_node.height < 0) {
            return GroundType::Sand;
        }
        if (grid_node.dryness < 300 && grid_node.height < 25_000) || (grid_node.dryness < 400
            && grid_node.height < 5_000) || grid_node.dryness < 100 {
            return GroundType::Swamp;
        }
        if grid_node.height < -1_000 {
            return GroundType::Sand;
        }
        GroundType::Grass
    }
}

/// `a` blended with `b`: `weight` thousandths of `b`, the rest of `a`, as a sum
/// still scaled by one thousand.
pub open spec fn blend(a: int, b: int, weight: int) -> int {
    a * (SCALE - weight) + b * weight
}

impl Terrain {
    /// The grid is square, not empty, and holds heights within the trait limit.
    pub open spec fn wf(&self) -> bool {
        &&& 1 <= self.rows <= TERRAIN_ROWS_LIMIT
        &&& self.heights@.len() == self.rows * self.rows
        &&& forall|i: int|
            0 <= i < self.heights@.len() ==> within_trait_limit((#[trigger] self.heights@[i]) as int)
    }

    /// The height at a grid node.
    pub open spec fn node(&self, row: int, column: int) -> int {
        self.heights@[row * self.rows + column] as int
    }

    /// The height at a position: the heights of the four nodes around it,
    /// interpolated linearly along each axis, on a grid that wraps around.
    pub open spec fn get_height_spec(&self, x: int, z: int) -> int {
        let span = self.rows * SCALE;
        let x_mapped = x % span;
        let z_mapped = z % span;
        let neg_x = x_mapped / (SCALE as int);
        let pos_x = (neg_x + 1) % (self.rows as int);
        let x_offset = x_mapped % (SCALE as int);
        let neg_z = z_mapped / (SCALE as int);
        let pos_z = (neg_z + 1) % (self.rows as int);
        let z_offset = z_mapped % (SCALE as int);
        trunc_div(
            blend(
                blend(self.node(neg_x, neg_z), self.node(pos_x, neg_z), x_offset),
                blend(self.node(neg_x, pos_z), self.node(pos_x, pos_z), x_offset),
                z_offset,
            ),
            SCALE * SCALE,
        )
    }

    /// The index before `i` on a grid that wraps around.
    pub open spec fn before(&self, i: int) -> int {
        if i == 0 {
            self.rows - 1
        } else {
            i - 1
        }
    }

    /// The index after `i` on a grid that wraps around.
    pub open spec fn after(&self, i: int) -> int {
        if i + 1 == self.rows {
            0
        } else {
            i + 1
        }
    }

    /// The sum of the heights of the three nodes of one row at and beside a
    /// column.
    pub open spec fn row_sum(&self, row: int, column: int) -> int {
        self.node(row, self.before(column)) + self.node(row, column) + self.node(
            row,
            self.after(column),
        )
    }

    /// How far a node stands above the average of the nine nodes at and around
    /// it, on a grid that wraps around.
    pub open spec fn local_height_spec(&self, row: int, column: int) -> int {
        self.node(row, column) - trunc_div(
            self.row_sum(self.before(row), column) + self.row_sum(row, column) + self.row_sum(
                self.after(row),
                column,
            ),
            9,
        )
    }

    /// Sums the heights of the three nodes of one row at and beside a column.
    fn sum_of_row(&self, row: usize, column: usize) -> (sum: i64)
        requires
            self.wf(),
            row < self.rows,
            column < self.rows,
        ensures
            sum == self.row_sum(row as int, column as int),
            -3 * TRAIT_LIMIT <= sum <= 3 * TRAIT_LIMIT,
    {
        let left: usize = if column == 0 {
            self.rows - 1
        } else {
            column - 1
        };
        let right: usize = if column + 1 == self.rows {
            0
        } else {
            column + 1
        };
        self.node_height(row, left) + self.node_height(row, column) + self.node_height(
            row,
            right,
        )
    }

    /// Measures how far a node stands above the average of the nine nodes at and
    /// around it.
    pub fn local_height(&self, row: usize, column: usize) -> (height: i64)
        requires
            self.wf(),
            row < self.rows,
            column < self.rows,
        ensures
            height == self.local_height_spec(row as int, column as int),
            -2 * TRAIT_LIMIT <= height <= 2 * TRAIT_LIMIT,
    {
        let above: usize = if row == 0 {
            self.rows - 1
        } else {
            row - 1
        };
        let below: usize = if row + 1 == self.rows {
            0
        } else {
            row + 1
        };
        let total: i64 = self.sum_of_row(above, column) + self.sum_of_row(row, column)
            + self.sum_of_row(below, column);
        let average: i128 = div_toward_zero(total as i128, 9);
        proof {
            crate::fixed::lemma_trunc_div_bounds(total as int, 1_000_000, 9);
        }
        self.node_height(row, column) - average as i64
    }

    /// Builds a flat grid of the standard size at height zero.
    pub fn empty() -> (terrain: Terrain)
        ensures
            terrain.wf(),
            terrain.rows == TERRAIN_GRID_ROWS,
            forall|i: int| 0 <= i < terrain.heights@.len() ==> #[trigger] terrain.heights@[i] == 0,
    {
        let mut heights: Vec<i64> = Vec::new();
        let total: usize = TERRAIN_GRID_ROWS * TERRAIN_GRID_ROWS;
        let mut i: usize = 0;
        while i < total
            invariant
                i <= total,
                total == 10_000,
                heights@.len() == i,
                forall|k: int| 0 <= k < i ==> #[trigger] heights@[k] == 0,
            decreases total - i,
        {
            heights.push(0);
            i += 1;
        }
        Terrain { rows: TERRAIN_GRID_ROWS, heights }
    }

    /// Tests whether the grid is square, not empty, and within the limits.
    pub fn is_valid(&self) -> (ok: bool)
        ensures
            ok == self.wf(),
    {
        if self.rows < 1 || self.rows > TERRAIN_ROWS_LIMIT {
            return false;
        }
        assert(self.rows * self.rows <= 1_000_000_000_000) by (nonlinear_arith)
            requires
                1 <= self.rows <= 1_000_000,
        ;
        if (self.heights.len() as u128) != (self.rows as u128) * (self.rows as u128) {
            return false;
        }
        let mut i: usize = 0;
        while i < self.heights.len()
            invariant
                i <= self.heights@.len(),
                forall|k: int| 0 <= k < i ==> within_trait_limit((#[trigger] self.heights@[k]) as int),
            decreases self.heights@.len() - i,
        {
            if self.heights[i] < -TRAIT_LIMIT || self.heights[i] > TRAIT_LIMIT {
                return false;
            }
            i += 1;
        }
        true
    }

    /// Maps a coordinate onto the grid, which wraps around.
    fn wrap(v: i64, span: i64) -> (r: i64)
        requires
            span > 0,
        ensures
            r == (v as int) % (span as int),
            0 <= r < span,
    {
        if v >= 0 {
            v % span
        } else {
            let m: i64 = -(v + 1);
            let r: i64 = m % span;
            proof {
                let q = (m as int) / (span as int);
                vstd::arithmetic::div_mod::lemma_fundamental_div_mod(m as int, span as int);
                assert((v as int) == (-q - 1) * span + (span - 1 - r)) by (nonlinear_arith)
                    requires
                        m == span * q + r,
                        v == -m - 1,
                ;
                vstd::arithmetic::div_mod::lemma_fundamental_div_mod_converse(
                    v as int,
                    span as int,
                    -q - 1,
                    span - 1 - r,
                );
            }
            span - 1 - r
        }
    }

    /// Reads the height at a grid node.
    fn node_height(&self, row: usize, column: usize) -> (h: i64)
        requires
            self.wf(),
            row < self.rows,
            column < self.rows,
        ensures
            h == self.node(row as int, column as int),
            within_trait_limit(h as int),
    {
        assert(0 <= row * self.rows + column < self.rows * self.rows) by (nonlinear_arith)
            requires
                0 <= row < self.rows,
                0 <= column < self.rows,
        ;
        assert(0 <= row * self.rows <= row * self.rows + column) by (nonlinear_arith)
            requires
                0 <= row,
                0 <= self.rows,
                0 <= column,
        ;
        let count: usize = self.heights.len();
        assert(row * self.rows + column < count);
        let index: usize = row * self.rows + column;
        self.heights[index]
    }

    /// Blends two values.
    fn mix(a: i128, b: i128, weight: i64, Ghost(bound): Ghost<int>) -> (r: i128)
        requires
            0 <= weight < SCALE,
            0 <= bound <= 1_000_000_000,
            -bound <= a <= bound,
            -bound <= b <= bound,
        ensures
            r == blend(a as int, b as int, weight as int),
            -(bound * 1000) <= r <= bound * 1000,
    {
        assert(-(bound * (1000 - weight)) <= a * (1000 - weight) <= bound * (1000 - weight))
            by (nonlinear_arith)
            requires
                -bound <= a <= bound,
                0 <= weight < 1000,
        ;
        assert(-(bound * weight) <= b * weight <= bound * weight) by (nonlinear_arith)
            requires
                -bound <= b <= bound,
                0 <= weight < 1000,
        ;
        assert(bound * (1000 - weight) + bound * weight == bound * 1000) by (nonlinear_arith);
        assert(0 <= bound * weight <= bound * 1000) by (nonlinear_arith)
            requires
                0 <= bound,
                0 <= weight < 1000,
        ;
        assert(0 <= bound * (1000 - weight) <= bound * 1000) by (nonlinear_arith)
            requires
                0 <= bound,
                0 <= weight < 1000,
        ;
        a * ((SCALE - weight) as i128) + b * (weight as i128)
    }

    /// Samples the height at a position.
    pub fn get_height(&self, x: i64, z: i64) -> (height: i64)
        requires
            self.wf(),
        ensures
            height == self.get_height_spec(x as int, z as int),
            within_trait_limit(height as int),
    {
        assert(self.rows * SCALE == self.rows * 1000);
        let span: i64 = (self.rows as i64) * SCALE;
        let x_mapped: i64 = Self::wrap(x, span);
        let z_mapped: i64 = Self::wrap(z, span);
        let neg_x_index: usize = (x_mapped / SCALE) as usize;
        let pos_x_index: usize = (neg_x_index + 1) % self.rows;
        let x_offset: i64 = x_mapped % SCALE;
        let neg_z_index: usize = (z_mapped / SCALE) as usize;
        let pos_z_index: usize = (neg_z_index + 1) % self.rows;
        let z_offset: i64 = z_mapped % SCALE;
        let pos_x_pos_z_height: i64 = self.node_height(pos_x_index, pos_z_index);
        let neg_x_pos_z_height: i64 = self.node_height(neg_x_index, pos_z_index);
        let pos_x_neg_z_height: i64 = self.node_height(pos_x_index, neg_z_index);
        let neg_x_neg_z_height: i64 = self.node_height(neg_x_index, neg_z_index);
        let near: i128 = Self::mix(
            neg_x_neg_z_height as i128,
            pos_x_neg_z_height as i128,
            x_offset,
            Ghost(1_000_000),
        );
        let far: i128 = Self::mix(
            neg_x_pos_z_height as i128,
            pos_x_pos_z_height as i128,
            x_offset,
            Ghost(1_000_000),
        );
        let total: i128 = Self::mix(near, far, z_offset, Ghost(1_000_000_000));
        let height: i128 = div_toward_zero(total, 1_000_000);
        proof {
            crate::fixed::lemma_trunc_div_bounds(total as int, 1_000_000, 1_000_000);
        }
        height as i64
    }
}

} // verus!
