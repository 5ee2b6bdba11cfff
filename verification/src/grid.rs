//! A square grid laid over the world: snapping positions to the nearest
//! cell corner and the grid's overall measurements.

use vstd::prelude::*;

use crate::fx::{Vec2Fx, s_abs};

verus! {

/// The nearest multiple: `a / b` rounded half away from zero.
pub open spec fn s_round_div(a: int, b: int) -> int {
    if a >= 0 {
        (a + b / 2) / b
    } else {
        -((-a + b / 2) / b)
    }
}

/// A square grid: the side of one cell, how many cells each way, how many
/// subdivisions each cell carries.
#[derive(Debug, Clone, Copy, PartialEq, Eq)]
pub struct Grid {
    pub cell_size: i64,
    pub cell_count: (u32, u32),
    pub cell_subdivision: u32,
}

impl Grid {
    /// Whether the grid's measurements are in working bounds.
    pub open spec fn wf(self) -> bool {
        1 <= self.cell_size <= 1_000_000_000_000 && self.cell_count.0 <= 1_000_000
            && self.cell_count.1 <= 1_000_000
    }

    /// The cell corner nearest to `pos`, as whole cell indices.
    pub fn get_closest_discrete_position(&self, pos: Vec2Fx) -> (r: (i64, i64))
        requires
            self.wf(),
            s_abs(pos.x as int) <= 1_000_000_000_000_000_000,
            s_abs(pos.y as int) <= 1_000_000_000_000_000_000,
        ensures
            r.0 as int == s_round_div(pos.x as int, self.cell_size as int),
            r.1 as int == s_round_div(pos.y as int, self.cell_size as int),
    {
        (round_div(pos.x, self.cell_size), round_div(pos.y, self.cell_size))
    }

    /// The cell corner nearest to `pos`, back in world coordinates.
    pub fn get_closest_position(&self, pos: Vec2Fx) -> (r: Vec2Fx)
        requires
            self.wf(),
            s_abs(pos.x as int) <= 1_000_000_000_000_000_000,
            s_abs(pos.y as int) <= 1_000_000_000_000_000_000,
        ensures
            r.x as int == s_round_div(pos.x as int, self.cell_size as int) * self.cell_size,
            r.y as int == s_round_div(pos.y as int, self.cell_size as int) * self.cell_size,
    {
        let (x, y) = self.get_closest_discrete_position(pos);
        proof {
            lemma_round_div_bound(pos.x as int, self.cell_size as int);
            lemma_round_div_bound(pos.y as int, self.cell_size as int);
            crate::fx::lemma_abs_mul(x as int, self.cell_size as int);
            crate::fx::lemma_abs_mul(y as int, self.cell_size as int);
        }
        Vec2Fx { x: x * self.cell_size, y: y * self.cell_size }
    }

    /// The grid's width: the cell side times the horizontal cell count.
    pub fn width(&self) -> (r: i64)
        requires
            self.wf(),
        ensures
            r as int == self.cell_size * self.cell_count.0,
    {
        proof {
            crate::fx::lemma_mag_product_bound(
                self.cell_size as int,
                self.cell_count.0 as int,
                1_000_000_000_000,
                1_000_000,
            );
            crate::fx::lemma_mul_sign(self.cell_size as int, self.cell_count.0 as int);
        }
        self.cell_size * (self.cell_count.0 as i64)
    }

    /// The grid's height: the cell side times the vertical cell count.
    pub fn height(&self) -> (r: i64)
        requires
            self.wf(),
        ensures
            r as int == self.cell_size * self.cell_count.1,
    {
        proof {
            crate::fx::lemma_mag_product_bound(
                self.cell_size as int,
                self.cell_count.1 as int,
                1_000_000_000_000,
                1_000_000,
            );
            crate::fx::lemma_mul_sign(self.cell_size as int, self.cell_count.1 as int);
        }
        self.cell_size * (self.cell_count.1 as i64)
    }

    /// The grid's overall size, width by height.
    pub fn size(&self) -> (r: Vec2Fx)
        requires
            self.wf(),
        ensures
            r.x as int == self.cell_size * self.cell_count.0,
            r.y as int == self.cell_size * self.cell_count.1,
    {
        Vec2Fx { x: self.width(), y: self.height() }
    }

    /// The spacing of subdivision lines within one cell.
    pub fn subdivision_offset(&self) -> (r: i64)
        requires
            self.wf(),
            self.cell_subdivision >= 1,
        ensures
            r as int == self.cell_size as int / self.cell_subdivision as int,
    {
        self.cell_size / (self.cell_subdivision as i64)
    }
}

/// Division rounded half away from zero, exactly `s_round_div`.
fn round_div(a: i64, b: i64) -> (r: i64)
    requires
        1 <= b <= 1_000_000_000_000,
        s_abs(a as int) <= 1_000_000_000_000_000_000,
    ensures
        r as int == s_round_div(a as int, b as int),
        s_abs(r as int) <= 2_000_000_000_000_000_000,
{
    proof {
        lemma_round_div_bound(a as int, b as int);
    }
    if a >= 0 {
        (a + b / 2) / b
    } else {
        let mag: i64 = (-a) + b / 2;
        -(mag / b)
    }
}

/// The rounded quotient's magnitude stays within twice the dividend's
/// magnitude bound.
proof fn lemma_round_div_bound(a: int, b: int)
    by (nonlinear_arith)
    requires
        1 <= b <= 1_000_000_000_000,
        s_abs(a) <= 1_000_000_000_000_000_000,
    ensures
        s_abs(s_round_div(a, b)) <= 2_000_000_000_000_000_000,
        s_abs(s_round_div(a, b)) * b <= s_abs(a) + b,
        s_round_div(a, b) == if a >= 0 {
            (a + b / 2) / b
        } else {
            -((-a + b / 2) / b)
        },
{
}

} // verus!
