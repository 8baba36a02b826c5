//! The per-tick read views handed to an external renderer: the filled
//! mesh, the positions-only mesh for trail rendering, the two border
//! polylines, and the raw centerline. Each is a pure function of the
//! current curve and accumulator state.

use vstd::prelude::*;

use crate::mesh::BankPoint;
use crate::mesh::MeshVertex;
use crate::river::River;
use crate::vec2::Vec2Fx;

verus! {

impl River {
    /// The filled-ribbon view: colored mesh vertices and triangle indices,
    /// for the body of the stroke.
    pub fn draw_fill(&self) -> (r: (&Vec<MeshVertex>, &Vec<usize>))
        ensures
            r.0@ == self.river_builder.vertices@,
            r.1@ == self.river_builder.indices@,
    {
        (&self.river_builder.vertices, &self.river_builder.indices)
    }

    /// The trail view: mesh vertex positions without colors, plus the
    /// triangle indices, for history rendering under a caller-chosen color.
    pub fn draw_for_history(&self) -> (r: (Vec<Vec2Fx>, &Vec<usize>))
        ensures
            r.0@.len() == self.river_builder.vertices@.len(),
            forall|i: int|
                0 <= i < r.0@.len() ==> #[trigger] r.0@[i] == self.river_builder.vertices@[i].pos,
            r.1@ == self.river_builder.indices@,
    {
        let mut positions: Vec<Vec2Fx> = Vec::new();
        let mut i: usize = 0;
        let n = self.river_builder.vertices.len();
        while i < n
            invariant
                i <= n,
                n == self.river_builder.vertices@.len(),
                positions@.len() == i,
                forall|j: int|
                    0 <= j < i ==> #[trigger] positions@[j] == self.river_builder.vertices@[j].pos,
            decreases n - i,
        {
            positions.push(self.river_builder.vertices[i].pos);
            i = i + 1;
        }
        (positions, &self.river_builder.indices)
    }

    /// The border view: the positions of the left and right bank, each in
    /// the stored (sorted) arc-length order.
    pub fn draw_border(&self) -> (r: (Vec<Vec2Fx>, Vec<Vec2Fx>))
        ensures
            r.0@.len() == self.river_builder.left_bank@.len(),
            forall|i: int|
                0 <= i < r.0@.len() ==> #[trigger] r.0@[i] == self.river_builder.left_bank@[i].pos,
            r.1@.len() == self.river_builder.right_bank@.len(),
            forall|i: int|
                0 <= i < r.1@.len() ==> #[trigger] r.1@[i]
                    == self.river_builder.right_bank@[i].pos,
    {
        (Self::bank_positions(&self.river_builder.left_bank), Self::bank_positions(
            &self.river_builder.right_bank,
        ))
    }

    /// The raw centerline: start anchor, interior nodes, end anchor.
    pub fn centerline(&self) -> (r: Vec<Vec2Fx>)
        ensures
            r@.len() == self.segments@.len() + 2,
            r@[0] == self.start.loc,
            forall|j: int|
                0 <= j < self.segments@.len() ==> #[trigger] r@[j + 1] == self.segments@[j].loc,
            r@[self.segments@.len() as int + 1] == self.end.loc,
    {
        let mut line: Vec<Vec2Fx> = Vec::new();
        line.push(self.start.loc);
        let mut i: usize = 0;
        let n = self.segments.len();
        while i < n
            invariant
                i <= n,
                n == self.segments@.len(),
                line@.len() == i + 1,
                line@[0] == self.start.loc,
                forall|j: int| 0 <= j < i ==> #[trigger] line@[j + 1] == self.segments@[j].loc,
            decreases n - i,
        {
            line.push(self.segments[i].loc);
            i = i + 1;
        }
        line.push(self.end.loc);
        line
    }

    /// The positions of one bank, in stored order.
    fn bank_positions(bank: &Vec<BankPoint>) -> (r: Vec<Vec2Fx>)
        ensures
            r@.len() == bank@.len(),
            forall|i: int| 0 <= i < r@.len() ==> #[trigger] r@[i] == bank@[i].pos,
    {
        let mut positions: Vec<Vec2Fx> = Vec::new();
        let mut i: usize = 0;
        let n = bank.len();
        while i < n
            invariant
                i <= n,
                n == bank@.len(),
                positions@.len() == i,
                forall|j: int| 0 <= j < i ==> #[trigger] positions@[j] == bank@[j].pos,
            decreases n - i,
        {
            positions.push(bank[i].pos);
            i = i + 1;
        }
        positions
    }
}

} // verus!
