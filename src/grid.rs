//! The staggered grid: two face-centred velocity components and one
//! cell-centred transported scalar, each padded with one ghost layer.

use vstd::prelude::*;
use crate::layout::{
    cell_coord_ok, cell_extent, face_coord_ok, face_extent, lemma_cell_slot, lemma_face_slot,
    lemma_slot_injective, temp_offset, temp_slot, valid_cell_count, vel_x_offset, vel_x_slot,
    vel_y_offset, vel_y_slot, is_valid_cell_count,
};

verus! {

/// Why a grid could not be built.
#[derive(Debug, Clone, Copy, PartialEq, Eq, Structural)]
pub enum GridError {
    /// The cell count is zero, negative, or too large for the storage.
    InvalidCellCount,
}

/// A staggered (MAC) grid over `cell_count` by `cell_count` cells.
///
/// `velocities_x` holds the horizontal velocity on vertical faces, row by row;
/// `velocities_y` holds the vertical velocity on horizontal faces, column by
/// column; both span the logical coordinates `-1 ..= cell_count + 1` on either
/// axis. `temperature` holds the scalar at cell centres, row by row, over
/// `-1 ..= cell_count`.
pub struct StaggeredMACGrid<T> {
    pub cell_count: i32,
    pub velocities_x: Vec<T>,
    pub velocities_y: Vec<T>,
    pub temperature: Vec<T>,
}

/// The contents of a grid: its cell count and its three storage sequences.
pub struct GridModel<T> {
    pub cell_count: int,
    pub vel_x: Seq<T>,
    pub vel_y: Seq<T>,
    pub temp: Seq<T>,
}

impl<T> View for StaggeredMACGrid<T> {
    type V = GridModel<T>;

    open spec fn view(&self) -> GridModel<T> {
        GridModel {
            cell_count: self.cell_count as int,
            vel_x: self.velocities_x@,
            vel_y: self.velocities_y@,
            temp: self.temperature@,
        }
    }
}

/// A sequence of `len` copies of `v`.
pub open spec fn uniform<T>(len: int, v: T) -> Seq<T> {
    Seq::new(len as nat, |_i: int| v)
}

/// A vector of `len` copies of `v`.
fn uniform_vec<T: Copy>(len: usize, v: T) -> (r: Vec<T>)
    ensures
        r@ == uniform(len as int, v),
{
    let mut out: Vec<T> = Vec::with_capacity(len);
    let mut i: usize = 0;
    while i < len
        invariant
            i <= len,
            out@ == uniform(i as int, v),
        decreases len - i,
    {
        out.push(v);
        i += 1;
        proof {
            assert(out@ =~= uniform(i as int, v));
        }
    }
    out
}

/// An element-by-element copy of `v`.
fn copy_vec<T: Copy>(v: &Vec<T>) -> (r: Vec<T>)
    ensures
        r@ == v@,
{
    let mut out: Vec<T> = Vec::with_capacity(v.len());
    let mut i: usize = 0;
    while i < v.len()
        invariant
            i <= v@.len(),
            out@ == v@.subrange(0, i as int),
        decreases v@.len() - i,
    {
        out.push(v[i]);
        i += 1;
        proof {
            assert(out@ =~= v@.subrange(0, i as int));
        }
    }
    proof {
        assert(v@.subrange(0, v@.len() as int) =~= v@);
    }
    out
}

/// Line `k` of a square storage of `e` by `e` samples, or `None` past the
/// last line.
fn storage_line<T>(v: &Vec<T>, k: usize, e: usize) -> (r: Option<&[T]>)
    requires
        v@.len() == e * e,
        e * e <= usize::MAX,
    ensures
        r is Some <==> k < e,
        r matches Some(s) ==> s@ == v@.subrange(k * e, (k + 1) * e),
{
    if k < e {
        assert((k + 1) * e <= e * e) by (nonlinear_arith)
            requires
                k < e,
        ;
        assert(k * e + e == (k + 1) * e) by (nonlinear_arith);
        let start = k * e;
        Some(&v.as_slice()[start..start + e])
    } else {
        None
    }
}

impl<T> StaggeredMACGrid<T> {
    /// The storage lengths match the cell count, which is valid.
    pub open spec fn wf(&self) -> bool {
        let n = self.cell_count as int;
        &&& valid_cell_count(n)
        &&& self.velocities_x@.len() == face_extent(n) * face_extent(n)
        &&& self.velocities_y@.len() == face_extent(n) * face_extent(n)
        &&& self.temperature@.len() == cell_extent(n) * cell_extent(n)
    }

    /// The horizontal velocity stored at face `(x, y)`.
    pub open spec fn vel_x_at(&self, x: int, y: int) -> T {
        self.velocities_x@[vel_x_slot(self.cell_count as int, x, y)]
    }

    /// The vertical velocity stored at face `(x, y)`.
    pub open spec fn vel_y_at(&self, x: int, y: int) -> T {
        self.velocities_y@[vel_y_slot(self.cell_count as int, x, y)]
    }

    /// The scalar stored in cell `(x, y)`.
    pub open spec fn temp_at(&self, x: int, y: int) -> T {
        self.temperature@[temp_slot(self.cell_count as int, x, y)]
    }

    /// `(x, y)` names a velocity face of this grid, ghost layer included.
    pub open spec fn face_ok(&self, x: int, y: int) -> bool {
        face_coord_ok(self.cell_count as int, x) && face_coord_ok(self.cell_count as int, y)
    }

    /// `(x, y)` names a scalar cell of this grid, ghost layer included.
    pub open spec fn cell_ok(&self, x: int, y: int) -> bool {
        cell_coord_ok(self.cell_count as int, x) && cell_coord_ok(self.cell_count as int, y)
    }
}

impl<T: Copy> StaggeredMACGrid<T> {
    /// A grid of `cell_count` by `cell_count` cells in which every stored
    /// sample, ghost layer included, is `zero`.
    pub fn new(cell_count: i32, zero: T) -> (r: Result<Self, GridError>)
        ensures
            r is Err <==> !valid_cell_count(cell_count as int),
            r is Err ==> r == Err::<Self, GridError>(GridError::InvalidCellCount),
            r matches Ok(g) ==> {
                &&& g.wf()
                &&& g.cell_count == cell_count
                &&& g.velocities_x@ == uniform(g.velocities_x@.len() as int, zero)
                &&& g.velocities_y@ == uniform(g.velocities_y@.len() as int, zero)
                &&& g.temperature@ == uniform(g.temperature@.len() as int, zero)
            },
            r matches Ok(g) ==> {
                &&& forall|x: int, y: int| g.face_ok(x, y) ==> #[trigger] g.vel_x_at(x, y) == zero
                &&& forall|x: int, y: int| g.face_ok(x, y) ==> #[trigger] g.vel_y_at(x, y) == zero
                &&& forall|x: int, y: int| g.cell_ok(x, y) ==> #[trigger] g.temp_at(x, y) == zero
            },
    {
        if !is_valid_cell_count(cell_count) {
            return Err(GridError::InvalidCellCount);
        }
        let faces = (cell_count as usize) + 3;
        let cells = (cell_count as usize) + 2;
        proof {
            let n = cell_count as int;
            assert(cells * cells <= faces * faces) by (nonlinear_arith)
                requires
                    0 < cells <= faces,
            ;
        }
        let g = StaggeredMACGrid {
            cell_count,
            velocities_x: uniform_vec(faces * faces, zero),
            velocities_y: uniform_vec(faces * faces, zero),
            temperature: uniform_vec(cells * cells, zero),
        };
        proof {
            let n = cell_count as int;
            assert forall|x: int, y: int| g.face_ok(x, y) implies #[trigger] g.vel_x_at(x, y) == zero by {
                lemma_face_slot(n, x, y);
            }
            assert forall|x: int, y: int| g.face_ok(x, y) implies #[trigger] g.vel_y_at(x, y) == zero by {
                lemma_face_slot(n, y, x);
            }
            assert forall|x: int, y: int| g.cell_ok(x, y) implies #[trigger] g.temp_at(x, y) == zero by {
                lemma_cell_slot(n, x, y);
            }
        }
        Ok(g)
    }

    /// Whether the storage lengths match a valid cell count, that is whether
    /// `wf` holds; the fields are public, so a caller can check this before
    /// handing a grid over.
    pub fn is_well_formed(&self) -> (r: bool)
        ensures
            r == self.wf(),
    {
        if !is_valid_cell_count(self.cell_count) {
            return false;
        }
        let faces = (self.cell_count as usize) + 3;
        let cells = (self.cell_count as usize) + 2;
        proof {
            assert(cells * cells <= faces * faces) by (nonlinear_arith)
                requires
                    0 < cells <= faces,
            ;
        }
        self.velocities_x.len() == faces * faces && self.velocities_y.len() == faces * faces
            && self.temperature.len() == cells * cells
    }

    /// The horizontal velocity at face `(x, y)`.
    pub fn vel_x_grid(&self, x: i32, y: i32) -> (r: T)
        requires
            self.wf(),
            self.face_ok(x as int, y as int),
        ensures
            r == self.vel_x_at(x as int, y as int),
    {
        proof {
            lemma_face_slot(self.cell_count as int, x as int, y as int);
        }
        let i = vel_x_offset(self.cell_count, x, y).unwrap();
        self.velocities_x[i]
    }

    /// The horizontal velocity at face `(x, y)`, for writing.
    pub fn vel_x_grid_mut(&mut self, x: i32, y: i32) -> (r: &mut T)
        requires
            old(self).wf(),
            old(self).face_ok(x as int, y as int),
        ensures
            *r == old(self).vel_x_at(x as int, y as int),
            final(self).cell_count == old(self).cell_count,
            final(self).velocities_x@ == old(self).velocities_x@.update(
                vel_x_slot(old(self).cell_count as int, x as int, y as int),
                *final(r),
            ),
            final(self).velocities_y == old(self).velocities_y,
            final(self).temperature == old(self).temperature,
    {
        proof {
            lemma_face_slot(self.cell_count as int, x as int, y as int);
        }
        let i = vel_x_offset(self.cell_count, x, y).unwrap();
        &mut self.velocities_x[i]
    }

    /// The vertical velocity at face `(x, y)`.
    pub fn vel_y_grid(&self, x: i32, y: i32) -> (r: T)
        requires
            self.wf(),
            self.face_ok(x as int, y as int),
        ensures
            r == self.vel_y_at(x as int, y as int),
    {
        proof {
            lemma_face_slot(self.cell_count as int, y as int, x as int);
        }
        let i = vel_y_offset(self.cell_count, x, y).unwrap();
        self.velocities_y[i]
    }

    /// The vertical velocity at face `(x, y)`, for writing.
    pub fn vel_y_grid_mut(&mut self, x: i32, y: i32) -> (r: &mut T)
        requires
            old(self).wf(),
            old(self).face_ok(x as int, y as int),
        ensures
            *r == old(self).vel_y_at(x as int, y as int),
            final(self).cell_count == old(self).cell_count,
            final(self).velocities_x == old(self).velocities_x,
            final(self).velocities_y@ == old(self).velocities_y@.update(
                vel_y_slot(old(self).cell_count as int, x as int, y as int),
                *final(r),
            ),
            final(self).temperature == old(self).temperature,
    {
        proof {
            lemma_face_slot(self.cell_count as int, y as int, x as int);
        }
        let i = vel_y_offset(self.cell_count, x, y).unwrap();
        &mut self.velocities_y[i]
    }

    /// The scalar of cell `(x, y)`.
    pub fn temp_grid(&self, x: i32, y: i32) -> (r: T)
        requires
            self.wf(),
            self.cell_ok(x as int, y as int),
        ensures
            r == self.temp_at(x as int, y as int),
    {
        proof {
            lemma_cell_slot(self.cell_count as int, x as int, y as int);
        }
        let i = temp_offset(self.cell_count, x, y).unwrap();
        self.temperature[i]
    }

    /// The scalar of cell `(x, y)`, for writing.
    pub fn temp_grid_mut(&mut self, x: i32, y: i32) -> (r: &mut T)
        requires
            old(self).wf(),
            old(self).cell_ok(x as int, y as int),
        ensures
            *r == old(self).temp_at(x as int, y as int),
            final(self).cell_count == old(self).cell_count,
            final(self).velocities_x == old(self).velocities_x,
            final(self).velocities_y == old(self).velocities_y,
            final(self).temperature@ == old(self).temperature@.update(
                temp_slot(old(self).cell_count as int, x as int, y as int),
                *final(r),
            ),
    {
        proof {
            lemma_cell_slot(self.cell_count as int, x as int, y as int);
        }
        let i = temp_offset(self.cell_count, x, y).unwrap();
        &mut self.temperature[i]
    }

    /// The horizontal velocity at face `(x, y)`, or `None` where `(x, y)` lies
    /// outside the ghost layer.
    pub fn checked_vel_x_grid(&self, x: i32, y: i32) -> (r: Option<T>)
        requires
            self.wf(),
        ensures
            r == (if self.face_ok(x as int, y as int) {
                Some(self.vel_x_at(x as int, y as int))
            } else {
                None::<T>
            }),
    {
        match vel_x_offset(self.cell_count, x, y) {
            Some(i) => {
                proof {
                    lemma_face_slot(self.cell_count as int, x as int, y as int);
                }
                Some(self.velocities_x[i])
            },
            None => None,
        }
    }

    /// The vertical velocity at face `(x, y)`, or `None` where `(x, y)` lies
    /// outside the ghost layer.
    pub fn checked_vel_y_grid(&self, x: i32, y: i32) -> (r: Option<T>)
        requires
            self.wf(),
        ensures
            r == (if self.face_ok(x as int, y as int) {
                Some(self.vel_y_at(x as int, y as int))
            } else {
                None::<T>
            }),
    {
        match vel_y_offset(self.cell_count, x, y) {
            Some(i) => {
                proof {
                    lemma_face_slot(self.cell_count as int, y as int, x as int);
                }
                Some(self.velocities_y[i])
            },
            None => None,
        }
    }

    /// The scalar of cell `(x, y)`, or `None` where `(x, y)` lies outside the
    /// ghost layer.
    pub fn checked_temp_grid(&self, x: i32, y: i32) -> (r: Option<T>)
        requires
            self.wf(),
        ensures
            r == (if self.cell_ok(x as int, y as int) {
                Some(self.temp_at(x as int, y as int))
            } else {
                None::<T>
            }),
    {
        match temp_offset(self.cell_count, x, y) {
            Some(i) => {
                proof {
                    lemma_cell_slot(self.cell_count as int, x as int, y as int);
                }
                Some(self.temperature[i])
            },
            None => None,
        }
    }

    /// Storage row `row` of the horizontal velocity (logical row `row - 1`),
    /// or `None` past the last row.
    pub fn vel_x_row(&self, row: usize) -> (r: Option<&[T]>)
        requires
            self.wf(),
        ensures
            r is Some <==> row < face_extent(self.cell_count as int),
            r matches Some(s) ==> s@ == self.velocities_x@.subrange(
                row * face_extent(self.cell_count as int),
                (row + 1) * face_extent(self.cell_count as int),
            ),
    {
        let e = (self.cell_count as usize) + 3;
        storage_line(&self.velocities_x, row, e)
    }

    /// Storage column `col` of the vertical velocity (logical column
    /// `col - 1`), or `None` past the last column.
    pub fn vel_y_column(&self, col: usize) -> (r: Option<&[T]>)
        requires
            self.wf(),
        ensures
            r is Some <==> col < face_extent(self.cell_count as int),
            r matches Some(s) ==> s@ == self.velocities_y@.subrange(
                col * face_extent(self.cell_count as int),
                (col + 1) * face_extent(self.cell_count as int),
            ),
    {
        let e = (self.cell_count as usize) + 3;
        storage_line(&self.velocities_y, col, e)
    }

    /// Storage row `row` of the scalar (logical row `row - 1`), or `None`
    /// past the last row.
    pub fn temp_row(&self, row: usize) -> (r: Option<&[T]>)
        requires
            self.wf(),
        ensures
            r is Some <==> row < cell_extent(self.cell_count as int),
            r matches Some(s) ==> s@ == self.temperature@.subrange(
                row * cell_extent(self.cell_count as int),
                (row + 1) * cell_extent(self.cell_count as int),
            ),
    {
        proof {
            lemma_cell_slot(self.cell_count as int, -1, -1);
        }
        let e = (self.cell_count as usize) + 2;
        storage_line(&self.temperature, row, e)
    }
}

impl<T> StaggeredMACGrid<T> {
    /// Writing the horizontal velocity of one face, as `vel_x_grid_mut` does,
    /// changes that face alone: it reads back as the written value, and every
    /// other face of that component reads as before.
    pub proof fn lemma_vel_x_write(before: Self, after: Self, x: int, y: int, v: T)
        requires
            before.wf(),
            before.face_ok(x, y),
            after.cell_count == before.cell_count,
            after.velocities_x@ == before.velocities_x@.update(
                vel_x_slot(before.cell_count as int, x, y),
                v,
            ),
            after.velocities_y == before.velocities_y,
            after.temperature == before.temperature,
        ensures
            after.wf(),
            after.vel_x_at(x, y) == v,
            forall|a: int, b: int|
                after.face_ok(a, b) && (a != x || b != y) ==> #[trigger] after.vel_x_at(a, b)
                    == before.vel_x_at(a, b),
    {
        let n = before.cell_count as int;
        lemma_face_slot(n, x, y);
        assert forall|a: int, b: int|
            after.face_ok(a, b) && (a != x || b != y) implies #[trigger] after.vel_x_at(a, b)
                == before.vel_x_at(a, b) by {
            lemma_face_slot(n, a, b);
            if vel_x_slot(n, a, b) == vel_x_slot(n, x, y) {
                lemma_slot_injective(face_extent(n), a + 1, b + 1, x + 1, y + 1);
            }
        }
    }

    /// Writing the vertical velocity of one face, as `vel_y_grid_mut` does,
    /// changes that face alone.
    pub proof fn lemma_vel_y_write(before: Self, after: Self, x: int, y: int, v: T)
        requires
            before.wf(),
            before.face_ok(x, y),
            after.cell_count == before.cell_count,
            after.velocities_x == before.velocities_x,
            after.velocities_y@ == before.velocities_y@.update(
                vel_y_slot(before.cell_count as int, x, y),
                v,
            ),
            after.temperature == before.temperature,
        ensures
            after.wf(),
            after.vel_y_at(x, y) == v,
            forall|a: int, b: int|
                after.face_ok(a, b) && (a != x || b != y) ==> #[trigger] after.vel_y_at(a, b)
                    == before.vel_y_at(a, b),
    {
        let n = before.cell_count as int;
        lemma_face_slot(n, y, x);
        assert forall|a: int, b: int|
            after.face_ok(a, b) && (a != x || b != y) implies #[trigger] after.vel_y_at(a, b)
                == before.vel_y_at(a, b) by {
            lemma_face_slot(n, b, a);
            if vel_y_slot(n, a, b) == vel_y_slot(n, x, y) {
                lemma_slot_injective(face_extent(n), b + 1, a + 1, y + 1, x + 1);
            }
        }
    }

    /// Writing the scalar of one cell, as `temp_grid_mut` does, changes that
    /// cell alone.
    pub proof fn lemma_temp_write(before: Self, after: Self, x: int, y: int, v: T)
        requires
            before.wf(),
            before.cell_ok(x, y),
            after.cell_count == before.cell_count,
            after.velocities_x == before.velocities_x,
            after.velocities_y == before.velocities_y,
            after.temperature@ == before.temperature@.update(
                temp_slot(before.cell_count as int, x, y),
                v,
            ),
        ensures
            after.wf(),
            after.temp_at(x, y) == v,
            forall|a: int, b: int|
                after.cell_ok(a, b) && (a != x || b != y) ==> #[trigger] after.temp_at(a, b)
                    == before.temp_at(a, b),
    {
        let n = before.cell_count as int;
        lemma_cell_slot(n, x, y);
        assert forall|a: int, b: int|
            after.cell_ok(a, b) && (a != x || b != y) implies #[trigger] after.temp_at(a, b)
                == before.temp_at(a, b) by {
            lemma_cell_slot(n, a, b);
            if temp_slot(n, a, b) == temp_slot(n, x, y) {
                lemma_slot_injective(cell_extent(n), a + 1, b + 1, x + 1, y + 1);
            }
        }
    }
}

impl<T: Copy> Clone for StaggeredMACGrid<T> {
    /// A deep copy: the copy holds storage of its own with the same contents.
    fn clone(&self) -> (r: Self)
        ensures
            r@ == self@,
    {
        StaggeredMACGrid {
            cell_count: self.cell_count,
            velocities_x: copy_vec(&self.velocities_x),
            velocities_y: copy_vec(&self.velocities_y),
            temperature: copy_vec(&self.temperature),
        }
    }
}

} // verus!
