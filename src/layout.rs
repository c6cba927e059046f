//! The mapping from logical grid coordinates to positions in the flat storage
//! vectors, stated once per field.
//!
//! Logical coordinates start at `-1` (the ghost layer) and are shifted by one
//! before they are used as a row or column of the backing storage.

use vstd::prelude::*;

verus! {

/// Stored samples per axis of a face-centred velocity component: `n + 1`
/// faces plus one ghost sample on either side.
pub open spec fn face_extent(n: int) -> int {
    n + 3
}

/// Stored samples per axis of the cell-centred scalar: `n` cells plus one
/// ghost cell on either side.
pub open spec fn cell_extent(n: int) -> int {
    n + 2
}

/// A logical coordinate of a velocity face, ghost layer included.
pub open spec fn face_coord_ok(n: int, c: int) -> bool {
    -1 <= c <= n + 1
}

/// A logical coordinate of a scalar cell, ghost layer included.
pub open spec fn cell_coord_ok(n: int, c: int) -> bool {
    -1 <= c <= n
}

/// Position of the horizontal velocity at face `(x, y)`: stored row by row.
pub open spec fn vel_x_slot(n: int, x: int, y: int) -> int {
    (x + 1) + (y + 1) * face_extent(n)
}

/// Position of the vertical velocity at face `(x, y)`: stored column by column.
pub open spec fn vel_y_slot(n: int, x: int, y: int) -> int {
    (y + 1) + (x + 1) * face_extent(n)
}

/// Position of the scalar of cell `(x, y)`: stored row by row.
pub open spec fn temp_slot(n: int, x: int, y: int) -> int {
    (x + 1) + (y + 1) * cell_extent(n)
}

/// A cell count for which a grid can be built: positive, and small enough that
/// the largest field's storage length is a `usize`.
pub open spec fn valid_cell_count(n: int) -> bool {
    0 < n && face_extent(n) * face_extent(n) <= usize::MAX
}

/// Whether `n` is a valid cell count.
pub fn is_valid_cell_count(n: i32) -> (r: bool)
    ensures
        r == valid_cell_count(n as int),
{
    if n <= 0 {
        return false;
    }
    let e: u64 = (n as u64) + 3;
    assert(e * e <= 0x8000_0002u64 * 0x8000_0002u64) by (nonlinear_arith)
        requires
            e <= 0x8000_0002u64,
    ;
    e * e <= usize::MAX as u64
}

/// `col + row * width`, the position of a sample in row-major storage.
fn flat_index(col: usize, row: usize, width: usize, len: Ghost<int>) -> (r: usize)
    requires
        col + row * width < len@,
        len@ <= usize::MAX,
    ensures
        r == col + row * width,
{
    assert(0 <= row * width) by (nonlinear_arith)
        requires
            0 <= row,
            0 <= width,
    ;
    col + row * width
}

/// The storage position of the horizontal velocity at face `(x, y)`, or `None`
/// where a coordinate lies outside the ghost layer.
pub fn vel_x_offset(n: i32, x: i32, y: i32) -> (r: Option<usize>)
    requires
        valid_cell_count(n as int),
    ensures
        r == (if face_coord_ok(n as int, x as int) && face_coord_ok(n as int, y as int) {
            Some(vel_x_slot(n as int, x as int, y as int) as usize)
        } else {
            None::<usize>
        }),
{
    let (n, x, y) = (n as i64, x as i64, y as i64);
    if -1 <= x && x <= n + 1 && -1 <= y && y <= n + 1 {
        proof {
            lemma_face_slot(n as int, x as int, y as int);
        }
        let e = (n + 3) as usize;
        Some(flat_index((x + 1) as usize, (y + 1) as usize, e, Ghost(e * e)))
    } else {
        None
    }
}

/// The storage position of the vertical velocity at face `(x, y)`, or `None`
/// where a coordinate lies outside the ghost layer.
pub fn vel_y_offset(n: i32, x: i32, y: i32) -> (r: Option<usize>)
    requires
        valid_cell_count(n as int),
    ensures
        r == (if face_coord_ok(n as int, x as int) && face_coord_ok(n as int, y as int) {
            Some(vel_y_slot(n as int, x as int, y as int) as usize)
        } else {
            None::<usize>
        }),
{
    let (n, x, y) = (n as i64, x as i64, y as i64);
    if -1 <= x && x <= n + 1 && -1 <= y && y <= n + 1 {
        proof {
            lemma_face_slot(n as int, y as int, x as int);
        }
        let e = (n + 3) as usize;
        Some(flat_index((y + 1) as usize, (x + 1) as usize, e, Ghost(e * e)))
    } else {
        None
    }
}

/// The storage position of the scalar of cell `(x, y)`, or `None` where a
/// coordinate lies outside the ghost layer.
pub fn temp_offset(n: i32, x: i32, y: i32) -> (r: Option<usize>)
    requires
        valid_cell_count(n as int),
    ensures
        r == (if cell_coord_ok(n as int, x as int) && cell_coord_ok(n as int, y as int) {
            Some(temp_slot(n as int, x as int, y as int) as usize)
        } else {
            None::<usize>
        }),
{
    let (n, x, y) = (n as i64, x as i64, y as i64);
    if -1 <= x && x <= n && -1 <= y && y <= n {
        proof {
            lemma_cell_slot(n as int, x as int, y as int);
        }
        let e = (n + 2) as usize;
        Some(flat_index((x + 1) as usize, (y + 1) as usize, e, Ghost(e * e)))
    } else {
        None
    }
}

/// A pair of face coordinates `(a, b)` in range lands inside a storage of
/// `face_extent(n)` squared samples, and distinct pairs land apart.
pub proof fn lemma_face_slot(n: int, a: int, b: int)
    requires
        0 < n,
        face_coord_ok(n, a),
        face_coord_ok(n, b),
    ensures
        0 <= (a + 1) + (b + 1) * face_extent(n) < face_extent(n) * face_extent(n),
{
    let e = face_extent(n);
    assert(0 <= (a + 1) + (b + 1) * e < e * e) by (nonlinear_arith)
        requires
            0 <= a + 1 <= n + 2,
            0 <= b + 1 <= n + 2,
            e == n + 3,
    ;
}

/// A pair of cell coordinates in range lands inside a storage of
/// `cell_extent(n)` squared samples.
pub proof fn lemma_cell_slot(n: int, a: int, b: int)
    requires
        0 < n,
        cell_coord_ok(n, a),
        cell_coord_ok(n, b),
    ensures
        0 <= (a + 1) + (b + 1) * cell_extent(n) < cell_extent(n) * cell_extent(n),
        cell_extent(n) * cell_extent(n) < face_extent(n) * face_extent(n),
{
    let e = cell_extent(n);
    assert(0 <= (a + 1) + (b + 1) * e < e * e) by (nonlinear_arith)
        requires
            0 <= a + 1 <= n + 1,
            0 <= b + 1 <= n + 1,
            e == n + 2,
    ;
    assert(e * e < face_extent(n) * face_extent(n)) by (nonlinear_arith)
        requires
            e == n + 2,
            0 < n,
    ;
}

/// Row-major positions `a + b * w` with `0 <= a < w` are distinct for distinct
/// pairs.
pub proof fn lemma_slot_injective(w: int, a1: int, b1: int, a2: int, b2: int)
    requires
        0 <= a1 < w,
        0 <= a2 < w,
        0 <= b1,
        0 <= b2,
        a1 + b1 * w == a2 + b2 * w,
    ensures
        a1 == a2,
        b1 == b2,
{
    if b1 < b2 {
        assert(b1 * w + w <= b2 * w) by (nonlinear_arith)
            requires
                b1 < b2,
                0 < w,
        ;
    } else if b2 < b1 {
        assert(b2 * w + w <= b1 * w) by (nonlinear_arith)
            requires
                b2 < b1,
                0 < w,
        ;
    }
}

} // verus!
