//! The semi-Lagrangian advection step: every interior sample of a new grid is
//! taken from the previous grid at the position traced back along the flow,
//! and the new grid replaces the previous one only once it is complete.

use vstd::prelude::*;
use chrono::NaiveTime;
use crate::clock::{is_step_due, local_time_now, millis_between};
use crate::grid::StaggeredMACGrid;

verus! {

/// Which stored field a sample is taken for.
#[derive(Debug, Clone, Copy, PartialEq, Eq, Structural)]
pub enum Component {
    /// The horizontal velocity, on vertical faces.
    VelocityX,
    /// The vertical velocity, on horizontal faces.
    VelocityY,
    /// The transported scalar, at cell centres.
    Scalar,
}

/// The horizontal velocity of face `(x, y)` is advected: `x` runs over the
/// `n + 1` interior face columns, `y` over the `n` cell rows.
pub open spec fn is_vel_x_target(n: int, x: int, y: int) -> bool {
    0 <= x <= n && 0 <= y < n
}

/// The vertical velocity of face `(x, y)` is advected: `x` runs over the `n`
/// cell columns, `y` over the `n + 1` interior face rows.
pub open spec fn is_vel_y_target(n: int, x: int, y: int) -> bool {
    0 <= x < n && 0 <= y <= n
}

/// The scalar of cell `(x, y)` is advected: both run over the `n` cells.
pub open spec fn is_temp_target(n: int, x: int, y: int) -> bool {
    0 <= x < n && 0 <= y < n
}

/// `sample` may return `v` for the horizontal velocity of face `(x, y)` of
/// `src`, which sits at the physical position `(x, y + 1/2)`, handed over in
/// half cells.
pub open spec fn sampled_vel_x<T, F: Fn(&StaggeredMACGrid<T>, Component, i64, i64) -> T>(
    sample: F,
    src: StaggeredMACGrid<T>,
    x: int,
    y: int,
    v: T,
) -> bool {
    sample.ensures((&src, Component::VelocityX, (2 * x) as i64, (2 * y + 1) as i64), v)
}

/// `sample` may return `v` for the vertical velocity of face `(x, y)` of
/// `src`, which sits at the physical position `(x + 1/2, y)`.
pub open spec fn sampled_vel_y<T, F: Fn(&StaggeredMACGrid<T>, Component, i64, i64) -> T>(
    sample: F,
    src: StaggeredMACGrid<T>,
    x: int,
    y: int,
    v: T,
) -> bool {
    sample.ensures((&src, Component::VelocityY, (2 * x + 1) as i64, (2 * y) as i64), v)
}

/// `sample` may return `v` for the scalar of cell `(x, y)` of `src`, whose
/// centre sits at the physical position `(x + 1/2, y + 1/2)`.
pub open spec fn sampled_temp<T, F: Fn(&StaggeredMACGrid<T>, Component, i64, i64) -> T>(
    sample: F,
    src: StaggeredMACGrid<T>,
    x: int,
    y: int,
    v: T,
) -> bool {
    sample.ensures((&src, Component::Scalar, (2 * x + 1) as i64, (2 * y + 1) as i64), v)
}

/// `sample` may be called on `src` at any position.
pub open spec fn samples_anywhere<T, F: Fn(&StaggeredMACGrid<T>, Component, i64, i64) -> T>(
    sample: F,
    src: StaggeredMACGrid<T>,
) -> bool {
    forall|c: Component, px: i64, py: i64| sample.requires((&src, c, px, py))
}

/// Fills the advected horizontal velocities of `dst` from `src`.
fn advect_vel_x<T: Copy, F: Fn(&StaggeredMACGrid<T>, Component, i64, i64) -> T>(
    src: &StaggeredMACGrid<T>,
    dst: &mut StaggeredMACGrid<T>,
    sample: &F,
)
    requires
        src.wf(),
        old(dst).wf(),
        old(dst).cell_count == src.cell_count,
        old(dst).velocities_x@ == src.velocities_x@,
        samples_anywhere(*sample, *src),
    ensures
        final(dst).wf(),
        final(dst).cell_count == src.cell_count,
        final(dst).velocities_y == old(dst).velocities_y,
        final(dst).temperature == old(dst).temperature,
        forall|x: int, y: int|
            #![trigger final(dst).vel_x_at(x, y)]
            src.face_ok(x, y) ==> if is_vel_x_target(src.cell_count as int, x, y) {
                sampled_vel_x(*sample, *src, x, y, final(dst).vel_x_at(x, y))
            } else {
                final(dst).vel_x_at(x, y) == src.vel_x_at(x, y)
            },
{
    let n = src.cell_count as i64;
    let ghost start = *dst;
    let mut row: i64 = 0;
    while row < n
        invariant
            src.wf(),
            samples_anywhere(*sample, *src),
            0 <= row <= n,
            dst.wf(),
            dst.cell_count == n,
            n == src.cell_count,
            dst.velocities_y == start.velocities_y,
            dst.temperature == start.temperature,
            forall|x: int, y: int|
                #![trigger dst.vel_x_at(x, y)]
                src.face_ok(x, y) ==> if is_vel_x_target(n as int, x, y) && y < row {
                    sampled_vel_x(*sample, *src, x, y, dst.vel_x_at(x, y))
                } else {
                    dst.vel_x_at(x, y) == src.vel_x_at(x, y)
                },
        decreases n - row,
    {
        let mut col: i64 = 0;
        while col <= n
            invariant
                src.wf(),
                samples_anywhere(*sample, *src),
                    0 <= row < n,
                0 <= col <= n + 1,
                dst.wf(),
                dst.cell_count == n,
                n == src.cell_count,
                dst.velocities_y == start.velocities_y,
                dst.temperature == start.temperature,
                forall|x: int, y: int|
                    #![trigger dst.vel_x_at(x, y)]
                    src.face_ok(x, y) ==> if is_vel_x_target(n as int, x, y) && (y < row || (y
                        == row && x < col)) {
                        sampled_vel_x(*sample, *src, x, y, dst.vel_x_at(x, y))
                    } else {
                        dst.vel_x_at(x, y) == src.vel_x_at(x, y)
                    },
            decreases n + 1 - col,
        {
            let v = sample(src, Component::VelocityX, 2 * col, 2 * row + 1);
            let ghost before = *dst;
            *dst.vel_x_grid_mut(col as i32, row as i32) = v;
            proof {
                StaggeredMACGrid::lemma_vel_x_write(before, *dst, col as int, row as int, v);
            }
            col += 1;
        }
        row += 1;
    }
}

/// Fills the advected vertical velocities of `dst` from `src`.
fn advect_vel_y<T: Copy, F: Fn(&StaggeredMACGrid<T>, Component, i64, i64) -> T>(
    src: &StaggeredMACGrid<T>,
    dst: &mut StaggeredMACGrid<T>,
    sample: &F,
)
    requires
        src.wf(),
        old(dst).wf(),
        old(dst).cell_count == src.cell_count,
        old(dst).velocities_y@ == src.velocities_y@,
        samples_anywhere(*sample, *src),
    ensures
        final(dst).wf(),
        final(dst).cell_count == src.cell_count,
        final(dst).velocities_x == old(dst).velocities_x,
        final(dst).temperature == old(dst).temperature,
        forall|x: int, y: int|
            #![trigger final(dst).vel_y_at(x, y)]
            src.face_ok(x, y) ==> if is_vel_y_target(src.cell_count as int, x, y) {
                sampled_vel_y(*sample, *src, x, y, final(dst).vel_y_at(x, y))
            } else {
                final(dst).vel_y_at(x, y) == src.vel_y_at(x, y)
            },
{
    let n = src.cell_count as i64;
    let ghost start = *dst;
    let mut row: i64 = 0;
    while row < n
        invariant
            src.wf(),
            samples_anywhere(*sample, *src),
            0 <= row <= n,
            dst.wf(),
            dst.cell_count == n,
            n == src.cell_count,
            dst.velocities_x == start.velocities_x,
            dst.temperature == start.temperature,
            forall|x: int, y: int|
                #![trigger dst.vel_y_at(x, y)]
                src.face_ok(x, y) ==> if is_vel_y_target(n as int, x, y) && x < row {
                    sampled_vel_y(*sample, *src, x, y, dst.vel_y_at(x, y))
                } else {
                    dst.vel_y_at(x, y) == src.vel_y_at(x, y)
                },
        decreases n - row,
    {
        let mut col: i64 = 0;
        while col <= n
            invariant
                src.wf(),
                samples_anywhere(*sample, *src),
                    0 <= row < n,
                0 <= col <= n + 1,
                dst.wf(),
                dst.cell_count == n,
                n == src.cell_count,
                dst.velocities_x == start.velocities_x,
                dst.temperature == start.temperature,
                forall|x: int, y: int|
                    #![trigger dst.vel_y_at(x, y)]
                    src.face_ok(x, y) ==> if is_vel_y_target(n as int, x, y) && (x < row || (x
                        == row && y < col)) {
                        sampled_vel_y(*sample, *src, x, y, dst.vel_y_at(x, y))
                    } else {
                        dst.vel_y_at(x, y) == src.vel_y_at(x, y)
                    },
            decreases n + 1 - col,
        {
            let v = sample(src, Component::VelocityY, 2 * row + 1, 2 * col);
            let ghost before = *dst;
            *dst.vel_y_grid_mut(row as i32, col as i32) = v;
            proof {
                StaggeredMACGrid::lemma_vel_y_write(before, *dst, row as int, col as int, v);
            }
            col += 1;
        }
        row += 1;
    }
}

/// Fills the advected scalars of `dst` from `src`.
fn advect_temp<T: Copy, F: Fn(&StaggeredMACGrid<T>, Component, i64, i64) -> T>(
    src: &StaggeredMACGrid<T>,
    dst: &mut StaggeredMACGrid<T>,
    sample: &F,
)
    requires
        src.wf(),
        old(dst).wf(),
        old(dst).cell_count == src.cell_count,
        old(dst).temperature@ == src.temperature@,
        samples_anywhere(*sample, *src),
    ensures
        final(dst).wf(),
        final(dst).cell_count == src.cell_count,
        final(dst).velocities_x == old(dst).velocities_x,
        final(dst).velocities_y == old(dst).velocities_y,
        forall|x: int, y: int|
            #![trigger final(dst).temp_at(x, y)]
            src.cell_ok(x, y) ==> if is_temp_target(src.cell_count as int, x, y) {
                sampled_temp(*sample, *src, x, y, final(dst).temp_at(x, y))
            } else {
                final(dst).temp_at(x, y) == src.temp_at(x, y)
            },
{
    let n = src.cell_count as i64;
    let ghost start = *dst;
    let mut row: i64 = 0;
    while row < n
        invariant
            src.wf(),
            samples_anywhere(*sample, *src),
            0 <= row <= n,
            dst.wf(),
            dst.cell_count == n,
            n == src.cell_count,
            dst.velocities_x == start.velocities_x,
            dst.velocities_y == start.velocities_y,
            forall|x: int, y: int|
                #![trigger dst.temp_at(x, y)]
                src.cell_ok(x, y) ==> if is_temp_target(n as int, x, y) && y < row {
                    sampled_temp(*sample, *src, x, y, dst.temp_at(x, y))
                } else {
                    dst.temp_at(x, y) == src.temp_at(x, y)
                },
        decreases n - row,
    {
        let mut col: i64 = 0;
        while col < n
            invariant
                src.wf(),
                samples_anywhere(*sample, *src),
                    0 <= row < n,
                0 <= col <= n,
                dst.wf(),
                dst.cell_count == n,
                n == src.cell_count,
                dst.velocities_x == start.velocities_x,
                dst.velocities_y == start.velocities_y,
                forall|x: int, y: int|
                    #![trigger dst.temp_at(x, y)]
                    src.cell_ok(x, y) ==> if is_temp_target(n as int, x, y) && (y < row || (y
                        == row && x < col)) {
                        sampled_temp(*sample, *src, x, y, dst.temp_at(x, y))
                    } else {
                        dst.temp_at(x, y) == src.temp_at(x, y)
                    },
            decreases n - col,
        {
            let v = sample(src, Component::Scalar, 2 * col + 1, 2 * row + 1);
            let ghost before = *dst;
            *dst.temp_grid_mut(col as i32, row as i32) = v;
            proof {
                StaggeredMACGrid::lemma_temp_write(before, *dst, col as int, row as int, v);
            }
            col += 1;
        }
        row += 1;
    }
}

/// `next` is a grid that one advection step may build from `prev` with
/// `sample`: the same shape; every advected sample is one that `sample` may
/// return for it on `prev`; every other sample, the ghost layer included, is
/// kept.
pub open spec fn advected<T, F: Fn(&StaggeredMACGrid<T>, Component, i64, i64) -> T>(
    prev: StaggeredMACGrid<T>,
    next: StaggeredMACGrid<T>,
    sample: F,
) -> bool {
    let n = prev.cell_count as int;
    &&& next.wf()
    &&& next.cell_count == prev.cell_count
    &&& forall|x: int, y: int|
        #![trigger next.vel_x_at(x, y)]
        prev.face_ok(x, y) ==> if is_vel_x_target(n, x, y) {
            sampled_vel_x(sample, prev, x, y, next.vel_x_at(x, y))
        } else {
            next.vel_x_at(x, y) == prev.vel_x_at(x, y)
        }
    &&& forall|x: int, y: int|
        #![trigger next.vel_y_at(x, y)]
        prev.face_ok(x, y) ==> if is_vel_y_target(n, x, y) {
            sampled_vel_y(sample, prev, x, y, next.vel_y_at(x, y))
        } else {
            next.vel_y_at(x, y) == prev.vel_y_at(x, y)
        }
    &&& forall|x: int, y: int|
        #![trigger next.temp_at(x, y)]
        prev.cell_ok(x, y) ==> if is_temp_target(n, x, y) {
            sampled_temp(sample, prev, x, y, next.temp_at(x, y))
        } else {
            next.temp_at(x, y) == prev.temp_at(x, y)
        }
}

/// The grid that one advection step builds from `prev`: a copy of it whose
/// advected samples are taken from `sample` called on `prev`. `prev` is read
/// only, so no sample depends on another sample of the same step.
pub fn advect_grid<T: Copy, F: Fn(&StaggeredMACGrid<T>, Component, i64, i64) -> T>(
    prev: &StaggeredMACGrid<T>,
    sample: F,
) -> (next: StaggeredMACGrid<T>)
    requires
        prev.wf(),
        samples_anywhere(sample, *prev),
    ensures
        advected(*prev, next, sample),
{
    let mut next = prev.clone();
    advect_vel_x(prev, &mut next, &sample);
    let ghost with_x = next;
    advect_vel_y(prev, &mut next, &sample);
    let ghost with_xy = next;
    advect_temp(prev, &mut next, &sample);
    proof {
        assert forall|x: int, y: int| #[trigger] next.vel_x_at(x, y) == with_x.vel_x_at(x, y) by {}
        assert forall|x: int, y: int| #[trigger] next.vel_y_at(x, y) == with_xy.vel_y_at(x, y) by {}
    }
    next
}

/// Owns the current grid and counts the advection steps taken.
pub struct Simulator<T> {
    pub grid: StaggeredMACGrid<T>,
    pub current_time_step: u32,
    /// The local time of day of the last step, or of the construction.
    pub last_stepped: NaiveTime,
}

impl<T: Copy> Simulator<T> {
    /// A simulator at step zero over `grid`.
    pub fn new(grid: StaggeredMACGrid<T>) -> (r: Self)
        ensures
            r.grid == grid,
            r.current_time_step == 0,
    {
        Simulator { grid, current_time_step: 0, last_stepped: local_time_now() }
    }

    /// One advection step: builds the next grid from the current one with
    /// `sample`, then replaces the current grid with it and counts the step.
    /// The current grid is not touched until the next one is complete.
    pub fn advect<F: Fn(&StaggeredMACGrid<T>, Component, i64, i64) -> T>(&mut self, sample: F)
        requires
            old(self).grid.wf(),
            old(self).current_time_step < u32::MAX,
            samples_anywhere(sample, old(self).grid),
        ensures
            advected(old(self).grid, final(self).grid, sample),
            final(self).current_time_step == old(self).current_time_step + 1,
    {
        let next = advect_grid(&self.grid, sample);
        self.grid = next;
        self.last_stepped = local_time_now();
        self.current_time_step = self.current_time_step + 1;
    }

    /// Puts back a grid kept from step `step`, with its step count.
    pub fn restore(&mut self, step: u32, grid: StaggeredMACGrid<T>)
        ensures
            final(self).grid == grid,
            final(self).current_time_step == step,
            final(self).last_stepped == old(self).last_stepped,
    {
        self.grid = grid;
        self.current_time_step = step;
    }

    /// Whether an automatic step at `ticks_per_second` steps per second is due
    /// now, by the local time of day: `is_step_due` of the milliseconds since
    /// the last step.
    pub fn step_due(&self, ticks_per_second: u32) -> bool {
        let now = local_time_now();
        is_step_due(millis_between(&now, &self.last_stepped), ticks_per_second)
    }
}

/// If `sample` gives back, at every advected position, the sample that `prev`
/// already holds there, the step leaves every sample of the grid as it was.
pub proof fn lemma_reproducing_sampler_keeps_grid<
    T,
    F: Fn(&StaggeredMACGrid<T>, Component, i64, i64) -> T,
>(prev: StaggeredMACGrid<T>, next: StaggeredMACGrid<T>, sample: F)
    requires
        prev.wf(),
        advected(prev, next, sample),
        forall|x: int, y: int, v: T|
            is_vel_x_target(prev.cell_count as int, x, y) && #[trigger] sampled_vel_x(
                sample,
                prev,
                x,
                y,
                v,
            ) ==> v == prev.vel_x_at(x, y),
        forall|x: int, y: int, v: T|
            is_vel_y_target(prev.cell_count as int, x, y) && #[trigger] sampled_vel_y(
                sample,
                prev,
                x,
                y,
                v,
            ) ==> v == prev.vel_y_at(x, y),
        forall|x: int, y: int, v: T|
            is_temp_target(prev.cell_count as int, x, y) && #[trigger] sampled_temp(
                sample,
                prev,
                x,
                y,
                v,
            ) ==> v == prev.temp_at(x, y),
    ensures
        next.cell_count == prev.cell_count,
        forall|x: int, y: int| prev.face_ok(x, y) ==> #[trigger] next.vel_x_at(x, y) == prev.vel_x_at(x, y),
        forall|x: int, y: int| prev.face_ok(x, y) ==> #[trigger] next.vel_y_at(x, y) == prev.vel_y_at(x, y),
        forall|x: int, y: int| prev.cell_ok(x, y) ==> #[trigger] next.temp_at(x, y) == prev.temp_at(x, y),
{
}

} // verus!
