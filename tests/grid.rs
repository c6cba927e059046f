use flowy::grid::{GridError, StaggeredMACGrid};

#[test]
fn grid_vel_x() {
    let cc = 20;

    let mut grid = StaggeredMACGrid::new(cc, 0.0).unwrap();
    for x in 0..cc + 1 {
        *grid.vel_x_grid_mut(x, 0) = x as f64 * 2.0;
    }

    // first row zero
    for vx in grid.velocities_x.iter().take((cc + 3) as usize) {
        assert!(*vx == 0.0);
    }

    for x in 0..cc + 1 {
        assert!(grid.vel_x_grid(x, -1) == 0.0);
    }

    // second row initialized
    for (i, vx) in grid.velocities_x.iter().skip((cc + 3) as usize).take((cc + 3) as usize).enumerate() {
        if i == 0 || i == (cc + 2) as usize {
            assert!(*vx == 0.0)
        } else {
            assert!(*vx == (i - 1) as f64 * 2.0);
        }
    }

    for x in 0..cc + 1 {
        assert!(grid.vel_x_grid(x, 0) == x as f64 * 2.0);
    }
}

#[test]
fn grid_vel_y() {
    let cc = 20;

    let mut grid = StaggeredMACGrid::new(cc, 0.0).unwrap();
    for y in 0..cc + 1 {
        *grid.vel_y_grid_mut(0, y) = y as f64 * 2.0;
    }

    // first column zero
    for vy in grid.velocities_y.iter().take((cc + 3) as usize) {
        assert!(*vy == 0.0);
    }

    for y in 0..cc + 1 {
        assert!(grid.vel_y_grid(-1, y) == 0.0);
    }

    // second column initialized
    for (i, vy) in grid.velocities_y.iter().skip((cc + 3) as usize).take((cc + 3) as usize).enumerate() {
        if i == 0 || i == (cc + 2) as usize {
            assert!(*vy == 0.0)
        } else {
            assert!(*vy == (i - 1) as f64 * 2.0);
        }
    }

    for y in 0..cc + 1 {
        assert!(grid.vel_y_grid(0, y) == y as f64 * 2.0);
    }
}

#[test]
fn new_rejects_zero_and_negative_cell_counts() {
    assert!(matches!(StaggeredMACGrid::new(0, 0.0), Err(GridError::InvalidCellCount)));
    assert!(matches!(StaggeredMACGrid::new(-4, 0.0), Err(GridError::InvalidCellCount)));
}

#[test]
fn new_sizes_storage_with_ghost_layer() {
    let grid = StaggeredMACGrid::new(4, 0.0).unwrap();
    assert_eq!(grid.cell_count, 4);
    assert_eq!(grid.velocities_x.len(), 49);
    assert_eq!(grid.velocities_y.len(), 49);
    assert_eq!(grid.temperature.len(), 36);
}

#[test]
fn fresh_grid_reads_zero_everywhere() {
    for n in 1..6 {
        let grid = StaggeredMACGrid::new(n, 0.0).unwrap();
        for y in -1..=n + 1 {
            for x in -1..=n + 1 {
                assert_eq!(grid.vel_x_grid(x, y), 0.0);
                assert_eq!(grid.vel_y_grid(x, y), 0.0);
            }
        }
        for y in -1..=n {
            for x in -1..=n {
                assert_eq!(grid.temp_grid(x, y), 0.0);
            }
        }
        for k in 0..(n + 3) as usize {
            assert!(grid.vel_x_row(k).unwrap().iter().all(|v| *v == 0.0));
            assert!(grid.vel_y_column(k).unwrap().iter().all(|v| *v == 0.0));
        }
        for k in 0..(n + 2) as usize {
            assert!(grid.temp_row(k).unwrap().iter().all(|v| *v == 0.0));
        }
    }
}

#[test]
fn single_face_write_leaves_other_faces_zero() {
    let n = 5;
    let mut grid = StaggeredMACGrid::new(n, 0.0).unwrap();
    *grid.vel_x_grid_mut(6, -1) = 3.5;
    for y in -1..=n + 1 {
        for x in -1..=n + 1 {
            let expected = if x == 6 && y == -1 { 3.5 } else { 0.0 };
            assert_eq!(grid.vel_x_grid(x, y), expected);
            assert_eq!(grid.vel_y_grid(x, y), 0.0);
        }
    }
    assert!(grid.temperature.iter().all(|v| *v == 0.0));
}

#[test]
fn scalar_write_reads_back_at_its_cell_only() {
    let n = 3;
    let mut grid = StaggeredMACGrid::new(n, 0.0).unwrap();
    *grid.temp_grid_mut(-1, 3) = 1.25;
    assert_eq!(grid.temp_grid(-1, 3), 1.25);
    assert_eq!(grid.temperature[(n as usize + 2) * 4], 1.25);
    assert_eq!(grid.temperature.iter().filter(|v| **v != 0.0).count(), 1);
}

#[test]
fn checked_accessors_signal_absence_outside_ghost_layer() {
    let n = 4;
    let mut grid = StaggeredMACGrid::new(n, 0.0).unwrap();
    *grid.vel_y_grid_mut(5, 5) = 2.0;
    assert_eq!(grid.checked_vel_y_grid(5, 5), Some(2.0));
    assert_eq!(grid.checked_vel_x_grid(-1, 5), Some(0.0));
    assert_eq!(grid.checked_vel_x_grid(-2, 0), None);
    assert_eq!(grid.checked_vel_x_grid(0, 6), None);
    assert_eq!(grid.checked_vel_y_grid(6, 0), None);
    assert_eq!(grid.checked_temp_grid(4, 4), Some(0.0));
    assert_eq!(grid.checked_temp_grid(5, 0), None);
    assert_eq!(grid.checked_temp_grid(0, -2), None);
}

#[test]
fn storage_lines_and_fallback_past_the_end() {
    let n = 2;
    let mut grid = StaggeredMACGrid::new(n, 0.0).unwrap();
    for x in -1..=n + 1 {
        *grid.vel_x_grid_mut(x, 0) = x as f64;
        *grid.vel_y_grid_mut(1, x) = 10.0 + x as f64;
    }
    *grid.temp_grid_mut(1, 2) = 7.0;
    assert_eq!(grid.vel_x_row(1).unwrap(), &[-1.0, 0.0, 1.0, 2.0, 3.0]);
    assert_eq!(grid.vel_y_column(2).unwrap(), &[9.0, 10.0, 11.0, 12.0, 13.0]);
    assert_eq!(grid.temp_row(3).unwrap(), &[0.0, 0.0, 7.0, 0.0]);
    assert!(grid.vel_x_row(5).is_none());
    assert!(grid.vel_y_column(5).is_none());
    assert!(grid.temp_row(4).is_none());
}

#[test]
fn clone_is_independent_of_original() {
    let mut original = StaggeredMACGrid::new(3, 0.0).unwrap();
    *original.temp_grid_mut(1, 1) = 4.0;
    let mut copy = original.clone();
    assert_eq!(copy.temp_grid(1, 1), 4.0);
    *copy.temp_grid_mut(1, 1) = 9.0;
    *copy.vel_x_grid_mut(0, 0) = 1.0;
    *copy.vel_y_grid_mut(0, 0) = 1.0;
    assert_eq!(original.temp_grid(1, 1), 4.0);
    assert_eq!(original.vel_x_grid(0, 0), 0.0);
    assert_eq!(original.vel_y_grid(0, 0), 0.0);
    assert_eq!(copy.temp_grid(1, 1), 9.0);
}

#[test]
fn well_formedness_follows_storage_lengths() {
    let mut grid = StaggeredMACGrid::new(2, 0.0).unwrap();
    assert!(grid.is_well_formed());
    grid.temperature.push(1.0);
    assert!(!grid.is_well_formed());
    grid.temperature.pop();
    grid.cell_count = 0;
    assert!(!grid.is_well_formed());
}
