use flowy::layout::{is_valid_cell_count, temp_offset, vel_x_offset, vel_y_offset};

#[test]
fn cell_count_validity() {
    assert!(!is_valid_cell_count(0));
    assert!(!is_valid_cell_count(-1));
    assert!(!is_valid_cell_count(i32::MIN));
    assert!(is_valid_cell_count(1));
    assert!(is_valid_cell_count(20));
}

#[test]
fn velocity_x_offsets_are_row_major_with_ghost_shift() {
    assert_eq!(vel_x_offset(4, -1, -1), Some(0));
    assert_eq!(vel_x_offset(4, 0, -1), Some(1));
    assert_eq!(vel_x_offset(4, -1, 0), Some(7));
    assert_eq!(vel_x_offset(4, 5, 5), Some(48));
    assert_eq!(vel_x_offset(4, 6, 0), None);
    assert_eq!(vel_x_offset(4, 0, -2), None);
}

#[test]
fn velocity_y_offsets_are_column_major_with_ghost_shift() {
    assert_eq!(vel_y_offset(4, -1, -1), Some(0));
    assert_eq!(vel_y_offset(4, -1, 0), Some(1));
    assert_eq!(vel_y_offset(4, 2, 0), Some(22));
    assert_eq!(vel_y_offset(4, 5, 5), Some(48));
    assert_eq!(vel_y_offset(4, -2, 0), None);
    assert_eq!(vel_y_offset(4, 0, 6), None);
}

#[test]
fn scalar_offsets_cover_cells_and_ghost_layer() {
    assert_eq!(temp_offset(4, -1, -1), Some(0));
    assert_eq!(temp_offset(4, 0, 0), Some(7));
    assert_eq!(temp_offset(4, 4, 4), Some(35));
    assert_eq!(temp_offset(4, 5, 0), None);
    assert_eq!(temp_offset(4, 0, -2), None);
}
