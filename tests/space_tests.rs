use spatial::{HorizontalSplit, PostioningType, Space, VerticalSplit};

#[test]
fn lib_horizontal_split_width_check() {
    let mut space = Space::new_flat(1u32, 4, 4);
    let space_slice = space.as_slice_mut();

    let HorizontalSplit { left, right } = space_slice.split_horizontal(PostioningType::Absolute, 2);

    assert_eq!(left.width(), 2);
    assert_eq!(right.width(), 2);
}

#[test]
fn lib_vertical_split_height_check() {
    let mut space = Space::new_flat(1u32, 4, 4);
    let space_slice = space.as_slice_mut();

    let VerticalSplit { above, below } = space_slice.split_vertical(PostioningType::Absolute, 2);

    assert_eq!(above.height(), 2);
    assert_eq!(below.height(), 2);
}

#[test]
fn new_flat_test() {
    let side_length = 100;

    let space = Space::new_flat(true, side_length, side_length);

    for y in 0..side_length {
        for x in 0..side_length {
            assert!(space.get(x, y).unwrap());
        }
    }
}

#[test]
fn new_mapped_test() {
    let side_length = 100;

    let space = Space::new_mapped(|x, y| (x, y), side_length, side_length);

    for y in 0..side_length {
        for x in 0..side_length {
            assert_eq!(*space.get(x, y).unwrap(), (x, y));
        }
    }
}

#[test]
fn set_then_get_in_bounds() {
    let mut space = Space::new_flat(0u32, 3, 2);
    assert!(space.set(2, 1, 7));
    assert_eq!(space.get(2, 1), Some(&7));
    assert_eq!(space.get(1, 1), Some(&0));
    assert_eq!(space.get(2, 0), Some(&0));
}

#[test]
fn set_out_of_bounds_fails_without_change() {
    let mut space = Space::new_mapped(|x, y| 10 * y + x, 3, 2);
    let before = space.clone();
    assert!(!space.set(3, 0, 99));
    assert!(!space.set(0, 2, 99));
    assert!(!space.set(usize::MAX, usize::MAX, 99));
    assert_eq!(space, before);
}

#[test]
fn get_outside_is_none() {
    let space = Space::new_mapped(|x, y| 10 * y + x, 3, 2);
    // (3, 0) would be position 3, a cell of the second row, under the bare
    // formula; the space still rejects it.
    assert_eq!(space.get(3, 0), None);
    assert_eq!(space.get(0, 2), None);
    assert_eq!(space.get(usize::MAX, 0), None);
    assert_eq!(space.get(0, usize::MAX), None);
}

#[test]
fn bool_grid_every_cell_true_and_outside_empty() {
    let space = Space::new_flat(true, 10, 10);
    for y in 0..10 {
        for x in 0..10 {
            assert_eq!(space.get(x, y), Some(&true));
        }
    }
    for i in 0..12 {
        assert_eq!(space.get(10, i), None);
        assert_eq!(space.get(i, 10), None);
    }
    assert_eq!(space.get(11, 11), None);
}

#[test]
fn flat_fills_every_cell() {
    let space = Space::new_flat(5i64, 7, 3);
    assert_eq!(space.width(), 7);
    assert_eq!(space.height(), 3);
    for y in 0..3 {
        for x in 0..7 {
            assert_eq!(space.get(x, y), Some(&5));
        }
    }
}

#[test]
fn zero_area_spaces_hold_no_cells() {
    let flat = Space::new_flat(1u8, 0, 5);
    assert_eq!(flat.width(), 0);
    assert_eq!(flat.height(), 5);
    assert_eq!(flat.get(0, 0), None);
    let mapped = Space::new_mapped(|x, y| x + y, 4, 0);
    assert_eq!(mapped.get(0, 0), None);
    assert_eq!(mapped.as_subspace().values().len(), 0);
}

#[test]
fn mapped_calls_function_per_cell() {
    let space = Space::new_mapped(|x, y| x * 100 + y, 4, 3);
    assert_eq!(space.get(3, 2), Some(&302));
    assert_eq!(space.get(0, 1), Some(&1));
    assert_eq!(space.get(2, 0), Some(&200));
}

#[test]
fn from_sequence_too_short_fails() {
    let mut items: Vec<u32> = (0..5).collect();
    assert!(Space::from_sequence(&mut items, 3, 2).is_none());
    assert_eq!(items, vec![0, 1, 2, 3, 4]);
}

#[test]
fn from_sequence_takes_row_major_and_leaves_rest() {
    let mut items: Vec<u32> = (0..8).collect();
    let space = Space::from_sequence(&mut items, 3, 2).unwrap();
    assert_eq!(items, vec![6, 7]);
    assert_eq!(space.get(0, 0), Some(&0));
    assert_eq!(space.get(2, 0), Some(&2));
    assert_eq!(space.get(0, 1), Some(&3));
    assert_eq!(space.get(2, 1), Some(&5));
}

#[test]
fn from_sequence_exact_length() {
    let mut items: Vec<u32> = vec![9, 8, 7, 6];
    let space = Space::from_sequence(&mut items, 2, 2).unwrap();
    assert!(items.is_empty());
    assert_eq!(space.get(1, 1), Some(&6));
}

#[test]
fn get_mut_writes_in_place() {
    let mut space = Space::new_flat(0u32, 2, 2);
    *space.get_mut(1, 0).unwrap() = 4;
    assert!(space.get_mut(2, 0).is_none());
    assert_eq!(space.get(1, 0), Some(&4));
    assert_eq!(space.get(0, 1), Some(&0));
}

#[test]
fn map_overwrites_every_cell() {
    let mut space = Space::new_flat(0usize, 3, 3);
    space.map(|x, y| x + 10 * y);
    assert_eq!(space.get(2, 1), Some(&12));
    assert_eq!(space.get(0, 2), Some(&20));
}

#[test]
fn update_uses_current_value_and_position() {
    let mut space = Space::new_mapped(|x, y| x + 10 * y, 3, 3);
    space.update(|v: &usize, x, _y| *v * 2 + x);
    assert_eq!(space.get(2, 1), Some(&26));
    assert_eq!(space.get(0, 0), Some(&0));
    assert_eq!(space.get(1, 2), Some(&43));
}
