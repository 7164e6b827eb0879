use spatial::{HorizontalSplit, PostioningType, Rect, Space, VerticalSplit};

#[test]
fn iter_test() {
    let space = Space::new_mapped(|x, y| 10 * (y as u32) + (x as u32), 10, 10);
    let subspace = space.as_subspace();
    let mut subspace_iter = subspace.iter();
    let mut walked = Vec::new();
    while let Some(v) = subspace_iter.next() {
        walked.push(*v);
    }

    let counter = 0..100u32;

    assert!(walked.into_iter().eq(counter));
}

#[test]
fn subspace_horizontal_split_width_check() {
    let space = Space::new_flat(1u32, 4, 4);
    let space_slice = space.as_subspace();

    let HorizontalSplit { left, right } = space_slice.split_horizontal(PostioningType::Absolute, 2);

    assert_eq!(left.width(), 2);
    assert_eq!(right.width(), 2);
}

#[test]
fn subspace_vertical_split_height_check() {
    let space = Space::new_flat(1u32, 4, 4);
    let space_slice = space.as_subspace();

    let VerticalSplit { above, below } = space_slice.split_vertical(PostioningType::Absolute, 2);

    assert_eq!(above.height(), 2);
    assert_eq!(below.height(), 2);
}

#[test]
fn partition_test() {
    let space = Space::new_mapped(|x, _| x < 10, 20, 20);
    let subspace = space.as_subspace();

    let HorizontalSplit { left, right } = subspace.split_horizontal(PostioningType::Absolute, 10);

    assert!(left.values().iter().all(|v| **v));
    assert!(right.values().iter().all(|v| !**v));
}

#[test]
fn clone_test() {
    let original = Space::new_mapped(|x, y| (x, y), 100, 100);

    let cloned = original.clone();

    let round_trip = original.as_subspace().as_space();

    assert_eq!(original, cloned);
    assert_eq!(original, round_trip);
}

#[test]
fn subspace_mut_horizontal_split_width_check() {
    let mut space = Space::new_flat(1u32, 4, 4);
    let space_slice = space.as_subspace_mut();

    let HorizontalSplit { left, right } = space_slice.split_horizontal(PostioningType::Absolute, 2);

    assert_eq!(left.width(), 2);
    assert_eq!(right.width(), 2);
}

#[test]
fn subspace_mut_vertical_split_height_check() {
    let mut space = Space::new_flat(1u32, 4, 4);
    let space_slice = space.as_subspace_mut();

    let VerticalSplit { above, below } = space_slice.split_vertical(PostioningType::Absolute, 2);

    assert_eq!(above.height(), 2);
    assert_eq!(below.height(), 2);
}

#[test]
fn view_get_absolute_and_relative() {
    let space = Space::new_mapped(|x, y| 10 * y + x, 6, 4);
    let HorizontalSplit { right, .. } = space.as_subspace().split_horizontal(PostioningType::Absolute, 2);
    let VerticalSplit { below, .. } = right.split_vertical(PostioningType::Relative, 1);
    assert_eq!(below.width(), 4);
    assert_eq!(below.height(), 3);
    assert_eq!(below.get(PostioningType::Relative, 0, 0), Some(&12));
    assert_eq!(below.get(PostioningType::Absolute, 2, 1), Some(&12));
    assert_eq!(below.get(PostioningType::Absolute, 5, 3), Some(&35));
    assert_eq!(below.get(PostioningType::Absolute, 1, 1), None);
    assert_eq!(below.get(PostioningType::Absolute, 2, 0), None);
    assert_eq!(below.get(PostioningType::Relative, 5, 0), None);
}

#[test]
fn relative_query_one_past_edge_reads_parent() {
    let space = Space::new_mapped(|x, y| 10 * y + x, 4, 4);
    let HorizontalSplit { left, right } = space.as_subspace().split_horizontal(PostioningType::Absolute, 2);
    // The resolver accepts x == width; the cell there belongs to the right half.
    assert_eq!(left.get(PostioningType::Relative, 2, 1), Some(&12));
    // Past the parent's own edge nothing is found.
    assert_eq!(right.get(PostioningType::Relative, 2, 1), None);
    assert_eq!(left.get(PostioningType::Relative, 3, 1), None);
    // Absolute queries stay inside the view.
    assert_eq!(left.get(PostioningType::Absolute, 2, 1), None);
}

#[test]
fn split_covers_every_cell_once() {
    let space = Space::new_mapped(|x, y| 10 * y + x, 7, 3);
    let view = space.as_subspace();
    for c in 0..=7 {
        let HorizontalSplit { left, right } = view.split_horizontal(PostioningType::Relative, c);
        assert_eq!(left.width() + right.width(), 7);
        let mut seen: Vec<usize> = left.values().into_iter().copied().collect();
        seen.extend(right.values().into_iter().copied());
        seen.sort();
        let all: Vec<usize> = view.values().into_iter().copied().collect();
        assert_eq!(seen, all);
    }
    for c in 0..=3 {
        let VerticalSplit { above, below } = view.split_vertical(PostioningType::Relative, c);
        assert_eq!(above.height() + below.height(), 3);
        assert_eq!(above.values().len() + below.values().len(), 21);
    }
}

#[test]
fn nested_split_of_offset_view() {
    let space = Space::new_mapped(|x, y| 10 * y + x, 8, 8);
    let HorizontalSplit { right, .. } = space.as_subspace().split_horizontal(PostioningType::Absolute, 4);
    let HorizontalSplit { left, right } = right.split_horizontal(PostioningType::Absolute, 6);
    assert_eq!(left.width(), 2);
    assert_eq!(right.width(), 2);
    assert_eq!(left.get(PostioningType::Relative, 0, 0), Some(&4));
    assert_eq!(right.get(PostioningType::Relative, 0, 0), Some(&6));
}

#[test]
fn round_trip_of_full_view() {
    let space = Space::new_mapped(|x, y| (x * 3) ^ y, 5, 4);
    let copy = space.as_subspace().as_space();
    assert_eq!(copy, space);
}

#[test]
fn materialize_sub_view() {
    let space = Space::new_mapped(|x, y| 10 * y + x, 4, 4);
    let VerticalSplit { below, .. } = space.as_subspace().split_vertical(PostioningType::Absolute, 3);
    let copy = below.as_space();
    assert_eq!(copy.width(), 4);
    assert_eq!(copy.height(), 1);
    assert_eq!(copy.get(2, 0), Some(&32));
}

#[test]
fn iterator_stops_and_stays_done() {
    let space = Space::new_mapped(|x, y| 10 * y + x, 3, 2);
    let view = space.as_subspace();
    let mut it = view.iter();
    let mut walked = Vec::new();
    while let Some(v) = it.next() {
        walked.push(*v);
    }
    assert_eq!(walked, vec![0, 1, 2, 10, 11, 12]);
    assert!(it.next().is_none());
    let empty = Space::new_flat(0u8, 0, 3);
    assert!(empty.as_subspace().iter().next().is_none());
}

#[test]
fn mutable_halves_write_disjointly() {
    let mut space = Space::new_flat(0u32, 4, 4);
    {
        let HorizontalSplit { mut left, mut right } =
            space.as_subspace_mut().split_horizontal(PostioningType::Absolute, 2);
        for y in 0..4 {
            for x in 0..2 {
                assert!(left.set(PostioningType::Relative, x, y, 1));
                assert!(right.set(PostioningType::Relative, x, y, 2));
            }
        }
        assert!(!left.set(PostioningType::Relative, 2, 0, 9));
        assert!(!left.set(PostioningType::Absolute, 2, 0, 9));
        assert!(!right.set(PostioningType::Absolute, 1, 0, 9));
        assert_eq!(right.get(PostioningType::Absolute, 2, 0), Some(&2));
        assert_eq!(left.get(PostioningType::Relative, 1, 3), Some(&1));
        assert_eq!(left.get(PostioningType::Relative, 2, 3), None);
    }
    for y in 0..4 {
        for x in 0..4 {
            assert_eq!(space.get(x, y), Some(&if x < 2 { 1 } else { 2 }));
        }
    }
}

#[test]
fn mutable_quarters_write_disjointly() {
    let mut space = Space::new_flat(0u32, 4, 4);
    {
        let VerticalSplit { above, below } = space.as_subspace_mut().split_vertical(PostioningType::Absolute, 1);
        let HorizontalSplit { mut left, mut right } = below.split_horizontal(PostioningType::Relative, 3);
        let mut above = above;
        assert_eq!(above.height(), 1);
        assert_eq!(left.width(), 3);
        assert_eq!(right.width(), 1);
        assert!(above.set(PostioningType::Absolute, 3, 0, 5));
        assert!(left.set(PostioningType::Absolute, 2, 3, 6));
        assert!(right.set(PostioningType::Absolute, 3, 1, 7));
        assert!(!above.set(PostioningType::Absolute, 3, 1, 8));
        assert_eq!(right.get(PostioningType::Relative, 0, 0), Some(&7));
        assert_eq!(left.get(PostioningType::Absolute, 3, 1), None);
    }
    assert_eq!(space.get(3, 0), Some(&5));
    assert_eq!(space.get(2, 3), Some(&6));
    assert_eq!(space.get(3, 1), Some(&7));
    assert_eq!(space.get(0, 0), Some(&0));
}

#[test]
fn slice_mut_writes_reach_space() {
    let mut space = Space::new_flat(0u32, 3, 3);
    {
        let mut slice = space.as_slice_mut();
        assert!(slice.set(PostioningType::Relative, 1, 2, 4));
        assert!(!slice.set(PostioningType::Relative, 3, 0, 4));
        assert_eq!(slice.get(PostioningType::Absolute, 1, 2), Some(&4));
        let VerticalSplit { mut above, below } = slice.split_vertical(PostioningType::Absolute, 2);
        assert_eq!(below.height(), 1);
        assert!(above.set(PostioningType::Absolute, 0, 1, 8));
    }
    assert_eq!(space.get(1, 2), Some(&4));
    assert_eq!(space.get(0, 1), Some(&8));
}

#[test]
fn rect_resolves_and_splits() {
    let rect = Rect { x: 2, y: 1, width: 3, height: 2 };
    assert_eq!(rect.resolve(PostioningType::Absolute, 4, 2), Some((4, 2)));
    assert_eq!(rect.resolve(PostioningType::Absolute, 5, 2), None);
    assert_eq!(rect.resolve(PostioningType::Absolute, 1, 1), None);
    assert_eq!(rect.resolve(PostioningType::Relative, 3, 2), Some((5, 3)));
    assert_eq!(rect.resolve(PostioningType::Relative, 4, 0), None);
    assert_eq!(rect.local(PostioningType::Relative, 3, 0), None);
    assert_eq!(rect.local(PostioningType::Absolute, 4, 2), Some((2, 1)));
    let HorizontalSplit { left, right } = rect.split_horizontal(PostioningType::Relative, 1);
    assert_eq!(left, Rect { x: 2, y: 1, width: 1, height: 2 });
    assert_eq!(right, Rect { x: 3, y: 1, width: 2, height: 2 });
    let VerticalSplit { above, below } = rect.split_vertical(PostioningType::Absolute, 3);
    assert_eq!(above, Rect { x: 2, y: 1, width: 3, height: 2 });
    assert_eq!(below, Rect { x: 2, y: 3, width: 3, height: 0 });
}
