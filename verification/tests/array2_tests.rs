use rpeg::array2::Array2;

#[test]
fn width_and_height() {
    let g = Array2::from_row_major(vec![0; 12], 4, 3);
    assert_eq!(g.width(), 4);
    assert_eq!(g.height(), 3);
}

#[test]
fn row_major_roundtrip() {
    let v = vec![1, 2, 3, 4, 5, 6];
    let g = Array2::from_row_major(v.clone(), 3, 2);
    let read: Vec<i32> = g.iter_row_major().into_iter().map(|t| *t.2).collect();
    assert_eq!(read, v);
}

#[test]
fn iter_row_major_positions() {
    let g = Array2::from_row_major(vec![10, 20, 30, 40, 50, 60], 3, 2);
    let triples: Vec<(usize, usize, i32)> =
        g.iter_row_major().into_iter().map(|(r, c, v)| (r, c, *v)).collect();
    assert_eq!(
        triples,
        vec![(0, 0, 10), (0, 1, 20), (0, 2, 30), (1, 0, 40), (1, 1, 50), (1, 2, 60)]
    );
}

#[test]
fn col_major_construction_transposes() {
    // Columns top to bottom, leftmost first: the same logical grid as the
    // row-major [1, 2, 3, 4, 5, 6] at width 3, height 2.
    let g = Array2::from_col_major(vec![1, 4, 2, 5, 3, 6], 3, 2);
    let read: Vec<i32> = g.iter_row_major().into_iter().map(|t| *t.2).collect();
    assert_eq!(read, vec![1, 2, 3, 4, 5, 6]);
}

#[test]
fn iter_col_major_positions() {
    let g = Array2::from_row_major(vec![10, 20, 30, 40, 50, 60], 3, 2);
    let triples: Vec<(usize, usize, i32)> =
        g.iter_col_major().into_iter().map(|(r, c, v)| (r, c, *v)).collect();
    assert_eq!(
        triples,
        vec![(0, 0, 10), (1, 0, 40), (0, 1, 20), (1, 1, 50), (0, 2, 30), (1, 2, 60)]
    );
}

#[test]
fn blank_state_fills_every_cell() {
    let g = Array2::from_blank_state(7u8, 5, 4);
    assert_eq!(g.width(), 5);
    assert_eq!(g.height(), 4);
    for (_, _, v) in g.iter_row_major() {
        assert_eq!(*v, 7);
    }
}

#[test]
fn get_checks_both_indices() {
    let g = Array2::from_row_major(vec![1, 2, 3, 4, 5, 6], 3, 2);
    assert_eq!(g.get(0, 0), Some(&1));
    assert_eq!(g.get(1, 2), Some(&6));
    assert_eq!(g.get(2, 0), None);
    assert_eq!(g.get(0, 3), None);
    assert_eq!(g.get(2, 3), None);
}

#[test]
fn get_mut_updates_one_cell() {
    let mut g = Array2::from_row_major(vec![1, 2, 3, 4, 5, 6], 3, 2);
    *g.get_mut(1, 1).unwrap() = 55;
    assert_eq!(g.get(1, 1), Some(&55));
    assert_eq!(g.get(1, 0), Some(&4));
    assert_eq!(g.get(1, 2), Some(&6));
    assert!(g.get_mut(2, 1).is_none());
    assert!(g.get_mut(1, 3).is_none());
}

#[test]
fn insert_overwrites_one_cell() {
    let mut g = Array2::from_row_major(vec![0; 6], 3, 2);
    g.insert(0, 2, 9);
    g.insert(1, 0, 8);
    let read: Vec<i32> = g.iter_row_major().into_iter().map(|t| *t.2).collect();
    assert_eq!(read, vec![0, 0, 9, 8, 0, 0]);
}

#[test]
fn iter_row_major_mut_rewrites_in_order() {
    let mut g = Array2::from_row_major(vec![1, 2, 3, 4, 5, 6], 3, 2);
    g.iter_row_major_mut(|r: usize, c: usize, v: i32| v + (r * 100 + c * 10) as i32);
    let read: Vec<i32> = g.iter_row_major().into_iter().map(|t| *t.2).collect();
    assert_eq!(read, vec![1, 12, 23, 104, 115, 126]);
}

#[test]
fn empty_grids() {
    let g: Array2<u8> = Array2::from_row_major(vec![], 0, 5);
    assert_eq!(g.width(), 0);
    assert_eq!(g.height(), 5);
    assert_eq!(g.iter_row_major().len(), 0);
    assert_eq!(g.iter_col_major().len(), 0);
    assert_eq!(g.get(0, 0), None);
}

#[test]
fn single_cell_grid() {
    let g = Array2::from_col_major(vec![42], 1, 1);
    assert_eq!(g.get(0, 0), Some(&42));
    assert_eq!(g.iter_col_major().into_iter().map(|t| *t.2).collect::<Vec<i32>>(), vec![42]);
}
