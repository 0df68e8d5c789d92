use heimdallr::distribution::ProcessData;

#[test]
fn process_data_keeps_its_fields() {
    let data = ProcessData::new(5, 1, 3);
    assert_eq!(data.chunk_size, 5);
    assert_eq!(data.from, 1);
    assert_eq!(data.to, 3);
}

#[test]
fn rows_divide_evenly() {
    // 8 inner rows among 4 ranks
    assert_eq!(ProcessData::of_rank(9, 4, 0), ProcessData::new(4, 1, 2));
    assert_eq!(ProcessData::of_rank(9, 4, 1), ProcessData::new(4, 3, 4));
    assert_eq!(ProcessData::of_rank(9, 4, 2), ProcessData::new(4, 5, 6));
    assert_eq!(ProcessData::of_rank(9, 4, 3), ProcessData::new(4, 7, 8));
}

#[test]
fn lower_ranks_take_the_left_over_rows() {
    // 15 inner rows among 4 ranks: 4, 4, 4, 3
    assert_eq!(ProcessData::of_rank(16, 4, 0), ProcessData::new(6, 1, 4));
    assert_eq!(ProcessData::of_rank(16, 4, 1), ProcessData::new(6, 5, 8));
    assert_eq!(ProcessData::of_rank(16, 4, 2), ProcessData::new(6, 9, 12));
    assert_eq!(ProcessData::of_rank(16, 4, 3), ProcessData::new(5, 13, 15));
}

#[test]
fn one_rank_takes_all_rows() {
    assert_eq!(ProcessData::of_rank(16, 1, 0), ProcessData::new(17, 1, 15));
}

#[test]
fn more_ranks_than_rows_leaves_some_empty() {
    // 2 inner rows among 3 ranks
    assert_eq!(ProcessData::of_rank(3, 3, 0), ProcessData::new(3, 1, 1));
    assert_eq!(ProcessData::of_rank(3, 3, 1), ProcessData::new(3, 2, 2));
    assert_eq!(ProcessData::of_rank(3, 3, 2), ProcessData::new(2, 3, 2));
}

#[test]
fn shares_tile_the_inner_rows() {
    for n in 1u64..40 {
        for size in 1u32..9 {
            let mut next = 1;
            for id in 0..size {
                let share = ProcessData::of_rank(n, size, id);
                assert_eq!(share.from, next);
                assert_eq!(share.chunk_size, share.to + 3 - share.from);
                next = share.to + 1;
            }
            assert_eq!(next, n);
        }
    }
}
