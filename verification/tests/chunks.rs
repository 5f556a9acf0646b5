use ccv3_pp::chunks::{chunk_pairs, hardness_chunks, median_positions};

#[test]
fn hardness_chunks_fill_fours_and_keep_a_partial_tail() {
    let timed = vec![true, true, false, true, true, true, false, true];
    let plan = hardness_chunks(&timed);
    assert_eq!(
        plan.chunk_of,
        vec![Some(0), Some(0), None, Some(0), Some(0), Some(1), None, Some(1)]
    );
    assert_eq!(plan.n_chunks, 2);
}

#[test]
fn hardness_chunks_exact_multiple_and_empty() {
    let plan = hardness_chunks(&vec![true; 8]);
    assert_eq!(plan.n_chunks, 2);
    assert_eq!(plan.chunk_of[7], Some(1));
    let plan = hardness_chunks(&vec![false; 3]);
    assert_eq!((plan.chunk_of, plan.n_chunks), (vec![None, None, None], 0));
    let plan = hardness_chunks(&Vec::new());
    assert_eq!((plan.chunk_of.len(), plan.n_chunks), (0, 0));
}

#[test]
fn chunk_pairs_join_neighbours() {
    assert_eq!(chunk_pairs(5), vec![(0, Some(1)), (2, Some(3)), (4, None)]);
    assert_eq!(chunk_pairs(4), vec![(0, Some(1)), (2, Some(3))]);
    assert_eq!(chunk_pairs(1), vec![(0, None)]);
    assert!(chunk_pairs(0).is_empty());
}

#[test]
fn median_positions_odd_and_even() {
    assert_eq!(median_positions(5), (2, 2));
    assert_eq!(median_positions(4), (1, 2));
    assert_eq!(median_positions(1), (0, 0));
    assert_eq!(median_positions(2), (0, 1));
}
