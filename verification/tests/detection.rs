use faceid::detection::{score_order_of, suppress_overlaps};

fn bits(v: &[f32]) -> Vec<u32> {
    v.iter().map(|x| x.to_bits()).collect()
}

#[test]
fn ranking_is_best_first_and_stable() {
    let scores = bits(&[0.5, 0.9, 0.7, 0.9, -0.0, 0.0]);
    assert_eq!(score_order_of(&scores), vec![1, 3, 2, 0, 4, 5]);
}

#[test]
fn ranking_of_nothing_is_empty() {
    assert_eq!(score_order_of(&Vec::new()), Vec::<usize>::new());
}

#[test]
fn suppression_keeps_the_best_of_overlapping_boxes() {
    // 0 and 1 overlap each other; 2 overlaps nothing.
    let scores = bits(&[0.6, 0.8, 0.7]);
    let table = vec![vec![false, true, false], vec![true, false, false], vec![false, false, false]];
    assert_eq!(suppress_overlaps(&scores, &table), vec![1, 2]);
}

#[test]
fn suppression_is_greedy_not_transitive() {
    // 1 is suppressed by 0, and 2 only by 1: since 1 is dropped, 2 survives.
    let scores = bits(&[0.9, 0.8, 0.7]);
    let table = vec![vec![false, false, false], vec![true, false, false], vec![false, true, false]];
    assert_eq!(suppress_overlaps(&scores, &table), vec![0, 2]);
}

#[test]
fn missing_table_entries_suppress_nothing() {
    let scores = bits(&[0.1, 0.2]);
    assert_eq!(suppress_overlaps(&scores, &Vec::new()), vec![1, 0]);
}
