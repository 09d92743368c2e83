use doclayout_detector::pp_doclayout::ranking::{
    f32_bits_order_key, ranks_by_ascending_value, reading_order, stable_order, stable_top,
    top_by_descending_value,
};

fn bits(values: &[f32]) -> Vec<u32> {
    values.iter().map(|value| value.to_bits()).collect()
}

#[test]
fn order_keys_follow_total_cmp() {
    let values = [f32::NEG_INFINITY, -2.5, -1.0, -0.0, 0.0, 1.0e-30, 1.0, 3.5, f32::INFINITY];
    for pair in values.windows(2) {
        assert!(f32_bits_order_key(pair[0].to_bits()) < f32_bits_order_key(pair[1].to_bits()));
        assert_eq!(pair[0].total_cmp(&pair[1]), std::cmp::Ordering::Less);
    }
    assert_eq!(f32_bits_order_key(0), 0);
    assert_eq!(f32_bits_order_key(0x8000_0000), -1);
}

#[test]
fn stable_order_sorts_keys_and_keeps_ties_by_index() {
    let keys = vec![(2, 0), (1, 5), (2, 0), (1, 4), (0, 9)];
    assert_eq!(stable_order(&keys), vec![4, 3, 1, 0, 2]);
    assert_eq!(stable_top(&keys, 2), vec![4, 3]);
    assert_eq!(stable_top(&keys, 10), vec![4, 3, 1, 0, 2]);
    assert_eq!(stable_order(&vec![]), Vec::<usize>::new());
}

#[test]
fn top_by_descending_value_matches_a_stable_sort() {
    let values = [0.3f32, 0.9, -1.0, 0.9, 0.0, 0.3];
    let mut expected = (0..values.len()).collect::<Vec<_>>();
    expected.sort_by(|a, b| values[*b].total_cmp(&values[*a]));
    expected.truncate(4);

    assert_eq!(top_by_descending_value(&bits(&values), 4), expected);
    assert_eq!(top_by_descending_value(&bits(&values), 4), vec![1, 3, 0, 5]);
}

#[test]
fn vote_ranks_put_fewest_votes_first() {
    let votes = [2.0f32, 0.5, 2.0, 1.0];

    let ranks = ranks_by_ascending_value(&bits(&votes));

    assert_eq!(ranks, vec![2, 0, 3, 1]);
}

#[test]
fn reading_order_sorts_by_rank_then_confidence() {
    let ranks = [3usize, 1, 1, 0];
    let confidence = bits(&[0.9, 0.6, 0.8, 0.7]);

    assert_eq!(reading_order(&ranks, &confidence), vec![3, 2, 1, 0]);

    let tied = bits(&[0.5, 0.5]);
    assert_eq!(reading_order(&[4, 4], &tied), vec![0, 1]);
}
