use sknk::{next_id, txs16, Edge, Node};

fn two_way_node(first: Edge, second: Edge) -> Vec<Node> {
    vec![Node { id: 1, s: 'n', edges: vec![first, second] }]
}

#[test]
fn next_id_picks_by_cumulative_weight() {
    // Node 1 has edges to 2 (weight 2) and 3 (weight 3); total 5.
    // txs16(7) == 3133 and 3133 % 5 == 3, which falls in the second
    // edge's block [2, 5).
    let nodes = two_way_node(Edge::new(2, 2), Edge::new(3, 3));
    let mut rand: u16 = 7;
    assert_eq!(next_id(1, &nodes, &mut rand), 3);
    assert_eq!(rand, 3133);
}

#[test]
fn next_id_picks_first_block() {
    // txs16(1) == 59801 and 59801 % 5 == 1, in the first edge's block [0, 2).
    let nodes = two_way_node(Edge::new(2, 2), Edge::new(3, 3));
    let mut rand: u16 = 1;
    assert_eq!(next_id(1, &nodes, &mut rand), 2);
    assert_eq!(rand, txs16(1));
}

#[test]
fn next_id_missing_node_is_fail_soft() {
    // No node has id 9: the id comes back unchanged and the PRNG state is
    // not advanced.
    let nodes = two_way_node(Edge::new(2, 2), Edge::new(3, 3));
    let mut rand: u16 = 4242;
    assert_eq!(next_id(9, &nodes, &mut rand), 9);
    assert_eq!(rand, 4242);
}

#[test]
fn next_id_single_edge_always_taken() {
    let nodes = vec![Node { id: 0, s: 'o', edges: vec![Edge::new(1, 1)] }];
    for start in [0u16, 1, 99, 65535] {
        let mut rand = start;
        assert_eq!(next_id(0, &nodes, &mut rand), 1);
        assert_eq!(rand, txs16(start));
    }
}

#[test]
fn selection_frequency_matches_weights() {
    // Drive the walk once from every 16-bit PRNG state. The triple mix
    // permutes the states, so the raw values are uniform over 0..65536 and
    // each edge should be chosen with frequency close to weight / total.
    let nodes = two_way_node(Edge::new(2, 2), Edge::new(3, 3));
    let mut first = 0u32;
    let mut second = 0u32;
    for start in 0..=65535u16 {
        let mut rand = start;
        match next_id(1, &nodes, &mut rand) {
            2 => first += 1,
            3 => second += 1,
            other => panic!("unexpected target {}", other),
        }
    }
    assert_eq!(first + second, 65536);
    let f1 = first as f64 / 65536.0;
    let f2 = second as f64 / 65536.0;
    assert!((f1 - 0.4).abs() < 0.001, "first edge frequency {}", f1);
    assert!((f2 - 0.6).abs() < 0.001, "second edge frequency {}", f2);
}

#[test]
fn edge_order_changes_mapping_not_totals() {
    // Swapping the two edges keeps each target's share of raw values but
    // moves the blocks: some PRNG state must map to different outcomes.
    let ordered = two_way_node(Edge::new(2, 2), Edge::new(3, 3));
    let swapped = two_way_node(Edge::new(3, 3), Edge::new(2, 2));
    let mut to_2_ordered = 0u32;
    let mut to_2_swapped = 0u32;
    let mut differs = false;
    for start in 0..=65535u16 {
        let mut r1 = start;
        let mut r2 = start;
        let a = next_id(1, &ordered, &mut r1);
        let b = next_id(1, &swapped, &mut r2);
        assert_eq!(r1, r2);
        if a == 2 {
            to_2_ordered += 1;
        }
        if b == 2 {
            to_2_swapped += 1;
        }
        if a != b {
            differs = true;
        }
    }
    assert!(differs, "swapping edges never changed an outcome");
    // Each target's share of the raw values in [0, total) is exactly its
    // weight either way; over the 65536 PRNG states, 65536 % 5 == 1 leftover
    // raw value may land in a different block, so the counts agree to one.
    let diff = to_2_ordered.abs_diff(to_2_swapped);
    assert!(diff <= 1, "aggregate counts differ by {}", diff);
    let f = to_2_ordered as f64 / 65536.0;
    assert!((f - 0.4).abs() < 0.001, "target-2 frequency {}", f);
}

#[test]
fn first_matching_node_decides() {
    let nodes = vec![
        Node { id: 5, s: 'a', edges: vec![Edge::new(7, 1)] },
        Node { id: 5, s: 'b', edges: vec![Edge::new(8, 1)] },
    ];
    let mut rand: u16 = 3;
    assert_eq!(next_id(5, &nodes, &mut rand), 7);
}
