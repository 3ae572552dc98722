use macinmeter_dr_tool::tools::parallel_processor::{restore_file_order, tags_are_file_positions};

#[test]
fn results_return_to_file_order() {
    let arrived = vec![
        (2usize, "c.flac".to_string()),
        (0usize, "a.flac".to_string()),
        (3usize, "d.flac".to_string()),
        (1usize, "b.flac".to_string()),
    ];
    let ordered = restore_file_order(arrived);
    assert_eq!(ordered, vec!["a.flac", "b.flac", "c.flac", "d.flac"]);
}

#[test]
fn results_already_in_order_stay_put() {
    let arrived = vec![(0usize, 10u32), (1usize, 20u32), (2usize, 30u32)];
    assert_eq!(restore_file_order(arrived), vec![10, 20, 30]);
}

#[test]
fn reversed_arrival_is_undone() {
    let arrived = vec![(2usize, 'z'), (1usize, 'y'), (0usize, 'x')];
    assert_eq!(restore_file_order(arrived), vec!['x', 'y', 'z']);
}

#[test]
fn no_results_give_nothing() {
    let arrived: Vec<(usize, u8)> = Vec::new();
    assert!(restore_file_order(arrived).is_empty());
}

#[test]
fn tag_check_accepts_only_permutations_of_positions() {
    assert!(tags_are_file_positions(&vec![(2usize, 'c'), (0usize, 'a'), (1usize, 'b')]));
    assert!(tags_are_file_positions::<u8>(&Vec::new()));
    assert!(!tags_are_file_positions(&vec![(0usize, 'a'), (0usize, 'b')]));
    assert!(!tags_are_file_positions(&vec![(0usize, 'a'), (2usize, 'b')]));
}
