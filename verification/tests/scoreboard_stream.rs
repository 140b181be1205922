use loki::scoreboard::Scoreboard;
use loki::stream_indicator::{StreamIndicator, STREAMING_PREFIX};

#[test]
fn scores_rank_descending_with_ties_in_insertion_order() {
    let mut board = Scoreboard::new();
    assert_eq!(board.set_user(1, 10), None);
    assert_eq!(board.set_user(2, 20), None);
    assert_eq!(board.set_user(3, 20), None);
    assert_eq!(board.set_user(4, 5), None);
    let ranked = board.scores();
    assert_eq!(ranked.len(), 4);
    assert_eq!(ranked[0], (1, 2, 20));
    assert_eq!(ranked[1], (2, 3, 20));
    assert_eq!(ranked[2], (3, 1, 10));
    assert_eq!(ranked[3], (4, 4, 5));
}

#[test]
fn setting_a_user_again_replaces_their_score() {
    let mut board = Scoreboard::new();
    assert_eq!(board.set_user(1, 10), None);
    assert_eq!(board.set_user(1, 30), Some(10));
    assert_eq!(board.scores(), vec![(1, 1, 30)]);
}

#[test]
fn top_ten_is_cut_off() {
    let mut board = Scoreboard::new();
    for u in 0..15u64 {
        board.set_user(u, u as i64);
    }
    let ranked = board.scores();
    assert_eq!(ranked.len(), 10);
    assert_eq!(ranked[0], (1, 14, 14));
    assert_eq!(ranked[9], (10, 5, 5));
}

#[test]
fn single_user_rank() {
    let mut board = Scoreboard::new();
    board.set_user(1, 10);
    board.set_user(2, 20);
    board.set_user(3, 15);
    assert_eq!(board.score(1), Some((3, 1, 10)));
    assert_eq!(board.score(2), Some((1, 2, 20)));
    assert_eq!(board.score(3), Some((2, 3, 15)));
    assert_eq!(board.score(4), None);
}

#[test]
fn streaming_mark_and_unmark() {
    let name = String::from("Alice");
    let marked = StreamIndicator::marked(&name);
    assert_eq!(marked, format!("{}Alice", STREAMING_PREFIX));
    assert!(StreamIndicator::is_marked(&marked));
    assert!(!StreamIndicator::is_marked(&name));
    assert_eq!(StreamIndicator::unmarked(&marked), "Alice");
}

#[test]
fn streaming_mark_truncates_to_thirty_characters() {
    let long = String::from("abcdefghijklmnopqrstuvwxyz0123456789");
    let marked = StreamIndicator::marked(&long);
    let expected = format!("{}abcdefghijklmnopqrstuvwxyz0123", STREAMING_PREFIX);
    assert_eq!(marked, expected);
}
