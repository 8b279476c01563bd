use bola_api::leaderboard::{
    local_update_leaderboard, sort_descending, Difficulty, LeaderboardEntry, LeaderboardState,
    LeaderboardUpdate,
};

fn entry(score: u16, name: &str) -> LeaderboardEntry {
    LeaderboardEntry { score, username: name.to_string() }
}

fn scores(board: &[LeaderboardEntry]) -> Vec<(u16, String)> {
    board.iter().map(|e| (e.score, e.username.clone())).collect()
}

#[test]
fn empty_board_takes_first_entry() {
    let mut board = Vec::new();
    assert!(local_update_leaderboard(&mut board, entry(10, "ann"), 5));
    assert_eq!(scores(&board), vec![(10, "ann".to_string())]);
}

#[test]
fn empty_board_takes_entry_even_with_zero_span() {
    let mut board = Vec::new();
    assert!(local_update_leaderboard(&mut board, entry(3, "bob"), 0));
    assert_eq!(board.len(), 1);
}

#[test]
fn better_score_replaces_player_entry_and_board_is_resorted() {
    let mut board = vec![entry(50, "ann"), entry(40, "bob"), entry(30, "cat")];
    assert!(local_update_leaderboard(&mut board, entry(60, "cat"), 5));
    assert_eq!(
        scores(&board),
        vec![(60, "cat".to_string()), (50, "ann".to_string()), (40, "bob".to_string())]
    );
}

#[test]
fn worse_or_equal_score_of_listed_player_changes_nothing() {
    let mut board = vec![entry(50, "ann"), entry(40, "bob")];
    assert!(!local_update_leaderboard(&mut board, entry(40, "bob"), 5));
    assert!(!local_update_leaderboard(&mut board, entry(10, "ann"), 5));
    assert_eq!(scores(&board), vec![(50, "ann".to_string()), (40, "bob".to_string())]);
}

#[test]
fn new_player_joins_a_board_with_room() {
    let mut board = vec![entry(50, "ann")];
    assert!(local_update_leaderboard(&mut board, entry(70, "dan"), 5));
    assert_eq!(scores(&board), vec![(70, "dan".to_string()), (50, "ann".to_string())]);
}

#[test]
fn full_board_drops_its_last_for_a_better_newcomer() {
    let mut board = vec![entry(50, "ann"), entry(40, "bob")];
    assert!(local_update_leaderboard(&mut board, entry(45, "eve"), 2));
    assert_eq!(scores(&board), vec![(50, "ann".to_string()), (45, "eve".to_string())]);
}

#[test]
fn full_board_refuses_a_newcomer_not_above_its_last() {
    let mut board = vec![entry(50, "ann"), entry(40, "bob")];
    assert!(!local_update_leaderboard(&mut board, entry(39, "eve"), 2));
    // same score, name sorts below "bob"
    assert!(!local_update_leaderboard(&mut board, entry(40, "abe"), 2));
    assert_eq!(scores(&board), vec![(50, "ann".to_string()), (40, "bob".to_string())]);
}

#[test]
fn equal_score_newcomer_with_later_name_beats_last() {
    let mut board = vec![entry(50, "ann"), entry(40, "bob")];
    assert!(local_update_leaderboard(&mut board, entry(40, "zed"), 2));
    assert_eq!(scores(&board), vec![(50, "ann".to_string()), (40, "zed".to_string())]);
}

#[test]
fn resubmitting_the_same_entry_changes_nothing() {
    let mut board = vec![entry(50, "ann")];
    assert!(local_update_leaderboard(&mut board, entry(80, "bob"), 5));
    let before = scores(&board);
    assert!(!local_update_leaderboard(&mut board, entry(80, "bob"), 5));
    assert_eq!(scores(&board), before);
}

#[test]
fn sort_puts_best_first_and_breaks_ties_by_name() {
    let mut board = vec![entry(1, "a"), entry(5, "b"), entry(5, "c"), entry(3, "d")];
    sort_descending(&mut board);
    assert_eq!(
        scores(&board),
        vec![
            (5, "c".to_string()),
            (5, "b".to_string()),
            (3, "d".to_string()),
            (1, "a".to_string())
        ]
    );
}

#[test]
fn difficulty_names_round_trip() {
    for d in [Difficulty::Easy, Difficulty::Normal, Difficulty::Expert] {
        assert_eq!(Difficulty::from_name(d.name()), Some(d));
    }
    assert_eq!(Difficulty::from_name("hard"), None);
    assert_eq!(Difficulty::Expert.highscore_field(), "expert_highscore");
    assert_eq!(Difficulty::Normal.name(), "normal");
}

#[test]
fn state_update_announces_only_the_changed_board() {
    let mut state = LeaderboardState::new(vec![], vec![entry(9, "x")], vec![], 5);
    let update = state.local_update_leaderboard(Difficulty::Normal, entry(12, "y"));
    match update {
        Some(LeaderboardUpdate::Normal(board)) => {
            assert_eq!(scores(&board), vec![(12, "y".to_string()), (9, "x".to_string())]);
        }
        _ => panic!("expected a normal board update"),
    }
    assert!(state.easy.is_empty());
    assert!(state.expert.is_empty());
    assert!(state.local_update_leaderboard(Difficulty::Normal, entry(1, "y")).is_none());
    let view = state.get_leaderboard();
    assert_eq!(scores(&view.normal), vec![(12, "y".to_string()), (9, "x".to_string())]);
}
