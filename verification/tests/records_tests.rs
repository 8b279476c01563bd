use bola_api::records::{
    add_tournament_win, entry_from_record, leaderboard_from_records, map_to_user_profile,
    new_profile_item, score_attribute_value, stored_tournament_wins, AttributeValue, ProfileError,
    ProfileField, RecordError,
};

fn s(x: &str) -> String {
    x.to_string()
}

fn item(pairs: Vec<(&str, AttributeValue)>) -> Vec<(String, AttributeValue)> {
    pairs.into_iter().map(|(k, v)| (s(k), v)).collect()
}

#[test]
fn full_item_reads_as_profile() {
    let it = item(vec![
        ("email", AttributeValue::S(s("a@b.c"))),
        ("username", AttributeValue::S(s("ann"))),
        ("easy_highscore", AttributeValue::N(s("12"))),
        ("normal_highscore", AttributeValue::N(s("7"))),
        ("expert_highscore", AttributeValue::N(s("65535"))),
        ("tournament_wins", AttributeValue::Ns(vec![s("3"), s("9")])),
    ]);
    let p = map_to_user_profile(&it).unwrap();
    assert_eq!(p.username, "ann");
    assert_eq!((p.easy_highscore, p.normal_highscore, p.expert_highscore), (12, 7, 65535));
    assert_eq!(p.tournament_wins, vec![3, 9]);
}

#[test]
fn missing_scores_read_as_zero() {
    let it = item(vec![("username", AttributeValue::S(s("bob")))]);
    let p = map_to_user_profile(&it).unwrap();
    assert_eq!((p.easy_highscore, p.normal_highscore, p.expert_highscore), (0, 0, 0));
    assert!(p.tournament_wins.is_empty());
}

#[test]
fn profile_errors_name_the_first_bad_field() {
    let it = item(vec![("username", AttributeValue::S(s("bob"))), ("normal_highscore", AttributeValue::N(s("x")))]);
    assert_eq!(
        map_to_user_profile(&it).unwrap_err(),
        ProfileError::BadField(ProfileField::NormalHighscore)
    );
    let it = item(vec![("easy_highscore", AttributeValue::N(s("70000")))]);
    assert_eq!(
        map_to_user_profile(&it).unwrap_err(),
        ProfileError::BadField(ProfileField::EasyHighscore)
    );
    let it = item(vec![("expert_highscore", AttributeValue::S(s("1")))]);
    assert_eq!(
        map_to_user_profile(&it).unwrap_err(),
        ProfileError::BadField(ProfileField::ExpertHighscore)
    );
    let it = item(vec![("tournament_wins", AttributeValue::Ns(vec![s("1"), s("-2")]))]);
    assert_eq!(
        map_to_user_profile(&it).unwrap_err(),
        ProfileError::BadField(ProfileField::TournamentWins)
    );
    let it = item(vec![("username", AttributeValue::N(s("1")))]);
    assert_eq!(
        map_to_user_profile(&it).unwrap_err(),
        ProfileError::BadField(ProfileField::Username)
    );
    let it = item(vec![]);
    assert_eq!(map_to_user_profile(&it).unwrap_err(), ProfileError::MissingUsername);
}

#[test]
fn profile_error_messages() {
    assert_eq!(
        ProfileError::BadField(ProfileField::EasyHighscore).message(),
        "Could not deserialize field: easy_highscore in user profile"
    );
    assert_eq!(ProfileError::MissingUsername.message(), "Missing username in user profile");
}

#[test]
fn new_profile_reads_back() {
    let it = new_profile_item(s("e@x"), s("zed"), &vec![4, 11]);
    let p = map_to_user_profile(&it).unwrap();
    assert_eq!(p.username, "zed");
    assert_eq!((p.easy_highscore, p.normal_highscore, p.expert_highscore), (0, 0, 0));
    assert_eq!(p.tournament_wins, vec![4, 11]);
    let it = new_profile_item(s("e@x"), s("zed"), &vec![]);
    assert!(!it.iter().any(|(k, _)| k == "tournament_wins"));
    assert!(it.iter().any(|(k, v)| k == "unused" && matches!(v, AttributeValue::N(n) if n == "0")));
}

#[test]
fn score_attribute_is_decimal() {
    match score_attribute_value(4021) {
        AttributeValue::N(n) => assert_eq!(n, "4021"),
        _ => panic!("expected a number"),
    }
}

#[test]
fn tournament_week_is_recorded_once() {
    let wins = add_tournament_win(vec![s("1")], 5);
    assert_eq!(wins, vec![s("1"), s("5")]);
    let wins = add_tournament_win(wins, 5);
    assert_eq!(wins, vec![s("1"), s("5")]);
}

#[test]
fn stored_wins_of_missing_item_are_empty() {
    assert!(stored_tournament_wins(None).unwrap().is_empty());
    let it = item(vec![("tournament_wins", AttributeValue::Ns(vec![s("2")]))]);
    assert_eq!(stored_tournament_wins(Some(&it)).unwrap(), vec![s("2")]);
    let bad = item(vec![("tournament_wins", AttributeValue::S(s("2")))]);
    assert_eq!(
        stored_tournament_wins(Some(&bad)).unwrap_err(),
        ProfileError::BadField(ProfileField::TournamentWins)
    );
}

#[test]
fn leaderboard_rows_read_in_order() {
    let rows = vec![
        item(vec![
            ("email", AttributeValue::S(s("a"))),
            ("easy_highscore", AttributeValue::N(s("30"))),
            ("username", AttributeValue::S(s("ann"))),
        ]),
        item(vec![
            ("email", AttributeValue::S(s("b"))),
            ("easy_highscore", AttributeValue::N(s("20"))),
            ("username", AttributeValue::S(s("bob"))),
        ]),
    ];
    let board = leaderboard_from_records(&rows, "easy_highscore").unwrap();
    assert_eq!(board.len(), 2);
    assert_eq!((board[0].score, board[0].username.as_str()), (30, "ann"));
    assert_eq!((board[1].score, board[1].username.as_str()), (20, "bob"));
}

#[test]
fn leaderboard_row_errors() {
    let row = item(vec![]);
    assert_eq!(entry_from_record(&row, "easy_highscore").unwrap_err(), RecordError::MissingEmail);
    let row = item(vec![("email", AttributeValue::N(s("1")))]);
    assert_eq!(entry_from_record(&row, "easy_highscore").unwrap_err(), RecordError::EmailNotString);
    let row = item(vec![("email", AttributeValue::S(s("a")))]);
    assert_eq!(entry_from_record(&row, "easy_highscore").unwrap_err(), RecordError::MissingScore);
    let row = item(vec![("email", AttributeValue::S(s("a"))), ("easy_highscore", AttributeValue::S(s("1")))]);
    assert_eq!(entry_from_record(&row, "easy_highscore").unwrap_err(), RecordError::ScoreNotNumber);
    let row = item(vec![("email", AttributeValue::S(s("a"))), ("easy_highscore", AttributeValue::N(s("1.5")))]);
    assert_eq!(entry_from_record(&row, "easy_highscore").unwrap_err(), RecordError::BadScore);
    let row = item(vec![("email", AttributeValue::S(s("a"))), ("easy_highscore", AttributeValue::N(s("1")))]);
    assert_eq!(entry_from_record(&row, "easy_highscore").unwrap_err(), RecordError::MissingUsername);
    let row = item(vec![
        ("email", AttributeValue::S(s("a"))),
        ("easy_highscore", AttributeValue::N(s("1"))),
        ("username", AttributeValue::Other),
    ]);
    assert_eq!(entry_from_record(&row, "easy_highscore").unwrap_err(), RecordError::UsernameNotString);
    let rows = vec![row];
    assert_eq!(leaderboard_from_records(&rows, "easy_highscore").unwrap_err(), RecordError::UsernameNotString);
}
