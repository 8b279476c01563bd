//! Messages between sibling servers and from the control client, and how
//! a sibling's highscore announcement reaches this server's leaderboards.
use vstd::prelude::*;
use crate::leaderboard::{
    difficulty_name, difficulty_named, offered_board, sorted_desc, AddLeaderboardEntryError,
    Difficulty, LeaderboardEntry, LeaderboardState, LeaderboardUpdate,
};

verus! {

/// The domain of the sibling server a connection came from.
pub struct ServerName(pub String);

/// A new best score that a sibling server took onto one of its boards.
pub struct HighscoreUpdate {
    pub difficulty: String,
    pub username: String,
    pub score: u16,
}

/// What sibling servers send one another.
pub enum NetworkMessage {
    HighscoreUpdate(HighscoreUpdate),
}

impl NetworkMessage {
    pub fn from(update: HighscoreUpdate) -> (r: NetworkMessage)
        ensures
            r == NetworkMessage::HighscoreUpdate(update),
    {
        NetworkMessage::HighscoreUpdate(update)
    }
}

/// What the control client asks of the server.
#[derive(Clone, Copy, Debug, PartialEq, Eq)]
pub enum ControlClientMessage {
    Stop,
}

/// The announcement of `entry` taken onto the board of `difficulty`.
pub fn highscore_update_of(difficulty: Difficulty, entry: &LeaderboardEntry) -> (r: HighscoreUpdate)
    ensures
        r.difficulty@ == difficulty_name(difficulty),
        r.username@ == entry.username@,
        r.score == entry.score,
{
    HighscoreUpdate {
        difficulty: String::from_str(difficulty.name()),
        username: entry.username.clone(),
        score: entry.score,
    }
}

/// What follows a player's new score once the profile store has answered:
/// what to answer the player, the changed board for this server's
/// listeners, and the announcement for the siblings.
pub struct ScoreOutcome {
    pub result: Result<(), AddLeaderboardEntryError>,
    pub update: Option<LeaderboardUpdate>,
    pub announcement: Option<HighscoreUpdate>,
}

/// The step after storing a player's score on the board of `difficulty`.
/// A refused write is an internal error and nothing else happens.
/// Otherwise the entry is offered to the board: where the board takes it,
/// the changed board goes to this server's listeners and the entry is
/// announced to the siblings; where it does not, nothing more happens.
pub fn after_score_stored(
    state: &mut LeaderboardState,
    difficulty: Difficulty,
    entry: LeaderboardEntry,
    stored: bool,
) -> (r: ScoreOutcome)
    ensures
        final(state).span == old(state).span,
        !stored ==> {
            &&& r.result == Err::<(), AddLeaderboardEntryError>(AddLeaderboardEntryError::InternalError)
            &&& r.update is None && r.announcement is None
            &&& forall|d: Difficulty| #[trigger] final(state).board(d) == old(state).board(d)
        },
        stored ==> {
            &&& r.result is Ok
            &&& forall|d: Difficulty|
                d != difficulty ==> #[trigger] final(state).board(d) == old(state).board(d)
            &&& match offered_board(old(state).board(difficulty), entry@, old(state).span as nat) {
                Some(nb) => {
                    &&& r.update matches Some(u) && u.difficulty() == difficulty && u.entries()
                        == final(state).board(difficulty)
                    &&& sorted_desc(final(state).board(difficulty))
                    &&& final(state).board(difficulty).to_multiset() == nb.to_multiset()
                    &&& r.announcement matches Some(a) && a.difficulty@ == difficulty_name(difficulty)
                        && a.username@ == entry.username@ && a.score == entry.score
                },
                None => r.update is None && r.announcement is None && final(state).board(difficulty)
                    == old(state).board(difficulty),
            }
        },
{
    if !stored {
        return ScoreOutcome {
            result: Err(AddLeaderboardEntryError::InternalError),
            update: None,
            announcement: None,
        };
    }
    let announcement = highscore_update_of(difficulty, &entry);
    match state.local_update_leaderboard(difficulty, entry) {
        None => ScoreOutcome { result: Ok(()), update: None, announcement: None },
        Some(u) => ScoreOutcome { result: Ok(()), update: Some(u), announcement: Some(announcement) },
    }
}

/// Offers a sibling's announcement to this server's board of the named
/// difficulty. An unknown difficulty changes nothing and gives `Err` with
/// the name; otherwise gives what `local_update_leaderboard` gives, and
/// the changed board, like every board, stays best first.
pub fn apply_highscore_update(state: &mut LeaderboardState, msg: HighscoreUpdate) -> (r: Result<
    Option<LeaderboardUpdate>,
    String,
>)
    ensures
        final(state).span == old(state).span,
        match difficulty_named(msg.difficulty@) {
            None => r matches Err(name) && name@ == msg.difficulty@ && forall|d: Difficulty| #[trigger]
                final(state).board(d) == old(state).board(d),
            Some(difficulty) => {
                &&& r is Ok
                &&& forall|d: Difficulty|
                    d != difficulty ==> #[trigger] final(state).board(d) == old(state).board(d)
                &&& match offered_board(
                    old(state).board(difficulty),
                    (msg.score, msg.username@),
                    old(state).span as nat,
                ) {
                    Some(nb) => {
                        &&& r matches Ok(Some(u))
                        &&& u.difficulty() == difficulty
                        &&& u.entries() == final(state).board(difficulty)
                        &&& final(state).board(difficulty).to_multiset() == nb.to_multiset()
                        &&& sorted_desc(final(state).board(difficulty))
                    },
                    None => r matches Ok(None) && final(state).board(difficulty) == old(state).board(
                        difficulty,
                    ),
                }
            },
        },
{
    match Difficulty::from_name(msg.difficulty.as_str()) {
        None => Err(msg.difficulty),
        Some(difficulty) => {
            let entry = LeaderboardEntry { score: msg.score, username: msg.username };
            Ok(state.local_update_leaderboard(difficulty, entry))
        },
    }
}

/// An announcement names its board so that every sibling offers the entry
/// to the same board it was taken onto.
pub proof fn law_announcement_names_its_board(d: Difficulty)
    ensures
        difficulty_named(difficulty_name(d)) == Some(d),
{
    reveal_strlit("easy");
    reveal_strlit("normal");
    reveal_strlit("expert");
    match d {
        Difficulty::Easy => {},
        Difficulty::Normal => {
            assert("normal"@.len() != "easy"@.len());
        },
        Difficulty::Expert => {
            assert("expert"@.len() != "easy"@.len());
            assert("expert"@[0] != "normal"@[0]);
        },
    }
}

} // verus!
