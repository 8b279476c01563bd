//! The websocket API session: what a connection does with each message and
//! with each answer from the outside (authentication, profile store,
//! leaderboards, token granter), as a state machine. The caller performs the
//! actions in order and feeds back the answer the last one waits for; any
//! failure to send or receive ends the session.
use vstd::prelude::*;
use crate::leaderboard::{Difficulty, LeaderboardEntry, difficulty_named};
use crate::records::UserProfile;
use crate::bytes::str_is;
use crate::token::{LoginTokenConfig, TokenVerificationError, VerifiedToken};

verus! {

/// Whether a username is inappropriate, as `rustrict`'s censor judges it.
pub uninterp spec fn username_is_inappropriate(s: Seq<char>) -> bool;

/// Calls `rustrict::CensorStr::is_inappropriate`; the result is a function
/// of the text alone (the crate's default word lists are fixed).
#[verifier::external_body]
pub(crate) fn is_inappropriate(s: &str) -> (r: bool)
    ensures
        r == username_is_inappropriate(s@),
{
    rustrict::CensorStr::is_inappropriate(s)
}

/// Who a login token stands for.
#[derive(Clone, Debug, PartialEq, Eq, Hash)]
pub struct LoginTokenData {
    pub username: String,
    pub email: String,
}

/// The requests a client sends over the websocket API.
#[derive(Debug)]
pub enum WSAPIMessage {
    ScoreUpdateRequest { difficulty: String, score: u16 },
    Logout,
    GetLeaderboard,
    Login,
    GetTournament,
    WinTournament,
    HostSession { max_size: usize },
    StartJoinSession(u16),
    JoinSessionSDPOffers(Vec<String>),
    JoinSessionICE { index: usize, ice: String },
    SDPAnswer { sdp_answer: String, ice_candidate: String },
}

/// Where a session is.
#[derive(Debug)]
pub enum SessionPhase {
    /// Waiting for a request from a client that has not logged in.
    LoggedOut,
    /// Waiting for a request from a logged-in client.
    LoggedIn(LoginTokenData),
    /// Waiting for the leaderboard to take a posted score.
    PostingScore(LoginTokenData),
    /// Waiting for the identity provider.
    AwaitingAuth,
    /// Waiting to learn whether the email already has a connection.
    RegisteringConnection(String),
    /// Waiting for the profile store to look up the email's profile.
    LookingUpProfile(String),
    /// Waiting for the client to send the profile to sign up with.
    AwaitingSignUp(String),
    /// Waiting to learn whether the username is taken.
    CheckingUsername(String, UserProfile),
    /// Waiting for the profile store to create the profile; email,
    /// username, easy and normal best scores.
    CreatingProfile(String, String, u16, u16),
    /// Waiting for the token granter; email then username.
    AwaitingToken(String, String),
    /// The session is over.
    Ended,
}

/// What the outside answers.
#[derive(Debug)]
pub enum SessionEvent {
    /// A request arrived.
    Received(WSAPIMessage),
    /// The sign-up profile arrived.
    ReceivedProfile(UserProfile),
    /// Authentication ended: `None` when it failed or timed out, else the
    /// email the provider gave, if any.
    AuthFinished(Option<Option<String>>),
    /// Whether the email already had a connection.
    ConnectionRegistered(bool),
    /// The profile lookup: `Err` when the store failed.
    ProfileFound(Result<Option<UserProfile>, ()>),
    /// Whether the username is taken: `Err` when the store failed.
    UsernameChecked(Result<bool, ()>),
    /// Whether the profile was created.
    ProfileCreated(bool),
    /// Whether the posted score was stored.
    ScorePosted(bool),
    /// The token that was granted.
    TokenCreated(String),
}

/// What the session asks the caller to do.
#[derive(Debug)]
pub enum SessionAction {
    /// Send a text message.
    Send(&'static str),
    /// Send a granted token.
    SendToken(String),
    /// Send a profile, as JSON.
    SendProfile(UserProfile),
    /// Post a score on a leaderboard; only logged.
    AddEntry(Difficulty, String, LeaderboardEntry),
    /// Post a score on a leaderboard and answer `ScorePosted`.
    PostScore(Difficulty, String, LeaderboardEntry),
    /// Start authentication, send the client the provider's URL, and answer
    /// `AuthFinished`.
    StartAuth,
    /// Note a connection for the email and answer `ConnectionRegistered`.
    RegisterConnection(String),
    /// Look up the email's profile and answer `ProfileFound`.
    LookUpProfile(String),
    /// Check whether the username is taken and answer `UsernameChecked`.
    CheckUsername(String),
    /// Create a profile (email, username, tournament weeks) and answer
    /// `ProfileCreated`.
    CreateProfile(String, String, Vec<u16>),
    /// Grant a login token (email, username) and answer `TokenCreated`.
    CreateToken(String, String),
    /// Receive a request and answer `Received`.
    AwaitMessage,
    /// Receive a profile and answer `ReceivedProfile`.
    AwaitProfile,
    /// End the session.
    End,
}

/// Whether the event is the kind of answer the phase waits for.
pub open spec fn expects(phase: SessionPhase, event: SessionEvent) -> bool {
    match phase {
        SessionPhase::LoggedOut => event is Received,
        SessionPhase::LoggedIn(_) => event is Received,
        SessionPhase::PostingScore(_) => event is ScorePosted,
        SessionPhase::AwaitingAuth => event is AuthFinished,
        SessionPhase::RegisteringConnection(_) => event is ConnectionRegistered,
        SessionPhase::LookingUpProfile(_) => event is ProfileFound,
        SessionPhase::AwaitingSignUp(_) => event is ReceivedProfile,
        SessionPhase::CheckingUsername(_, _) => event is UsernameChecked,
        SessionPhase::CreatingProfile(_, _, _, _) => event is ProfileCreated,
        SessionPhase::AwaitingToken(_, _) => event is TokenCreated,
        SessionPhase::Ended => false,
    }
}

/// A logged-in client's request that the API does not serve yet.
pub open spec fn unserved_when_logged_in(phase: SessionPhase, event: SessionEvent) -> bool {
    &&& phase is LoggedIn
    &&& event matches SessionEvent::Received(m)
    &&& !(m is ScoreUpdateRequest || m is Login)
}

/// What a sign-up profile leads to, given whether its username is
/// inappropriate.
pub open spec fn screened(email: String, profile: UserProfile, inappropriate: bool) -> (
    SessionPhase,
    Seq<SessionAction>,
) {
    if inappropriate {
        (
            SessionPhase::AwaitingSignUp(email),
            seq![SessionAction::Send("Inappropriate username"), SessionAction::AwaitProfile],
        )
    } else {
        (
            SessionPhase::CheckingUsername(email, profile),
            seq![SessionAction::CheckUsername(profile.username)],
        )
    }
}

/// The actions that finish a sign-up once the profile is stored: the new
/// player's scores go to the three boards (the expert board receives the
/// easy score), then "Success", then a token is asked for.
pub open spec fn sign_up_entries(email: String, username: String, easy: u16, normal: u16) -> Seq<
    SessionAction,
> {
    seq![
        SessionAction::AddEntry(
            Difficulty::Easy,
            email,
            LeaderboardEntry { score: easy, username },
        ),
        SessionAction::AddEntry(
            Difficulty::Normal,
            email,
            LeaderboardEntry { score: normal, username },
        ),
        SessionAction::AddEntry(
            Difficulty::Expert,
            email,
            LeaderboardEntry { score: easy, username },
        ),
        SessionAction::Send("Success"),
        SessionAction::CreateToken(email, username),
    ]
}

/// The next phase and the actions, for a phase and an event it expects.
pub open spec fn session_step(phase: SessionPhase, event: SessionEvent) -> (
    SessionPhase,
    Seq<SessionAction>,
) {
    match (phase, event) {
        (SessionPhase::LoggedIn(data), SessionEvent::Received(msg)) => match msg {
            WSAPIMessage::ScoreUpdateRequest { difficulty, score } => match difficulty_named(
                difficulty@,
            ) {
                Some(d) => (
                    SessionPhase::PostingScore(data),
                    seq![
                        SessionAction::PostScore(
                            d,
                            data.email,
                            LeaderboardEntry { score, username: data.username },
                        ),
                    ],
                ),
                None => (
                    SessionPhase::Ended,
                    seq![SessionAction::Send("Not a valid difficulty"), SessionAction::End],
                ),
            },
            _ => (
                SessionPhase::LoggedIn(data),
                seq![SessionAction::Send("Already logged in"), SessionAction::AwaitMessage],
            ),
        },
        (SessionPhase::PostingScore(data), SessionEvent::ScorePosted(ok)) => (
            SessionPhase::LoggedIn(data),
            if ok {
                seq![SessionAction::Send("Success"), SessionAction::AwaitMessage]
            } else {
                seq![
                    SessionAction::Send("Internal Error"),
                    SessionAction::Send("Success"),
                    SessionAction::AwaitMessage,
                ]
            },
        ),
        (SessionPhase::LoggedOut, SessionEvent::Received(msg)) => match msg {
            WSAPIMessage::GetLeaderboard => (
                SessionPhase::LoggedOut,
                seq![SessionAction::AwaitMessage],
            ),
            WSAPIMessage::GetTournament => (
                SessionPhase::LoggedOut,
                seq![SessionAction::AwaitMessage],
            ),
            WSAPIMessage::Login => (SessionPhase::AwaitingAuth, seq![SessionAction::StartAuth]),
            _ => (
                SessionPhase::LoggedOut,
                seq![SessionAction::Send("Must be logged in"), SessionAction::AwaitMessage],
            ),
        },
        (SessionPhase::AwaitingAuth, SessionEvent::AuthFinished(outcome)) => match outcome {
            Some(Some(email)) => (
                SessionPhase::RegisteringConnection(email),
                seq![SessionAction::RegisterConnection(email)],
            ),
            _ => (
                SessionPhase::LoggedOut,
                seq![SessionAction::Send("Auth Failed"), SessionAction::AwaitMessage],
            ),
        },
        (SessionPhase::RegisteringConnection(email), SessionEvent::ConnectionRegistered(already)) => (
            SessionPhase::LookingUpProfile(email),
            if already {
                seq![SessionAction::Send("Already Connected"), SessionAction::LookUpProfile(email)]
            } else {
                seq![SessionAction::LookUpProfile(email)]
            },
        ),
        (SessionPhase::LookingUpProfile(email), SessionEvent::ProfileFound(found)) => match found {
            Ok(Some(profile)) => (
                SessionPhase::AwaitingToken(email, profile.username),
                seq![
                    SessionAction::SendProfile(profile),
                    SessionAction::CreateToken(email, profile.username),
                ],
            ),
            Ok(None) => (
                SessionPhase::AwaitingSignUp(email),
                seq![SessionAction::Send("Sign Up"), SessionAction::AwaitProfile],
            ),
            Err(_) => (
                SessionPhase::Ended,
                seq![SessionAction::Send("Internal Error"), SessionAction::End],
            ),
        },
        (SessionPhase::AwaitingSignUp(email), SessionEvent::ReceivedProfile(profile)) => screened(
            email,
            profile,
            username_is_inappropriate(profile.username@),
        ),
        (SessionPhase::CheckingUsername(email, profile), SessionEvent::UsernameChecked(taken)) =>
        match taken {
            Ok(true) => (
                SessionPhase::AwaitingSignUp(email),
                seq![SessionAction::Send("Username already used"), SessionAction::AwaitProfile],
            ),
            Ok(false) => (
                SessionPhase::CreatingProfile(
                    email,
                    profile.username,
                    profile.easy_highscore,
                    profile.normal_highscore,
                ),
                seq![
                    SessionAction::CreateProfile(
                        email,
                        profile.username,
                        profile.tournament_wins,
                    ),
                ],
            ),
            Err(_) => (
                SessionPhase::Ended,
                seq![SessionAction::Send("Internal Error"), SessionAction::End],
            ),
        },
        (
            SessionPhase::CreatingProfile(email, username, easy, normal),
            SessionEvent::ProfileCreated(ok),
        ) => if ok {
            (SessionPhase::AwaitingToken(email, username), sign_up_entries(email, username, easy, normal))
        } else {
            (SessionPhase::Ended, seq![SessionAction::Send("Internal Error"), SessionAction::End])
        },
        (SessionPhase::AwaitingToken(email, username), SessionEvent::TokenCreated(token)) => (
            SessionPhase::LoggedIn(LoginTokenData { username, email }),
            seq![SessionAction::SendToken(token), SessionAction::AwaitMessage],
        ),
        (phase, _) => (phase, seq![SessionAction::End]),
    }
}

/// What a sign-up profile leads to, once its username has been screened.
pub fn screen_sign_up(email: String, profile: UserProfile, inappropriate: bool) -> (r: (
    SessionPhase,
    Vec<SessionAction>,
))
    ensures
        (r.0, r.1@) == screened(email, profile, inappropriate),
{
    let mut actions: Vec<SessionAction> = Vec::new();
    if inappropriate {
        actions.push(SessionAction::Send("Inappropriate username"));
        actions.push(SessionAction::AwaitProfile);
        assert(actions@ =~= seq![
            SessionAction::Send("Inappropriate username"),
            SessionAction::AwaitProfile,
        ]);
        (SessionPhase::AwaitingSignUp(email), actions)
    } else {
        actions.push(SessionAction::CheckUsername(profile.username.clone()));
        assert(actions@ =~= seq![SessionAction::CheckUsername(profile.username)]);
        (SessionPhase::CheckingUsername(email, profile), actions)
    }
}

/// Takes one step of the session: the phase it moves to and the actions to
/// perform, in order.
pub fn step(phase: SessionPhase, event: SessionEvent) -> (r: (SessionPhase, Vec<SessionAction>))
    requires
        expects(phase, event),
        !unserved_when_logged_in(phase, event),
    ensures
        (r.0, r.1@) == session_step(phase, event),
{
    let mut actions: Vec<SessionAction> = Vec::new();
    match (phase, event) {
        (SessionPhase::LoggedIn(data), SessionEvent::Received(msg)) => match msg {
            WSAPIMessage::ScoreUpdateRequest { difficulty, score } => match Difficulty::from_name(
                difficulty.as_str(),
            ) {
                Some(d) => {
                    let entry = LeaderboardEntry { score, username: data.username.clone() };
                    actions.push(SessionAction::PostScore(d, data.email.clone(), entry));
                    (SessionPhase::PostingScore(data), actions)
                },
                None => {
                    actions.push(SessionAction::Send("Not a valid difficulty"));
                    actions.push(SessionAction::End);
                    (SessionPhase::Ended, actions)
                },
            },
            _ => {
                actions.push(SessionAction::Send("Already logged in"));
                actions.push(SessionAction::AwaitMessage);
                (SessionPhase::LoggedIn(data), actions)
            },
        },
        (SessionPhase::PostingScore(data), SessionEvent::ScorePosted(ok)) => {
            if !ok {
                actions.push(SessionAction::Send("Internal Error"));
            }
            actions.push(SessionAction::Send("Success"));
            actions.push(SessionAction::AwaitMessage);
            (SessionPhase::LoggedIn(data), actions)
        },
        (SessionPhase::LoggedOut, SessionEvent::Received(msg)) => match msg {
            WSAPIMessage::GetLeaderboard => {
                actions.push(SessionAction::AwaitMessage);
                (SessionPhase::LoggedOut, actions)
            },
            WSAPIMessage::GetTournament => {
                actions.push(SessionAction::AwaitMessage);
                (SessionPhase::LoggedOut, actions)
            },
            WSAPIMessage::Login => {
                actions.push(SessionAction::StartAuth);
                (SessionPhase::AwaitingAuth, actions)
            },
            _ => {
                actions.push(SessionAction::Send("Must be logged in"));
                actions.push(SessionAction::AwaitMessage);
                (SessionPhase::LoggedOut, actions)
            },
        },
        (SessionPhase::AwaitingAuth, SessionEvent::AuthFinished(outcome)) => match outcome {
            Some(Some(email)) => {
                actions.push(SessionAction::RegisterConnection(email.clone()));
                (SessionPhase::RegisteringConnection(email), actions)
            },
            _ => {
                actions.push(SessionAction::Send("Auth Failed"));
                actions.push(SessionAction::AwaitMessage);
                (SessionPhase::LoggedOut, actions)
            },
        },
        (SessionPhase::RegisteringConnection(email), SessionEvent::ConnectionRegistered(already)) => {
            if already {
                actions.push(SessionAction::Send("Already Connected"));
            }
            actions.push(SessionAction::LookUpProfile(email.clone()));
            (SessionPhase::LookingUpProfile(email), actions)
        },
        (SessionPhase::LookingUpProfile(email), SessionEvent::ProfileFound(found)) => match found {
            Ok(Some(profile)) => {
                let username = profile.username.clone();
                actions.push(SessionAction::SendProfile(profile));
                actions.push(SessionAction::CreateToken(email.clone(), username.clone()));
                (SessionPhase::AwaitingToken(email, username), actions)
            },
            Ok(None) => {
                actions.push(SessionAction::Send("Sign Up"));
                actions.push(SessionAction::AwaitProfile);
                (SessionPhase::AwaitingSignUp(email), actions)
            },
            Err(_) => {
                actions.push(SessionAction::Send("Internal Error"));
                actions.push(SessionAction::End);
                (SessionPhase::Ended, actions)
            },
        },
        (SessionPhase::AwaitingSignUp(email), SessionEvent::ReceivedProfile(profile)) => {
            let inappropriate = is_inappropriate(profile.username.as_str());
            screen_sign_up(email, profile, inappropriate)
        },
        (SessionPhase::CheckingUsername(email, profile), SessionEvent::UsernameChecked(taken)) =>
        match taken {
            Ok(true) => {
                actions.push(SessionAction::Send("Username already used"));
                actions.push(SessionAction::AwaitProfile);
                (SessionPhase::AwaitingSignUp(email), actions)
            },
            Ok(false) => {
                let UserProfile {
                    username,
                    easy_highscore,
                    normal_highscore,
                    expert_highscore: _,
                    tournament_wins,
                } = profile;
                actions.push(
                    SessionAction::CreateProfile(email.clone(), username.clone(), tournament_wins),
                );
                (
                    SessionPhase::CreatingProfile(email, username, easy_highscore, normal_highscore),
                    actions,
                )
            },
            Err(_) => {
                actions.push(SessionAction::Send("Internal Error"));
                actions.push(SessionAction::End);
                (SessionPhase::Ended, actions)
            },
        },
        (
            SessionPhase::CreatingProfile(email, username, easy_highscore, normal_highscore),
            SessionEvent::ProfileCreated(ok),
        ) => {
            if ok {
                actions.push(
                    SessionAction::AddEntry(
                        Difficulty::Easy,
                        email.clone(),
                        LeaderboardEntry { score: easy_highscore, username: username.clone() },
                    ),
                );
                actions.push(
                    SessionAction::AddEntry(
                        Difficulty::Normal,
                        email.clone(),
                        LeaderboardEntry { score: normal_highscore, username: username.clone() },
                    ),
                );
                actions.push(
                    SessionAction::AddEntry(
                        Difficulty::Expert,
                        email.clone(),
                        LeaderboardEntry { score: easy_highscore, username: username.clone() },
                    ),
                );
                actions.push(SessionAction::Send("Success"));
                actions.push(SessionAction::CreateToken(email.clone(), username.clone()));
                (SessionPhase::AwaitingToken(email, username), actions)
            } else {
                actions.push(SessionAction::Send("Internal Error"));
                actions.push(SessionAction::End);
                (SessionPhase::Ended, actions)
            }
        },
        (SessionPhase::AwaitingToken(email, username), SessionEvent::TokenCreated(token)) => {
            actions.push(SessionAction::SendToken(token));
            actions.push(SessionAction::AwaitMessage);
            (SessionPhase::LoggedIn(LoginTokenData { username, email }), actions)
        },
        (phase, _) => {
            actions.push(SessionAction::End);
            (phase, actions)
        },
    }
}

/// The action a phase waits on, last in the actions that lead to it.
pub open spec fn waits_for(phase: SessionPhase, a: SessionAction) -> bool {
    match phase {
        SessionPhase::LoggedOut => a is AwaitMessage,
        SessionPhase::LoggedIn(_) => a is AwaitMessage,
        SessionPhase::PostingScore(_) => a is PostScore,
        SessionPhase::AwaitingAuth => a is StartAuth,
        SessionPhase::RegisteringConnection(_) => a is RegisterConnection,
        SessionPhase::LookingUpProfile(_) => a is LookUpProfile,
        SessionPhase::AwaitingSignUp(_) => a is AwaitProfile,
        SessionPhase::CheckingUsername(_, _) => a is CheckUsername,
        SessionPhase::CreatingProfile(_, _, _, _) => a is CreateProfile,
        SessionPhase::AwaitingToken(_, _) => a is CreateToken,
        SessionPhase::Ended => a is End,
    }
}

/// Actions that the session waits on, or that end it.
pub open spec fn is_wait(a: SessionAction) -> bool {
    !(a is Send || a is SendToken || a is SendProfile || a is AddEntry)
}

/// Every step asks for something to wait on, or to end, exactly once and
/// last; and what it waits on is what the next phase expects.
pub proof fn law_each_step_waits_once(phase: SessionPhase, event: SessionEvent)
    requires
        expects(phase, event),
        !unserved_when_logged_in(phase, event),
    ensures
        ({
            let (next, actions) = session_step(phase, event);
            &&& actions.len() > 0
            &&& waits_for(next, actions.last())
            &&& forall|i: int| 0 <= i < actions.len() - 1 ==> !is_wait(#[trigger] actions[i])
        }),
{
    if let (SessionPhase::AwaitingSignUp(email), SessionEvent::ReceivedProfile(profile)) = (
        phase,
        event,
    ) {
        let inappropriate = username_is_inappropriate(profile.username@);
        assert(session_step(phase, event) == screened(email, profile, inappropriate));
    }
}

/// A score is posted only for the player who is logged in, under that
/// player's own email and username.
pub proof fn law_scores_posted_only_for_logged_in_player(phase: SessionPhase, event: SessionEvent)
    requires
        expects(phase, event),
        !unserved_when_logged_in(phase, event),
    ensures
        forall|i: int|
            0 <= i < session_step(phase, event).1.len() ==> (
            #[trigger] session_step(phase, event).1[i] matches SessionAction::PostScore(
                _,
                email,
                entry,
            ) ==> phase matches SessionPhase::LoggedIn(data) && email == data.email
                && entry.username == data.username),
{
    if let (SessionPhase::AwaitingSignUp(email), SessionEvent::ReceivedProfile(profile)) = (
        phase,
        event,
    ) {
        let inappropriate = username_is_inappropriate(profile.username@);
        assert(session_step(phase, event) == screened(email, profile, inappropriate));
    }
}

/// A logged-in player's score goes to the board its request names, with
/// the score it asked for: every posted score comes from a score request
/// whose difficulty names exactly that board, and such a request with a
/// board's name is always posted, and nothing else is done before the
/// store answers.
pub proof fn law_score_goes_to_the_named_board(phase: SessionPhase, event: SessionEvent)
    requires
        expects(phase, event),
        !unserved_when_logged_in(phase, event),
    ensures
        forall|i: int|
            0 <= i < session_step(phase, event).1.len() ==> (
            #[trigger] session_step(phase, event).1[i] matches SessionAction::PostScore(d, _, entry)
                ==> (event matches SessionEvent::Received(WSAPIMessage::ScoreUpdateRequest { difficulty, score })
                && difficulty_named(difficulty@) == Some(d) && entry.score == score)),
        phase is LoggedIn ==> (event matches SessionEvent::Received(WSAPIMessage::ScoreUpdateRequest { difficulty, score })
            ==> (difficulty_named(difficulty@) is Some ==> {
                &&& session_step(phase, event).1.len() == 1
                &&& session_step(phase, event).1[0] is PostScore
                &&& session_step(phase, event).0 is PostingScore
            })),
{
    if let (SessionPhase::AwaitingSignUp(email), SessionEvent::ReceivedProfile(profile)) = (
        phase,
        event,
    ) {
        let inappropriate = username_is_inappropriate(profile.username@);
        assert(session_step(phase, event) == screened(email, profile, inappropriate));
    }
}

/// Every username on its way to being stored passed the censor.
pub open spec fn usernames_screened(phase: SessionPhase) -> bool {
    match phase {
        SessionPhase::CheckingUsername(_, p) => !username_is_inappropriate(p.username@),
        SessionPhase::CreatingProfile(_, u, _, _) => !username_is_inappropriate(u@),
        _ => true,
    }
}

/// A profile is created only with a username that the censor accepted;
/// every step keeps the usernames in flight screened.
pub proof fn law_profiles_created_only_with_accepted_usernames(
    phase: SessionPhase,
    event: SessionEvent,
)
    requires
        expects(phase, event),
        !unserved_when_logged_in(phase, event),
        usernames_screened(phase),
    ensures
        usernames_screened(session_step(phase, event).0),
        forall|i: int|
            0 <= i < session_step(phase, event).1.len() ==> (
            #[trigger] session_step(phase, event).1[i] matches SessionAction::CreateProfile(_, u, _)
                ==> !username_is_inappropriate(u@)),
{
    if let (SessionPhase::AwaitingSignUp(email), SessionEvent::ReceivedProfile(profile)) = (
        phase,
        event,
    ) {
        let inappropriate = username_is_inappropriate(profile.username@);
        assert(session_step(phase, event) == screened(email, profile, inappropriate));
    }
}

/// The email a session acts for, once the provider has named it.
pub open spec fn acting_email(phase: SessionPhase) -> Option<String> {
    match phase {
        SessionPhase::LoggedIn(d) => Some(d.email),
        SessionPhase::PostingScore(d) => Some(d.email),
        SessionPhase::RegisteringConnection(e) => Some(e),
        SessionPhase::LookingUpProfile(e) => Some(e),
        SessionPhase::AwaitingSignUp(e) => Some(e),
        SessionPhase::CheckingUsername(e, _) => Some(e),
        SessionPhase::CreatingProfile(e, _, _, _) => Some(e),
        SessionPhase::AwaitingToken(e, _) => Some(e),
        _ => None,
    }
}

/// The email an action is for, where it is for one.
pub open spec fn action_email(a: SessionAction) -> Option<String> {
    match a {
        SessionAction::AddEntry(_, e, _) => Some(e),
        SessionAction::PostScore(_, e, _) => Some(e),
        SessionAction::RegisterConnection(e) => Some(e),
        SessionAction::LookUpProfile(e) => Some(e),
        SessionAction::CreateProfile(e, _, _) => Some(e),
        SessionAction::CreateToken(e, _) => Some(e),
        _ => None,
    }
}

/// A session acts only for the email the identity provider named: once
/// named, the email stays until the session logs out or ends, and every
/// profile, score and token it asks for is for that email.
pub proof fn law_session_acts_for_authenticated_email(phase: SessionPhase, event: SessionEvent)
    requires
        expects(phase, event),
        !unserved_when_logged_in(phase, event),
    ensures
        ({
            let (next, actions) = session_step(phase, event);
            &&& acting_email(phase) is Some ==> (acting_email(next) is None || acting_email(next)
                == acting_email(phase))
            &&& phase is AwaitingAuth ==> (acting_email(next) is Some ==> (event matches SessionEvent::AuthFinished(Some(Some(e))) && acting_email(next) == Some(e)))
            &&& forall|i: int|
                0 <= i < actions.len() && (#[trigger] action_email(actions[i])) is Some ==> (
                action_email(actions[i]) == acting_email(phase) || (phase is AwaitingAuth
                    && (event matches SessionEvent::AuthFinished(Some(Some(e))) && action_email(
                    actions[i],
                ) == Some(e))))
        }),
{
    if let (SessionPhase::AwaitingSignUp(email), SessionEvent::ReceivedProfile(profile)) = (
        phase,
        event,
    ) {
        let inappropriate = username_is_inappropriate(profile.username@);
        assert(session_step(phase, event) == screened(email, profile, inappropriate));
    }
}

/// The emails that have a websocket connection.
pub struct ConnectionRegistry {
    emails: Vec<String>,
}

impl ConnectionRegistry {
    /// The registered emails.
    pub closed spec fn view(&self) -> Set<Seq<char>> {
        self.emails@.map_values(|e: String| e@).to_set()
    }

    pub fn new() -> (r: ConnectionRegistry)
        ensures
            r.view() == Set::<Seq<char>>::empty(),
    {
        let r = ConnectionRegistry { emails: Vec::new() };
        assert(r.emails@.map_values(|e: String| e@) =~= Seq::<Seq<char>>::empty());
        assert(r.view() =~= Set::<Seq<char>>::empty());
        r
    }

    /// Whether `email` has a connection.
    pub fn contains(&self, email: &str) -> (r: bool)
        ensures
            r == self.view().contains(email@),
    {
        let ghost vs = self.emails@.map_values(|e: String| e@);
        let mut i: usize = 0;
        while i < self.emails.len()
            invariant
                i <= self.emails@.len(),
                vs == self.emails@.map_values(|e: String| e@),
                forall|k: int| 0 <= k < i ==> vs[k] != email@,
            decreases self.emails@.len() - i,
        {
            if str_is(self.emails[i].as_str(), email) {
                assert(vs[i as int] == email@);
                assert(vs.contains(email@));
                return true;
            }
            i = i + 1;
        }
        assert(!vs.contains(email@));
        false
    }

    /// Registers `email`; gives whether it was registered already.
    pub fn register(&mut self, email: String) -> (already: bool)
        ensures
            already == old(self).view().contains(email@),
            final(self).view() == old(self).view().insert(email@),
    {
        if self.contains(email.as_str()) {
            assert(self.view().insert(email@) =~= self.view());
            return true;
        }
        let ghost before = self.emails@.map_values(|e: String| e@);
        let ghost ev = email@;
        self.emails.push(email);
        assert(self.emails@.map_values(|e: String| e@) =~= before.push(ev));
        proof {
            before.lemma_push_to_set_commute(ev);
        }
        false
    }
}

/// How a websocket connection starts.
pub enum Admission {
    /// With a live login token, for an email not yet connected (it is now).
    LoggedIn(VerifiedToken<LoginTokenConfig>),
    /// Without a token.
    Anonymous,
    /// Refused with this status and text.
    Refused(u16, &'static str),
}

/// Admits a connection given how its login token checked out: a live token
/// whose email is already connected is refused with 409 "Already
/// Connected"; a missing token connects anonymously; another token failure
/// is refused as it says.
pub fn admit_connection(
    token: Result<VerifiedToken<LoginTokenConfig>, TokenVerificationError>,
    registry: &mut ConnectionRegistry,
) -> (r: Admission)
    ensures
        match token {
            Ok(t) => if old(registry).view().contains(t.identifier.email@) {
                &&& r matches Admission::Refused(409, m) && m@ == "Already Connected"@
                &&& final(registry).view() == old(registry).view()
            } else {
                &&& r matches Admission::LoggedIn(v) && v == t
                &&& final(registry).view() == old(registry).view().insert(t.identifier.email@)
            },
            Err(TokenVerificationError::MissingToken) => r is Anonymous && final(registry).view()
                == old(registry).view(),
            Err(e) => r matches Admission::Refused(status, m) && status == 401 && m@ == (match e {
                TokenVerificationError::MissingToken => "Missing token"@,
                TokenVerificationError::InvalidToken => "Invalid or expired token"@,
                TokenVerificationError::InvalidTokenLength => "Invalid length for token"@,
            }) && final(registry).view() == old(registry).view(),
        },
{
    match token {
        Ok(t) => {
            if registry.contains(t.identifier.email.as_str()) {
                Admission::Refused(409, "Already Connected")
            } else {
                registry.register(t.identifier.email.clone());
                Admission::LoggedIn(t)
            }
        },
        Err(TokenVerificationError::MissingToken) => Admission::Anonymous,
        Err(e) => {
            let (status, message) = e.status_and_message();
            Admission::Refused(status, message)
        },
    }
}

} // verus!
