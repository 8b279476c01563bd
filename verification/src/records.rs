//! Player profiles as the profile table stores them: reading a profile and
//! a leaderboard row out of a stored item, and building the items and
//! attribute values that are written back.
use vstd::prelude::*;
use vstd::string::StringExecFns;
use crate::bytes::str_is;
use crate::leaderboard::{EntryView, LeaderboardEntry};
use crate::text::{decimal_digits, format_u64, parse_u16, parsed_u16};

verus! {

broadcast use vstd::string::group_string_axioms;

/// The attribute values that profiles use; any other kind is `Other`.
#[derive(Clone, Debug)]
pub enum AttributeValue {
    S(String),
    N(String),
    Ns(Vec<String>),
    Other,
}

/// What an attribute value holds.
pub enum AttributeValueView {
    S(Seq<char>),
    N(Seq<char>),
    Ns(Seq<Seq<char>>),
    Other,
}

pub open spec fn strings_view(v: Seq<String>) -> Seq<Seq<char>> {
    v.map_values(|s: String| s@)
}

impl View for AttributeValue {
    type V = AttributeValueView;

    open spec fn view(&self) -> AttributeValueView {
        match self {
            AttributeValue::S(s) => AttributeValueView::S(s@),
            AttributeValue::N(s) => AttributeValueView::N(s@),
            AttributeValue::Ns(v) => AttributeValueView::Ns(strings_view(v@)),
            AttributeValue::Other => AttributeValueView::Other,
        }
    }
}

/// A stored item: attribute names with their values.
pub type ItemView = Seq<(Seq<char>, AttributeValueView)>;

pub open spec fn item_view(item: Seq<(String, AttributeValue)>) -> ItemView {
    item.map_values(|p: (String, AttributeValue)| (p.0@, p.1@))
}

/// The value of attribute `key` in an item, if it has one.
pub open spec fn lookup(item: ItemView, key: Seq<char>) -> Option<AttributeValueView>
    decreases item.len(),
{
    if item.len() == 0 {
        None
    } else if item[0].0 == key {
        Some(item[0].1)
    } else {
        lookup(item.drop_first(), key)
    }
}

/// Looks up attribute `key` in an item.
pub fn get_attribute<'a>(item: &'a Vec<(String, AttributeValue)>, key: &str) -> (r: Option<
    &'a AttributeValue,
>)
    ensures
        match r {
            Some(v) => lookup(item_view(item@), key@) == Some(v@),
            None => lookup(item_view(item@), key@) is None,
        },
{
    let mut i: usize = 0;
    assert(item_view(item@).skip(0) =~= item_view(item@));
    while i < item.len()
        invariant
            i <= item.len(),
            lookup(item_view(item@), key@) == lookup(item_view(item@).skip(i as int), key@),
        decreases item.len() - i,
    {
        assert(item_view(item@).skip(i as int).drop_first() =~= item_view(item@).skip(i + 1));
        if str_is(item[i].0.as_str(), key) {
            return Some(&item[i].1);
        }
        i = i + 1;
    }
    None
}

/// The profile attributes that can fail to read.
#[derive(Clone, Copy, Debug, PartialEq, Eq)]
pub enum ProfileField {
    EasyHighscore,
    NormalHighscore,
    ExpertHighscore,
    TournamentWins,
    Username,
}

/// Why a stored item is not a profile.
#[derive(Clone, Copy, Debug, PartialEq, Eq)]
pub enum ProfileError {
    /// The attribute has the wrong kind, or a number in it does not parse.
    BadField(ProfileField),
    /// The item has no username.
    MissingUsername,
}

pub open spec fn profile_field_name(f: ProfileField) -> Seq<char> {
    match f {
        ProfileField::EasyHighscore => "easy_highscore"@,
        ProfileField::NormalHighscore => "normal_highscore"@,
        ProfileField::ExpertHighscore => "expert_highscore"@,
        ProfileField::TournamentWins => "tournament_wins"@,
        ProfileField::Username => "username"@,
    }
}

impl ProfileField {
    /// The attribute name of this field.
    pub fn name(&self) -> (r: &'static str)
        ensures
            r@ == profile_field_name(*self),
    {
        match self {
            ProfileField::EasyHighscore => "easy_highscore",
            ProfileField::NormalHighscore => "normal_highscore",
            ProfileField::ExpertHighscore => "expert_highscore",
            ProfileField::TournamentWins => "tournament_wins",
            ProfileField::Username => "username",
        }
    }
}

pub open spec fn profile_error_message(e: ProfileError) -> Seq<char> {
    match e {
        ProfileError::BadField(f) => "Could not deserialize field: "@ + profile_field_name(f)
            + " in user profile"@,
        ProfileError::MissingUsername => "Missing username in user profile"@,
    }
}

impl ProfileError {
    /// The message this error is reported with.
    pub fn message(&self) -> (r: String)
        ensures
            r@ == profile_error_message(*self),
    {
        match self {
            ProfileError::BadField(f) => String::from_str("Could not deserialize field: ").concat(
                f.name(),
            ).concat(" in user profile"),
            ProfileError::MissingUsername => String::from_str("Missing username in user profile"),
        }
    }
}

/// A player's profile.
#[derive(Clone, Debug, Default)]
pub struct UserProfile {
    pub username: String,
    pub easy_highscore: u16,
    pub normal_highscore: u16,
    pub expert_highscore: u16,
    pub tournament_wins: Vec<u16>,
}

/// Username, the three best scores, and the weeks of tournaments won.
pub type ProfileView = (Seq<char>, u16, u16, u16, Seq<u16>);

impl View for UserProfile {
    type V = ProfileView;

    open spec fn view(&self) -> ProfileView {
        (
            self.username@,
            self.easy_highscore,
            self.normal_highscore,
            self.expert_highscore,
            self.tournament_wins@,
        )
    }
}

/// A best score attribute: absent reads as 0; present, it must be a
/// number that parses as a `u16`. `None` where it cannot be read.
pub open spec fn score_attribute(v: Option<AttributeValueView>) -> Option<u16> {
    match v {
        None => Some(0),
        Some(AttributeValueView::N(s)) => parsed_u16(s),
        Some(_) => None,
    }
}

pub open spec fn all_parse(list: Seq<Seq<char>>) -> bool {
    forall|i: int| 0 <= i < list.len() ==> (#[trigger] parsed_u16(list[i])) is Some
}

/// The tournament weeks attribute: absent reads as no weeks; present, it
/// must be a number set whose numbers all parse as `u16`.
pub open spec fn wins_attribute(v: Option<AttributeValueView>) -> Option<Seq<u16>> {
    match v {
        None => Some(Seq::empty()),
        Some(AttributeValueView::Ns(list)) => if all_parse(list) {
            Some(list.map_values(|s: Seq<char>| parsed_u16(s).unwrap()))
        } else {
            None
        },
        Some(_) => None,
    }
}

/// The profile a stored item holds. Attributes are read in the order
/// easy, normal, expert, tournament weeks, username; the first that cannot
/// be read decides the error.
pub open spec fn profile_of(item: ItemView) -> Result<ProfileView, ProfileError> {
    let easy = score_attribute(lookup(item, "easy_highscore"@));
    let normal = score_attribute(lookup(item, "normal_highscore"@));
    let expert = score_attribute(lookup(item, "expert_highscore"@));
    let wins = wins_attribute(lookup(item, "tournament_wins"@));
    if easy is None {
        Err(ProfileError::BadField(ProfileField::EasyHighscore))
    } else if normal is None {
        Err(ProfileError::BadField(ProfileField::NormalHighscore))
    } else if expert is None {
        Err(ProfileError::BadField(ProfileField::ExpertHighscore))
    } else if wins is None {
        Err(ProfileError::BadField(ProfileField::TournamentWins))
    } else {
        match lookup(item, "username"@) {
            None => Err(ProfileError::MissingUsername),
            Some(AttributeValueView::S(u)) => Ok(
                (u, easy.unwrap(), normal.unwrap(), expert.unwrap(), wins.unwrap()),
            ),
            Some(_) => Err(ProfileError::BadField(ProfileField::Username)),
        }
    }
}

fn read_score(v: Option<&AttributeValue>) -> (r: Option<u16>)
    ensures
        r == score_attribute(
            match v {
                Some(x) => Some(x@),
                None => None,
            },
        ),
{
    match v {
        None => Some(0),
        Some(AttributeValue::N(s)) => parse_u16(s.as_str()),
        Some(_) => None,
    }
}

fn read_wins(v: Option<&AttributeValue>) -> (r: Option<Vec<u16>>)
    ensures
        match wins_attribute(
            match v {
                Some(x) => Some(x@),
                None => None,
            },
        ) {
            Some(w) => r matches Some(out) && out@ == w,
            None => r is None,
        },
{
    match v {
        None => Some(Vec::new()),
        Some(AttributeValue::Ns(list)) => {
            let ghost lv = strings_view(list@);
            let mut out: Vec<u16> = Vec::new();
            let mut i: usize = 0;
            while i < list.len()
                invariant
                    i <= list.len(),
                    lv == strings_view(list@),
                    v matches Some(x) && x@ == AttributeValueView::Ns(lv),
                    forall|k: int| 0 <= k < i ==> (#[trigger] parsed_u16(lv[k])) is Some,
                    out@ =~= lv.subrange(0, i as int).map_values(
                        |s: Seq<char>| parsed_u16(s).unwrap(),
                    ),
                decreases list.len() - i,
            {
                match parse_u16(list[i].as_str()) {
                    Some(n) => {
                        out.push(n);
                    },
                    None => {
                        assert(lv[i as int] == list@[i as int]@);
                        assert(parsed_u16(lv[i as int]) is None);
                        assert(!all_parse(lv));
                        return None;
                    },
                }
                i = i + 1;
            }
            assert(lv.subrange(0, i as int) =~= lv);
            Some(out)
        },
        Some(_) => None,
    }
}

/// Reads the profile that a stored item holds.
pub fn map_to_user_profile(item: &Vec<(String, AttributeValue)>) -> (r: Result<
    UserProfile,
    ProfileError,
>)
    ensures
        match profile_of(item_view(item@)) {
            Ok(p) => r matches Ok(profile) && profile@ == p,
            Err(e) => r == Err::<UserProfile, ProfileError>(e),
        },
{
    let easy = match read_score(get_attribute(item, "easy_highscore")) {
        Some(x) => x,
        None => return Err(ProfileError::BadField(ProfileField::EasyHighscore)),
    };
    let normal = match read_score(get_attribute(item, "normal_highscore")) {
        Some(x) => x,
        None => return Err(ProfileError::BadField(ProfileField::NormalHighscore)),
    };
    let expert = match read_score(get_attribute(item, "expert_highscore")) {
        Some(x) => x,
        None => return Err(ProfileError::BadField(ProfileField::ExpertHighscore)),
    };
    let wins = match read_wins(get_attribute(item, "tournament_wins")) {
        Some(x) => x,
        None => return Err(ProfileError::BadField(ProfileField::TournamentWins)),
    };
    match get_attribute(item, "username") {
        None => Err(ProfileError::MissingUsername),
        Some(AttributeValue::S(u)) => Ok(
            UserProfile {
                username: u.clone(),
                easy_highscore: easy,
                normal_highscore: normal,
                expert_highscore: expert,
                tournament_wins: wins,
            },
        ),
        Some(_) => Err(ProfileError::BadField(ProfileField::Username)),
    }
}

pub open spec fn zero_attribute() -> AttributeValueView {
    AttributeValueView::N("0"@)
}

pub open spec fn wins_view(wins: Seq<u16>) -> Seq<Seq<char>> {
    wins.map_values(|w: u16| decimal_digits(w as nat))
}

/// The item that creates a profile: the email key, zero best scores, the
/// username, the `unused` partition attribute of the score indexes, and
/// the tournament weeks where there are any.
pub open spec fn new_profile_item_view(email: Seq<char>, username: Seq<char>, wins: Seq<u16>) -> ItemView {
    let base = seq![
        ("email"@, AttributeValueView::S(email)),
        ("easy_highscore"@, zero_attribute()),
        ("normal_highscore"@, zero_attribute()),
        ("expert_highscore"@, zero_attribute()),
        ("username"@, AttributeValueView::S(username)),
        ("unused"@, zero_attribute()),
    ];
    if wins.len() == 0 {
        base
    } else {
        base.push(("tournament_wins"@, AttributeValueView::Ns(wins_view(wins))))
    }
}

/// A freshly created profile is stored under the player's email, the
/// table's key, and holds the chosen username: a later lookup by email
/// finds it, whatever the username and weeks.
pub proof fn law_new_profile_is_keyed_by_email(email: Seq<char>, username: Seq<char>, wins: Seq<u16>)
    ensures
        lookup(new_profile_item_view(email, username, wins), "email"@) == Some(
            AttributeValueView::S(email),
        ),
        lookup(new_profile_item_view(email, username, wins), "username"@) == Some(
            AttributeValueView::S(username),
        ),
{
    law_new_profile_reads_back(email, username, wins);
    reveal_strlit("email");
    reveal_strlit("easy_highscore");
    reveal_strlit("normal_highscore");
    reveal_strlit("expert_highscore");
    reveal_strlit("username");
    reveal_with_fuel(lookup, 6);
    let item = new_profile_item_view(email, username, wins);
    assert("email"@.len() == 5);
    assert("easy_highscore"@.len() == 14);
    assert("normal_highscore"@.len() == 16);
    assert("expert_highscore"@.len() == 16);
    assert("username"@.len() == 8);
    assert(item[0].0 != "username"@);
    assert(item[1].0 != "username"@);
    assert(item[2].0 != "username"@);
    assert(item[3].0 != "username"@);
    assert(item.drop_first().drop_first().drop_first().drop_first()[0] == item[4]);
}

/// A freshly created profile reads back as a profile with the given
/// username and tournament weeks and zero best scores.
pub proof fn law_new_profile_reads_back(email: Seq<char>, username: Seq<char>, wins: Seq<u16>)
    ensures
        profile_of(new_profile_item_view(email, username, wins)) == Ok::<ProfileView, ProfileError>(
            (username, 0, 0, 0, wins),
        ),
{
    reveal_strlit("email");
    reveal_strlit("easy_highscore");
    reveal_strlit("normal_highscore");
    reveal_strlit("expert_highscore");
    reveal_strlit("username");
    reveal_strlit("unused");
    reveal_strlit("tournament_wins");
    reveal_strlit("0");
    reveal_with_fuel(lookup, 8);
    let item = new_profile_item_view(email, username, wins);
    assert("0"@ =~= seq!['0']);
    assert(seq!['0'].drop_last() =~= Seq::<char>::empty());
    assert(('0' as nat) == 48);
    assert(crate::text::all_digits(seq!['0']));
    reveal_with_fuel(crate::text::decimal_value, 2);
    assert(crate::text::decimal_value(seq!['0']) == 0);
    assert(parsed_u16("0"@) == Some(0u16));
    assert("email"@.len() == 5);
    assert("easy_highscore"@.len() == 14);
    assert("normal_highscore"@.len() == 16);
    assert("expert_highscore"@.len() == 16);
    assert("username"@.len() == 8);
    assert("unused"@.len() == 6);
    assert("tournament_wins"@.len() == 15);
    assert("normal_highscore"@[0] != "expert_highscore"@[0]);
    assert(item[0].0 != "easy_highscore"@);
    assert(item[0].0 != "normal_highscore"@);
    assert(item[1].0 != "normal_highscore"@);
    assert(item[0].0 != "expert_highscore"@);
    assert(item[1].0 != "expert_highscore"@);
    assert(item[2].0 != "expert_highscore"@);
    assert(item[0].0 != "username"@);
    assert(item[1].0 != "username"@);
    assert(item[2].0 != "username"@);
    assert(item[3].0 != "username"@);
    assert(item[0].0 != "tournament_wins"@);
    assert(item[1].0 != "tournament_wins"@);
    assert(item[2].0 != "tournament_wins"@);
    assert(item[3].0 != "tournament_wins"@);
    assert(item[4].0 != "tournament_wins"@);
    assert(item[5].0 != "tournament_wins"@);
    assert(lookup(item, "easy_highscore"@) == Some(zero_attribute()));
    assert(lookup(item, "normal_highscore"@) == Some(zero_attribute()));
    assert(lookup(item, "expert_highscore"@) == Some(zero_attribute()));
    assert(lookup(item, "username"@) == Some(AttributeValueView::S(username)));
    if wins.len() == 0 {
        assert(lookup(item, "tournament_wins"@) is None);
        assert(wins =~= Seq::<u16>::empty());
    } else {
        assert(lookup(item, "tournament_wins"@) == Some(AttributeValueView::Ns(wins_view(wins))));
        let list = wins_view(wins);
        assert forall|i: int| 0 <= i < list.len() implies (#[trigger] parsed_u16(list[i])) is Some by {
            crate::text::law_u16_format_parse_roundtrip(wins[i]);
        }
        assert forall|i: int| 0 <= i < list.len() implies parsed_u16(list[i]).unwrap() == wins[i] by {
            crate::text::law_u16_format_parse_roundtrip(wins[i]);
        }
        assert(list.map_values(|s: Seq<char>| parsed_u16(s).unwrap()) =~= wins);
    }
}

/// The numbers of a number set attribute, written in decimal.
pub fn format_numbers(nums: &Vec<u16>) -> (r: Vec<String>)
    ensures
        strings_view(r@) == wins_view(nums@),
{
    let mut out: Vec<String> = Vec::new();
    let mut i: usize = 0;
    while i < nums.len()
        invariant
            i <= nums.len(),
            strings_view(out@) =~= wins_view(nums@.subrange(0, i as int)),
        decreases nums.len() - i,
    {
        let ghost before = out@;
        out.push(format_u64(nums[i] as u64));
        assert(strings_view(out@) =~= strings_view(before).push(decimal_digits(nums@[i as int] as nat)));
        assert(nums@.subrange(0, i + 1) =~= nums@.subrange(0, i as int).push(nums@[i as int]));
        i = i + 1;
    }
    assert(nums@.subrange(0, nums@.len() as int) =~= nums@);
    out
}

/// Builds the item that creates a profile.
pub fn new_profile_item(email: String, username: String, tournament_wins: &Vec<u16>) -> (r: Vec<
    (String, AttributeValue),
>)
    ensures
        item_view(r@) == new_profile_item_view(email@, username@, tournament_wins@),
{
    let mut item: Vec<(String, AttributeValue)> = Vec::new();
    item.push((String::from_str("email"), AttributeValue::S(email)));
    item.push((String::from_str("easy_highscore"), AttributeValue::N(String::from_str("0"))));
    item.push((String::from_str("normal_highscore"), AttributeValue::N(String::from_str("0"))));
    item.push((String::from_str("expert_highscore"), AttributeValue::N(String::from_str("0"))));
    item.push((String::from_str("username"), AttributeValue::S(username)));
    item.push((String::from_str("unused"), AttributeValue::N(String::from_str("0"))));
    if tournament_wins.len() > 0 {
        item.push(
            (
                String::from_str("tournament_wins"),
                AttributeValue::Ns(format_numbers(tournament_wins)),
            ),
        );
    }
    assert(item_view(item@) =~= new_profile_item_view(email@, username@, tournament_wins@));
    item
}

/// The value a best score is written as.
pub fn score_attribute_value(score: u16) -> (r: AttributeValue)
    ensures
        r@ == AttributeValueView::N(decimal_digits(score as nat)),
{
    AttributeValue::N(format_u64(score as u64))
}

/// The tournament weeks stored for a player, as written: none where there
/// is no item or the item has no such attribute.
pub open spec fn stored_wins(item: Option<ItemView>) -> Result<Seq<Seq<char>>, ProfileError> {
    match item {
        None => Ok(Seq::empty()),
        Some(it) => match lookup(it, "tournament_wins"@) {
            None => Ok(Seq::empty()),
            Some(AttributeValueView::Ns(list)) => Ok(list),
            Some(_) => Err(ProfileError::BadField(ProfileField::TournamentWins)),
        },
    }
}

/// Reads the tournament weeks stored for a player.
pub fn stored_tournament_wins(item: Option<&Vec<(String, AttributeValue)>>) -> (r: Result<
    Vec<String>,
    ProfileError,
>)
    ensures
        match stored_wins(
            match item {
                Some(it) => Some(item_view(it@)),
                None => None,
            },
        ) {
            Ok(w) => r matches Ok(v) && strings_view(v@) == w,
            Err(e) => r == Err::<Vec<String>, ProfileError>(e),
        },
{
    match item {
        None => Ok(Vec::new()),
        Some(it) => match get_attribute(it, "tournament_wins") {
            None => Ok(Vec::new()),
            Some(AttributeValue::Ns(list)) => Ok(list.clone()),
            Some(_) => Err(ProfileError::BadField(ProfileField::TournamentWins)),
        },
    }
}

/// The tournament weeks with `week` added, unless it is already there.
pub open spec fn with_week(wins: Seq<Seq<char>>, week: u64) -> Seq<Seq<char>> {
    let w = decimal_digits(week as nat);
    if wins.contains(w) {
        wins
    } else {
        wins.push(w)
    }
}

/// Adds a won tournament week to a player's weeks, unless it is already there.
pub fn add_tournament_win(wins: Vec<String>, week: u64) -> (r: Vec<String>)
    ensures
        strings_view(r@) == with_week(strings_view(wins@), week),
{
    let w = format_u64(week);
    let mut i: usize = 0;
    while i < wins.len()
        invariant
            i <= wins.len(),
            w@ == decimal_digits(week as nat),
            forall|k: int| 0 <= k < i ==> strings_view(wins@)[k] != w@,
        decreases wins.len() - i,
    {
        if wins[i] == w {
            assert(strings_view(wins@)[i as int] == w@);
            assert(strings_view(wins@).contains(w@));
            return wins;
        }
        i = i + 1;
    }
    let mut out = wins;
    let ghost before = out@;
    out.push(w);
    assert(strings_view(out@) =~= strings_view(before).push(w@));
    out
}

/// A won week is always among the player's weeks afterwards, as its
/// decimal digits; a week not yet there is added at the end, and every
/// week recorded before stays.
pub proof fn law_won_week_is_recorded(wins: Seq<Seq<char>>, week: u64)
    ensures
        with_week(wins, week).contains(decimal_digits(week as nat)),
        !wins.contains(decimal_digits(week as nat)) ==> with_week(wins, week) == wins.push(
            decimal_digits(week as nat),
        ),
        wins.contains(decimal_digits(week as nat)) ==> with_week(wins, week) == wins,
        forall|x: Seq<char>| wins.contains(x) ==> #[trigger] with_week(wins, week).contains(x),
{
    let w = decimal_digits(week as nat);
    if !wins.contains(w) {
        assert(wins.push(w)[wins.len() as int] == w);
        assert forall|x: Seq<char>| wins.contains(x) implies #[trigger] wins.push(w).contains(x) by {
            let i = choose|i: int| 0 <= i < wins.len() && wins[i] == x;
            assert(wins.push(w)[i] == x);
        }
    }
}

/// Winning the same week twice records it once.
pub proof fn law_week_recorded_once(wins: Seq<Seq<char>>, week: u64)
    ensures
        with_week(with_week(wins, week), week) == with_week(wins, week),
{
    let w = decimal_digits(week as nat);
    if !wins.contains(w) {
        assert(wins.push(w)[wins.len() as int] == w);
    }
}

/// Why a leaderboard row cannot be read.
#[derive(Clone, Copy, Debug, PartialEq, Eq)]
pub enum RecordError {
    MissingEmail,
    EmailNotString,
    MissingScore,
    ScoreNotNumber,
    BadScore,
    MissingUsername,
    UsernameNotString,
}

/// The leaderboard entry a row of a score index holds: it must have a
/// string email, the score as a number that parses as a `u16`, and a
/// string username, checked in that order.
pub open spec fn entry_of_record(rec: ItemView, score_field: Seq<char>) -> Result<EntryView, RecordError> {
    match lookup(rec, "email"@) {
        None => Err(RecordError::MissingEmail),
        Some(AttributeValueView::S(_)) => match lookup(rec, score_field) {
            None => Err(RecordError::MissingScore),
            Some(AttributeValueView::N(n)) => match parsed_u16(n) {
                None => Err(RecordError::BadScore),
                Some(score) => match lookup(rec, "username"@) {
                    None => Err(RecordError::MissingUsername),
                    Some(AttributeValueView::S(u)) => Ok((score, u)),
                    Some(_) => Err(RecordError::UsernameNotString),
                },
            },
            Some(_) => Err(RecordError::ScoreNotNumber),
        },
        Some(_) => Err(RecordError::EmailNotString),
    }
}

/// The entries of the rows of a score index, in row order; the first row
/// that cannot be read decides the error.
pub open spec fn entries_of_records(recs: Seq<ItemView>, score_field: Seq<char>) -> Result<
    Seq<EntryView>,
    RecordError,
>
    decreases recs.len(),
{
    if recs.len() == 0 {
        Ok(Seq::empty())
    } else {
        match entries_of_records(recs.drop_last(), score_field) {
            Err(e) => Err(e),
            Ok(es) => match entry_of_record(recs.last(), score_field) {
                Ok(e) => Ok(es.push(e)),
                Err(e) => Err(e),
            },
        }
    }
}

/// Reads one leaderboard row.
pub fn entry_from_record(rec: &Vec<(String, AttributeValue)>, score_field: &str) -> (r: Result<
    LeaderboardEntry,
    RecordError,
>)
    ensures
        match entry_of_record(item_view(rec@), score_field@) {
            Ok(e) => r matches Ok(entry) && entry@ == e,
            Err(e) => r == Err::<LeaderboardEntry, RecordError>(e),
        },
{
    match get_attribute(rec, "email") {
        None => Err(RecordError::MissingEmail),
        Some(AttributeValue::S(_)) => match get_attribute(rec, score_field) {
            None => Err(RecordError::MissingScore),
            Some(AttributeValue::N(n)) => match parse_u16(n.as_str()) {
                None => Err(RecordError::BadScore),
                Some(score) => match get_attribute(rec, "username") {
                    None => Err(RecordError::MissingUsername),
                    Some(AttributeValue::S(u)) => Ok(LeaderboardEntry { score, username: u.clone() }),
                    Some(_) => Err(RecordError::UsernameNotString),
                },
            },
            Some(_) => Err(RecordError::ScoreNotNumber),
        },
        Some(_) => Err(RecordError::EmailNotString),
    }
}

pub open spec fn items_view(recs: Seq<Vec<(String, AttributeValue)>>) -> Seq<ItemView> {
    recs.map_values(|r: Vec<(String, AttributeValue)>| item_view(r@))
}

/// Reads the rows of a score index into a leaderboard, in row order.
pub fn leaderboard_from_records(
    records: &Vec<Vec<(String, AttributeValue)>>,
    score_field: &str,
) -> (r: Result<Vec<LeaderboardEntry>, RecordError>)
    ensures
        match entries_of_records(items_view(records@), score_field@) {
            Ok(es) => r matches Ok(v) && crate::leaderboard::views(v@) == es,
            Err(e) => r == Err::<Vec<LeaderboardEntry>, RecordError>(e),
        },
{
    let ghost recs = items_view(records@);
    let mut out: Vec<LeaderboardEntry> = Vec::new();
    let mut i: usize = 0;
    assert(recs.subrange(0, 0) =~= Seq::<ItemView>::empty());
    assert(crate::leaderboard::views(out@) =~= Seq::<EntryView>::empty());
    while i < records.len()
        invariant
            i <= records.len(),
            recs == items_view(records@),
            entries_of_records(recs.subrange(0, i as int), score_field@) == Ok::<
                Seq<EntryView>,
                RecordError,
            >(crate::leaderboard::views(out@)),
        decreases records.len() - i,
    {
        let ghost prefix = recs.subrange(0, i as int);
        let ghost next = recs.subrange(0, i + 1);
        assert(next.drop_last() =~= prefix);
        assert(next.last() == item_view(records@[i as int]@));
        match entry_from_record(&records[i], score_field) {
            Ok(e) => {
                let ghost before = out@;
                out.push(e);
                assert(crate::leaderboard::views(out@) =~= crate::leaderboard::views(before).push(
                    e@,
                ));
            },
            Err(e) => {
                proof {
                    lemma_entries_error_persists(recs, i as int + 1, score_field@);
                }
                return Err(e);
            },
        }
        i = i + 1;
    }
    assert(recs.subrange(0, i as int) =~= recs);
    Ok(out)
}

/// Once a row fails, every longer prefix of rows fails the same way.
pub proof fn lemma_entries_error_persists(recs: Seq<ItemView>, i: int, field: Seq<char>)
    requires
        0 <= i <= recs.len(),
        entries_of_records(recs.subrange(0, i), field) is Err,
    ensures
        entries_of_records(recs, field) == entries_of_records(recs.subrange(0, i), field),
    decreases recs.len() - i,
{
    if i < recs.len() {
        assert(recs.subrange(0, i + 1).drop_last() =~= recs.subrange(0, i));
        lemma_entries_error_persists(recs, i + 1, field);
    } else {
        assert(recs.subrange(0, i) =~= recs);
    }
}

} // verus!
