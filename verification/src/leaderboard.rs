//! The in-memory leaderboards: each keeps the best scores of at most `span`
//! players, best first, and accepts a new score only when it improves a
//! player's own entry or beats the worst entry of a full board.
use vstd::prelude::*;
use vstd::pervasive::VecAdditionalExecFns;
use vstd::seq_lib::*;
use crate::bytes::{lex_lt, str_lt, string_lt, str_is, lemma_lex_irreflexive, lemma_lex_asymmetric, lemma_lex_transitive, lemma_lex_total, lemma_encode_utf8_injective};

verus! {

broadcast use group_to_multiset_ensures;

/// One player's best score on one leaderboard.
#[derive(Clone, Debug, PartialEq, Eq, PartialOrd, Ord)]
pub struct LeaderboardEntry {
    pub score: u16,
    pub username: String,
}

/// What an entry is: its score and the player's name.
pub type EntryView = (u16, Seq<char>);

impl View for LeaderboardEntry {
    type V = EntryView;

    open spec fn view(&self) -> EntryView {
        (self.score, self.username@)
    }
}

/// The order of `LeaderboardEntry`: by score, then by username bytes.
pub open spec fn entry_lt(a: EntryView, b: EntryView) -> bool {
    a.0 < b.0 || (a.0 == b.0 && str_lt(a.1, b.1))
}

/// Best first: no entry sorts below one that comes after it.
pub open spec fn sorted_desc(s: Seq<EntryView>) -> bool {
    forall|i: int, j: int| 0 <= i < j < s.len() ==> !entry_lt(#[trigger] s[i], #[trigger] s[j])
}

pub open spec fn views(s: Seq<LeaderboardEntry>) -> Seq<EntryView> {
    s.map_values(|e: LeaderboardEntry| e@)
}

pub open spec fn usernames(s: Seq<EntryView>) -> Seq<Seq<char>> {
    s.map_values(|e: EntryView| e.1)
}

/// The board that offering `e` yields, before it is put back in order, or
/// `None` where the board stays as it is.
pub open spec fn offered_board(b: Seq<EntryView>, e: EntryView, span: nat) -> Option<Seq<EntryView>> {
    if b.len() == 0 {
        Some(seq![e])
    } else {
        match usernames(b).index_of_first(e.1) {
            Some(i) => if b[i].0 >= e.0 {
                None
            } else {
                Some(b.update(i, e))
            },
            None => if b.len() >= span {
                if !entry_lt(b.last(), e) {
                    None
                } else {
                    Some(b.update(b.len() - 1, e))
                }
            } else {
                Some(b.push(e))
            },
        }
    }
}

pub open spec fn encode_utf8_of(s: Seq<char>) -> Seq<u8> {
    vstd::utf8::encode_utf8(s)
}

pub proof fn lemma_entry_lt_asymmetric(a: EntryView, b: EntryView)
    requires
        entry_lt(a, b),
    ensures
        !entry_lt(b, a),
{
    if a.0 == b.0 {
        lemma_lex_asymmetric(encode_utf8_of(a.1), encode_utf8_of(b.1));
    }
}

pub proof fn lemma_entry_lt_transitive(a: EntryView, b: EntryView, c: EntryView)
    requires
        entry_lt(a, b),
        entry_lt(b, c),
    ensures
        entry_lt(a, c),
{
    if a.0 == b.0 && b.0 == c.0 {
        lemma_lex_transitive(encode_utf8_of(a.1), encode_utf8_of(b.1), encode_utf8_of(c.1));
    }
}

/// Boards are ordered by score, then by username: a strict order in which
/// any two different entries compare one way or the other.
pub proof fn law_entry_order_is_strict_and_total(a: EntryView, b: EntryView, c: EntryView)
    ensures
        !entry_lt(a, a),
        entry_lt(a, b) ==> !entry_lt(b, a),
        entry_lt(a, b) && entry_lt(b, c) ==> entry_lt(a, c),
        entry_lt(a, b) || entry_lt(b, a) || a == b,
{
    lemma_lex_irreflexive(encode_utf8_of(a.1));
    if entry_lt(a, b) {
        lemma_entry_lt_asymmetric(a, b);
    }
    if entry_lt(a, b) && entry_lt(b, c) {
        lemma_entry_lt_transitive(a, b, c);
    }
    lemma_lex_total(encode_utf8_of(a.1), encode_utf8_of(b.1));
    if encode_utf8_of(a.1) == encode_utf8_of(b.1) {
        lemma_encode_utf8_injective(a.1, b.1);
    }
}

impl LeaderboardEntry {
    /// A copy of this entry.
    pub fn duplicate(&self) -> (r: LeaderboardEntry)
        ensures
            r@ == self@,
    {
        LeaderboardEntry { score: self.score, username: self.username.clone() }
    }

    /// Whether this entry sorts strictly below `other`.
    pub fn sorts_below(&self, other: &LeaderboardEntry) -> (r: bool)
        ensures
            r == entry_lt(self@, other@),
    {
        self.score < other.score || (self.score == other.score && string_lt(
            &self.username,
            &other.username,
        ))
    }
}

/// Puts `x` into a board that is in order, keeping it in order.
fn insert_in_order(out: &mut Vec<LeaderboardEntry>, x: LeaderboardEntry)
    requires
        sorted_desc(views(old(out)@)),
    ensures
        sorted_desc(views(final(out)@)),
        views(final(out)@).to_multiset() == views(old(out)@).to_multiset().insert(x@),
{
    let ghost old_v = views(out@);
    let mut p: usize = 0;
    while p < out.len() && !out[p].sorts_below(&x)
        invariant
            p <= out.len(),
            views(out@) == old_v,
            sorted_desc(old_v),
            forall|q: int| 0 <= q < p ==> !entry_lt(#[trigger] old_v[q], x@),
        decreases out.len() - p,
    {
        p = p + 1;
    }
    proof {
        if p < out.len() {
            assert(entry_lt(old_v[p as int], x@));
        }
    }
    out.insert(p, x);
    let ghost new_v = views(out@);
    assert(new_v =~= old_v.insert(p as int, x@));
    proof {
        to_multiset_insert(old_v, p as int, x@);
        assert forall|i: int, j: int| 0 <= i < j < new_v.len() implies !entry_lt(
            #[trigger] new_v[i],
            #[trigger] new_v[j],
        ) by {
            if j < p {
            } else if j == p {
                assert(new_v[j] == x@);
            } else if i < p {
                assert(new_v[j] == old_v[j - 1]);
            } else if i == p {
                assert(new_v[i] == x@);
                assert(new_v[j] == old_v[j - 1]);
                assert(entry_lt(old_v[p as int], x@));
                if j - 1 > p {
                    assert(!entry_lt(old_v[p as int], old_v[j - 1]));
                }
                if entry_lt(x@, old_v[j - 1]) {
                    if j - 1 == p {
                        lemma_entry_lt_asymmetric(old_v[p as int], x@);
                    } else {
                        lemma_entry_lt_transitive(old_v[p as int], x@, old_v[j - 1]);
                    }
                }
            } else {
                assert(new_v[i] == old_v[i - 1]);
                assert(new_v[j] == old_v[j - 1]);
            }
        }
    }
}

/// Puts a board in order, best entry first.
pub fn sort_descending(v: &mut Vec<LeaderboardEntry>)
    ensures
        sorted_desc(views(final(v)@)),
        views(final(v)@).to_multiset() == views(old(v)@).to_multiset(),
{
    let ghost orig = views(v@).to_multiset();
    let mut out: Vec<LeaderboardEntry> = Vec::new();
    assert(views(out@) =~= Seq::<EntryView>::empty());
    while v.len() > 0
        invariant
            sorted_desc(views(out@)),
            views(v@).to_multiset().add(views(out@).to_multiset()) == orig,
        decreases v.len(),
    {
        let ghost before = v@;
        let x = v.pop().unwrap();
        assert(views(before) =~= views(v@).push(x@));
        let ghost out_before = views(out@).to_multiset();
        insert_in_order(&mut out, x);
        proof {
            let m = views(v@).to_multiset();
            assert(m.insert(x@).add(out_before) =~= m.add(out_before.insert(x@)));
        }
    }
    assert(views(v@) =~= Seq::<EntryView>::empty());
    assert(views(v@).to_multiset().add(views(out@).to_multiset()) =~= views(out@).to_multiset());
    *v = out;
}

/// Offers `entry` to a board that keeps at most `span` players; returns
/// whether the board changed. A changed board is put back in order.
pub fn local_update_leaderboard(
    board: &mut Vec<LeaderboardEntry>,
    entry: LeaderboardEntry,
    span: usize,
) -> (changed: bool)
    ensures
        match offered_board(views(old(board)@), entry@, span as nat) {
            Some(nb) => {
                &&& changed
                &&& sorted_desc(views(final(board)@))
                &&& views(final(board)@).to_multiset() == nb.to_multiset()
            },
            None => !changed && final(board)@ == old(board)@,
        },
{
    let ghost b = views(board@);
    if board.len() == 0 {
        board.push(entry);
        assert(views(board@) =~= seq![entry@]);
        sort_descending(board);
        return true;
    }
    let n = board.len();
    let mut i: usize = 0;
    while i < n
        invariant
            n == board.len(),
            i <= n,
            b == views(board@),
            board@ == old(board)@,
            forall|k: int| 0 <= k < i ==> usernames(b)[k] != entry.username@,
        decreases n - i,
    {
        if board[i].username == entry.username {
            proof {
                usernames(b).index_of_first_ensures(entry.username@);
                let idx = usernames(b).index_of_first(entry.username@);
                assert(usernames(b)[i as int] == entry.username@);
                assert(idx == Some(i as int));
            }
            if board[i].score >= entry.score {
                assert(b[i as int].0 >= entry@.0);
                assert(offered_board(b, entry@, span as nat) == None::<Seq<EntryView>>);
                return false;
            }
            board.set(i, entry);
            assert(views(board@) =~= b.update(i as int, entry@));
            sort_descending(board);
            return true;
        }
        i = i + 1;
    }
    proof {
        usernames(b).index_of_first_ensures(entry.username@);
        if usernames(b).contains(entry.username@) {
            let k = choose|k: int| 0 <= k < usernames(b).len() && usernames(b)[k] == entry.username@;
            assert(usernames(b)[k] == entry.username@);
        }
    }
    if board.len() >= span {
        let last = board.len() - 1;
        if !board[last].sorts_below(&entry) {
            return false;
        }
        board.set(last, entry);
        assert(views(board@) =~= b.update(b.len() - 1, entry@));
    } else {
        board.push(entry);
        assert(views(board@) =~= b.push(entry@));
    }
    sort_descending(board);
    true
}

/// The three leaderboards a score can be posted to.
#[derive(Clone, Copy, Debug, PartialEq, Eq)]
pub enum Difficulty {
    Easy,
    Normal,
    Expert,
}

/// The difficulty a name denotes: "easy", "normal" or "expert".
pub open spec fn difficulty_named(name: Seq<char>) -> Option<Difficulty> {
    if name == "easy"@ {
        Some(Difficulty::Easy)
    } else if name == "normal"@ {
        Some(Difficulty::Normal)
    } else if name == "expert"@ {
        Some(Difficulty::Expert)
    } else {
        None
    }
}

/// The boards are named "easy", "normal" and "expert", and no other name
/// names a board.
pub proof fn law_board_names(name: Seq<char>)
    ensures
        difficulty_named("easy"@) == Some(Difficulty::Easy),
        difficulty_named("normal"@) == Some(Difficulty::Normal),
        difficulty_named("expert"@) == Some(Difficulty::Expert),
        difficulty_named(name) is Some ==> name == "easy"@ || name == "normal"@ || name == "expert"@,
{
    reveal_strlit("easy");
    reveal_strlit("normal");
    reveal_strlit("expert");
    assert("normal"@.len() != "easy"@.len());
    assert("expert"@.len() != "easy"@.len());
    assert("expert"@[0] != "normal"@[0]);
}

pub open spec fn difficulty_name(d: Difficulty) -> Seq<char> {
    match d {
        Difficulty::Easy => "easy"@,
        Difficulty::Normal => "normal"@,
        Difficulty::Expert => "expert"@,
    }
}

pub open spec fn highscore_field_name(d: Difficulty) -> Seq<char> {
    match d {
        Difficulty::Easy => "easy_highscore"@,
        Difficulty::Normal => "normal_highscore"@,
        Difficulty::Expert => "expert_highscore"@,
    }
}

impl Difficulty {
    /// The difficulty with the given name, if there is one.
    pub fn from_name(name: &str) -> (r: Option<Difficulty>)
        ensures
            r == difficulty_named(name@),
    {
        if str_is(name, "easy") {
            Some(Difficulty::Easy)
        } else if str_is(name, "normal") {
            Some(Difficulty::Normal)
        } else if str_is(name, "expert") {
            Some(Difficulty::Expert)
        } else {
            None
        }
    }

    /// The name of this difficulty, as it travels between servers.
    pub fn name(&self) -> (r: &'static str)
        ensures
            r@ == difficulty_name(*self),
    {
        match self {
            Difficulty::Easy => "easy",
            Difficulty::Normal => "normal",
            Difficulty::Expert => "expert",
        }
    }

    /// The profile attribute that holds a player's best score at this difficulty.
    pub fn highscore_field(&self) -> (r: &'static str)
        ensures
            r@ == highscore_field_name(*self),
    {
        match self {
            Difficulty::Easy => "easy_highscore",
            Difficulty::Normal => "normal_highscore",
            Difficulty::Expert => "expert_highscore",
        }
    }
}

/// A whole leaderboard after it changed, tagged with its difficulty.
pub enum LeaderboardUpdate {
    Easy(Vec<LeaderboardEntry>),
    Normal(Vec<LeaderboardEntry>),
    Expert(Vec<LeaderboardEntry>),
}

impl LeaderboardUpdate {
    pub open spec fn difficulty(&self) -> Difficulty {
        match self {
            LeaderboardUpdate::Easy(_) => Difficulty::Easy,
            LeaderboardUpdate::Normal(_) => Difficulty::Normal,
            LeaderboardUpdate::Expert(_) => Difficulty::Expert,
        }
    }

    pub open spec fn entries(&self) -> Seq<EntryView> {
        match self {
            LeaderboardUpdate::Easy(v) => views(v@),
            LeaderboardUpdate::Normal(v) => views(v@),
            LeaderboardUpdate::Expert(v) => views(v@),
        }
    }

    /// Tags a board with its difficulty.
    pub fn new(difficulty: Difficulty, board: Vec<LeaderboardEntry>) -> (r: LeaderboardUpdate)
        ensures
            r.difficulty() == difficulty,
            r.entries() == views(board@),
    {
        match difficulty {
            Difficulty::Easy => LeaderboardUpdate::Easy(board),
            Difficulty::Normal => LeaderboardUpdate::Normal(board),
            Difficulty::Expert => LeaderboardUpdate::Expert(board),
        }
    }
}

/// All three leaderboards at one moment.
pub struct LeaderboardView {
    pub easy: Vec<LeaderboardEntry>,
    pub normal: Vec<LeaderboardEntry>,
    pub expert: Vec<LeaderboardEntry>,
}

/// The only way posting a score fails: the profile store refused the write.
#[derive(Clone, Copy, Debug, PartialEq, Eq)]
pub enum AddLeaderboardEntryError {
    InternalError,
}

/// A copy of a board.
pub fn copy_board(v: &Vec<LeaderboardEntry>) -> (r: Vec<LeaderboardEntry>)
    ensures
        views(r@) == views(v@),
{
    let mut r: Vec<LeaderboardEntry> = Vec::new();
    let mut i: usize = 0;
    while i < v.len()
        invariant
            i <= v.len(),
            views(r@) =~= views(v@).subrange(0, i as int),
        decreases v.len() - i,
    {
        let ghost before = r@;
        r.push(v[i].duplicate());
        assert(views(r@) =~= views(before).push(views(v@)[i as int]));
        i = i + 1;
    }
    assert(views(v@).subrange(0, v.len() as int) =~= views(v@));
    r
}

/// The three leaderboards of one server and how many players each keeps.
pub struct LeaderboardState {
    pub easy: Vec<LeaderboardEntry>,
    pub normal: Vec<LeaderboardEntry>,
    pub expert: Vec<LeaderboardEntry>,
    pub span: usize,
}

impl LeaderboardState {
    pub open spec fn board(&self, d: Difficulty) -> Seq<EntryView> {
        match d {
            Difficulty::Easy => views(self.easy@),
            Difficulty::Normal => views(self.normal@),
            Difficulty::Expert => views(self.expert@),
        }
    }

    /// Leaderboards that start from the given boards.
    pub fn new(
        easy: Vec<LeaderboardEntry>,
        normal: Vec<LeaderboardEntry>,
        expert: Vec<LeaderboardEntry>,
        span: usize,
    ) -> (r: LeaderboardState)
        ensures
            r.board(Difficulty::Easy) == views(easy@),
            r.board(Difficulty::Normal) == views(normal@),
            r.board(Difficulty::Expert) == views(expert@),
            r.span == span,
    {
        LeaderboardState { easy, normal, expert, span }
    }

    /// Offers `entry` to the board of `difficulty`. Where the board changed,
    /// returns the whole new board to announce; the other boards stay as
    /// they are.
    pub fn local_update_leaderboard(&mut self, difficulty: Difficulty, entry: LeaderboardEntry) -> (r:
        Option<LeaderboardUpdate>)
        ensures
            final(self).span == old(self).span,
            forall|d: Difficulty| d != difficulty ==> #[trigger] final(self).board(d) == old(self).board(d),
            match offered_board(old(self).board(difficulty), entry@, old(self).span as nat) {
                Some(nb) => {
                    &&& r is Some
                    &&& r.unwrap().difficulty() == difficulty
                    &&& r.unwrap().entries() == final(self).board(difficulty)
                    &&& sorted_desc(final(self).board(difficulty))
                    &&& final(self).board(difficulty).to_multiset() == nb.to_multiset()
                },
                None => r is None && final(self).board(difficulty) == old(self).board(difficulty),
            },
    {
        let span = self.span;
        let changed = match difficulty {
            Difficulty::Easy => local_update_leaderboard(&mut self.easy, entry, span),
            Difficulty::Normal => local_update_leaderboard(&mut self.normal, entry, span),
            Difficulty::Expert => local_update_leaderboard(&mut self.expert, entry, span),
        };
        if !changed {
            return None;
        }
        let copy = match difficulty {
            Difficulty::Easy => copy_board(&self.easy),
            Difficulty::Normal => copy_board(&self.normal),
            Difficulty::Expert => copy_board(&self.expert),
        };
        Some(LeaderboardUpdate::new(difficulty, copy))
    }

    /// A copy of all three boards.
    pub fn get_leaderboard(&self) -> (r: LeaderboardView)
        ensures
            views(r.easy@) == self.board(Difficulty::Easy),
            views(r.normal@) == self.board(Difficulty::Normal),
            views(r.expert@) == self.board(Difficulty::Expert),
    {
        LeaderboardView {
            easy: copy_board(&self.easy),
            normal: copy_board(&self.normal),
            expert: copy_board(&self.expert),
        }
    }
}

/// When a best-first board with each player once takes a score:
/// - a player already on it is taken exactly when the new score beats the
///   player's own, and then only that player's entry changes;
/// - a new player on a board with room is added at the end, nothing else
///   changing (the board is put back in order afterwards);
/// - a new player on a full board is taken exactly when the score beats
///   some entry on it, and then replaces the worst one.
pub proof fn law_when_a_board_takes_a_score(b: Seq<EntryView>, e: EntryView, span: nat)
    requires
        usernames(b).no_duplicates(),
        sorted_desc(b),
    ensures
        usernames(b).contains(e.1) ==> ((offered_board(b, e, span) is Some) <==> exists|i: int|
            0 <= i < b.len() && #[trigger] b[i].1 == e.1 && b[i].0 < e.0),
        usernames(b).contains(e.1) ==> forall|i: int|
            0 <= i < b.len() && #[trigger] b[i].1 == e.1 && b[i].0 < e.0 ==> offered_board(b, e, span)
                == Some(b.update(i, e)),
        !usernames(b).contains(e.1) && b.len() < span ==> offered_board(b, e, span) == Some(b.push(e)),
        !usernames(b).contains(e.1) && b.len() >= span && b.len() > 0 ==> ((offered_board(b, e, span) is Some)
            <==> exists|i: int| 0 <= i < b.len() && entry_lt(#[trigger] b[i], e)),
        !usernames(b).contains(e.1) && b.len() >= span && b.len() > 0 && offered_board(b, e, span) is Some
            ==> offered_board(b, e, span) == Some(b.update(b.len() - 1, e)),
{
    usernames(b).index_of_first_ensures(e.1);
    if b.len() == 0 {
        assert(seq![e] =~= b.push(e));
    }
    if usernames(b).contains(e.1) {
        let k = usernames(b).index_of_first(e.1).unwrap();
        assert(usernames(b)[k] == b[k].1);
        assert forall|i: int| 0 <= i < b.len() && #[trigger] b[i].1 == e.1 implies i == k by {
            assert(usernames(b)[i] == b[i].1);
        }
        if b[k].0 < e.0 {
            assert(b[k].1 == e.1 && b[k].0 < e.0);
        }
    } else if b.len() >= span && b.len() > 0 {
        let n = b.len() - 1;
        if entry_lt(b[n], e) {
            assert(entry_lt(b[n], e));
        }
        assert forall|i: int| 0 <= i < b.len() && entry_lt(#[trigger] b[i], e) implies entry_lt(b[n], e) by {
            law_entry_order_is_strict_and_total(b[n], b[i], e);
            if i < n {
                assert(!entry_lt(b[i], b[n]));
            }
        }
    }
}

/// An accepted score is on the board that results.
pub proof fn law_accepted_entry_is_on_board(b: Seq<EntryView>, e: EntryView, span: nat)
    requires
        offered_board(b, e, span) is Some,
    ensures
        offered_board(b, e, span).unwrap().contains(e),
{
    let nb = offered_board(b, e, span).unwrap();
    if b.len() == 0 {
        assert(nb[0] == e);
    } else {
        match usernames(b).index_of_first(e.1) {
            Some(i) => {
                usernames(b).index_of_first_ensures(e.1);
                assert(nb[i] == e);
            },
            None => {
                if b.len() >= span {
                    assert(nb[b.len() - 1] == e);
                } else {
                    assert(nb[b.len() as int] == e);
                }
            },
        }
    }
}

/// A board that holds at most `span` players (`span` at least one) still
/// does after any score is offered.
pub proof fn law_board_stays_within_span(b: Seq<EntryView>, e: EntryView, span: nat)
    requires
        b.len() <= span,
        span >= 1,
    ensures
        offered_board(b, e, span) matches Some(nb) ==> nb.len() <= span,
{
    usernames(b).index_of_first_ensures(e.1);
}

/// No player appears twice on a board, whatever is offered to it.
pub proof fn law_usernames_stay_unique(b: Seq<EntryView>, e: EntryView, span: nat)
    requires
        usernames(b).no_duplicates(),
    ensures
        offered_board(b, e, span) matches Some(nb) ==> usernames(nb).no_duplicates(),
{
    if let Some(nb) = offered_board(b, e, span) {
        if b.len() == 0 {
            assert(usernames(nb) =~= seq![e.1]);
        } else {
            usernames(b).index_of_first_ensures(e.1);
            assert forall|i: int, j: int|
                0 <= i < usernames(nb).len() && 0 <= j < usernames(nb).len() && i != j implies
                usernames(nb)[i] != usernames(nb)[j] by {
                if usernames(nb)[i] == usernames(nb)[j] {
                    match usernames(b).index_of_first(e.1) {
                        Some(k) => {
                            if i == k {
                                assert(usernames(b)[j] == e.1);
                            } else if j == k {
                                assert(usernames(b)[i] == e.1);
                            } else {
                                assert(usernames(b)[i] == usernames(b)[j]);
                            }
                        },
                        None => {
                            if b.len() >= span {
                                let k = b.len() - 1;
                                if i == k {
                                    assert(usernames(b)[j] == e.1);
                                } else if j == k {
                                    assert(usernames(b)[i] == e.1);
                                } else {
                                    assert(usernames(b)[i] == usernames(b)[j]);
                                }
                            } else {
                                let k = b.len() as int;
                                if i == k {
                                    assert(usernames(b)[j] == e.1);
                                } else if j == k {
                                    assert(usernames(b)[i] == e.1);
                                } else {
                                    assert(usernames(b)[i] == usernames(b)[j]);
                                }
                            }
                        },
                    }
                }
            }
        }
    }
}

/// Reordering a board keeps its players distinct.
pub proof fn law_reordering_keeps_usernames_unique(s: Seq<EntryView>, t: Seq<EntryView>)
    requires
        usernames(s).no_duplicates(),
        s.to_multiset() == t.to_multiset(),
    ensures
        usernames(t).no_duplicates(),
{
    assert(s.no_duplicates()) by {
        assert forall|i: int, j: int| 0 <= i < s.len() && 0 <= j < s.len() && i != j implies s[i]
            != s[j] by {
            assert(usernames(s)[i] == s[i].1);
            assert(usernames(s)[j] == s[j].1);
        }
    }
    s.lemma_multiset_has_no_duplicates();
    t.lemma_multiset_has_no_duplicates_conv();
    assert forall|i: int, j: int|
        0 <= i < usernames(t).len() && 0 <= j < usernames(t).len() && i != j implies usernames(t)[i]
        != usernames(t)[j] by {
        if usernames(t)[i] == usernames(t)[j] {
            assert(t.contains(t[i]));
            assert(t.contains(t[j]));
            assert(s.to_multiset().count(t[i]) > 0);
            assert(s.to_multiset().count(t[j]) > 0);
            assert(s.contains(t[i]));
            assert(s.contains(t[j]));
            let p = choose|p: int| 0 <= p < s.len() && s[p] == t[i];
            let q = choose|q: int| 0 <= q < s.len() && s[q] == t[j];
            assert(usernames(s)[p] == usernames(s)[q]);
        }
    }
}

/// Offering the same score again, to the board that the first offer left
/// (in whatever order), changes nothing.
pub proof fn law_resubmission_changes_nothing(
    b: Seq<EntryView>,
    e: EntryView,
    span: nat,
    reordered: Seq<EntryView>,
)
    requires
        usernames(b).no_duplicates(),
        offered_board(b, e, span) is Some,
        reordered.to_multiset() == offered_board(b, e, span).unwrap().to_multiset(),
    ensures
        offered_board(reordered, e, span) is None,
{
    let nb = offered_board(b, e, span).unwrap();
    law_accepted_entry_is_on_board(b, e, span);
    law_usernames_stay_unique(b, e, span);
    law_reordering_keeps_usernames_unique(nb, reordered);
    assert(nb.to_multiset().count(e) > 0);
    assert(reordered.contains(e));
    let k = choose|k: int| 0 <= k < reordered.len() && reordered[k] == e;
    assert(usernames(reordered)[k] == e.1);
    usernames(reordered).index_of_first_ensures(e.1);
    let j = usernames(reordered).index_of_first(e.1).unwrap();
    assert(j == k);
}

/// A player who stays on the board never loses score.
pub proof fn law_player_score_never_drops(
    b: Seq<EntryView>,
    e: EntryView,
    span: nat,
    i: int,
    j: int,
)
    requires
        usernames(b).no_duplicates(),
        offered_board(b, e, span) is Some,
        0 <= i < b.len(),
        0 <= j < offered_board(b, e, span).unwrap().len(),
        offered_board(b, e, span).unwrap()[j].1 == b[i].1,
    ensures
        offered_board(b, e, span).unwrap()[j].0 >= b[i].0,
{
    let nb = offered_board(b, e, span).unwrap();
    usernames(b).index_of_first_ensures(e.1);
    assert(usernames(b)[i] == b[i].1);
    match usernames(b).index_of_first(e.1) {
        Some(k) => {
            if j == k {
                assert(usernames(b)[k] == e.1);
            } else {
                assert(usernames(b)[j] == b[i].1);
            }
        },
        None => {
            if b.len() >= span && j == b.len() - 1 {
                assert(usernames(b)[i] == e.1);
            } else if j < b.len() {
                assert(usernames(b)[j] == b[i].1);
            }
        },
    }
}

} // verus!
