//! Login tokens: random alphanumeric strings, each standing for one
//! identity, at most one live token per identity; and where a request
//! carries its token.
use std::time::Duration;
use vstd::prelude::*;
use vstd::utf8::*;
use vstd::string::StringSliceAdditionalSpecFns;
use crate::bytes::bytes_eq;
use crate::session::LoginTokenData;

verus! {

pub open spec fn is_alphanumeric(b: u8) -> bool {
    (48 <= b <= 57) || (65 <= b <= 90) || (97 <= b <= 122)
}

/// Calls `thread_rng().sample_iter(&Alphanumeric).take(len)`: `len` random
/// bytes, each an ASCII letter or digit, as `rand`'s `Alphanumeric`
/// documents; which ones is up to chance.
#[verifier::external_body]
pub(crate) fn random_alphanumeric(len: usize) -> (r: Vec<u8>)
    ensures
        r@.len() == len,
        forall|i: int| 0 <= i < len ==> is_alphanumeric(#[trigger] r@[i]),
{
    rand::Rng::sample_iter(rand::thread_rng(), &rand::distributions::Alphanumeric).take(len).collect()
}

/// An identity that a token can stand for; two identities are the same
/// when their views are.
pub trait TokenIdentity: View + Sized {
    fn same_identity(&self, other: &Self) -> (r: bool)
        ensures
            r == (self@ == other@),
    ;

    fn duplicate(&self) -> (r: Self)
        ensures
            r@ == self@,
    ;
}

impl View for LoginTokenData {
    type V = (Seq<char>, Seq<char>);

    open spec fn view(&self) -> (Seq<char>, Seq<char>) {
        (self.username@, self.email@)
    }
}

impl TokenIdentity for LoginTokenData {
    fn same_identity(&self, other: &Self) -> (r: bool) {
        self.username == other.username && self.email == other.email
    }

    fn duplicate(&self) -> (r: Self) {
        LoginTokenData { username: self.username.clone(), email: self.email.clone() }
    }
}

/// What kind of identity a granter's tokens stand for, and how long they are.
pub trait TokenConfig {
    type TokenIdentifier: TokenIdentity;

    /// The length of every token.
    spec fn token_len() -> nat;

    fn token_length() -> (r: usize)
        ensures
            r == Self::token_len(),
    ;
}

/// A token configuration whose tokens travel in a request header.
pub trait HeaderTokenConfig: TokenConfig {
    /// The header's name, as bytes.
    spec fn header_name_bytes() -> Seq<u8>;

    fn header_name() -> (r: &'static str)
        ensures
            r.spec_bytes() == Self::header_name_bytes(),
    ;
}

/// The live tokens: token bytes with the identity each stands for; no
/// token and no identity occurs twice.
pub struct TokenTable<ID> {
    entries: Vec<(Vec<u8>, ID)>,
}

pub open spec fn tokens_of<ID: View>(s: Seq<(Vec<u8>, ID)>) -> Seq<Seq<u8>> {
    s.map_values(|e: (Vec<u8>, ID)| e.0@)
}

pub open spec fn ids_of<ID: View>(s: Seq<(Vec<u8>, ID)>) -> Seq<ID::V> {
    s.map_values(|e: (Vec<u8>, ID)| e.1@)
}

/// The live tokens after `token` is granted to `id`: any token that `id`
/// held, and any other holder of `token`, are gone.
pub open spec fn granted<K, V>(m: Map<K, V>, token: K, id: V) -> Map<K, V> {
    Map::new(
        |t: K| t == token || (m.contains_key(t) && m[t] != id),
        |t: K| if t == token { id } else { m[t] },
    )
}

/// No identity holds two tokens.
pub open spec fn one_token_per_identity<K, V>(m: Map<K, V>) -> bool {
    forall|a: K, b: K|
        m.contains_key(a) && m.contains_key(b) && a != b ==> #[trigger] m[a] != #[trigger] m[b]
}

impl<ID: TokenIdentity> TokenTable<ID> {
    pub closed spec fn wf(&self) -> bool {
        &&& tokens_of(self.entries@).no_duplicates()
        &&& ids_of(self.entries@).no_duplicates()
    }

    /// Which identity each live token stands for.
    pub closed spec fn view(&self) -> Map<Seq<u8>, ID::V> {
        Map::new(
            |t: Seq<u8>| tokens_of(self.entries@).contains(t),
            |t: Seq<u8>| ids_of(self.entries@)[tokens_of(self.entries@).index_of(t)],
        )
    }

    proof fn lemma_view(&self, k: int)
        requires
            self.wf(),
            0 <= k < self.entries@.len(),
        ensures
            self.view().contains_key(self.entries@[k].0@),
            self.view()[self.entries@[k].0@] == self.entries@[k].1@,
    {
        let toks = tokens_of(self.entries@);
        assert(toks[k] == self.entries@[k].0@);
        let j = toks.index_of(toks[k]);
        assert(toks[j] == toks[k]);
    }

    proof fn lemma_view_one_per_identity(&self)
        requires
            self.wf(),
        ensures
            one_token_per_identity(self.view()),
    {
        let toks = tokens_of(self.entries@);
        let ids = ids_of(self.entries@);
        assert forall|a: Seq<u8>, b: Seq<u8>|
            self.view().contains_key(a) && self.view().contains_key(b) && a != b implies #[trigger] self.view()[a]
            != #[trigger] self.view()[b] by {
            let i = toks.index_of(a);
            let j = toks.index_of(b);
            assert(toks[i] == a);
            assert(toks[j] == b);
            assert(i != j);
        }
    }

    pub fn new() -> (r: TokenTable<ID>)
        ensures
            r.wf(),
            r.view() == Map::<Seq<u8>, ID::V>::empty(),
    {
        let r = TokenTable { entries: Vec::new() };
        assert(r.view() =~= Map::<Seq<u8>, ID::V>::empty());
        r
    }

    fn position_of_token(&self, token: &[u8]) -> (r: Option<usize>)
        requires
            self.wf(),
        ensures
            match r {
                Some(i) => i < self.entries@.len() && self.entries@[i as int].0@ == token@,
                None => !tokens_of(self.entries@).contains(token@),
            },
    {
        let mut i: usize = 0;
        while i < self.entries.len()
            invariant
                i <= self.entries@.len(),
                forall|k: int| 0 <= k < i ==> tokens_of(self.entries@)[k] != token@,
            decreases self.entries@.len() - i,
        {
            if bytes_eq(self.entries[i].0.as_slice(), token) {
                return Some(i);
            }
            i = i + 1;
        }
        None
    }

    /// The identity that `token` stands for, if it is live.
    pub fn lookup(&self, token: &[u8]) -> (r: Option<&ID>)
        requires
            self.wf(),
        ensures
            match r {
                Some(id) => self.view().contains_key(token@) && self.view()[token@] == id@,
                None => !self.view().contains_key(token@),
            },
    {
        match self.position_of_token(token) {
            Some(i) => {
                proof {
                    self.lemma_view(i as int);
                }
                Some(&self.entries[i].1)
            },
            None => None,
        }
    }

    /// Removes entry `i`.
    fn remove_at(&mut self, i: usize) -> (r: (Vec<u8>, ID))
        requires
            old(self).wf(),
            i < old(self).entries@.len(),
        ensures
            final(self).wf(),
            final(self).entries@ == old(self).entries@.remove(i as int),
            r == old(self).entries@[i as int],
    {
        let ghost before = self.entries@;
        let r = self.entries.remove(i);
        assert(tokens_of(self.entries@) =~= tokens_of(before).remove(i as int));
        assert(ids_of(self.entries@) =~= ids_of(before).remove(i as int));
        r
    }

    /// Withdraws `token`; gives back the identity it stood for.
    pub fn remove_by_token(&mut self, token: &[u8]) -> (r: Option<ID>)
        requires
            old(self).wf(),
        ensures
            final(self).wf(),
            final(self).view() == old(self).view().remove(token@),
            match r {
                Some(id) => old(self).view().contains_key(token@) && old(self).view()[token@]
                    == id@,
                None => !old(self).view().contains_key(token@),
            },
    {
        match self.position_of_token(token) {
            Some(i) => {
                proof {
                    self.lemma_view(i as int);
                }
                let ghost before = *self;
                let (_, id) = self.remove_at(i);
                proof {
                    let toks = tokens_of(before.entries@);
                    let new_toks = tokens_of(self.entries@);
                    assert(new_toks =~= toks.remove(i as int));
                    assert(toks[i as int] == token@);
                    assert forall|t: Seq<u8>| #[trigger] self.view().contains_key(t) == before.view().remove(token@).contains_key(t) by {
                        if toks.contains(t) && t != token@ {
                            let k = choose|k: int| 0 <= k < toks.len() && toks[k] == t;
                            assert(k != i);
                            if k < i {
                                assert(new_toks[k] == t);
                            } else {
                                assert(new_toks[k - 1] == t);
                            }
                            assert(new_toks.contains(t));
                        }
                        if new_toks.contains(t) {
                            let k = choose|k: int| 0 <= k < new_toks.len() && new_toks[k] == t;
                            if k < i {
                                assert(toks[k] == t);
                            } else {
                                assert(toks[k + 1] == t);
                            }
                            assert(toks.contains(t));
                            if t == token@ {
                                if k < i {
                                    assert(toks[k] == toks[i as int]);
                                } else {
                                    assert(toks[k + 1] == toks[i as int]);
                                }
                            }
                        }
                    }
                    assert forall|t: Seq<u8>| #[trigger] self.view().contains_key(t) implies self.view()[t] == before.view()[t] by {
                        let k = tokens_of(self.entries@).index_of(t);
                        assert(tokens_of(self.entries@)[k] == t);
                        self.lemma_view(k);
                        if k < i {
                            before.lemma_view(k);
                        } else {
                            before.lemma_view(k + 1);
                        }
                    }
                    assert(self.view() =~= before.view().remove(token@));
                }
                Some(id)
            },
            None => {
                assert(self.view() =~= self.view().remove(token@));
                None
            },
        }
    }

    fn position_of_identity(&self, id: &ID) -> (r: Option<usize>)
        requires
            self.wf(),
        ensures
            match r {
                Some(i) => i < self.entries@.len() && self.entries@[i as int].1@ == id@,
                None => !ids_of(self.entries@).contains(id@),
            },
    {
        let mut i: usize = 0;
        while i < self.entries.len()
            invariant
                i <= self.entries@.len(),
                forall|k: int| 0 <= k < i ==> ids_of(self.entries@)[k] != id@,
            decreases self.entries@.len() - i,
        {
            if self.entries[i].1.same_identity(id) {
                return Some(i);
            }
            i = i + 1;
        }
        None
    }

    proof fn lemma_push_view(&self, before: Self, token: Seq<u8>, idv: ID::V)
        requires
            before.wf(),
            !before.view().contains_key(token),
            tokens_of(self.entries@) == tokens_of(before.entries@).push(token),
            ids_of(self.entries@) == ids_of(before.entries@).push(idv),
        ensures
            tokens_of(self.entries@).no_duplicates(),
            self.view() == before.view().insert(token, idv),
    {
        let toks = tokens_of(self.entries@);
        let old_toks = tokens_of(before.entries@);
        assert forall|t: Seq<u8>| #[trigger] self.view().contains_key(t) == before.view().insert(token, idv).contains_key(t) by {
            if old_toks.contains(t) {
                let k = old_toks.index_of(t);
                assert(toks[k] == t);
            }
            if toks.contains(t) && t != token {
                let k = toks.index_of(t);
                assert(k < old_toks.len());
                assert(old_toks[k] == t);
            }
            if t == token {
                assert(toks[old_toks.len() as int] == t);
            }
        }
        assert forall|t: Seq<u8>| #[trigger] self.view().contains_key(t) implies self.view()[t] == before.view().insert(token, idv)[t] by {
            let k = toks.index_of(t);
            assert(toks[k] == t);
            if t == token {
                assert(k == old_toks.len());
            } else {
                assert(k < old_toks.len());
                assert(old_toks[k] == t);
                let j = old_toks.index_of(t);
                assert(old_toks[j] == t);
                assert(j == k);
            }
        }
        assert(self.view() =~= before.view().insert(token, idv));
    }

    /// Makes `token` stand for `id`, withdrawing the token that `id` held
    /// and any other identity's hold on `token`.
    pub fn insert(&mut self, token: Vec<u8>, id: ID)
        requires
            old(self).wf(),
        ensures
            final(self).wf(),
            final(self).view() == granted(old(self).view(), token@, id@),
    {
        let ghost before = self.view();
        self.remove_by_token(token.as_slice());
        let ghost mid = self.view();
        proof {
            self.lemma_view_one_per_identity();
        }
        let ghost mut held: Option<Seq<u8>> = None;
        match self.position_of_identity(&id) {
            Some(i) => {
                let held_token = self.entries[i].0.clone();
                proof {
                    self.lemma_view(i as int);
                    held = Some(held_token@);
                }
                self.remove_by_token(held_token.as_slice());
            },
            None => {
                proof {
                    assert forall|t: Seq<u8>| #[trigger] mid.contains_key(t) implies mid[t] != id@ by {
                        let toks = tokens_of(self.entries@);
                        let k = toks.index_of(t);
                        assert(toks[k] == t);
                        self.lemma_view(k);
                        assert(ids_of(self.entries@)[k] == self.entries@[k].1@);
                    }
                }
            },
        }
        let ghost inner = self.view();
        let ghost at_inner = *self;
        assert(!inner.contains_key(token@));
        self.entries.push((token, id));
        assert(tokens_of(self.entries@) =~= tokens_of(at_inner.entries@).push(token@));
        assert(ids_of(self.entries@) =~= ids_of(at_inner.entries@).push(id@));
        proof {
            self.lemma_push_view(at_inner, token@, id@);
            assert(!ids_of(at_inner.entries@).contains(id@)) by {
                if ids_of(at_inner.entries@).contains(id@) {
                    let k = choose|k: int| 0 <= k < ids_of(at_inner.entries@).len() && ids_of(at_inner.entries@)[k] == id@;
                    at_inner.lemma_view(k);
                    let t = at_inner.entries@[k].0@;
                    assert(inner.contains_key(t) && inner[t] == id@);
                    match held {
                        Some(h) => {
                            assert(mid.contains_key(t) && mid[t] == id@);
                            assert(t != h);
                        },
                        None => {
                            assert(mid[t] != id@);
                        },
                    }
                }
            }
            assert(self.wf());
            assert(self.view() =~= granted(before, token@, id@));
        }
    }
}


/// A token just granted verifies, and stands for the identity it was
/// granted to.
pub proof fn law_granted_token_verifies<V>(m: Map<Seq<u8>, V>, token: Seq<u8>, id: V)
    ensures
        granted(m, token, id).contains_key(token),
        granted(m, token, id)[token] == id,
{
}

/// A withdrawn token no longer verifies, and no other token changes.
pub proof fn law_revoked_token_fails<V>(m: Map<Seq<u8>, V>, token: Seq<u8>, other: Seq<u8>)
    requires
        other != token,
    ensures
        !m.remove(token).contains_key(token),
        m.remove(token).contains_key(other) == m.contains_key(other),
        m.contains_key(other) ==> m.remove(token)[other] == m[other],
{
}

/// Granting a new token to an identity withdraws its previous token, so an
/// identity never holds two tokens; tokens of other identities stay.
pub proof fn law_new_token_replaces_old<K, V>(m: Map<K, V>, token: K, id: V, other: K)
    requires
        one_token_per_identity(m),
        other != token,
    ensures
        one_token_per_identity(granted(m, token, id)),
        granted(m, token, id).contains_key(other) ==> granted(m, token, id)[other] != id,
        m.contains_key(other) && m[other] != id ==> granted(m, token, id).contains_key(other)
            && granted(m, token, id)[other] == m[other],
{
    let g = granted(m, token, id);
    assert forall|a: K, b: K| g.contains_key(a) && g.contains_key(b) && a != b implies #[trigger] g[a]
        != #[trigger] g[b] by {
        if a != token && b != token {
            assert(m[a] != m[b]);
        }
    }
}

/// Login tokens: 32 characters long, carried in the `Login-Token` header,
/// each standing for a player's username and email.
pub struct LoginTokenConfig;

impl TokenConfig for LoginTokenConfig {
    type TokenIdentifier = LoginTokenData;

    open spec fn token_len() -> nat {
        32
    }

    fn token_length() -> (r: usize) {
        32
    }
}

impl HeaderTokenConfig for LoginTokenConfig {
    open spec fn header_name_bytes() -> Seq<u8> {
        seq![76u8, 111u8, 103u8, 105u8, 110u8, 45u8, 84u8, 111u8, 107u8, 101u8, 110u8]
    }

    fn header_name() -> (r: &'static str) {
        let r = "Login-Token";
        proof {
            reveal_strlit("Login-Token");
            vstd::string::is_ascii_spec_bytes(r);
            assert(vstd::string::is_ascii(r));
            assert(r.spec_bytes() =~= Self::header_name_bytes());
        }
        r
    }
}

/// A token together with the identity it stands for.
pub struct VerifiedToken<C: TokenConfig> {
    pub token: Vec<u8>,
    pub identifier: C::TokenIdentifier,
}

/// Grants, verifies and withdraws tokens of one configuration. Tokens
/// expire `token_duration` after they are granted; the caller withdraws
/// them then.
pub struct TokenGranter<C: TokenConfig> {
    tokens: TokenTable<C::TokenIdentifier>,
    token_duration: Duration,
}

impl<C: TokenConfig> TokenGranter<C> {
    pub closed spec fn wf(&self) -> bool {
        self.tokens.wf()
    }

    /// Which identity each live token stands for.
    pub closed spec fn live(&self) -> Map<Seq<u8>, <C::TokenIdentifier as View>::V> {
        self.tokens.view()
    }

    pub closed spec fn duration(&self) -> Duration {
        self.token_duration
    }

    pub fn new(token_duration: Duration) -> (r: TokenGranter<C>)
        ensures
            r.wf(),
            r.live() == Map::<Seq<u8>, <C::TokenIdentifier as View>::V>::empty(),
            r.duration() == token_duration,
    {
        TokenGranter { tokens: TokenTable::new(), token_duration }
    }

    /// How long a token lives.
    pub fn token_duration(&self) -> (r: Duration)
        ensures
            r == self.duration(),
    {
        self.token_duration
    }

    /// Grants a fresh random token to `id`; any token `id` held is withdrawn.
    pub fn create_token(&mut self, id: C::TokenIdentifier) -> (r: VerifiedToken<C>)
        requires
            old(self).wf(),
        ensures
            final(self).wf(),
            final(self).duration() == old(self).duration(),
            r.identifier@ == id@,
            r.token@.len() == C::token_len(),
            forall|i: int| 0 <= i < r.token@.len() ==> is_alphanumeric(#[trigger] r.token@[i]),
            final(self).live() == granted(old(self).live(), r.token@, id@),
    {
        let token = random_alphanumeric(C::token_length());
        let copy = token.clone();
        assert(copy@ =~= token@);
        let identifier = id.duplicate();
        self.tokens.insert(copy, id);
        VerifiedToken { token, identifier }
    }

    /// Withdraws `token`.
    pub fn revoke_token(&mut self, token: &[u8])
        requires
            old(self).wf(),
        ensures
            final(self).wf(),
            final(self).duration() == old(self).duration(),
            final(self).live() == old(self).live().remove(token@),
    {
        self.tokens.remove_by_token(token);
    }

    /// The identity `token` stands for, if it is live.
    pub fn verify_token(&self, token: &[u8]) -> (r: Option<VerifiedToken<C>>)
        requires
            self.wf(),
        ensures
            match r {
                Some(v) => self.live().contains_key(token@) && v.token@ == token@
                    && v.identifier@ == self.live()[token@],
                None => !self.live().contains_key(token@),
            },
    {
        match self.tokens.lookup(token) {
            Some(id) => {
                let mut t: Vec<u8> = Vec::new();
                let mut i: usize = 0;
                while i < token.len()
                    invariant
                        i <= token.len(),
                        t@ =~= token@.subrange(0, i as int),
                    decreases token.len() - i,
                {
                    t.push(token[i]);
                    i = i + 1;
                }
                assert(token@.subrange(0, token@.len() as int) =~= token@);
                Some(VerifiedToken { token: t, identifier: id.duplicate() })
            },
            None => None,
        }
    }
}

/// Why a request's token was refused.
#[derive(Clone, Copy, Debug, PartialEq, Eq)]
pub enum TokenVerificationError {
    MissingToken,
    InvalidTokenLength,
    InvalidToken,
}

impl TokenVerificationError {
    /// The status and text the request is answered with: all three are
    /// "401 Unauthorized".
    pub fn status_and_message(&self) -> (r: (u16, &'static str))
        ensures
            r.0 == 401,
            r.1@ == (match self {
                TokenVerificationError::MissingToken => "Missing token"@,
                TokenVerificationError::InvalidToken => "Invalid or expired token"@,
                TokenVerificationError::InvalidTokenLength => "Invalid length for token"@,
            }),
    {
        match self {
            TokenVerificationError::MissingToken => (401, "Missing token"),
            TokenVerificationError::InvalidToken => (401, "Invalid or expired token"),
            TokenVerificationError::InvalidTokenLength => (401, "Invalid length for token"),
        }
    }
}

/// How far past the start of the token's name in the query the token
/// itself starts.
pub const QUERY_TOKEN_OFFSET: usize = 12;

pub open spec fn ascii_lower(s: Seq<u8>) -> Seq<u8> {
    s.map_values(|b: u8| if 65 <= b <= 90 { (b + 32) as u8 } else { b })
}

pub open spec fn occurs_at(hay: Seq<u8>, needle: Seq<u8>, i: int) -> bool {
    0 <= i && i + needle.len() <= hay.len() && hay.subrange(i, i + needle.len()) == needle
}

/// Where `needle` first occurs in `hay`, as `str::find` reports it.
pub open spec fn first_occurrence(hay: Seq<u8>, needle: Seq<u8>) -> Option<int> {
    if exists|i: int| occurs_at(hay, needle, i) {
        Some(choose|i: int| occurs_at(hay, needle, i) && forall|j: int| 0 <= j < i ==> !occurs_at(hay, needle, j))
    } else {
        None
    }
}

/// A byte that a header value may hold.
pub open spec fn header_value_byte(b: u8) -> bool {
    (b >= 32 && b != 127) || b == 9
}

/// Where a request's token is: the header when there is one, which must
/// have the token's length; else in the query, `QUERY_TOKEN_OFFSET` bytes
/// after the first occurrence of the lower-cased header name, where the
/// token's bytes must lie on character boundaries within the query.
pub open spec fn token_location(
    header: Option<Seq<u8>>,
    query: Option<Seq<u8>>,
    name: Seq<u8>,
    len: nat,
) -> Result<Seq<u8>, TokenVerificationError> {
    match header {
        Some(h) => if h.len() != len {
            Err(TokenVerificationError::InvalidTokenLength)
        } else {
            Ok(h)
        },
        None => match query {
            None => Err(TokenVerificationError::MissingToken),
            Some(q) => match first_occurrence(q, ascii_lower(name)) {
                None => Err(TokenVerificationError::MissingToken),
                Some(i) => {
                    let a = i + QUERY_TOKEN_OFFSET;
                    let b = a + len;
                    if b <= q.len() && is_char_boundary(q, a) && is_char_boundary(q, b) {
                        Ok(q.subrange(a, b))
                    } else {
                        Err(TokenVerificationError::InvalidTokenLength)
                    }
                },
            },
        },
    }
}

/// A token found in the query can be turned into a header value: it holds
/// no control character.
pub open spec fn query_token_is_header_safe(
    header: Option<Seq<u8>>,
    query: Option<Seq<u8>>,
    name: Seq<u8>,
    len: nat,
) -> bool {
    header is None ==> (token_location(header, query, name, len) matches Ok(t) ==> forall|k: int|
        0 <= k < t.len() ==> header_value_byte(#[trigger] t[k]))
}

fn lowercase_ascii(s: &[u8]) -> (r: Vec<u8>)
    ensures
        r@ == ascii_lower(s@),
{
    let mut out: Vec<u8> = Vec::new();
    let mut i: usize = 0;
    while i < s.len()
        invariant
            i <= s.len(),
            out@ =~= ascii_lower(s@.subrange(0, i as int)),
        decreases s.len() - i,
    {
        let b = s[i];
        if 65 <= b && b <= 90 {
            out.push(b + 32);
        } else {
            out.push(b);
        }
        assert(ascii_lower(s@.subrange(0, i + 1)) =~= ascii_lower(s@.subrange(0, i as int)).push(
            out@[i as int],
        ));
        i = i + 1;
    }
    assert(s@.subrange(0, s@.len() as int) =~= s@);
    out
}

fn matches_at(hay: &[u8], needle: &[u8], i: usize) -> (r: bool)
    requires
        i + needle@.len() <= hay@.len(),
    ensures
        r == occurs_at(hay@, needle@, i as int),
{
    let n = hay.len();
    let mut k: usize = 0;
    while k < needle.len()
        invariant
            k <= needle.len(),
            n == hay@.len(),
            i + needle@.len() <= hay@.len(),
            forall|j: int| 0 <= j < k ==> hay@[i + j] == needle@[j],
        decreases needle.len() - k,
    {
        if hay[i + k] != needle[k] {
            assert(hay@.subrange(i as int, i + needle@.len())[k as int] != needle@[k as int]);
            return false;
        }
        k = k + 1;
    }
    assert(hay@.subrange(i as int, i + needle@.len()) =~= needle@);
    true
}

/// Finds where `needle` first occurs in `hay`.
pub fn find_bytes(hay: &[u8], needle: &[u8]) -> (r: Option<usize>)
    ensures
        match first_occurrence(hay@, needle@) {
            Some(i) => r matches Some(k) && k == i,
            None => r is None,
        },
        r matches Some(i) ==> i + needle@.len() <= hay@.len(),
{
    if needle.len() > hay.len() {
        return None;
    }
    let last = hay.len() - needle.len();
    let mut i: usize = 0;
    loop
        invariant
            last + needle@.len() == hay@.len(),
            i <= last,
            forall|j: int| 0 <= j < i ==> !occurs_at(hay@, needle@, j),
        decreases last - i,
    {
        if matches_at(hay, needle, i) {
            proof {
                let c = choose|c: int| occurs_at(hay@, needle@, c) && forall|j: int| 0 <= j < c ==> !occurs_at(hay@, needle@, j);
                assert(occurs_at(hay@, needle@, i as int));
                if c < i {
                } else if c > i {
                }
                assert(c == i);
            }
            return Some(i);
        }
        if i == last {
            proof {
                assert forall|j: int| occurs_at(hay@, needle@, j) implies false by {
                    assert(j <= last);
                }
            }
            return None;
        }
        i = i + 1;
    }
}

fn copy_range(s: &[u8], a: usize, b: usize) -> (r: Vec<u8>)
    requires
        a <= b <= s@.len(),
    ensures
        r@ == s@.subrange(a as int, b as int),
{
    let mut v: Vec<u8> = Vec::new();
    let mut i: usize = a;
    while i < b
        invariant
            a <= i <= b,
            b <= s@.len(),
            v@ =~= s@.subrange(a as int, i as int),
        decreases b - i,
    {
        v.push(s[i]);
        i = i + 1;
    }
    v
}

/// The query branch of `token_location`.
fn locate_query_token(q: &str, header_name: &str, token_length: usize) -> (r: Result<
    Vec<u8>,
    TokenVerificationError,
>)
    ensures
        match token_location(None, Some(q.spec_bytes()), header_name.spec_bytes(), token_length as nat) {
            Ok(t) => r matches Ok(v) && v@ == t,
            Err(e) => r == Err::<Vec<u8>, TokenVerificationError>(e),
        },
{
    let name = lowercase_ascii(header_name.as_bytes());
    let qb = q.as_bytes();
    let ghost qs = q.spec_bytes();
    let ghost ns = ascii_lower(header_name.spec_bytes());
    assert(qb@ == qs);
    assert(name@ == ns);
    proof {
        encode_utf8_valid_utf8(q@);
    }
    let idx = match find_bytes(qb, name.as_slice()) {
        Some(i) => i,
        None => return Err(TokenVerificationError::MissingToken),
    };
    assert(first_occurrence(qs, ns) == Some(idx as int));
    if qb.len() - idx < QUERY_TOKEN_OFFSET || qb.len() - idx - QUERY_TOKEN_OFFSET < token_length {
        assert(!(idx + QUERY_TOKEN_OFFSET + token_length <= qs.len()));
        assert(token_location(None, Some(qs), header_name.spec_bytes(), token_length as nat) == Err::<
            Seq<u8>,
            TokenVerificationError,
        >(TokenVerificationError::InvalidTokenLength));
        return Err(TokenVerificationError::InvalidTokenLength);
    }
    let a = idx + QUERY_TOKEN_OFFSET;
    let b = a + token_length;
    if !q.is_char_boundary(a) || !q.is_char_boundary(b) {
        assert(!(is_char_boundary(qs, a as int) && is_char_boundary(qs, b as int)));
        assert(token_location(None, Some(qs), header_name.spec_bytes(), token_length as nat) == Err::<
            Seq<u8>,
            TokenVerificationError,
        >(TokenVerificationError::InvalidTokenLength));
        return Err(TokenVerificationError::InvalidTokenLength);
    }
    Ok(copy_range(qb, a, b))
}

/// Finds a request's token, given its header value (if present), its
/// query (if any), and the configuration's header name and token length.
pub fn locate_token(header: Option<&[u8]>, query: Option<&str>, header_name: &str, token_length: usize) -> (r:
    Result<Vec<u8>, TokenVerificationError>)
    ensures
        match token_location(
            match header {
                Some(h) => Some(h@),
                None => None,
            },
            match query {
                Some(q) => Some(q.spec_bytes()),
                None => None,
            },
            header_name.spec_bytes(),
            token_length as nat,
        ) {
            Ok(t) => r matches Ok(v) && v@ == t,
            Err(e) => r == Err::<Vec<u8>, TokenVerificationError>(e),
        },
{
    match header {
        Some(h) => {
            if h.len() != token_length {
                Err(TokenVerificationError::InvalidTokenLength)
            } else {
                let v = copy_range(h, 0, h.len());
                assert(h@.subrange(0, h@.len() as int) =~= h@);
                Ok(v)
            }
        },
        None => match query {
            Some(q) => locate_query_token(q, header_name, token_length),
            None => Err(TokenVerificationError::MissingToken),
        },
    }
}

/// No identity ever holds two live tokens of one granter.
pub proof fn law_one_token_per_identity<C: TokenConfig>(g: &TokenGranter<C>)
    requires
        g.wf(),
    ensures
        one_token_per_identity(g.live()),
{
    g.tokens.lemma_view_one_per_identity();
}

/// Checks a request's token against the granter: where it is, then
/// whether it is live. A query token that could not be a header value
/// (it holds a control character) is not accepted as input.
pub fn verify_request_token<C: HeaderTokenConfig>(
    granter: &TokenGranter<C>,
    header: Option<&[u8]>,
    query: Option<&str>,
) -> (r: Result<VerifiedToken<C>, TokenVerificationError>)
    requires
        granter.wf(),
        query_token_is_header_safe(
            match header {
                Some(h) => Some(h@),
                None => None,
            },
            match query {
                Some(q) => Some(q.spec_bytes()),
                None => None,
            },
            C::header_name_bytes(),
            C::token_len(),
        ),
    ensures
        match token_location(
            match header {
                Some(h) => Some(h@),
                None => None,
            },
            match query {
                Some(q) => Some(q.spec_bytes()),
                None => None,
            },
            C::header_name_bytes(),
            C::token_len(),
        ) {
            Ok(t) => match r {
                Ok(v) => granter.live().contains_key(t) && v.token@ == t && v.identifier@
                    == granter.live()[t],
                Err(e) => e == TokenVerificationError::InvalidToken && !granter.live().contains_key(t),
            },
            Err(e) => r matches Err(e2) && e2 == e,
        },
{
    let token = match locate_token(header, query, C::header_name(), C::token_length()) {
        Ok(t) => t,
        Err(e) => return Err(e),
    };
    match granter.verify_token(token.as_slice()) {
        Some(v) => Ok(v),
        None => Err(TokenVerificationError::InvalidToken),
    }
}

} // verus!
