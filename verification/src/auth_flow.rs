//! Authentication attempts in flight: each waits under a random CSRF
//! token until the provider redirects back with that token as its state,
//! or until it times out. A state is honoured at most once.
use vstd::prelude::*;
use crate::auth_pages::AuthOutcome;
use crate::bytes::bytes_eq;
use crate::token::{is_alphanumeric, random_alphanumeric};

verus! {

/// The length of a CSRF token.
pub const CSRF_TOKEN_SIZE: usize = 32;

/// How long an authentication attempt waits for the redirect, in seconds.
pub const MAX_AUTH_WAIT_SECS: u64 = 180;

/// The query of the provider's redirect: the attempt's CSRF token and the
/// authorization code.
pub struct AuthRedirectParams {
    pub state: String,
    pub code: String,
}

/// The scopes, separated by single spaces.
pub open spec fn joined_scopes(scopes: Seq<Seq<char>>) -> Seq<char>
    decreases scopes.len(),
{
    if scopes.len() == 0 {
        Seq::empty()
    } else if scopes.len() == 1 {
        scopes[0]
    } else {
        joined_scopes(scopes.drop_last()) + seq![' '] + scopes.last()
    }
}

pub open spec fn views_of(scopes: Seq<&str>) -> Seq<Seq<char>> {
    scopes.map_values(|s: &str| s@)
}

/// The scope parameter of an authorization request.
pub fn scope_string(scopes: &[&str]) -> (r: String)
    ensures
        r@ == joined_scopes(views_of(scopes@)),
{
    let mut out = String::new();
    let mut i: usize = 0;
    while i < scopes.len()
        invariant
            i <= scopes@.len(),
            out@ == joined_scopes(views_of(scopes@.subrange(0, i as int))),
        decreases scopes@.len() - i,
    {
        let ghost before = out@;
        if i > 0 {
            out.append(" ");
        }
        out.append(scopes[i]);
        proof {
            let pre = views_of(scopes@.subrange(0, i as int));
            let post = views_of(scopes@.subrange(0, i + 1));
            assert(post.drop_last() =~= pre);
            assert(post.last() == scopes@[i as int]@);
            if i == 0 {
                assert(post.len() == 1);
                assert(out@ =~= post[0]);
            } else {
                reveal_strlit(" ");
                assert(out@ =~= before + seq![' '] + scopes@[i as int]@);
            }
        }
        i = i + 1;
    }
    assert(scopes@.subrange(0, scopes@.len() as int) =~= scopes@);
    out
}

/// A fresh CSRF token: 32 random ASCII letters and digits.
pub fn new_csrf_token() -> (r: Vec<u8>)
    ensures
        r@.len() == CSRF_TOKEN_SIZE,
        forall|i: int| 0 <= i < r@.len() ==> is_alphanumeric(#[trigger] r@[i]),
{
    random_alphanumeric(CSRF_TOKEN_SIZE)
}

/// What taking the attempt under `csrf` leaves and gives: the attempts
/// without it, and what waited there, if anything did.
pub open spec fn taken<T>(m: Map<Seq<u8>, T>, csrf: Seq<u8>) -> (Map<Seq<u8>, T>, Option<T>) {
    (m.remove(csrf), if m.contains_key(csrf) { Some(m[csrf]) } else { None })
}

/// The attempts after `value` starts waiting under `csrf`.
pub open spec fn begun<T>(m: Map<Seq<u8>, T>, csrf: Seq<u8>, value: T) -> Map<Seq<u8>, T> {
    m.insert(csrf, value)
}

/// The attempts in flight, by CSRF token; no token occurs twice.
pub struct PendingAuths<T> {
    entries: Vec<(Vec<u8>, T)>,
}

pub open spec fn csrf_tokens_of<T>(s: Seq<(Vec<u8>, T)>) -> Seq<Seq<u8>> {
    s.map_values(|e: (Vec<u8>, T)| e.0@)
}

impl<T> PendingAuths<T> {
    pub closed spec fn wf(&self) -> bool {
        csrf_tokens_of(self.entries@).no_duplicates()
    }

    /// What waits under each CSRF token.
    pub closed spec fn view(&self) -> Map<Seq<u8>, T> {
        Map::new(
            |t: Seq<u8>| csrf_tokens_of(self.entries@).contains(t),
            |t: Seq<u8>| self.entries@[csrf_tokens_of(self.entries@).index_of(t)].1,
        )
    }

    proof fn lemma_view_at(&self, i: int)
        requires
            self.wf(),
            0 <= i < self.entries@.len(),
        ensures
            self.view().contains_key(self.entries@[i].0@),
            self.view()[self.entries@[i].0@] == self.entries@[i].1,
    {
        let ks = csrf_tokens_of(self.entries@);
        assert(ks[i] == self.entries@[i].0@);
        let j = ks.index_of(ks[i]);
        assert(ks[j] == ks[i]);
    }

    pub fn new() -> (r: PendingAuths<T>)
        ensures
            r.wf(),
            r.view() == Map::<Seq<u8>, T>::empty(),
    {
        let r = PendingAuths { entries: Vec::new() };
        assert(r.view() =~= Map::<Seq<u8>, T>::empty());
        r
    }

    fn position_of(&self, csrf: &[u8]) -> (r: Option<usize>)
        requires
            self.wf(),
        ensures
            match r {
                Some(i) => i < self.entries@.len() && self.entries@[i as int].0@ == csrf@,
                None => !self.view().contains_key(csrf@),
            },
    {
        let mut i: usize = 0;
        while i < self.entries.len()
            invariant
                i <= self.entries@.len(),
                forall|k: int| 0 <= k < i ==> csrf_tokens_of(self.entries@)[k] != csrf@,
            decreases self.entries@.len() - i,
        {
            if bytes_eq(self.entries[i].0.as_slice(), csrf) {
                return Some(i);
            }
            i = i + 1;
        }
        None
    }

    /// Stops waiting under `csrf`; gives back what waited there.
    pub fn take(&mut self, csrf: &[u8]) -> (r: Option<T>)
        requires
            old(self).wf(),
        ensures
            final(self).wf(),
            (final(self).view(), r) == taken(old(self).view(), csrf@),
    {
        match self.position_of(csrf) {
            None => {
                assert(self.view() =~= self.view().remove(csrf@));
                None
            },
            Some(i) => {
                proof {
                    self.lemma_view_at(i as int);
                }
                let ghost before = *self;
                let (_, v) = self.entries.remove(i);
                proof {
                    let ks = csrf_tokens_of(self.entries@);
                    let old_ks = csrf_tokens_of(before.entries@);
                    assert(ks =~= old_ks.remove(i as int));
                    assert(old_ks[i as int] == csrf@);
                    let target = before.view().remove(csrf@);
                    assert forall|k: Seq<u8>| #[trigger] self.view().contains_key(k) == target.contains_key(k) by {
                        if old_ks.contains(k) && k != csrf@ {
                            let j = old_ks.index_of(k);
                            assert(old_ks[j] == k);
                            if j < i {
                                assert(ks[j] == k);
                            } else {
                                assert(ks[j - 1] == k);
                            }
                        }
                        if ks.contains(k) {
                            let j = ks.index_of(k);
                            assert(ks[j] == k);
                            if j < i {
                                assert(old_ks[j] == k);
                            } else {
                                assert(old_ks[j + 1] == k);
                            }
                        }
                    }
                    assert forall|k: Seq<u8>| #[trigger] self.view().contains_key(k) implies self.view()[k]
                        == target[k] by {
                        let j = ks.index_of(k);
                        assert(ks[j] == k);
                        self.lemma_view_at(j);
                        if j < i {
                            before.lemma_view_at(j);
                        } else {
                            before.lemma_view_at(j + 1);
                        }
                    }
                    assert(self.view() =~= target);
                }
                Some(v)
            },
        }
    }

    /// Stops waiting under `csrf`: its time ran out.
    pub fn untrack_session(&mut self, csrf: &[u8])
        requires
            old(self).wf(),
        ensures
            final(self).wf(),
            final(self).view() == taken(old(self).view(), csrf@).0,
    {
        let _ = self.take(csrf);
    }

    /// Waits under `csrf` with `pending`, in place of what waited there.
    pub fn track_session(&mut self, csrf: Vec<u8>, pending: T)
        requires
            old(self).wf(),
        ensures
            final(self).wf(),
            final(self).view() == begun(old(self).view(), csrf@, pending),
    {
        let _ = self.take(csrf.as_slice());
        let ghost before = *self;
        let ghost key = csrf@;
        self.entries.push((csrf, pending));
        proof {
            let ks = csrf_tokens_of(self.entries@);
            let old_ks = csrf_tokens_of(before.entries@);
            assert(ks =~= old_ks.push(key));
            assert(!before.view().contains_key(key));
            assert(!old_ks.contains(key));
            assert(ks.no_duplicates()) by {
                assert forall|a: int, b: int|
                    0 <= a < ks.len() && 0 <= b < ks.len() && a != b implies ks[a] != ks[b] by {
                    if a < old_ks.len() && b < old_ks.len() {
                        assert(old_ks[a] != old_ks[b]);
                    } else if a < old_ks.len() {
                        assert(old_ks.contains(ks[a]));
                    } else if b < old_ks.len() {
                        assert(old_ks.contains(ks[b]));
                    }
                }
            }
            let target = before.view().insert(key, pending);
            assert forall|k: Seq<u8>| #[trigger] self.view().contains_key(k) == target.contains_key(k) by {
                if old_ks.contains(k) {
                    let j = old_ks.index_of(k);
                    assert(ks[j] == k);
                }
                if ks.contains(k) && k != key {
                    let j = ks.index_of(k);
                    assert(ks[j] == k);
                    assert(old_ks[j] == k);
                }
                if k == key {
                    assert(ks[old_ks.len() as int] == k);
                }
            }
            assert forall|k: Seq<u8>| #[trigger] self.view().contains_key(k) implies self.view()[k]
                == target[k] by {
                let j = ks.index_of(k);
                assert(ks[j] == k);
                self.lemma_view_at(j);
                if j < old_ks.len() {
                    before.lemma_view_at(j);
                    assert(old_ks[j] == k);
                }
            }
            assert(self.view() =~= target);
        }
    }
}

/// Starts an authentication attempt: draws a fresh CSRF token, lets
/// `value` wait under it, and gives the token with the scope parameter of
/// the authorization request (the scopes joined by single spaces). Waiting
/// out the attempt, and stopping at its time limit, is left to the caller.
pub fn begin_auth<T>(pending: &mut PendingAuths<T>, scopes: &[&str], value: T) -> (r: (
    Vec<u8>,
    String,
))
    requires
        old(pending).wf(),
    ensures
        final(pending).wf(),
        r.0@.len() == CSRF_TOKEN_SIZE,
        forall|i: int| 0 <= i < r.0@.len() ==> is_alphanumeric(#[trigger] r.0@[i]),
        r.1@ == joined_scopes(views_of(scopes@)),
        final(pending).view() == begun(old(pending).view(), r.0@, value),
{
    let csrf = new_csrf_token();
    let scope = scope_string(scopes);
    let key = csrf.clone();
    pending.track_session(key, value);
    (csrf, scope)
}

/// How far the verification of an OAuth2 redirect got.
#[derive(Clone, Copy, Debug, PartialEq, Eq)]
pub enum OAuthVerification {
    /// No attempt is waiting for the redirect's state.
    NotPending,
    /// The provider answered the code exchange with an error.
    ServerResponse,
    /// The exchange failed before the provider answered.
    RequestFailed,
    /// The code was exchanged for a token.
    Exchanged,
}

pub open spec fn oauth_outcome_of(v: OAuthVerification) -> AuthOutcome {
    match v {
        OAuthVerification::NotPending => AuthOutcome::Late,
        OAuthVerification::ServerResponse => AuthOutcome::Invalid,
        OAuthVerification::RequestFailed => AuthOutcome::InternalError,
        OAuthVerification::Exchanged => AuthOutcome::Success,
    }
}

/// The outcome that an OAuth2 redirect reports: an error answer from the
/// provider is invalid, another failure an internal error.
pub fn oauth_outcome(v: OAuthVerification) -> (r: AuthOutcome)
    ensures
        r == oauth_outcome_of(v),
{
    match v {
        OAuthVerification::NotPending => AuthOutcome::Late,
        OAuthVerification::ServerResponse => AuthOutcome::Invalid,
        OAuthVerification::RequestFailed => AuthOutcome::InternalError,
        OAuthVerification::Exchanged => AuthOutcome::Success,
    }
}

/// A redirect's state is honoured at most once: once `take` has given the
/// attempt under a state, taking the same state again finds nothing, and
/// such a redirect is answered with the late page.
pub proof fn law_state_honoured_once<T>(pending: Map<Seq<u8>, T>, csrf: Seq<u8>)
    ensures
        taken(taken(pending, csrf).0, csrf).1 is None,
        oauth_outcome_of(OAuthVerification::NotPending) == AuthOutcome::Late,
        crate::auth_pages::oidc_outcome_of(crate::auth_pages::OidcVerification::NotPending)
            == AuthOutcome::Late,
{
}

/// An attempt started by `begin_auth` waits under its token until it is
/// taken or untracked: the first `take` of that token gives exactly what
/// was put there, and after a `take` or an `untrack_session` nothing waits
/// under it, so a later redirect gets the late page. Attempts under other
/// tokens are not disturbed.
pub proof fn law_tracked_attempt_found_until_untracked<T>(
    pending: Map<Seq<u8>, T>,
    csrf: Seq<u8>,
    value: T,
    other: Seq<u8>,
)
    requires
        other != csrf,
    ensures
        taken(begun(pending, csrf, value), csrf).1 == Some(value),
        taken(taken(begun(pending, csrf, value), csrf).0, csrf).1 is None,
        taken(begun(pending, csrf, value), other).1 == taken(pending, other).1,
        oauth_outcome_of(OAuthVerification::NotPending) == AuthOutcome::Late,
{
}

} // verus!
