//! The four pages that an authentication redirect can answer with, and
//! which one answers which outcome.
use vstd::prelude::*;

verus! {

/// The page texts that `AuthPages` is built from.
pub struct AuthPagesSrc {
    pub late: String,
    pub invalid: String,
    pub internal_error: String,
    pub success: String,
}

/// The pages shown when the user comes back from the identity provider.
pub struct AuthPages {
    late: String,
    invalid: String,
    internal_error: String,
    success: String,
}

impl Clone for AuthPages {
    /// A copy with the same four pages, owned apart from the original.
    fn clone(&self) -> (r: Self)
        ensures
            r.late_page() == self.late_page(),
            r.invalid_page() == self.invalid_page(),
            r.internal_error_page() == self.internal_error_page(),
            r.success_page() == self.success_page(),
    {
        AuthPages {
            late: self.late.clone(),
            invalid: self.invalid.clone(),
            internal_error: self.internal_error.clone(),
            success: self.success.clone(),
        }
    }
}

/// How an authentication attempt that came back ended.
#[derive(Clone, Copy, Debug, PartialEq, Eq)]
pub enum AuthOutcome {
    /// No attempt was waiting for this redirect: it timed out or was used.
    Late,
    /// The provider refused the grant, or the token did not validate.
    Invalid,
    /// The exchange with the provider failed for another reason.
    InternalError,
    /// The user is authenticated.
    Success,
}

impl AuthPages {
    pub closed spec fn late_page(&self) -> Seq<char> {
        self.late@
    }

    pub closed spec fn invalid_page(&self) -> Seq<char> {
        self.invalid@
    }

    pub closed spec fn internal_error_page(&self) -> Seq<char> {
        self.internal_error@
    }

    pub closed spec fn success_page(&self) -> Seq<char> {
        self.success@
    }

    /// The page that answers an outcome.
    pub open spec fn page(&self, outcome: AuthOutcome) -> Seq<char> {
        match outcome {
            AuthOutcome::Late => self.late_page(),
            AuthOutcome::Invalid => self.invalid_page(),
            AuthOutcome::InternalError => self.internal_error_page(),
            AuthOutcome::Success => self.success_page(),
        }
    }

    pub fn new(src: AuthPagesSrc) -> (r: AuthPages)
        ensures
            r.late_page() == src.late@,
            r.invalid_page() == src.invalid@,
            r.internal_error_page() == src.internal_error@,
            r.success_page() == src.success@,
    {
        AuthPages {
            late: src.late,
            invalid: src.invalid,
            internal_error: src.internal_error,
            success: src.success,
        }
    }

    pub fn borrow_late(&self) -> (r: &str)
        ensures
            r@ == self.late_page(),
    {
        self.late.as_str()
    }

    pub fn borrow_invalid(&self) -> (r: &str)
        ensures
            r@ == self.invalid_page(),
    {
        self.invalid.as_str()
    }

    pub fn borrow_internal_error(&self) -> (r: &str)
        ensures
            r@ == self.internal_error_page(),
    {
        self.internal_error.as_str()
    }

    pub fn borrow_success(&self) -> (r: &str)
        ensures
            r@ == self.success_page(),
    {
        self.success.as_str()
    }

    pub fn set_late(&mut self, late: String)
        ensures
            final(self).late_page() == late@,
            final(self).invalid_page() == old(self).invalid_page(),
            final(self).internal_error_page() == old(self).internal_error_page(),
            final(self).success_page() == old(self).success_page(),
    {
        self.late = late;
    }

    pub fn set_invalid(&mut self, invalid: String)
        ensures
            final(self).invalid_page() == invalid@,
            final(self).late_page() == old(self).late_page(),
            final(self).internal_error_page() == old(self).internal_error_page(),
            final(self).success_page() == old(self).success_page(),
    {
        self.invalid = invalid;
    }

    pub fn set_internal_error(&mut self, internal_error: String)
        ensures
            final(self).internal_error_page() == internal_error@,
            final(self).late_page() == old(self).late_page(),
            final(self).invalid_page() == old(self).invalid_page(),
            final(self).success_page() == old(self).success_page(),
    {
        self.internal_error = internal_error;
    }

    pub fn set_success(&mut self, success: String)
        ensures
            final(self).success_page() == success@,
            final(self).late_page() == old(self).late_page(),
            final(self).invalid_page() == old(self).invalid_page(),
            final(self).internal_error_page() == old(self).internal_error_page(),
    {
        self.success = success;
    }

    /// The page that answers `outcome`.
    pub fn page_for(&self, outcome: AuthOutcome) -> (r: &str)
        ensures
            r@ == self.page(outcome),
    {
        match outcome {
            AuthOutcome::Late => self.borrow_late(),
            AuthOutcome::Invalid => self.borrow_invalid(),
            AuthOutcome::InternalError => self.borrow_internal_error(),
            AuthOutcome::Success => self.borrow_success(),
        }
    }
}

/// Why the authorization code could not be exchanged for a token.
#[derive(Clone, Copy, Debug, PartialEq, Eq)]
pub enum ExchangeError {
    /// The provider answered that the grant is invalid.
    InvalidGrant,
    /// The provider answered with another OAuth2 error.
    OtherProviderError,
    /// The exchange failed before the provider answered.
    Transport,
}

/// How far the verification of an OpenID redirect got.
#[derive(Clone, Copy, Debug, PartialEq, Eq)]
pub enum OidcVerification {
    /// No attempt is waiting for the redirect's state.
    NotPending,
    /// The code could not be exchanged.
    ExchangeFailed(ExchangeError),
    /// The provider's answer had no ID token.
    NoIdToken,
    /// The ID token could not be decoded.
    DecodeFailed,
    /// The ID token did not validate.
    ValidationFailed,
    /// The ID token validated.
    Verified,
}

pub open spec fn oidc_outcome_of(v: OidcVerification) -> AuthOutcome {
    match v {
        OidcVerification::NotPending => AuthOutcome::Late,
        OidcVerification::ExchangeFailed(ExchangeError::InvalidGrant) => AuthOutcome::Invalid,
        OidcVerification::ExchangeFailed(_) => AuthOutcome::InternalError,
        OidcVerification::NoIdToken => AuthOutcome::InternalError,
        OidcVerification::DecodeFailed => AuthOutcome::InternalError,
        OidcVerification::ValidationFailed => AuthOutcome::Invalid,
        OidcVerification::Verified => AuthOutcome::Success,
    }
}

/// The outcome that an OpenID redirect reports: a refused grant or a
/// token that fails validation is invalid; a decoding failure, a missing
/// token or a failed exchange is an internal error.
pub fn oidc_outcome(v: OidcVerification) -> (r: AuthOutcome)
    ensures
        r == oidc_outcome_of(v),
{
    match v {
        OidcVerification::NotPending => AuthOutcome::Late,
        OidcVerification::ExchangeFailed(ExchangeError::InvalidGrant) => AuthOutcome::Invalid,
        OidcVerification::ExchangeFailed(_) => AuthOutcome::InternalError,
        OidcVerification::NoIdToken => AuthOutcome::InternalError,
        OidcVerification::DecodeFailed => AuthOutcome::InternalError,
        OidcVerification::ValidationFailed => AuthOutcome::Invalid,
        OidcVerification::Verified => AuthOutcome::Success,
    }
}

} // verus!
