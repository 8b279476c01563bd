//! Bearer authorization of API requests: a request passes when its path
//! is public or its `Authorization` header is `Bearer ` followed by the
//! API token.
use std::marker::PhantomData;
use vstd::prelude::*;
use crate::bytes::bytes_eq;

verus! {

#[verifier::external_type_specification]
#[verifier::external_body]
pub struct ExRegexSet(regex::RegexSet);

/// Whether `RegexSet::new` accepts these patterns.
pub uninterp spec fn regex_set_compiles(patterns: Seq<Seq<char>>) -> bool;

/// Whether one of these patterns, compiled by `RegexSet::new`, matches
/// `haystack`.
pub uninterp spec fn regex_set_matches(patterns: Seq<Seq<char>>, haystack: Seq<char>) -> bool;

pub open spec fn pattern_views(s: Seq<String>) -> Seq<Seq<char>> {
    s.map_values(|p: String| p@)
}

/// Calls `RegexSet::new` on the patterns: the compiled set, or `None`
/// where the patterns do not compile.
#[verifier::external_body]
fn compile_regex_set(patterns: &Vec<String>) -> (r: Option<regex::RegexSet>)
    ensures
        r is Some <==> regex_set_compiles(pattern_views(patterns@)),
{
    regex::RegexSet::new(patterns).ok()
}

/// Calls `RegexSet::is_match` on the set compiled from the paths'
/// patterns.
#[verifier::external_body]
fn public_paths_match(paths: &PublicPaths, path: &str) -> (r: bool)
    ensures
        r == regex_set_matches(paths.patterns(), path@),
{
    paths.set.is_match(path)
}

/// Calls `RegexSet::clone`: a set compiled from the same patterns.
#[verifier::external_body]
fn clone_regex_set(set: &regex::RegexSet) -> (r: regex::RegexSet) {
    set.clone()
}

/// The path patterns that need no token, compiled.
pub struct PublicPaths {
    patterns: Vec<String>,
    set: regex::RegexSet,
}

impl PublicPaths {
    /// The patterns the set was compiled from.
    pub closed spec fn patterns(&self) -> Seq<Seq<char>> {
        pattern_views(self.patterns@)
    }

    /// Compiles the patterns; `None` where they do not compile.
    pub fn new(patterns: Vec<String>) -> (r: Option<PublicPaths>)
        ensures
            r is Some <==> regex_set_compiles(pattern_views(patterns@)),
            r matches Some(p) ==> p.patterns() == pattern_views(patterns@),
    {
        match compile_regex_set(&patterns) {
            Some(set) => Some(PublicPaths { patterns, set }),
            None => None,
        }
    }
}

impl Clone for PublicPaths {
    fn clone(&self) -> (r: Self)
        ensures
            r.patterns() == self.patterns(),
    {
        let patterns = self.patterns.clone();
        assert(pattern_views(patterns@) =~= pattern_views(self.patterns@)) by {
            assert forall|i: int| 0 <= i < patterns@.len() implies patterns@[i]@ == self.patterns@[i]@ by {
            }
        }
        PublicPaths { patterns, set: clone_regex_set(&self.set) }
    }
}

/// Calls `constant_time_eq::constant_time_eq`, which compares two byte
/// strings in time that does not depend on where they differ: true exactly
/// when they are equal.
#[verifier::external_body]
fn constant_time_equal(a: &[u8], b: &[u8]) -> (r: bool)
    ensures
        r == (a@ == b@),
{
    constant_time_eq::constant_time_eq(a, b)
}

/// A byte that a header value may hold when read as text: visible ASCII
/// or a tab.
pub open spec fn is_visible_ascii(b: u8) -> bool {
    (32 <= b && b < 127) || b == 9
}

/// `Bearer `, as bytes.
pub open spec fn bearer_prefix() -> Seq<u8> {
    seq![66u8, 101u8, 97u8, 114u8, 101u8, 114u8, 32u8]
}

/// Whether an `Authorization` header value carries the API token: it reads
/// as text, starts with `Bearer ` and the rest is the token.
pub open spec fn carries_token(header: Seq<u8>, api_token: Seq<u8>) -> bool {
    &&& forall|k: int| 0 <= k < header.len() ==> is_visible_ascii(#[trigger] header[k])
    &&& header.len() >= 7
    &&& header.subrange(0, 7) == bearer_prefix()
    &&& header.subrange(7, header.len() as int) == api_token
}

/// Whether a request is let through: its path is public, or it carries
/// the API token.
pub open spec fn authorized(path_is_public: bool, header: Option<Seq<u8>>, api_token: Seq<u8>) -> bool {
    path_is_public || match header {
        Some(h) => carries_token(h, api_token),
        None => false,
    }
}

fn all_visible_ascii(s: &[u8]) -> (r: bool)
    ensures
        r == forall|k: int| 0 <= k < s@.len() ==> is_visible_ascii(#[trigger] s@[k]),
{
    let mut i: usize = 0;
    while i < s.len()
        invariant
            i <= s@.len(),
            forall|k: int| 0 <= k < i ==> is_visible_ascii(#[trigger] s@[k]),
        decreases s@.len() - i,
    {
        let b = s[i];
        if !((32 <= b && b < 127) || b == 9) {
            return false;
        }
        i = i + 1;
    }
    true
}

/// Whether an `Authorization` header value carries the API token; the
/// token itself is compared in constant time.
pub fn header_carries_token(header: &[u8], api_token: &[u8]) -> (r: bool)
    ensures
        r == carries_token(header@, api_token@),
{
    if !all_visible_ascii(header) {
        return false;
    }
    if header.len() < 7 {
        return false;
    }
    let prefix: [u8; 7] = [66u8, 101u8, 97u8, 114u8, 101u8, 114u8, 32u8];
    let (head, rest) = header.split_at(7);
    assert(head@ == header@.subrange(0, 7));
    assert(prefix@ =~= bearer_prefix());
    if !bytes_eq(head, prefix.as_slice()) {
        return false;
    }
    constant_time_equal(rest, api_token)
}

/// Whether a request is let through, given whether its path is public
/// and its `Authorization` header value, if it has one.
pub fn authorization_decision(path_is_public: bool, header: Option<&[u8]>, api_token: &[u8]) -> (r:
    bool)
    ensures
        r == authorized(
            path_is_public,
            match header {
                Some(h) => Some(h@),
                None => None,
            },
            api_token@,
        ),
{
    if path_is_public {
        return true;
    }
    match header {
        Some(h) => header_carries_token(h, api_token),
        None => false,
    }
}

/// Lets through requests to public paths, and others that carry the API
/// token.
pub struct BearerAuth<ResBody> {
    api_token: Vec<u8>,
    public_paths: PublicPaths,
    _phantom: PhantomData<ResBody>,
}

impl<ResBody> BearerAuth<ResBody> {
    pub closed spec fn token(&self) -> Seq<u8> {
        self.api_token@
    }

    /// The patterns of the public paths.
    pub closed spec fn public_patterns(&self) -> Seq<Seq<char>> {
        self.public_paths.patterns()
    }

    pub fn new(api_token: Vec<u8>, public_paths: PublicPaths) -> (r: BearerAuth<ResBody>)
        ensures
            r.token() == api_token@,
            r.public_patterns() == public_paths.patterns(),
    {
        BearerAuth { api_token, public_paths, _phantom: PhantomData }
    }

    /// Answers a request for `path` with the given `Authorization` header
    /// value: `Ok` to let it through, else the status `401 Unauthorized`.
    pub fn authorize(&self, path: &str, authorization: Option<&[u8]>) -> (r: Result<(), u16>)
        ensures
            r is Ok <==> authorized(
                regex_set_matches(self.public_patterns(), path@),
                match authorization {
                    Some(h) => Some(h@),
                    None => None,
                },
                self.token(),
            ),
            r matches Err(status) ==> status == 401,
    {
        let public = public_paths_match(&self.public_paths, path);
        if authorization_decision(public, authorization, self.api_token.as_slice()) {
            Ok(())
        } else {
            Err(401)
        }
    }
}

impl<ResBody> Clone for BearerAuth<ResBody> {
    fn clone(&self) -> (r: Self)
        ensures
            r.token() == self.token(),
            r.public_patterns() == self.public_patterns(),
    {
        BearerAuth {
            api_token: self.api_token.clone(),
            public_paths: self.public_paths.clone(),
            _phantom: PhantomData,
        }
    }
}

} // verus!
