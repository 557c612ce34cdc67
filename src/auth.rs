//! Authentication of WebSocket upgrades, and the query parameters that carry
//! tokens. No function here logs or returns the expected secret.

use vstd::prelude::*;

use crate::config::Config;
use crate::text::{
    index_of, lemma_index_of_bound, owned, same_chars, strip_prefix_chars, trim_white,
    trim_white_str,
};

verus! {

/// Outcome of authenticating a request.
#[derive(Debug, Clone, PartialEq, Eq, Structural)]
pub enum AuthResult {
    /// The request presented the configured secret.
    Authenticated,
    /// No secret is configured, so every request passes.
    NoAuthRequired,
    /// The request is refused.
    Failed(AuthError),
}

/// Why a request is refused.
#[derive(Debug, Clone, Copy, PartialEq, Eq, Structural)]
pub enum AuthError {
    /// A secret is configured and the request presented none.
    MissingToken,
    /// The request presented a wrong secret or a malformed header.
    InvalidToken,
}

/// The scheme that an `Authorization` header must start with.
pub const BEARER_PREFIX: &'static str = "Bearer ";

/// What `authenticate` decides, given the configured secret, the
/// `Authorization` header and the secret taken from the query string.
/// The header, when present, decides alone; it must be the bearer scheme
/// followed by the secret, with white space around the secret ignored.
pub open spec fn auth_outcome(
    expected: Option<Seq<char>>,
    header: Option<Seq<char>>,
    query: Option<Seq<char>>,
) -> AuthResult {
    match expected {
        None => AuthResult::NoAuthRequired,
        Some(secret) => match header {
            Some(h) => if BEARER_PREFIX@.is_prefix_of(h) && trim_white(
                h.skip(BEARER_PREFIX@.len() as int),
            ) == secret {
                AuthResult::Authenticated
            } else {
                AuthResult::Failed(AuthError::InvalidToken)
            },
            None => match query {
                Some(q) => if q == secret {
                    AuthResult::Authenticated
                } else {
                    AuthResult::Failed(AuthError::InvalidToken)
                },
                None => AuthResult::Failed(AuthError::MissingToken),
            },
        },
    }
}

pub open spec fn opt_view(s: Option<&str>) -> Option<Seq<char>> {
    match s {
        Some(v) => Some(v@),
        None => None,
    }
}

pub open spec fn opt_string_view(s: Option<String>) -> Option<Seq<char>> {
    match s {
        Some(v) => Some(v@),
        None => None,
    }
}

/// Authenticates a WebSocket upgrade from its `Authorization` header and the
/// `auth` query parameter (browsers cannot set headers on WebSockets).
/// Secrets are compared as plain strings.
pub fn authenticate(config: &Config, auth_header: Option<&str>, auth_query: Option<&str>) -> (r:
    AuthResult)
    ensures
        r == auth_outcome(
            opt_string_view(config.auth_token),
            opt_view(auth_header),
            opt_view(auth_query),
        ),
{
    let expected = match &config.auth_token {
        Some(t) => t.as_str(),
        None => {
            return AuthResult::NoAuthRequired;
        },
    };
    let provided = match auth_header {
        Some(header) => match strip_prefix_chars(header, BEARER_PREFIX) {
            Some(rest) => trim_white_str(rest),
            None => {
                return AuthResult::Failed(AuthError::InvalidToken);
            },
        },
        None => match auth_query {
            Some(q) => q,
            None => {
                return AuthResult::Failed(AuthError::MissingToken);
            },
        },
    };
    if same_chars(provided, expected) {
        AuthResult::Authenticated
    } else {
        AuthResult::Failed(AuthError::InvalidToken)
    }
}

/// The pieces of a query string between `&` separators, in order.
pub open spec fn query_pairs(q: Seq<char>) -> Seq<Seq<char>>
    decreases q.len(),
{
    if q.len() == 0 {
        seq![Seq::<char>::empty()]
    } else {
        let p = query_pairs(q.drop_last());
        if q.last() == '&' {
            p.push(Seq::<char>::empty())
        } else {
            p.update(p.len() - 1, p.last().push(q.last()))
        }
    }
}

/// The value of a `key=value` pair whose key is `key`: what follows the first
/// `=`. A pair without `=` has no key.
pub open spec fn pair_value(pair: Seq<char>, key: Seq<char>) -> Option<Seq<char>> {
    let e = index_of(pair, '=');
    if e < pair.len() && pair.take(e as int) == key {
        Some(pair.skip(e + 1 as int))
    } else {
        None
    }
}

/// The value that the last pair with key `key` gives.
pub open spec fn last_value(pairs: Seq<Seq<char>>, key: Seq<char>) -> Option<Seq<char>>
    decreases pairs.len(),
{
    if pairs.len() == 0 {
        None
    } else {
        match pair_value(pairs.last(), key) {
            Some(v) => Some(v),
            None => last_value(pairs.drop_last(), key),
        }
    }
}

/// The value that the first pair with key `key` gives.
pub open spec fn first_value(pairs: Seq<Seq<char>>, key: Seq<char>) -> Option<Seq<char>>
    decreases pairs.len(),
{
    if pairs.len() == 0 {
        None
    } else {
        match first_value(pairs.drop_last(), key) {
            Some(v) => Some(v),
            None => pair_value(pairs.last(), key),
        }
    }
}

/// The value of `key` in the pair `pair`, when it has that key.
fn pair_value_of(pair: &str, key: &str) -> (r: Option<String>)
    ensures
        opt_string_view(r) == pair_value(pair@, key@),
{
    let n = pair.unicode_len();
    let mut e: usize = 0;
    proof {
        lemma_index_of_bound(pair@, '=');
        assert(pair@.skip(0) =~= pair@);
    }
    while e < n && pair.get_char(e) != '='
        invariant
            n == pair@.len(),
            e <= n,
            index_of(pair@, '=') == e + index_of(pair@.skip(e as int), '='),
        decreases n - e,
    {
        assert(pair@.skip(e as int)[0] == pair@[e as int]);
        assert(pair@.skip(e as int).skip(1) =~= pair@.skip(e + 1));
        e = e + 1;
    }
    proof {
        if e < n {
            assert(pair@.skip(e as int)[0] == pair@[e as int]);
        }
    }
    if e == n {
        return None;
    }
    let k = pair.substring_char(0, e);
    assert(k@ =~= pair@.take(e as int));
    if same_chars(k, key) {
        let v = pair.substring_char(e + 1, n);
        assert(v@ =~= pair@.skip(e + 1));
        Some(owned(v))
    } else {
        None
    }
}

/// Runs over the pairs of `query` and returns the value of `key` in the first
/// pair that has it (`first` set) or in the last one.
fn query_value(query: &str, key: &str, first: bool) -> (r: Option<String>)
    ensures
        opt_string_view(r) == (if first {
            first_value(query_pairs(query@), key@)
        } else {
            last_value(query_pairs(query@), key@)
        }),
{
    let n = query.unicode_len();
    let mut found: Option<String> = None;
    let mut start: usize = 0;
    let mut i: usize = 0;
    let ghost mut done: Seq<Seq<char>> = Seq::empty();
    proof {
        assert(query@.take(0) =~= Seq::<char>::empty());
        assert(query_pairs(query@.take(0)) =~= done.push(query@.subrange(0, 0)));
    }
    while i < n
        invariant
            n == query@.len(),
            start <= i <= n,
            query_pairs(query@.take(i as int)) == done.push(query@.subrange(start as int, i as int)),
            opt_string_view(found) == (if first {
                first_value(done, key@)
            } else {
                last_value(done, key@)
            }),
        decreases n - i,
    {
        let c = query.get_char(i);
        proof {
            assert(query@.take(i + 1).drop_last() =~= query@.take(i as int));
            assert(query@.take(i + 1).last() == c);
        }
        if c == '&' {
            let pair = query.substring_char(start, i);
            let v = pair_value_of(pair, key);
            proof {
                assert(done.push(pair@).drop_last() =~= done);
                assert(done.push(pair@).last() == pair@);
            }
            if first {
                if found.is_none() {
                    found = v;
                }
            } else if v.is_some() {
                found = v;
            }
            proof {
                done = done.push(pair@);
                assert(query@.subrange(i + 1, i + 1) =~= Seq::<char>::empty());
            }
            start = i + 1;
        } else {
            proof {
                assert(query@.subrange(start as int, i + 1) =~= query@.subrange(
                    start as int,
                    i as int,
                ).push(c));
            }
        }
        i = i + 1;
    }
    let pair = query.substring_char(start, n);
    let v = pair_value_of(pair, key);
    proof {
        assert(query@.take(n as int) =~= query@);
        assert(done.push(pair@).drop_last() =~= done);
        assert(done.push(pair@).last() == pair@);
    }
    if first {
        if found.is_none() {
            found = v;
        }
    } else if v.is_some() {
        found = v;
    }
    found
}

/// The session id and reconnect token of a query string such as
/// `session=abc&token=xyz`, when it has both. Values are taken as they stand;
/// a later pair overrides an earlier one with the same key.
pub fn parse_reconnect_params(query: Option<&str>) -> (r: Option<(String, String)>)
    ensures
        match query {
            None => r.is_none(),
            Some(q) => match (
                last_value(query_pairs(q@), "session"@),
                last_value(query_pairs(q@), "token"@),
            ) {
                (Some(s), Some(t)) => r.is_some() && r.unwrap().0@ == s && r.unwrap().1@ == t,
                _ => r.is_none(),
            },
        },
{
    let q = match query {
        Some(q) => q,
        None => {
            return None;
        },
    };
    let session = query_value(q, "session", false);
    let token = query_value(q, "token", false);
    match (session, token) {
        (Some(s), Some(t)) => Some((s, t)),
        _ => None,
    }
}

/// The value of the first `auth` pair of a query string such as
/// `auth=secret&session=abc`.
pub fn parse_auth_param(query: Option<&str>) -> (r: Option<String>)
    ensures
        match query {
            None => r.is_none(),
            Some(q) => opt_string_view(r) == first_value(query_pairs(q@), "auth"@),
        },
{
    match query {
        Some(q) => query_value(q, "auth", true),
        None => None,
    }
}

/// With no secret configured, every combination of header and query
/// string is let through.
pub proof fn lemma_open_when_unconfigured(header: Option<Seq<char>>, query: Option<Seq<char>>)
    ensures
        auth_outcome(None, header, query) == AuthResult::NoAuthRequired,
{
}

/// With a secret configured (one without surrounding white space): the
/// bearer header with the secret passes whatever the query string holds; with
/// no header, the secret in the query string passes; with neither, the
/// request lacks a token; a wrong value in the header or, without a header,
/// in the query string is an invalid token.
pub proof fn lemma_configured_secret(
    secret: Seq<char>,
    query: Option<Seq<char>>,
    wrong_header: Seq<char>,
    wrong_query: Seq<char>,
)
    requires
        trim_white(secret) == secret,
        trim_white(wrong_header) != secret,
        wrong_query != secret,
    ensures
        auth_outcome(Some(secret), Some(BEARER_PREFIX@ + secret), query)
            == AuthResult::Authenticated,
        auth_outcome(Some(secret), None, Some(secret)) == AuthResult::Authenticated,
        auth_outcome(Some(secret), None, None) == AuthResult::Failed(AuthError::MissingToken),
        auth_outcome(Some(secret), Some(BEARER_PREFIX@ + wrong_header), query)
            == AuthResult::Failed(AuthError::InvalidToken),
        auth_outcome(Some(secret), None, Some(wrong_query)) == AuthResult::Failed(
            AuthError::InvalidToken,
        ),
{
    let p = BEARER_PREFIX@;
    assert((p + secret).take(p.len() as int) =~= p);
    assert((p + secret).skip(p.len() as int) =~= secret);
    assert((p + wrong_header).take(p.len() as int) =~= p);
    assert((p + wrong_header).skip(p.len() as int) =~= wrong_header);
}

} // verus!
