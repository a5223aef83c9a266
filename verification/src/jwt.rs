//! The checks on a JSON Web Token that need no cryptography: its shape and
//! its claims.

use vstd::prelude::*;
use crate::error::{AuthError, AuthErrorView};
use crate::text::owned;

verus! {

/// The number of dots in `s`.
pub open spec fn dots(s: Seq<char>) -> nat
    decreases s.len(),
{
    if s.len() == 0 {
        0
    } else {
        dots(s.drop_last()) + if s.last() == '.' {
            1nat
        } else {
            0nat
        }
    }
}

/// Whether `i` is the position of the first dot of `s`.
pub open spec fn first_dot(s: Seq<char>, i: int) -> bool {
    &&& 0 <= i < s.len()
    &&& s[i] == '.'
    &&& forall|j: int| 0 <= j < i ==> s[j] != '.'
}

/// Whether `i` is the position of the last dot of `s`.
pub open spec fn last_dot(s: Seq<char>, i: int) -> bool {
    &&& 0 <= i < s.len()
    &&& s[i] == '.'
    &&& forall|j: int| i < j < s.len() ==> s[j] != '.'
}

/// Header, payload and signature of a token, still encoded.
pub struct TokenParts {
    pub header: String,
    pub payload: String,
    pub signature: String,
}

/// Whether `parts` are the three parts of `token`: what stands before its
/// first dot, between its two dots, and behind its second dot.
pub open spec fn parts_of(token: Seq<char>, parts: TokenParts) -> bool {
    exists|a: int, b: int|
        {
            &&& first_dot(token, a)
            &&& last_dot(token, b)
            &&& a < b
            &&& parts.header@ == token.subrange(0, a)
            &&& parts.payload@ == #[trigger] token.subrange(a + 1, b)
            &&& parts.signature@ == token.subrange(b + 1, token.len() as int)
        }
}

/// Takes a token apart at its dots. A token has exactly two.
pub fn split_token(token: &str) -> (r: Result<TokenParts, AuthError>)
    ensures
        r is Ok == (dots(token@) == 2),
        r matches Ok(parts) ==> parts_of(token@, parts),
        r matches Err(e) ==> e@ == AuthErrorView::JwtMalformed("JWT token is not legal"@),
{
    let n = token.unicode_len();
    let mut first: usize = n;
    let mut last: usize = n;
    let mut count: usize = 0;
    let mut i: usize = 0;
    assert(token@.subrange(0, 0) =~= Seq::empty());
    while i < n
        invariant
            n == token@.len(),
            i <= n,
            count == dots(token@.subrange(0, i as int)),
            count <= i,
            count == 0 ==> forall|j: int| 0 <= j < i ==> token@[j] != '.',
            count > 0 ==> first_dot(token@, first as int) && first < i,
            count > 0 ==> last < i && token@[last as int] == '.' && forall|j: int|
                last < j < i ==> token@[j] != '.',
            count > 1 ==> first < last,
            count == 1 ==> first == last,
        decreases n - i,
    {
        let ghost upto = token@.subrange(0, i + 1);
        assert(upto.drop_last() =~= token@.subrange(0, i as int));
        assert(upto.last() == token@[i as int]);
        if token.get_char(i) == '.' {
            if count == 0 {
                first = i;
            }
            last = i;
            count = count + 1;
        }
        i = i + 1;
    }
    assert(token@.subrange(0, n as int) =~= token@);
    if count == 2 {
        let parts = TokenParts {
            header: owned(token.substring_char(0, first)),
            payload: owned(token.substring_char(first + 1, last)),
            signature: owned(token.substring_char(last + 1, n)),
        };
        assert(last_dot(token@, last as int));
        assert(parts.payload@ == token@.subrange(first + 1, last as int));
        Ok(parts)
    } else {
        Err(AuthError::JwtMalformed(owned("JWT token is not legal")))
    }
}

/// The claims of a token that the proxy looks at.
pub struct JwtClaims {
    /// The time from which on the token is no longer valid, in seconds.
    pub exp: Option<u64>,
    /// The time before which the token is not yet valid, in seconds.
    pub nbf: Option<u64>,
    /// Whom the token is meant for.
    pub aud: Vec<String>,
    /// Who issued the token.
    pub iss: Option<String>,
}

/// What an endpoint asks of the tokens it takes.
pub struct JwtRules {
    /// The audiences the endpoint answers to. An empty list asks nothing
    /// of a token's audience.
    pub audiences: Vec<String>,
    /// The issuer the endpoint trusts, if it insists on one.
    pub issuer: Option<String>,
}

pub open spec fn strings_view(list: Seq<String>) -> Seq<Seq<char>> {
    Seq::new(list.len(), |i: int| list[i]@)
}

/// Whether one of the `claimed` audiences is among the `wanted` ones.
pub open spec fn audience_matches(claimed: Seq<Seq<char>>, wanted: Seq<Seq<char>>) -> bool {
    exists|i: int, j: int|
        0 <= i < claimed.len() && 0 <= j < wanted.len() && #[trigger] claimed[i] == #[trigger] wanted[j]
}

/// Why the claims are refused at time `now`, if they are: the token has
/// expired, is not valid yet, is meant for someone else, or comes from
/// someone else; in this order.
pub open spec fn claims_refusal(claims: JwtClaims, rules: JwtRules, now: u64) -> Option<Seq<char>> {
    if claims.exp matches Some(exp) && now >= exp {
        Some("JWT token has expired"@)
    } else if claims.nbf matches Some(nbf) && now < nbf {
        Some("JWT token is not yet ready to use"@)
    } else if rules.audiences@.len() > 0 && !audience_matches(
        strings_view(claims.aud@),
        strings_view(rules.audiences@),
    ) {
        Some("invalid JWT token audience"@)
    } else if rules.issuer matches Some(wanted) && !(claims.iss matches Some(iss) && iss@
        == wanted@) {
        Some("invalid JWT token issuer"@)
    } else {
        None
    }
}

fn has_audience(claimed: &Vec<String>, wanted: &Vec<String>) -> (r: bool)
    ensures
        r == audience_matches(strings_view(claimed@), strings_view(wanted@)),
{
    let ghost c = strings_view(claimed@);
    let ghost w = strings_view(wanted@);
    let mut i: usize = 0;
    while i < claimed.len()
        invariant
            i <= claimed.len(),
            c == strings_view(claimed@),
            w == strings_view(wanted@),
            forall|a: int, b: int| 0 <= a < i && 0 <= b < w.len() ==> #[trigger] c[a] != #[trigger] w[b],
        decreases claimed.len() - i,
    {
        let mut j: usize = 0;
        while j < wanted.len()
            invariant
                i < claimed.len(),
                j <= wanted.len(),
                c == strings_view(claimed@),
                w == strings_view(wanted@),
                forall|a: int, b: int|
                    0 <= a < i && 0 <= b < w.len() ==> #[trigger] c[a] != #[trigger] w[b],
                forall|b: int| 0 <= b < j ==> c[i as int] != #[trigger] w[b],
            decreases wanted.len() - j,
        {
            if claimed[i] == wanted[j] {
                assert(c[i as int] == w[j as int]);
                return true;
            }
            j = j + 1;
        }
        i = i + 1;
    }
    false
}

/// Checks the claims of a token whose signature was found good.
pub fn check_claims(claims: &JwtClaims, rules: &JwtRules, now: u64) -> (r: Result<(), AuthError>)
    ensures
        match (r, claims_refusal(*claims, *rules, now)) {
            (Ok(_), None) => true,
            (Err(e), Some(why)) => e@ == AuthErrorView::JwtRejected(why),
            _ => false,
        },
{
    if let Some(exp) = claims.exp {
        if now >= exp {
            return Err(AuthError::JwtRejected(owned("JWT token has expired")));
        }
    }
    if let Some(nbf) = claims.nbf {
        if now < nbf {
            return Err(AuthError::JwtRejected(owned("JWT token is not yet ready to use")));
        }
    }
    if rules.audiences.len() > 0 && !has_audience(&claims.aud, &rules.audiences) {
        return Err(AuthError::JwtRejected(owned("invalid JWT token audience")));
    }
    if let Some(wanted) = &rules.issuer {
        let same = match &claims.iss {
            Some(iss) => *iss == *wanted,
            None => false,
        };
        if !same {
            return Err(AuthError::JwtRejected(owned("invalid JWT token issuer")));
        }
    }
    Ok(())
}

} // verus!
