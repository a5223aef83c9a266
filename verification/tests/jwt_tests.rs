use serverless_backend::error::{AuthError, ErrorKind};
use serverless_backend::jwt::{check_claims, split_token, JwtClaims, JwtRules};

#[test]
fn a_token_has_three_parts() {
    let parts = split_token("aGVhZA.cGF5bG9hZA.c2ln").ok().unwrap();
    assert_eq!(parts.header, "aGVhZA");
    assert_eq!(parts.payload, "cGF5bG9hZA");
    assert_eq!(parts.signature, "c2ln");
    let empty = split_token("..").ok().unwrap();
    assert_eq!(empty.header, "");
    assert_eq!(empty.payload, "");
    assert_eq!(empty.signature, "");
}

#[test]
fn anything_else_is_not_a_token() {
    for bad in ["", "abc", "a.b", "a.b.c.d", "...."] {
        match split_token(bad) {
            Err(AuthError::JwtMalformed(m)) => assert_eq!(m, "JWT token is not legal"),
            _ => panic!("not a token"),
        }
    }
    let e = split_token("a.b").err().unwrap();
    assert_eq!(e.get_error_kind(), ErrorKind::User);
}

fn claims(exp: Option<u64>, nbf: Option<u64>, aud: &[&str], iss: Option<&str>) -> JwtClaims {
    JwtClaims {
        exp,
        nbf,
        aud: aud.iter().map(|s| s.to_string()).collect(),
        iss: iss.map(|s| s.to_string()),
    }
}

fn rules(audiences: &[&str], issuer: Option<&str>) -> JwtRules {
    JwtRules {
        audiences: audiences.iter().map(|s| s.to_string()).collect(),
        issuer: issuer.map(|s| s.to_string()),
    }
}

fn refusal(c: &JwtClaims, r: &JwtRules, now: u64) -> Option<String> {
    match check_claims(c, r, now) {
        Ok(()) => None,
        Err(AuthError::JwtRejected(m)) => Some(m),
        Err(_) => panic!("claims are rejected, not malformed"),
    }
}

#[test]
fn a_token_is_valid_from_nbf_until_just_before_exp() {
    let c = claims(Some(200), Some(100), &[], None);
    let r = rules(&[], None);
    assert_eq!(refusal(&c, &r, 99), Some("JWT token is not yet ready to use".to_string()));
    assert_eq!(refusal(&c, &r, 100), None);
    assert_eq!(refusal(&c, &r, 199), None);
    assert_eq!(refusal(&c, &r, 200), Some("JWT token has expired".to_string()));
    assert_eq!(refusal(&claims(None, None, &[], None), &r, 0), None);
}

#[test]
fn audience_and_issuer_count_where_the_rules_name_them() {
    let c = claims(None, None, &["a", "b"], Some("me"));
    assert_eq!(refusal(&c, &rules(&[], None), 0), None);
    assert_eq!(refusal(&c, &rules(&["x", "b"], None), 0), None);
    assert_eq!(
        refusal(&c, &rules(&["x", "y"], None), 0),
        Some("invalid JWT token audience".to_string())
    );
    assert_eq!(
        refusal(&claims(None, None, &[], None), &rules(&["x"], None), 0),
        Some("invalid JWT token audience".to_string())
    );
    assert_eq!(refusal(&c, &rules(&[], Some("me")), 0), None);
    assert_eq!(
        refusal(&c, &rules(&[], Some("you")), 0),
        Some("invalid JWT token issuer".to_string())
    );
    assert_eq!(
        refusal(&claims(None, None, &[], None), &rules(&[], Some("you")), 0),
        Some("invalid JWT token issuer".to_string())
    );
    // expiry is looked at first
    assert_eq!(
        refusal(&claims(Some(1), None, &[], None), &rules(&["x"], Some("you")), 5),
        Some("JWT token has expired".to_string())
    );
}
