//! Authenticating a request, step by step. The caller asks the control
//! plane and runs the key exchange; the steps here decide what is asked,
//! in which order, and what each answer leads to.

use vstd::prelude::*;
use crate::access::{
    access_refusal, attempt_allowed, window_after, EndpointAccessControl, EndpointRateLimiter,
    RateLimit,
};
use crate::error::{AuthError, AuthErrorView, UpstreamError};
use crate::jwt::{
    check_claims, claims_refusal, dots, parts_of, split_token, JwtClaims, JwtRules, TokenParts,
};
use crate::text::owned;
use crate::types::{
    AuthKeys, ComputeCredentialKeys, ComputeCredentials, ComputeUserInfo, IpAddress, KeysView,
    UserInfoView,
};

verus! {

/// How the caller proved who it is.
#[derive(Clone, Copy, PartialEq, Eq, Structural, Debug)]
pub enum AuthMethod {
    Cleartext,
    Jwt,
}

/// Which rules tokens are checked against.
#[derive(Clone, Copy, PartialEq, Eq, Structural, Debug)]
pub enum AuthBackend {
    /// The key sets that the control plane names for the endpoint.
    ControlPlane,
    /// The fixed rules of a proxy that sits next to its compute.
    Local,
}

/// The switches of the authenticator.
#[derive(Clone, Copy)]
pub struct AuthenticationConfig {
    pub ip_allowlist_check_enabled: bool,
    pub is_vpc_access_proxy: bool,
    /// Whether the attempt is counted against the endpoint's rate limit
    /// before the role's secret is fetched, rather than after.
    pub rate_limit_before_role_secret: bool,
}

/// How the password exchange ended.
pub enum ScramOutcome {
    Success(AuthKeys),
    /// The password is wrong. Holds the reason, for the log.
    Failure(String),
}

/// Where a password authentication stands.
#[derive(Clone, Copy, PartialEq, Eq, Structural, Debug)]
pub enum PasswordState {
    Start,
    FetchingAccessControl,
    FetchingRoleSecret,
    Verifying,
    Done,
    Failed,
}

/// What the caller reports.
pub enum PasswordEvent {
    Begin,
    AccessControl(Result<EndpointAccessControl, UpstreamError>),
    /// The role's stored secret, if the role has one.
    RoleSecret(Result<Option<Vec<u8>>, UpstreamError>),
    /// The exchange ended, or the worker pool had no room for it.
    Exchange(Option<ScramOutcome>),
}

/// What the caller is to do next.
pub enum PasswordAction {
    /// Note the method on the request, then fetch the endpoint's rules.
    FetchAccessControl { method: AuthMethod },
    /// Fetch the role's stored secret.
    FetchRoleSecret,
    /// Run the exchange against `secret` on the worker pool.
    Verify { secret: Vec<u8> },
    Done(ComputeCredentials),
    Fail(AuthError),
    /// The event does not belong to the state; nothing changed.
    Unexpected,
}

/// One password authentication.
pub struct PasswordAuth {
    pub state: PasswordState,
    pub user_info: ComputeUserInfo,
    pub peer: IpAddress,
    pub config: AuthenticationConfig,
    /// The endpoint's limit, once its rules are known.
    pub limit: Option<RateLimit>,
}

/// The credentials that a successful exchange leaves, for the user that
/// asked.
pub open spec fn exchange_result(user: UserInfoView, outcome: Option<ScramOutcome>) -> Result<
    (UserInfoView, KeysView),
    AuthErrorView,
> {
    match outcome {
        Some(ScramOutcome::Success(keys)) => Ok((user, KeysView::AuthKeys(keys))),
        Some(ScramOutcome::Failure(_)) => Err(AuthErrorView::PasswordFailed(user.user)),
        None => Err(AuthErrorView::WorkerPoolFull),
    }
}

/// Two authentications of the same user with a password that is right both
/// succeed, and both name the user that asked.
pub proof fn lemma_same_credentials(user: UserInfoView, first: AuthKeys, second: AuthKeys)
    ensures
        exchange_result(user, Some(ScramOutcome::Success(first))) matches Ok(a) && a.0 == user,
        exchange_result(user, Some(ScramOutcome::Success(second))) matches Ok(b) && b.0 == user,
{
}

/// A wrong password and a role without a secret are refused in the same
/// words.
pub proof fn lemma_refusal_hides_the_role(user: UserInfoView, reason: String)
    ensures
        exchange_result(user, Some(ScramOutcome::Failure(reason))) == Err::<
            (UserInfoView, KeysView),
            AuthErrorView,
        >(AuthErrorView::PasswordFailed(user.user)),
{
}

impl PasswordAuth {
    pub fn new(user_info: &ComputeUserInfo, peer: IpAddress, config: AuthenticationConfig) -> (r:
        PasswordAuth)
        ensures
            r.state == PasswordState::Start,
            r.user_info@ == user_info@,
            r.peer == peer,
            r.config == config,
            r.limit is None,
    {
        PasswordAuth {
            state: PasswordState::Start,
            user_info: user_info.clone(),
            peer,
            config,
            limit: None,
        }
    }

    fn fail(&mut self, error: AuthError) -> (r: PasswordAction)
        ensures
            final(self).state == PasswordState::Failed,
            final(self).user_info == old(self).user_info,
            final(self).peer == old(self).peer,
            final(self).config == old(self).config,
            final(self).limit == old(self).limit,
            r == PasswordAction::Fail(error),
    {
        self.state = PasswordState::Failed;
        PasswordAction::Fail(error)
    }

    /// Takes the authentication one step further.
    ///
    /// The endpoint's rules come first: the allow-list and the network
    /// rule, each only where the configuration switches it on. The attempt
    /// is counted against the endpoint's rate limit, before or after the
    /// role's secret is fetched as the configuration says. A role without
    /// a secret is refused like a wrong password. Then the exchange runs;
    /// its keys become the credentials of the user that asked.
    pub fn step(&mut self, limiter: &mut EndpointRateLimiter, event: PasswordEvent, now: u64) -> (r:
        PasswordAction)
        requires
            old(limiter).wf(),
        ensures
            final(limiter).wf(),
            final(self).user_info == old(self).user_info,
            final(self).peer == old(self).peer,
            final(self).config == old(self).config,
            forall|other: Seq<char>|
                other != old(self).user_info@.endpoint ==> final(limiter).window(other) == old(
                    limiter,
                ).window(other),
            ({
                let user = old(self).user_info@;
                let held = old(limiter).window(user.endpoint);
                let early = old(self).config.rate_limit_before_role_secret;
                match (old(self).state, event) {
                    (PasswordState::Start, PasswordEvent::Begin) => {
                        &&& r == (PasswordAction::FetchAccessControl {
                            method: AuthMethod::Cleartext,
                        })
                        &&& final(self).state == PasswordState::FetchingAccessControl
                        &&& final(limiter).window(user.endpoint) == held
                    },
                    (PasswordState::FetchingAccessControl, PasswordEvent::AccessControl(Err(e))) => {
                        &&& r matches PasswordAction::Fail(x)
                        &&& x@ == AuthErrorView::GetAuthInfo(e@)
                        &&& final(self).state == PasswordState::Failed
                        &&& final(limiter).window(user.endpoint) == held
                    },
                    (PasswordState::FetchingAccessControl, PasswordEvent::AccessControl(Ok(ac))) => {
                        let refusal = access_refusal(
                            ac.ip_allowlist@,
                            ac.vpc_allowed,
                            old(self).peer,
                            old(self).config.ip_allowlist_check_enabled,
                            old(self).config.is_vpc_access_proxy,
                        );
                        let limit = ac.connection_rate_limit;
                        match refusal {
                            Some(why) => {
                                &&& r matches PasswordAction::Fail(x)
                                &&& x@ == why
                                &&& final(self).state == PasswordState::Failed
                                &&& final(limiter).window(user.endpoint) == held
                            },
                            None => if early && !attempt_allowed(held, limit, now) {
                                &&& r matches PasswordAction::Fail(x)
                                &&& x@ == AuthErrorView::TooManyConnections
                                &&& final(self).state == PasswordState::Failed
                                &&& final(limiter).window(user.endpoint) == held
                            } else {
                                &&& r is FetchRoleSecret
                                &&& final(self).state == PasswordState::FetchingRoleSecret
                                &&& final(self).limit == Some(limit)
                                &&& final(limiter).window(user.endpoint) == if early {
                                    window_after(held, limit, now)
                                } else {
                                    held
                                }
                            },
                        }
                    },
                    (PasswordState::FetchingRoleSecret, PasswordEvent::RoleSecret(Err(e))) => {
                        &&& r matches PasswordAction::Fail(x)
                        &&& x@ == AuthErrorView::GetAuthInfo(e@)
                        &&& final(self).state == PasswordState::Failed
                        &&& final(limiter).window(user.endpoint) == held
                    },
                    (PasswordState::FetchingRoleSecret, PasswordEvent::RoleSecret(Ok(None))) => {
                        &&& r matches PasswordAction::Fail(x)
                        &&& x@ == AuthErrorView::PasswordFailed(user.user)
                        &&& final(self).state == PasswordState::Failed
                        &&& final(limiter).window(user.endpoint) == held
                    },
                    (
                        PasswordState::FetchingRoleSecret,
                        PasswordEvent::RoleSecret(Ok(Some(secret))),
                    ) => {
                        let late = !early && old(self).limit is Some;
                        if late && !attempt_allowed(held, old(self).limit->0, now) {
                            &&& r matches PasswordAction::Fail(x)
                            &&& x@ == AuthErrorView::TooManyConnections
                            &&& final(self).state == PasswordState::Failed
                            &&& final(limiter).window(user.endpoint) == held
                        } else {
                            &&& r == (PasswordAction::Verify { secret })
                            &&& final(self).state == PasswordState::Verifying
                            &&& final(limiter).window(user.endpoint) == if late {
                                window_after(held, old(self).limit->0, now)
                            } else {
                                held
                            }
                        }
                    },
                    (PasswordState::Verifying, PasswordEvent::Exchange(outcome)) => {
                        &&& final(limiter).window(user.endpoint) == held
                        &&& match exchange_result(user, outcome) {
                            Ok(creds) => {
                                &&& r matches PasswordAction::Done(c)
                                &&& c.info@ == creds.0
                                &&& c.keys@ == creds.1
                                &&& final(self).state == PasswordState::Done
                            },
                            Err(why) => {
                                &&& r matches PasswordAction::Fail(x)
                                &&& x@ == why
                                &&& final(self).state == PasswordState::Failed
                            },
                        }
                    },
                    _ => {
                        &&& r is Unexpected
                        &&& *final(self) == *old(self)
                        &&& *final(limiter) == *old(limiter)
                    },
                }
            }),
    {
        match (self.state, event) {
            (PasswordState::Start, PasswordEvent::Begin) => {
                self.state = PasswordState::FetchingAccessControl;
                PasswordAction::FetchAccessControl { method: AuthMethod::Cleartext }
            },
            (PasswordState::FetchingAccessControl, PasswordEvent::AccessControl(answer)) => {
                match answer {
                    Err(e) => self.fail(AuthError::GetAuthInfo(e)),
                    Ok(ac) => {
                        match ac.check(
                            self.peer,
                            self.config.ip_allowlist_check_enabled,
                            self.config.is_vpc_access_proxy,
                        ) {
                            Err(why) => self.fail(why),
                            Ok(()) => {
                                let limit = ac.connection_rate_limit;
                                if self.config.rate_limit_before_role_secret && !limiter.check(
                                    self.user_info.endpoint.as_str(),
                                    limit,
                                    now,
                                ) {
                                    self.fail(AuthError::TooManyConnections)
                                } else {
                                    self.limit = Some(limit);
                                    self.state = PasswordState::FetchingRoleSecret;
                                    PasswordAction::FetchRoleSecret
                                }
                            },
                        }
                    },
                }
            },
            (PasswordState::FetchingRoleSecret, PasswordEvent::RoleSecret(answer)) => {
                match answer {
                    Err(e) => self.fail(AuthError::GetAuthInfo(e)),
                    Ok(None) => {
                        let refusal = AuthError::password_failed(self.user_info.user.as_str());
                        self.fail(refusal)
                    },
                    Ok(Some(secret)) => {
                        let within = match self.limit {
                            Some(limit) => self.config.rate_limit_before_role_secret
                                || limiter.check(self.user_info.endpoint.as_str(), limit, now),
                            None => true,
                        };
                        if within {
                            self.state = PasswordState::Verifying;
                            PasswordAction::Verify { secret }
                        } else {
                            self.fail(AuthError::TooManyConnections)
                        }
                    },
                }
            },
            (PasswordState::Verifying, PasswordEvent::Exchange(outcome)) => {
                match outcome {
                    Some(ScramOutcome::Success(keys)) => {
                        self.state = PasswordState::Done;
                        PasswordAction::Done(
                            ComputeCredentials {
                                info: self.user_info.clone(),
                                keys: ComputeCredentialKeys::AuthKeys(keys),
                            },
                        )
                    },
                    Some(ScramOutcome::Failure(_reason)) => {
                        let refusal = AuthError::password_failed(self.user_info.user.as_str());
                        self.fail(refusal)
                    },
                    None => self.fail(AuthError::WorkerPoolFull),
                }
            },
            _ => PasswordAction::Unexpected,
        }
    }
}

/// Where a token authentication stands.
#[derive(Clone, Copy, PartialEq, Eq, Structural, Debug)]
pub enum JwtState {
    Start,
    /// The rules for the endpoint's tokens are being fetched.
    FetchingRules,
    /// The token's signature is being checked.
    Verifying,
    Done,
    Failed,
}

/// A token whose signature was found good, decoded.
pub struct VerifiedToken {
    pub claims: JwtClaims,
    /// The payload as the token carries it.
    pub payload: Vec<u8>,
}

/// What the caller reports.
pub enum JwtEvent {
    Begin,
    /// The rules for the endpoint came, or could not be had.
    Rules(Result<JwtRules, UpstreamError>),
    /// The signature was checked against the endpoint's keys.
    Verified(Result<VerifiedToken, AuthError>),
}

/// What the caller is to do next.
pub enum JwtAction {
    /// Note the method on the request, then fetch the rules that `backend`
    /// has for tokens of `endpoint`.
    FetchRules { method: AuthMethod, backend: AuthBackend, endpoint: String },
    /// Check the signature of the token against the endpoint's keys and
    /// decode its payload.
    VerifySignature { header: String, payload: String, signature: String },
    Done(ComputeCredentials),
    Fail(AuthError),
    /// The event does not belong to the state; nothing changed.
    Unexpected,
}

/// One token authentication.
pub struct JwtAuth {
    pub state: JwtState,
    pub user_info: ComputeUserInfo,
    pub backend: AuthBackend,
    pub jwt: String,
    /// The rules for the endpoint, once they are known.
    pub rules: Option<JwtRules>,
}

/// The keys that a valid token leaves: none where the control plane's key
/// sets vouched for it, its payload where the local rules did, to be bound
/// into the session.
pub open spec fn jwt_keys(backend: AuthBackend, payload: Seq<u8>) -> KeysView {
    match backend {
        AuthBackend::ControlPlane => KeysView::NoKeys,
        AuthBackend::Local => KeysView::JwtPayload(payload),
    }
}

impl JwtAuth {
    pub fn new(user_info: &ComputeUserInfo, backend: AuthBackend, jwt: String) -> (r: JwtAuth)
        ensures
            r.state == JwtState::Start,
            r.user_info@ == user_info@,
            r.backend == backend,
            r.jwt == jwt,
            r.rules is None,
    {
        JwtAuth { state: JwtState::Start, user_info: user_info.clone(), backend, jwt, rules: None }
    }

    /// Takes the authentication one step further.
    ///
    /// A token that does not have the shape of one is refused before
    /// anyone is asked. Then the rules for the endpoint that the request
    /// names are fetched, the signature is checked against them, and the
    /// claims are held against the rules and the time `now`, in seconds.
    pub fn step(&mut self, event: JwtEvent, now: u64) -> (r: JwtAction)
        ensures
            final(self).user_info == old(self).user_info,
            final(self).backend == old(self).backend,
            final(self).jwt == old(self).jwt,
            match (old(self).state, event) {
                (JwtState::Start, JwtEvent::Begin) => if dots(old(self).jwt@) == 2 {
                    &&& r matches JwtAction::FetchRules { method, backend, endpoint }
                    &&& method == AuthMethod::Jwt
                    &&& backend == old(self).backend
                    &&& endpoint@ == old(self).user_info@.endpoint
                    &&& final(self).state == JwtState::FetchingRules
                    &&& final(self).rules == old(self).rules
                } else {
                    &&& r matches JwtAction::Fail(e)
                    &&& e@ == AuthErrorView::JwtMalformed("JWT token is not legal"@)
                    &&& final(self).state == JwtState::Failed
                },
                (JwtState::FetchingRules, JwtEvent::Rules(Ok(rules))) => {
                    &&& final(self).rules == Some(rules)
                    &&& if dots(old(self).jwt@) == 2 {
                        &&& r matches JwtAction::VerifySignature { header, payload, signature }
                        &&& parts_of(old(self).jwt@, TokenParts { header, payload, signature })
                        &&& final(self).state == JwtState::Verifying
                    } else {
                        &&& r matches JwtAction::Fail(e)
                        &&& e@ == AuthErrorView::JwtMalformed("JWT token is not legal"@)
                        &&& final(self).state == JwtState::Failed
                    }
                },
                (JwtState::FetchingRules, JwtEvent::Rules(Err(e))) => {
                    &&& r matches JwtAction::Fail(x)
                    &&& x@ == AuthErrorView::GetAuthInfo(e@)
                    &&& final(self).state == JwtState::Failed
                },
                (JwtState::Verifying, JwtEvent::Verified(Ok(token))) => {
                    match old(self).rules {
                        Some(rules) => match claims_refusal(token.claims, rules, now) {
                            None => {
                                &&& r matches JwtAction::Done(c)
                                &&& c.info@ == old(self).user_info@
                                &&& c.keys@ == jwt_keys(old(self).backend, token.payload@)
                                &&& final(self).state == JwtState::Done
                            },
                            Some(why) => {
                                &&& r matches JwtAction::Fail(e)
                                &&& e@ == AuthErrorView::JwtRejected(why)
                                &&& final(self).state == JwtState::Failed
                            },
                        },
                        None => {
                            &&& r matches JwtAction::Fail(e)
                            &&& e@ == AuthErrorView::JwtRejected("no rules for this endpoint"@)
                            &&& final(self).state == JwtState::Failed
                        },
                    }
                },
                (JwtState::Verifying, JwtEvent::Verified(Err(e))) => {
                    &&& r == JwtAction::Fail(e)
                    &&& final(self).state == JwtState::Failed
                },
                _ => r is Unexpected && *final(self) == *old(self),
            },
    {
        match (self.state, event) {
            (JwtState::Start, JwtEvent::Begin) => {
                match split_token(self.jwt.as_str()) {
                    Ok(_) => {
                        self.state = JwtState::FetchingRules;
                        JwtAction::FetchRules {
                            method: AuthMethod::Jwt,
                            backend: self.backend,
                            endpoint: owned(self.user_info.endpoint.as_str()),
                        }
                    },
                    Err(e) => {
                        self.state = JwtState::Failed;
                        JwtAction::Fail(e)
                    },
                }
            },
            (JwtState::FetchingRules, JwtEvent::Rules(answer)) => {
                match answer {
                    Ok(rules) => {
                        self.rules = Some(rules);
                        match split_token(self.jwt.as_str()) {
                            Ok(parts) => {
                                self.state = JwtState::Verifying;
                                JwtAction::VerifySignature {
                                    header: parts.header,
                                    payload: parts.payload,
                                    signature: parts.signature,
                                }
                            },
                            Err(e) => {
                                self.state = JwtState::Failed;
                                JwtAction::Fail(e)
                            },
                        }
                    },
                    Err(e) => {
                        self.state = JwtState::Failed;
                        JwtAction::Fail(AuthError::GetAuthInfo(e))
                    },
                }
            },
            (JwtState::Verifying, JwtEvent::Verified(outcome)) => {
                match outcome {
                    Ok(token) => {
                        let verdict = match &self.rules {
                            Some(rules) => check_claims(&token.claims, rules, now),
                            None => Err(AuthError::JwtRejected(owned("no rules for this endpoint"))),
                        };
                        match verdict {
                            Ok(()) => {
                                self.state = JwtState::Done;
                                let keys = match self.backend {
                                    AuthBackend::ControlPlane => ComputeCredentialKeys::NoKeys,
                                    AuthBackend::Local => ComputeCredentialKeys::JwtPayload(
                                        token.payload,
                                    ),
                                };
                                JwtAction::Done(
                                    ComputeCredentials { info: self.user_info.clone(), keys },
                                )
                            },
                            Err(e) => {
                                self.state = JwtState::Failed;
                                JwtAction::Fail(e)
                            },
                        }
                    },
                    Err(e) => {
                        self.state = JwtState::Failed;
                        JwtAction::Fail(e)
                    },
                }
            },
            _ => JwtAction::Unexpected,
        }
    }
}

} // verus!
