//! Failures of the pooling backend, and how each is reported and retried.

use vstd::prelude::*;
use vstd::string::*;
use crate::text::{concat, owned};

verus! {

/// The classes of failure shown at the request boundary.
#[derive(Clone, Copy, PartialEq, Eq, Structural, Debug)]
pub enum ErrorKind {
    /// Transport to the upstream failed.
    Compute,
    /// The upstream accepted the connection and rejected the startup.
    Postgres,
    /// An internal dependency failed.
    Service,
    /// The request itself is malformed.
    User,
    /// A well-formed credential was rejected.
    Auth,
    /// A permit or rate limit was exhausted.
    RateLimited,
}

/// The kinds of transport failure the backend tells apart.
#[derive(Clone, Copy, PartialEq, Eq, Structural, Debug)]
pub enum IoErrorKind {
    TimedOut,
    InvalidInput,
    ConnectionRefused,
    Other,
}

/// A transport failure: its kind and the text that came with it.
pub struct IoFailure {
    pub kind: IoErrorKind,
    pub message: String,
}

/// Mathematical value of an [`IoFailure`].
pub struct IoFailureView {
    pub kind: IoErrorKind,
    pub message: Seq<char>,
}

impl View for IoFailure {
    type V = IoFailureView;

    open spec fn view(&self) -> IoFailureView {
        IoFailureView { kind: self.kind, message: self.message@ }
    }
}

/// The failure reported when a host name resolves to no address at all.
pub open spec fn no_addresses_failure() -> IoFailureView {
    IoFailureView { kind: IoErrorKind::InvalidInput, message: "could not resolve any addresses"@ }
}

impl IoFailure {
    pub fn new(kind: IoErrorKind, message: String) -> (r: IoFailure)
        ensures
            r@ == (IoFailureView { kind, message: message@ }),
    {
        IoFailure { kind, message }
    }

    /// The failure reported when a host name resolves to no address at all.
    pub fn no_addresses() -> (r: IoFailure)
        ensures
            r@ == no_addresses_failure(),
    {
        IoFailure { kind: IoErrorKind::InvalidInput, message: owned("could not resolve any addresses") }
    }

    /// The failure that stands for a connect attempt that ran out of time.
    pub fn timed_out(message: String) -> (r: IoFailure)
        ensures
            r@ == (IoFailureView { kind: IoErrorKind::TimedOut, message: message@ }),
    {
        IoFailure { kind: IoErrorKind::TimedOut, message }
    }
}

/// A failed attempt to open a Postgres session.
pub struct PgConnectError {
    /// The error as the client library words it.
    pub message: String,
    /// The server's own error, where the server answered with one.
    pub db_error: Option<String>,
}

/// Mathematical value of a [`PgConnectError`].
pub struct PgConnectErrorView {
    pub message: Seq<char>,
    pub db_error: Option<Seq<char>>,
}

impl View for PgConnectError {
    type V = PgConnectErrorView;

    open spec fn view(&self) -> PgConnectErrorView {
        PgConnectErrorView {
            message: self.message@,
            db_error: match self.db_error {
                Some(e) => Some(e@),
                None => None,
            },
        }
    }
}

impl PgConnectError {
    /// Whether the server answered and rejected the startup.
    pub fn is_db_error(&self) -> (r: bool)
        ensures
            r == self@.db_error is Some,
    {
        self.db_error.is_some()
    }
}

/// A failure of a collaborator, with the class it reports and the text it
/// wants the client to see.
pub struct UpstreamError {
    pub kind: ErrorKind,
    pub message: String,
    pub client_message: String,
}

/// Mathematical value of an [`UpstreamError`].
pub struct UpstreamErrorView {
    pub kind: ErrorKind,
    pub message: Seq<char>,
    pub client_message: Seq<char>,
}

impl View for UpstreamError {
    type V = UpstreamErrorView;

    open spec fn view(&self) -> UpstreamErrorView {
        UpstreamErrorView {
            kind: self.kind,
            message: self.message@,
            client_message: self.client_message@,
        }
    }
}

/// Failures that say whether another attempt may succeed.
pub trait CouldRetry {
    spec fn could_retry_spec(&self) -> bool;

    fn could_retry(&self) -> (r: bool)
        ensures
            r == self.could_retry_spec(),
    ;
}

/// Failures that say whether the address that was tried may be stale.
pub trait ShouldRetryWakeCompute {
    spec fn should_retry_wake_compute_spec(&self) -> bool;

    fn should_retry_wake_compute(&self) -> (r: bool)
        ensures
            r == self.should_retry_wake_compute_spec(),
    ;
}

/// A failure that is nothing but its two answers.
#[derive(Clone, Copy, PartialEq, Eq, Structural, Debug)]
pub struct RetryClass {
    pub could_retry: bool,
    pub should_retry_wake_compute: bool,
}

impl CouldRetry for RetryClass {
    open spec fn could_retry_spec(&self) -> bool {
        self.could_retry
    }

    fn could_retry(&self) -> (r: bool) {
        self.could_retry
    }
}

impl ShouldRetryWakeCompute for RetryClass {
    open spec fn should_retry_wake_compute_spec(&self) -> bool {
        self.should_retry_wake_compute
    }

    fn should_retry_wake_compute(&self) -> (r: bool) {
        self.should_retry_wake_compute
    }
}

/// Why a connection to the local proxy could not be made.
pub enum LocalProxyConnError {
    Io(IoFailure),
    H2(String),
}

/// Mathematical value of a [`LocalProxyConnError`].
pub enum LocalProxyConnErrorView {
    Io(IoFailureView),
    H2(Seq<char>),
}

impl View for LocalProxyConnError {
    type V = LocalProxyConnErrorView;

    open spec fn view(&self) -> LocalProxyConnErrorView {
        match self {
            LocalProxyConnError::Io(e) => LocalProxyConnErrorView::Io(e@),
            LocalProxyConnError::H2(m) => LocalProxyConnErrorView::H2(m@),
        }
    }
}

impl LocalProxyConnErrorView {
    pub open spec fn message(self) -> Seq<char> {
        match self {
            LocalProxyConnErrorView::Io(_) => "error with connection to local-proxy"@,
            LocalProxyConnErrorView::H2(_) => "could not establish h2 connection"@,
        }
    }

    pub open spec fn client_message(self) -> Seq<char> {
        "Could not establish HTTP connection to the database"@
    }
}

impl LocalProxyConnError {
    pub fn get_error_kind(&self) -> (r: ErrorKind)
        ensures
            r == ErrorKind::Compute,
    {
        match self {
            LocalProxyConnError::Io(_) => ErrorKind::Compute,
            LocalProxyConnError::H2(_) => ErrorKind::Compute,
        }
    }

    /// The text for logs.
    pub fn message(&self) -> (r: String)
        ensures
            r@ == self@.message(),
    {
        match self {
            LocalProxyConnError::Io(_) => owned("error with connection to local-proxy"),
            LocalProxyConnError::H2(_) => owned("could not establish h2 connection"),
        }
    }

    /// The text for the client: the same for every failure.
    pub fn to_string_client(&self) -> (r: String)
        ensures
            r@ == self@.client_message(),
    {
        owned("Could not establish HTTP connection to the database")
    }

}

impl CouldRetry for LocalProxyConnError {
    open spec fn could_retry_spec(&self) -> bool {
        false
    }

    fn could_retry(&self) -> (r: bool) {
        match self {
            LocalProxyConnError::Io(_) => false,
            LocalProxyConnError::H2(_) => false,
        }
    }
}

impl ShouldRetryWakeCompute for LocalProxyConnError {
    open spec fn should_retry_wake_compute_spec(&self) -> bool {
        false
    }

    fn should_retry_wake_compute(&self) -> (r: bool) {
        match self {
            LocalProxyConnError::Io(_) => false,
            LocalProxyConnError::H2(_) => false,
        }
    }
}

/// Why an authentication was refused.
pub enum AuthError {
    /// The password did not match, or the role has no secret.
    PasswordFailed(String),
    /// The endpoint's connection-attempt rate limit is exhausted.
    TooManyConnections,
    /// The peer address is not on the endpoint's allow-list.
    IpAddressNotAllowed,
    /// The request did not come through an allowed private network.
    NetworkNotAllowed,
    /// The token is not a well-formed JWT.
    JwtMalformed(String),
    /// The token is well-formed and was rejected.
    JwtRejected(String),
    /// The bounded worker pool had no room for the key exchange.
    WorkerPoolFull,
    /// The control plane could not be asked.
    GetAuthInfo(UpstreamError),
}

/// Mathematical value of an [`AuthError`].
pub enum AuthErrorView {
    PasswordFailed(Seq<char>),
    TooManyConnections,
    IpAddressNotAllowed,
    NetworkNotAllowed,
    JwtMalformed(Seq<char>),
    JwtRejected(Seq<char>),
    WorkerPoolFull,
    GetAuthInfo(UpstreamErrorView),
}

impl View for AuthError {
    type V = AuthErrorView;

    open spec fn view(&self) -> AuthErrorView {
        match self {
            AuthError::PasswordFailed(u) => AuthErrorView::PasswordFailed(u@),
            AuthError::TooManyConnections => AuthErrorView::TooManyConnections,
            AuthError::IpAddressNotAllowed => AuthErrorView::IpAddressNotAllowed,
            AuthError::NetworkNotAllowed => AuthErrorView::NetworkNotAllowed,
            AuthError::JwtMalformed(m) => AuthErrorView::JwtMalformed(m@),
            AuthError::JwtRejected(m) => AuthErrorView::JwtRejected(m@),
            AuthError::WorkerPoolFull => AuthErrorView::WorkerPoolFull,
            AuthError::GetAuthInfo(e) => AuthErrorView::GetAuthInfo(e@),
        }
    }
}

impl AuthErrorView {
    pub open spec fn kind(self) -> ErrorKind {
        match self {
            AuthErrorView::PasswordFailed(_) => ErrorKind::Auth,
            AuthErrorView::TooManyConnections => ErrorKind::RateLimited,
            AuthErrorView::IpAddressNotAllowed => ErrorKind::Auth,
            AuthErrorView::NetworkNotAllowed => ErrorKind::Auth,
            AuthErrorView::JwtMalformed(_) => ErrorKind::User,
            AuthErrorView::JwtRejected(_) => ErrorKind::Auth,
            AuthErrorView::WorkerPoolFull => ErrorKind::RateLimited,
            AuthErrorView::GetAuthInfo(e) => e.kind,
        }
    }

    /// The text shown to the client. A failed password names the role that
    /// was asked for and nothing else, whether or not the role exists.
    pub open spec fn client_message(self) -> Seq<char> {
        match self {
            AuthErrorView::PasswordFailed(user) => "password authentication failed for user '"@
                + user + "'"@,
            AuthErrorView::TooManyConnections =>
                "Too many connections to this endpoint. Please try again later."@,
            AuthErrorView::IpAddressNotAllowed =>
                "This IP address is not allowed to connect to this endpoint."@,
            AuthErrorView::NetworkNotAllowed =>
                "This connection is trying to access this endpoint from a blocked network."@,
            AuthErrorView::JwtMalformed(m) => m,
            AuthErrorView::JwtRejected(m) => m,
            AuthErrorView::WorkerPoolFull =>
                "Too many authentication attempts are currently ongoing."@,
            AuthErrorView::GetAuthInfo(e) => e.client_message,
        }
    }
}

impl AuthError {
    /// The refusal given for a wrong password and for a role without a secret
    /// alike.
    pub fn password_failed(user: &str) -> (r: AuthError)
        ensures
            r@ == AuthErrorView::PasswordFailed(user@),
    {
        AuthError::PasswordFailed(owned(user))
    }

    pub fn get_error_kind(&self) -> (r: ErrorKind)
        ensures
            r == self@.kind(),
    {
        match self {
            AuthError::PasswordFailed(_) => ErrorKind::Auth,
            AuthError::TooManyConnections => ErrorKind::RateLimited,
            AuthError::IpAddressNotAllowed => ErrorKind::Auth,
            AuthError::NetworkNotAllowed => ErrorKind::Auth,
            AuthError::JwtMalformed(_) => ErrorKind::User,
            AuthError::JwtRejected(_) => ErrorKind::Auth,
            AuthError::WorkerPoolFull => ErrorKind::RateLimited,
            AuthError::GetAuthInfo(e) => e.kind,
        }
    }

    pub fn to_string_client(&self) -> (r: String)
        ensures
            r@ == self@.client_message(),
    {
        match self {
            AuthError::PasswordFailed(user) => {
                let head = concat("password authentication failed for user '", user.as_str());
                concat(head.as_str(), "'")
            },
            AuthError::TooManyConnections => owned(
                "Too many connections to this endpoint. Please try again later.",
            ),
            AuthError::IpAddressNotAllowed => owned(
                "This IP address is not allowed to connect to this endpoint.",
            ),
            AuthError::NetworkNotAllowed => owned(
                "This connection is trying to access this endpoint from a blocked network.",
            ),
            AuthError::JwtMalformed(m) => m.clone(),
            AuthError::JwtRejected(m) => m.clone(),
            AuthError::WorkerPoolFull => owned(
                "Too many authentication attempts are currently ongoing.",
            ),
            AuthError::GetAuthInfo(e) => e.client_message.clone(),
        }
    }
}

/// Everything that can go wrong between a pool lookup and a usable client.
pub enum HttpConnError {
    /// The pooled connection went away while it was being handed over. Holds
    /// the identifier of the connection.
    ConnectionClosedAbruptly(u128),
    PostgresConnectionError(PgConnectError),
    LocalProxyConnectionError(LocalProxyConnError),
    /// The token's payload is not the JSON it should be.
    JwtPayloadError(String),
    /// The compute's control daemon failed. Holds its message.
    ComputeCtl(String),
    GetAuthInfo(UpstreamError),
    AuthError(AuthError),
    WakeCompute(UpstreamError),
    /// No permit could be had in time. Holds the lock's message.
    TooManyConnectionAttempts(String),
}

/// Mathematical value of an [`HttpConnError`].
pub enum HttpConnErrorView {
    ConnectionClosedAbruptly(u128),
    PostgresConnectionError(PgConnectErrorView),
    LocalProxyConnectionError(LocalProxyConnErrorView),
    JwtPayloadError(Seq<char>),
    ComputeCtl(Seq<char>),
    GetAuthInfo(UpstreamErrorView),
    AuthError(AuthErrorView),
    WakeCompute(UpstreamErrorView),
    TooManyConnectionAttempts(Seq<char>),
}

impl View for HttpConnError {
    type V = HttpConnErrorView;

    open spec fn view(&self) -> HttpConnErrorView {
        match self {
            HttpConnError::ConnectionClosedAbruptly(id) =>
                HttpConnErrorView::ConnectionClosedAbruptly(*id),
            HttpConnError::PostgresConnectionError(e) =>
                HttpConnErrorView::PostgresConnectionError(e@),
            HttpConnError::LocalProxyConnectionError(e) =>
                HttpConnErrorView::LocalProxyConnectionError(e@),
            HttpConnError::JwtPayloadError(m) => HttpConnErrorView::JwtPayloadError(m@),
            HttpConnError::ComputeCtl(m) => HttpConnErrorView::ComputeCtl(m@),
            HttpConnError::GetAuthInfo(e) => HttpConnErrorView::GetAuthInfo(e@),
            HttpConnError::AuthError(e) => HttpConnErrorView::AuthError(e@),
            HttpConnError::WakeCompute(e) => HttpConnErrorView::WakeCompute(e@),
            HttpConnError::TooManyConnectionAttempts(m) =>
                HttpConnErrorView::TooManyConnectionAttempts(m@),
        }
    }
}

impl HttpConnErrorView {
    /// The class of the failure. A Postgres failure is the server's doing
    /// exactly when the server answered with an error of its own.
    pub open spec fn kind(self) -> ErrorKind {
        match self {
            HttpConnErrorView::ConnectionClosedAbruptly(_) => ErrorKind::Compute,
            HttpConnErrorView::PostgresConnectionError(p) => if p.db_error is Some {
                ErrorKind::Postgres
            } else {
                ErrorKind::Compute
            },
            HttpConnErrorView::LocalProxyConnectionError(_) => ErrorKind::Compute,
            HttpConnErrorView::ComputeCtl(_) => ErrorKind::Service,
            HttpConnErrorView::JwtPayloadError(_) => ErrorKind::User,
            HttpConnErrorView::GetAuthInfo(a) => a.kind,
            HttpConnErrorView::AuthError(a) => a.kind(),
            HttpConnErrorView::WakeCompute(w) => w.kind,
            HttpConnErrorView::TooManyConnectionAttempts(_) => ErrorKind::RateLimited,
        }
    }

    /// The text for logs.
    pub open spec fn message(self) -> Seq<char> {
        match self {
            HttpConnErrorView::ConnectionClosedAbruptly(_) =>
                "pooled connection closed at inconsistent state"@,
            HttpConnErrorView::PostgresConnectionError(_) =>
                "could not connect to postgres in compute"@,
            HttpConnErrorView::LocalProxyConnectionError(_) =>
                "could not connect to local-proxy in compute"@,
            HttpConnErrorView::JwtPayloadError(_) => "could not parse JWT payload"@,
            HttpConnErrorView::ComputeCtl(m) => "could not install extension: "@ + m,
            HttpConnErrorView::GetAuthInfo(_) => "could not get auth info"@,
            HttpConnErrorView::AuthError(_) => "user not authenticated"@,
            HttpConnErrorView::WakeCompute(_) => "wake_compute returned error"@,
            HttpConnErrorView::TooManyConnectionAttempts(m) =>
                "error acquiring resource permit: "@ + m,
        }
    }

    /// The text for the client. A Postgres failure is passed on word for
    /// word; a local-proxy failure is always the same sentence.
    pub open spec fn client_message(self) -> Seq<char> {
        match self {
            HttpConnErrorView::ConnectionClosedAbruptly(_) => self.message(),
            HttpConnErrorView::PostgresConnectionError(p) => p.message,
            HttpConnErrorView::LocalProxyConnectionError(p) => p.client_message(),
            HttpConnErrorView::ComputeCtl(_) =>
                "could not set up the JWT authorization database extension"@,
            HttpConnErrorView::JwtPayloadError(m) => m,
            HttpConnErrorView::GetAuthInfo(c) => c.client_message,
            HttpConnErrorView::AuthError(c) => c.client_message(),
            HttpConnErrorView::WakeCompute(c) => c.client_message,
            HttpConnErrorView::TooManyConnectionAttempts(_) =>
                "Failed to acquire permit to connect to the database. Too many database connection attempts are currently ongoing."@,
        }
    }

    /// Whether another attempt may succeed where this one failed: only a
    /// Postgres connect that never got an answer from the server.
    pub open spec fn could_retry(self) -> bool {
        match self {
            HttpConnErrorView::PostgresConnectionError(p) => p.db_error is None,
            _ => false,
        }
    }

    /// Whether the address that was tried may be stale, so that waking the
    /// compute again could help.
    pub open spec fn should_retry_wake_compute(self) -> bool {
        match self {
            HttpConnErrorView::PostgresConnectionError(p) => p.db_error is None,
            HttpConnErrorView::TooManyConnectionAttempts(_) => false,
            _ => true,
        }
    }
}

impl HttpConnError {
    pub fn get_error_kind(&self) -> (r: ErrorKind)
        ensures
            r == self@.kind(),
    {
        match self {
            HttpConnError::ConnectionClosedAbruptly(_) => ErrorKind::Compute,
            HttpConnError::PostgresConnectionError(p) => {
                if p.is_db_error() {
                    ErrorKind::Postgres
                } else {
                    ErrorKind::Compute
                }
            },
            HttpConnError::LocalProxyConnectionError(_) => ErrorKind::Compute,
            HttpConnError::ComputeCtl(_) => ErrorKind::Service,
            HttpConnError::JwtPayloadError(_) => ErrorKind::User,
            HttpConnError::GetAuthInfo(a) => a.kind,
            HttpConnError::AuthError(a) => a.get_error_kind(),
            HttpConnError::WakeCompute(w) => w.kind,
            HttpConnError::TooManyConnectionAttempts(_) => ErrorKind::RateLimited,
        }
    }

    /// The text for logs.
    pub fn message(&self) -> (r: String)
        ensures
            r@ == self@.message(),
    {
        match self {
            HttpConnError::ConnectionClosedAbruptly(_) => owned(
                "pooled connection closed at inconsistent state",
            ),
            HttpConnError::PostgresConnectionError(_) => owned(
                "could not connect to postgres in compute",
            ),
            HttpConnError::LocalProxyConnectionError(_) => owned(
                "could not connect to local-proxy in compute",
            ),
            HttpConnError::JwtPayloadError(_) => owned("could not parse JWT payload"),
            HttpConnError::ComputeCtl(m) => concat("could not install extension: ", m.as_str()),
            HttpConnError::GetAuthInfo(_) => owned("could not get auth info"),
            HttpConnError::AuthError(_) => owned("user not authenticated"),
            HttpConnError::WakeCompute(_) => owned("wake_compute returned error"),
            HttpConnError::TooManyConnectionAttempts(m) => concat(
                "error acquiring resource permit: ",
                m.as_str(),
            ),
        }
    }

    pub fn to_string_client(&self) -> (r: String)
        ensures
            r@ == self@.client_message(),
    {
        match self {
            HttpConnError::ConnectionClosedAbruptly(_) => self.message(),
            HttpConnError::PostgresConnectionError(p) => p.message.clone(),
            HttpConnError::LocalProxyConnectionError(p) => p.to_string_client(),
            HttpConnError::ComputeCtl(_) => owned(
                "could not set up the JWT authorization database extension",
            ),
            HttpConnError::JwtPayloadError(m) => m.clone(),
            HttpConnError::GetAuthInfo(c) => c.client_message.clone(),
            HttpConnError::AuthError(c) => c.to_string_client(),
            HttpConnError::WakeCompute(c) => c.client_message.clone(),
            HttpConnError::TooManyConnectionAttempts(_) => owned(
                "Failed to acquire permit to connect to the database. Too many database connection attempts are currently ongoing.",
            ),
        }
    }

}

impl CouldRetry for HttpConnError {
    open spec fn could_retry_spec(&self) -> bool {
        self@.could_retry()
    }

    fn could_retry(&self) -> (r: bool) {
        match self {
            HttpConnError::PostgresConnectionError(e) => !e.is_db_error(),
            HttpConnError::LocalProxyConnectionError(e) => e.could_retry(),
            HttpConnError::ComputeCtl(_) => false,
            HttpConnError::ConnectionClosedAbruptly(_) => false,
            HttpConnError::JwtPayloadError(_) => false,
            HttpConnError::GetAuthInfo(_) => false,
            HttpConnError::AuthError(_) => false,
            HttpConnError::WakeCompute(_) => false,
            HttpConnError::TooManyConnectionAttempts(_) => false,
        }
    }

}

impl ShouldRetryWakeCompute for HttpConnError {
    open spec fn should_retry_wake_compute_spec(&self) -> bool {
        self@.should_retry_wake_compute()
    }

    fn should_retry_wake_compute(&self) -> (r: bool) {
        match self {
            HttpConnError::PostgresConnectionError(e) => !e.is_db_error(),
            HttpConnError::TooManyConnectionAttempts(_) => false,
            _ => true,
        }
    }
}

/// A Postgres failure that carries the server's own error is of the Postgres
/// class, is not retried, and does not send the driver back to wake the
/// compute again.
pub proof fn lemma_db_error_is_final(e: HttpConnErrorView)
    requires
        e matches HttpConnErrorView::PostgresConnectionError(p) && p.db_error is Some,
    ensures
        e.kind() == ErrorKind::Postgres,
        !e.could_retry(),
        !e.should_retry_wake_compute(),
{
}

/// No failure of the authentication, user, service or rate-limit class is
/// ever retried.
pub proof fn lemma_only_transport_is_retried(e: HttpConnErrorView)
    requires
        e.could_retry(),
    ensures
        e.kind() == ErrorKind::Compute,
        e matches HttpConnErrorView::PostgresConnectionError(p) && p.db_error is None,
{
}

} // verus!
