//! What the proxy makes of its command line before it starts to listen.

use vstd::prelude::*;
use crate::text::{concat, owned, str_eq};

verus! {

/// How clients that are not known yet are authenticated.
pub enum AuthBackendChoice {
    /// Ask the console at this address.
    Console(String),
    /// Ask a Postgres at this address.
    Postgres(String),
    /// Send the user to this address to log in.
    Link(String),
}

/// Mathematical value of an [`AuthBackendChoice`].
pub enum AuthBackendChoiceView {
    Console(Seq<char>),
    Postgres(Seq<char>),
    Link(Seq<char>),
}

impl View for AuthBackendChoice {
    type V = AuthBackendChoiceView;

    open spec fn view(&self) -> AuthBackendChoiceView {
        match self {
            AuthBackendChoice::Console(u) => AuthBackendChoiceView::Console(u@),
            AuthBackendChoice::Postgres(u) => AuthBackendChoiceView::Postgres(u@),
            AuthBackendChoice::Link(u) => AuthBackendChoiceView::Link(u@),
        }
    }
}

/// Two settings that make sense only together: both, neither, or an error.
pub enum Paired<A, B> {
    Both(A, B),
    Neither,
    /// Only one of the two was given.
    Mismatch,
}

/// Pairs two settings that make sense only together.
pub fn both_or_neither<A, B>(first: Option<A>, second: Option<B>) -> (r: Paired<A, B>)
    ensures
        r == match (first, second) {
            (Some(a), Some(b)) => Paired::Both(a, b),
            (None, None) => Paired::Neither,
            _ => Paired::Mismatch,
        },
{
    match (first, second) {
        (Some(a), Some(b)) => Paired::Both(a, b),
        (None, None) => Paired::Neither,
        _ => Paired::Mismatch,
    }
}

/// The complaint about a TLS key without a certificate, or the reverse.
pub fn tls_mismatch() -> (r: String)
    ensures
        r@ == "either both or neither tls-key and tls-cert must be specified"@,
{
    owned("either both or neither tls-key and tls-cert must be specified")
}

/// The complaint about a metric collection endpoint without an interval,
/// or the reverse.
pub fn metric_collection_mismatch() -> (r: String)
    ensures
        r@
            == "either both or neither metric-collection-endpoint and metric-collection-interval must be specified"@,
{
    owned(
        "either both or neither metric-collection-endpoint and metric-collection-interval must be specified",
    )
}

/// The management address, if one is to be listened on: an empty setting
/// switches the management listener off.
pub fn mgmt_address(setting: &str) -> (r: Option<String>)
    ensures
        match r {
            Some(a) => setting@.len() > 0 && a@ == setting@,
            None => setting@.len() == 0,
        },
{
    if setting.unicode_len() == 0 {
        None
    } else {
        Some(owned(setting))
    }
}

/// The backend that `name` stands for, with the address that goes with it.
pub open spec fn auth_backend_spec(
    name: Seq<char>,
    auth_endpoint: Seq<char>,
    uri: Seq<char>,
) -> Result<AuthBackendChoiceView, Seq<char>> {
    if name == "console"@ {
        Ok(AuthBackendChoiceView::Console(auth_endpoint))
    } else if name == "postgres"@ {
        Ok(AuthBackendChoiceView::Postgres(auth_endpoint))
    } else if name == "link"@ {
        Ok(AuthBackendChoiceView::Link(uri))
    } else {
        Err("unsupported auth backend: "@ + name)
    }
}

/// Executable form of [`auth_backend_spec`].
pub fn auth_backend(name: &str, auth_endpoint: &str, uri: &str) -> (r: Result<
    AuthBackendChoice,
    String,
>)
    ensures
        match r {
            Ok(choice) => Ok(choice@),
            Err(why) => Err(why@),
        } == auth_backend_spec(name@, auth_endpoint@, uri@),
{
    if str_eq(name, "console") {
        Ok(AuthBackendChoice::Console(owned(auth_endpoint)))
    } else if str_eq(name, "postgres") {
        Ok(AuthBackendChoice::Postgres(owned(auth_endpoint)))
    } else if str_eq(name, "link") {
        Ok(AuthBackendChoice::Link(owned(uri)))
    } else {
        Err(concat("unsupported auth backend: ", name))
    }
}

/// How a finished task ended: with the task's own result where the task
/// could be waited for, and else with the failure to wait, marked as a
/// join error.
pub fn flatten_err(joined: Result<Result<(), String>, String>) -> (r: Result<(), String>)
    ensures
        match joined {
            Ok(inner) => r == inner,
            Err(why) => r matches Err(x) && x@ == "join error: "@ + why@,
        },
{
    match joined {
        Ok(inner) => inner,
        Err(why) => Err(concat("join error: ", why.as_str())),
    }
}

} // verus!
