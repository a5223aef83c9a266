//! The values that identify a request: endpoint, role, database, startup
//! options, and the credentials derived from them.

use vstd::prelude::*;
use vstd::string::*;
use crate::text::{fold_case, fold_char_exec, trim_trailing, trimmed_len, lemma_trimmed_len, lemma_trim_idempotent, owned, concat};

verus! {

/// The suffix that addresses the local-proxy variant of an endpoint.
pub fn local_proxy_suffix() -> (r: &'static str)
    ensures
        r@ == local_proxy_suffix_spec(),
{
    "-local"
}

pub open spec fn local_proxy_suffix_spec() -> Seq<char> {
    "-local"@
}

/// The normal form of an endpoint identifier: ASCII case folded, with no
/// trailing hyphen.
pub open spec fn normalize_spec(id: Seq<char>) -> Seq<char> {
    trim_trailing(fold_case(id), '-')
}

/// Identifier of a logical compute target.
pub struct EndpointId {
    pub id: String,
}

impl View for EndpointId {
    type V = Seq<char>;

    open spec fn view(&self) -> Seq<char> {
        self.id@
    }
}

impl EndpointId {
    pub fn from(id: String) -> (r: EndpointId)
        ensures
            r@ == id@,
    {
        EndpointId { id }
    }

    pub fn as_str(&self) -> (r: &str)
        ensures
            r@ == self@,
    {
        self.id.as_str()
    }

    pub fn clone(&self) -> (r: EndpointId)
        ensures
            r@ == self@,
    {
        EndpointId { id: self.id.clone() }
    }

    /// Whether two identifiers are spelled the same.
    pub fn same(&self, other: &EndpointId) -> (r: bool)
        ensures
            r == (self@ == other@),
    {
        self.id == other.id
    }

    /// The normal form of this identifier.
    pub fn normalize(&self) -> (r: EndpointId)
        ensures
            r@ == normalize_spec(self@),
    {
        let s = self.id.as_str();
        let n = s.unicode_len();
        let mut folded = String::new();
        let mut i: usize = 0;
        while i < n
            invariant
                n == s@.len(),
                i <= n,
                folded@ == fold_case(s@).subrange(0, i as int),
            decreases n - i,
        {
            let c = s.get_char(i);
            folded.push(fold_char_exec(c));
            i = i + 1;
            assert(folded@ =~= fold_case(s@).subrange(0, i as int));
        }
        assert(folded@ =~= fold_case(s@));
        let f = folded.as_str();
        let mut keep: usize = n;
        while keep > 0 && f.get_char(keep - 1) == '-'
            invariant
                n == f@.len(),
                keep <= n,
                trimmed_len(f@, '-') == trimmed_len(f@.subrange(0, keep as int), '-'),
            decreases keep,
        {
            assert(f@.subrange(0, keep as int).drop_last() =~= f@.subrange(0, keep - 1));
            keep = keep - 1;
        }
        assert(f@.subrange(0, n as int) =~= f@);
        EndpointId { id: owned(f.substring_char(0, keep)) }
    }

    /// The identifier under which the local proxy of this endpoint is woken:
    /// the normal form followed by the local-proxy suffix.
    pub fn local_proxy(&self) -> (r: EndpointId)
        ensures
            r@ == normalize_spec(self@) + local_proxy_suffix_spec(),
    {
        let base = self.normalize();
        EndpointId { id: concat(base.as_str(), local_proxy_suffix()) }
    }
}

/// Normalizing twice gives what normalizing once gives.
pub proof fn lemma_normalize_idempotent(id: Seq<char>)
    ensures
        normalize_spec(normalize_spec(id)) == normalize_spec(id),
{
    let f = fold_case(id);
    let t = trim_trailing(f, '-');
    lemma_trimmed_len(f, '-');
    assert(fold_case(t) =~= t);
    lemma_trim_idempotent(f, '-');
}

/// The mathematical value of an ordered list of startup options.
pub open spec fn options_view(options: Seq<(String, String)>) -> Seq<(Seq<char>, Seq<char>)> {
    Seq::new(options.len(), |i: int| (options[i].0@, options[i].1@))
}

/// Copies a list of startup options, keeping their order.
pub fn clone_options(options: &Vec<(String, String)>) -> (r: Vec<(String, String)>)
    ensures
        options_view(r@) == options_view(options@),
{
    let mut out: Vec<(String, String)> = Vec::new();
    let mut i: usize = 0;
    while i < options.len()
        invariant
            i <= options.len(),
            out.len() == i,
            forall|j: int| 0 <= j < i ==> out[j].0@ == options[j].0@ && out[j].1@ == options[j].1@,
        decreases options.len() - i,
    {
        out.push((options[i].0.clone(), options[i].1.clone()));
        i = i + 1;
    }
    assert(options_view(out@) =~= options_view(options@));
    out
}

/// Whether two option lists hold the same pairs in the same order.
pub fn same_options(a: &Vec<(String, String)>, b: &Vec<(String, String)>) -> (r: bool)
    ensures
        r == (options_view(a@) == options_view(b@)),
{
    if a.len() != b.len() {
        assert(options_view(a@).len() != options_view(b@).len());
        return false;
    }
    let mut i: usize = 0;
    while i < a.len()
        invariant
            i <= a.len(),
            a.len() == b.len(),
            forall|j: int| 0 <= j < i ==> a[j].0@ == b[j].0@ && a[j].1@ == b[j].1@,
        decreases a.len() - i,
    {
        if !(a[i].0 == b[i].0 && a[i].1 == b[i].1) {
            assert(options_view(a@)[i as int] != options_view(b@)[i as int]);
            return false;
        }
        i = i + 1;
    }
    assert(options_view(a@) =~= options_view(b@));
    true
}

/// Who asks, and for which endpoint.
pub struct ComputeUserInfo {
    pub user: String,
    pub endpoint: EndpointId,
    pub options: Vec<(String, String)>,
}

/// Mathematical value of a [`ComputeUserInfo`].
pub struct UserInfoView {
    pub user: Seq<char>,
    pub endpoint: Seq<char>,
    pub options: Seq<(Seq<char>, Seq<char>)>,
}

impl View for ComputeUserInfo {
    type V = UserInfoView;

    open spec fn view(&self) -> UserInfoView {
        UserInfoView {
            user: self.user@,
            endpoint: self.endpoint@,
            options: options_view(self.options@),
        }
    }
}

impl ComputeUserInfo {
    pub fn clone(&self) -> (r: ComputeUserInfo)
        ensures
            r@ == self@,
    {
        ComputeUserInfo {
            user: self.user.clone(),
            endpoint: self.endpoint.clone(),
            options: clone_options(&self.options),
        }
    }

    pub fn same(&self, other: &ComputeUserInfo) -> (r: bool)
        ensures
            r == (self@ == other@),
    {
        self.user == other.user && self.endpoint.same(&other.endpoint) && same_options(
            &self.options,
            &other.options,
        )
    }
}

/// The key under which every pool files a connection.
pub struct ConnInfo {
    pub user_info: ComputeUserInfo,
    pub dbname: String,
}

/// Mathematical value of a [`ConnInfo`]. Two keys are the same exactly when
/// all four parts are; the options are compared in order.
pub struct ConnKey {
    pub endpoint: Seq<char>,
    pub database: Seq<char>,
    pub user: Seq<char>,
    pub options: Seq<(Seq<char>, Seq<char>)>,
}

impl View for ConnInfo {
    type V = ConnKey;

    open spec fn view(&self) -> ConnKey {
        ConnKey {
            endpoint: self.user_info.endpoint@,
            database: self.dbname@,
            user: self.user_info.user@,
            options: options_view(self.user_info.options@),
        }
    }
}

impl ConnInfo {
    pub fn new(user_info: ComputeUserInfo, dbname: String) -> (r: ConnInfo)
        ensures
            r.user_info == user_info,
            r.dbname == dbname,
    {
        ConnInfo { user_info, dbname }
    }

    pub fn clone(&self) -> (r: ConnInfo)
        ensures
            r@ == self@,
            r.user_info@ == self.user_info@,
    {
        ConnInfo { user_info: self.user_info.clone(), dbname: self.dbname.clone() }
    }

    /// Whether two keys name the same pool slot.
    pub fn same_key(&self, other: &ConnInfo) -> (r: bool)
        ensures
            r == (self@ == other@),
    {
        self.dbname == other.dbname && self.user_info.same(&other.user_info)
    }
}

/// SCRAM key material that lets the proxy log in on the client's behalf.
#[derive(Clone, Copy)]
pub struct AuthKeys {
    pub client_key: [u8; 32],
    pub server_key: [u8; 32],
}

/// What an authentication leaves behind for the connection to use.
pub enum ComputeCredentialKeys {
    /// Nothing: the compute trusts the proxy.
    NoKeys,
    /// SCRAM keys from a password exchange.
    AuthKeys(AuthKeys),
    /// The claims of a validated token, to be bound to the session.
    JwtPayload(Vec<u8>),
}

/// Mathematical value of a [`ComputeCredentialKeys`].
pub enum KeysView {
    NoKeys,
    AuthKeys(AuthKeys),
    JwtPayload(Seq<u8>),
}

impl View for ComputeCredentialKeys {
    type V = KeysView;

    open spec fn view(&self) -> KeysView {
        match self {
            ComputeCredentialKeys::NoKeys => KeysView::NoKeys,
            ComputeCredentialKeys::AuthKeys(k) => KeysView::AuthKeys(*k),
            ComputeCredentialKeys::JwtPayload(p) => KeysView::JwtPayload(p@),
        }
    }
}

/// The outcome of a successful authentication.
pub struct ComputeCredentials {
    pub info: ComputeUserInfo,
    pub keys: ComputeCredentialKeys,
}

/// How strictly the compute wants TLS.
#[derive(Clone, Copy, PartialEq, Eq, Structural, Debug)]
pub enum SslMode {
    Disable,
    Prefer,
    Require,
}

/// An IP address, as the big-endian number its bytes spell.
#[derive(Clone, Copy, PartialEq, Eq, Structural, Debug)]
pub enum IpAddress {
    V4(u32),
    V6(u128),
}

/// An address to connect to.
#[derive(Clone, Copy, PartialEq, Eq, Structural, Debug)]
pub struct SocketAddress {
    pub ip: IpAddress,
    pub port: u16,
}

/// Where a woken compute can be reached.
pub struct NodeConnInfo {
    pub host: String,
    pub host_addr: Option<IpAddress>,
    pub port: u16,
    pub ssl_mode: SslMode,
}

/// Labels of the compute that answered a wake.
pub struct MetricsAuxInfo {
    pub endpoint_id: String,
    pub branch_id: String,
    pub compute_id: String,
}

impl MetricsAuxInfo {
    pub fn clone(&self) -> (r: MetricsAuxInfo)
        ensures
            r.endpoint_id@ == self.endpoint_id@,
            r.branch_id@ == self.branch_id@,
            r.compute_id@ == self.compute_id@,
    {
        MetricsAuxInfo {
            endpoint_id: self.endpoint_id.clone(),
            branch_id: self.branch_id.clone(),
            compute_id: self.compute_id.clone(),
        }
    }
}

} // verus!
