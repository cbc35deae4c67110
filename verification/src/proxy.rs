//! The routing path: from the hostname of a request to the tenant and its
//! server, and from there to the request that goes upstream.

use crate::db::{opt_str_view, opt_view, Database, Server, Tenant};
use crate::error::ErrorKind;
use crate::model::{active, Directory, ServerView, TenantView};
use crate::seqs::{filter_sources, first_index, lemma_first_index_facts};
use crate::text::{
    chars_of, count_char, eq_ignore_ascii_case, find_char, is_char, joined, lowered, str_eq,
};
use crate::trusted::{header_value_ok, is_header_value, parses_as_uri, uri_accepts};
use vstd::prelude::*;
use vstd::string::*;
use vstd::utf8::*;

verus! {

/// The part of `s` before the first `sep`; all of `s` where it holds none.
pub open spec fn before_first(s: Seq<char>, sep: char) -> Seq<char> {
    match first_index(s, is_char(sep)) {
        Some(i) => s.take(i),
        None => s,
    }
}

/// The part of `s` after the first `sep`; nothing where it holds none.
pub open spec fn after_first(s: Seq<char>, sep: char) -> Seq<char> {
    match first_index(s, is_char(sep)) {
        Some(i) => s.skip(i + 1),
        None => Seq::empty(),
    }
}

/// The hostname of a `Host` header value: what stands before the port.
pub open spec fn port_stripped(host: Seq<char>) -> Seq<char> {
    before_first(host, ':')
}

/// The label that names the loopback host.
pub open spec fn loopback() -> Seq<char> {
    "localhost"@
}

/// The tenant that the structure of the hostname names: the first label
/// of a hostname of three labels or more, or of one whose second and last
/// label is the loopback label.
pub open spec fn tenant_of_host(host: Seq<char>) -> Option<Seq<char>> {
    let name = port_stripped(host);
    let dots = name.filter(is_char('.')).len();
    if dots >= 2 || (dots == 1 && after_first(name, '.') == loopback()) {
        Some(before_first(name, '.'))
    } else {
        None
    }
}

/// The hostname of a `Host` header value, without the port.
pub fn strip_port(host: &str) -> (name: &str)
    ensures
        name@ == port_stripped(host@),
{
    let cs = chars_of(host);
    match find_char(&cs, ':') {
        Some(i) => {
            let name = host.substring_char(0, i);
            assert(host@.subrange(0, i as int) =~= host@.take(i as int));
            name
        },
        None => host,
    }
}

/// The tenant that the hostname of a request names by its structure, if it
/// names one. The port is ignored. Of `a.b.c` and of `a.localhost` it is
/// `a`; `localhost` and `b.c` name none.
pub fn extract_tenant_from_host(host: &str) -> (tenant: Option<String>)
    ensures
        opt_view(tenant) == tenant_of_host(host@),
{
    let name = strip_port(host);
    let cs = chars_of(name);
    let dots = count_char(&cs, '.');
    match find_char(&cs, '.') {
        None => {
            proof {
                lemma_first_index_facts(cs@, is_char('.'));
                let src = filter_sources(cs@, is_char('.'));
                if src.len() > 0 {
                    assert(is_char('.')(cs@[src[0]]));
                }
            }
            None
        },
        Some(i) => {
            let label = name.substring_char(0, i);
            assert(name@.subrange(0, i as int) =~= name@.take(i as int));
            if dots >= 2 {
                Some(String::from_str(label))
            } else {
                proof {
                    cs@.lemma_filter_contains(is_char('.'), i as int);
                }
                assert(i < cs.len());
                let rest = name.substring_char(i + 1, cs.len());
                assert(name@.subrange(i + 1, cs@.len() as int) =~= name@.skip(i + 1));
                if str_eq(rest, "localhost") {
                    Some(String::from_str(label))
                } else {
                    None
                }
            }
        },
    }
}

/// Why a request is answered here and not forwarded.
#[derive(Debug, PartialEq, Eq)]
pub enum ProxyError {
    /// The hostname names no tenant, by its structure or as an alias.
    NoTenant,
    /// The directory holds no tenant of this id.
    TenantNotFound(String),
    /// The directory contradicts itself: a tenant's server is missing.
    DirectoryFault,
    /// The tenant is in this status, which receives no traffic.
    TenantInactive { tenant_id: String, status: String },
    /// The address of the server gives no valid upstream URL.
    InvalidUpstreamUrl,
    /// The upstream request cannot be built: the tenant id cannot stand in a header.
    InvalidRequest,
    /// The backend could not be reached; the text says why.
    UpstreamUnreachable(String),
}

/// A `ProxyError` as contracts see it.
pub enum ProxyErrorView {
    NoTenant,
    TenantNotFound(Seq<char>),
    DirectoryFault,
    TenantInactive { tenant_id: Seq<char>, status: Seq<char> },
    InvalidUpstreamUrl,
    InvalidRequest,
    UpstreamUnreachable(Seq<char>),
}

impl View for ProxyError {
    type V = ProxyErrorView;

    open spec fn view(&self) -> ProxyErrorView {
        match *self {
            ProxyError::NoTenant => ProxyErrorView::NoTenant,
            ProxyError::TenantNotFound(id) => ProxyErrorView::TenantNotFound(id@),
            ProxyError::DirectoryFault => ProxyErrorView::DirectoryFault,
            ProxyError::TenantInactive { tenant_id, status } => ProxyErrorView::TenantInactive {
                tenant_id: tenant_id@,
                status: status@,
            },
            ProxyError::InvalidUpstreamUrl => ProxyErrorView::InvalidUpstreamUrl,
            ProxyError::InvalidRequest => ProxyErrorView::InvalidRequest,
            ProxyError::UpstreamUnreachable(why) => ProxyErrorView::UpstreamUnreachable(why@),
        }
    }
}

impl ProxyErrorView {
    /// The class of the failure.
    pub open spec fn kind(self) -> ErrorKind {
        match self {
            ProxyErrorView::NoTenant => ErrorKind::BadRequest,
            ProxyErrorView::TenantNotFound(_) => ErrorKind::NotFound,
            ProxyErrorView::DirectoryFault => ErrorKind::InternalInconsistency,
            ProxyErrorView::TenantInactive { .. } => ErrorKind::InvalidState,
            ProxyErrorView::InvalidUpstreamUrl => ErrorKind::InternalInconsistency,
            ProxyErrorView::InvalidRequest => ErrorKind::InternalInconsistency,
            ProxyErrorView::UpstreamUnreachable(_) => ErrorKind::UpstreamUnreachable,
        }
    }

    /// The HTTP status that answers the client.
    pub open spec fn status_code(self) -> u16 {
        match self {
            ProxyErrorView::NoTenant => 400,
            ProxyErrorView::TenantNotFound(_) => 404,
            ProxyErrorView::DirectoryFault => 500,
            ProxyErrorView::TenantInactive { .. } => 503,
            ProxyErrorView::InvalidUpstreamUrl => 500,
            ProxyErrorView::InvalidRequest => 500,
            ProxyErrorView::UpstreamUnreachable(_) => 502,
        }
    }

    /// The text that answers the client.
    pub open spec fn message(self) -> Seq<char> {
        match self {
            ProxyErrorView::NoTenant =>
                "No tenant specified. Use subdomain like: tenant.yourdomain.com"@,
            ProxyErrorView::TenantNotFound(id) => "Tenant not found: "@ + id,
            ProxyErrorView::DirectoryFault => "Database error"@,
            ProxyErrorView::TenantInactive { tenant_id, status } => "Tenant "@ + tenant_id
                + " is "@ + status,
            ProxyErrorView::InvalidUpstreamUrl => "Invalid upstream URL"@,
            ProxyErrorView::InvalidRequest => "Failed to build request"@,
            ProxyErrorView::UpstreamUnreachable(why) => "Failed to reach tenant server: "@ + why,
        }
    }
}

impl ProxyError {
    /// The class of the failure.
    pub fn kind(&self) -> (k: ErrorKind)
        ensures
            k == self@.kind(),
    {
        match self {
            ProxyError::NoTenant => ErrorKind::BadRequest,
            ProxyError::TenantNotFound(_) => ErrorKind::NotFound,
            ProxyError::DirectoryFault => ErrorKind::InternalInconsistency,
            ProxyError::TenantInactive { .. } => ErrorKind::InvalidState,
            ProxyError::InvalidUpstreamUrl => ErrorKind::InternalInconsistency,
            ProxyError::InvalidRequest => ErrorKind::InternalInconsistency,
            ProxyError::UpstreamUnreachable(_) => ErrorKind::UpstreamUnreachable,
        }
    }

    /// The HTTP status that answers the client: 400 where the request names
    /// no tenant, 404 where the tenant is unknown, 503 where it is not
    /// active, 502 where the backend is unreachable, 500 otherwise.
    pub fn status_code(&self) -> (code: u16)
        ensures
            code == self@.status_code(),
    {
        match self {
            ProxyError::NoTenant => 400,
            ProxyError::TenantNotFound(_) => 404,
            ProxyError::DirectoryFault => 500,
            ProxyError::TenantInactive { .. } => 503,
            ProxyError::InvalidUpstreamUrl => 500,
            ProxyError::InvalidRequest => 500,
            ProxyError::UpstreamUnreachable(_) => 502,
        }
    }

    /// The text that answers the client.
    pub fn message(&self) -> (m: String)
        ensures
            m@ == self@.message(),
    {
        match self {
            ProxyError::NoTenant => String::from_str(
                "No tenant specified. Use subdomain like: tenant.yourdomain.com",
            ),
            ProxyError::TenantNotFound(id) => joined("Tenant not found: ", id.as_str()),
            ProxyError::DirectoryFault => String::from_str("Database error"),
            ProxyError::TenantInactive { tenant_id, status } => {
                let mut m = joined("Tenant ", tenant_id.as_str());
                m.append(" is ");
                m.append(status.as_str());
                m
            },
            ProxyError::InvalidUpstreamUrl => String::from_str("Invalid upstream URL"),
            ProxyError::InvalidRequest => String::from_str("Failed to build request"),
            ProxyError::UpstreamUnreachable(why) => joined(
                "Failed to reach tenant server: ",
                why.as_str(),
            ),
        }
    }
}

/// Where a request goes, as contracts see it.
pub open spec fn route_view(r: Result<(Tenant, Server), ProxyError>) -> Result<
    (TenantView, ServerView),
    ProxyErrorView,
> {
    match r {
        Ok((t, s)) => Ok((t@, s@)),
        Err(e) => Err(e@),
    }
}

/// The tenant that the alias `name` stands for, with its server. Where
/// there is no such alias the answer is `otherwise`; where the alias names
/// a tenant that is gone, the answer says so of `label`, or of the alias's
/// tenant where the hostname gave no label.
pub open spec fn route_by_alias(
    d: Directory,
    name: Seq<char>,
    label: Option<Seq<char>>,
    otherwise: ProxyErrorView,
) -> Result<(TenantView, ServerView), ProxyErrorView> {
    match d.lookup_by_domain(name) {
        None => Err(otherwise),
        Some(id) => match d.lookup_tenant(id) {
            Err(_) => Err(ProxyErrorView::DirectoryFault),
            Ok(Some(pair)) => Ok(pair),
            Ok(None) => Err(
                ProxyErrorView::TenantNotFound(
                    match label {
                        Some(l) => l,
                        None => id,
                    },
                ),
            ),
        },
    }
}

/// The tenant and server that a request for `host` goes to. The label in
/// the hostname is tried first; where the hostname has none, or the
/// directory has no tenant of that id, the hostname without its port is
/// looked up as an alias.
pub open spec fn route(d: Directory, host: Seq<char>) -> Result<
    (TenantView, ServerView),
    ProxyErrorView,
> {
    let name = port_stripped(host);
    match tenant_of_host(host) {
        Some(label) => match d.lookup_tenant(label) {
            Err(_) => Err(ProxyErrorView::DirectoryFault),
            Ok(Some(pair)) => Ok(pair),
            Ok(None) => route_by_alias(
                d,
                name,
                Some(label),
                ProxyErrorView::TenantNotFound(label),
            ),
        },
        None => route_by_alias(d, name, None, ProxyErrorView::NoTenant),
    }
}

/// Looks the hostname `name` up as an alias; see `route_by_alias`.
fn resolve_alias(db: &Database, name: &str, label: Option<String>) -> (result: Result<
    (Tenant, Server),
    ProxyError,
>)
    ensures
        route_view(result) == route_by_alias(
            db@,
            name@,
            opt_view(label),
            match label {
                Some(l) => ProxyErrorView::TenantNotFound(l@),
                None => ProxyErrorView::NoTenant,
            },
        ),
        result matches Ok((t, s)) ==> s@.id == t@.server_id,
{
    let id = match db.lookup_by_domain(name) {
        Some(id) => id,
        None => {
            return match label {
                Some(l) => Err(ProxyError::TenantNotFound(l)),
                None => Err(ProxyError::NoTenant),
            };
        },
    };
    match db.lookup_tenant(id.as_str()) {
        Err(_) => Err(ProxyError::DirectoryFault),
        Ok(Some(pair)) => Ok(pair),
        Ok(None) => match label {
            Some(l) => Err(ProxyError::TenantNotFound(l)),
            None => Err(ProxyError::TenantNotFound(id)),
        },
    }
}

/// The tenant and the server that a request with the `Host` value `host`
/// goes to; the server is the one whose id the tenant names. Refused with `NoTenant` where the hostname names no tenant and
/// is no alias, with `TenantNotFound` where the tenant it names is not in
/// the directory, with `DirectoryFault` where the tenant's server is missing.
pub fn resolve_host(db: &Database, host: &str) -> (result: Result<(Tenant, Server), ProxyError>)
    ensures
        route_view(result) == route(db@, host@),
        result matches Ok((t, s)) ==> s@.id == t@.server_id,
{
    let name = strip_port(host);
    match extract_tenant_from_host(host) {
        Some(label) => match db.lookup_tenant(label.as_str()) {
            Err(_) => Err(ProxyError::DirectoryFault),
            Ok(Some(pair)) => Ok(pair),
            Ok(None) => resolve_alias(db, name, Some(label)),
        },
        None => resolve_alias(db, name, None),
    }
}

/// A request header: its name, and its value as the bytes on the wire.
#[derive(Debug, PartialEq, Eq)]
pub struct Header {
    pub name: String,
    pub value: Vec<u8>,
}

/// A `Header` as contracts see it.
pub struct HeaderView {
    pub name: Seq<char>,
    pub value: Seq<u8>,
}

impl View for Header {
    type V = HeaderView;

    open spec fn view(&self) -> HeaderView {
        HeaderView { name: self.name@, value: self.value@ }
    }
}

impl Clone for Header {
    fn clone(&self) -> (copy: Self)
        ensures
            copy@ == self@,
    {
        let mut value: Vec<u8> = Vec::new();
        let mut i: usize = 0;
        while i < self.value.len()
            invariant
                i <= self.value.len(),
                value@ == self.value@.take(i as int),
            decreases self.value.len() - i,
        {
            value.push(self.value[i]);
            assert(self.value@.take(i + 1) =~= self.value@.take(i as int).push(self.value@[i as int]));
            i = i + 1;
        }
        assert(self.value@.take(i as int) =~= self.value@);
        Header { name: self.name.clone(), value }
    }
}

/// The headers that a list of header records stands for.
pub open spec fn header_views(s: Seq<Header>) -> Seq<HeaderView> {
    Seq::new(s.len(), |i: int| s[i]@)
}

/// The request that goes to the backend: where to, and with which headers.
/// Method and body are those of the inbound request.
#[derive(Debug, PartialEq, Eq)]
pub struct UpstreamRequest {
    pub url: String,
    pub headers: Vec<Header>,
}

/// An `UpstreamRequest` as contracts see it.
pub struct UpstreamView {
    pub url: Seq<char>,
    pub headers: Seq<HeaderView>,
}

impl View for UpstreamRequest {
    type V = UpstreamView;

    open spec fn view(&self) -> UpstreamView {
        UpstreamView { url: self.url@, headers: header_views(self.headers@) }
    }
}

/// What the routing path answers, as contracts see it.
pub open spec fn plan_view(r: Result<UpstreamRequest, ProxyError>) -> Result<
    UpstreamView,
    ProxyErrorView,
> {
    match r {
        Ok(u) => Ok(u@),
        Err(e) => Err(e@),
    }
}

/// The name of the header that names the requested host.
pub open spec fn host_header() -> Seq<char> {
    "Host"@
}

/// The name of the header that tells the backend which tenant is meant.
pub open spec fn tenant_header() -> Seq<char> {
    "X-Tenant-ID"@
}

/// Two header names are the same name: they differ at most in the case of
/// ASCII letters.
pub open spec fn same_header(a: Seq<char>, b: Seq<char>) -> bool {
    lowered(a) == lowered(b)
}

/// The inbound headers that go upstream as they are: all but the host
/// header and whatever the client sent as tenant header.
pub open spec fn passed_on() -> spec_fn(HeaderView) -> bool {
    |h: HeaderView| !same_header(h.name, host_header()) && !same_header(h.name, tenant_header())
}

/// The tenant header that is added to every upstream request.
pub open spec fn injected(tenant_id: Seq<char>) -> HeaderView {
    HeaderView { name: tenant_header(), value: encode_utf8(tenant_id) }
}

/// The headers of the upstream request: the inbound ones that are passed
/// on, in their order, and then the tenant header.
pub open spec fn upstream_headers(headers: Seq<HeaderView>, tenant_id: Seq<char>) -> Seq<
    HeaderView,
> {
    headers.filter(passed_on()).push(injected(tenant_id))
}

/// The upstream URL: scheme, the server's address, then path and query as
/// they came.
pub open spec fn upstream_url_of(address: Seq<char>, path: Seq<char>, query: Option<Seq<char>>) -> Seq<
    char,
> {
    "http://"@ + address + path + match query {
        Some(q) => "?"@ + q,
        None => Seq::empty(),
    }
}

/// What becomes of a request for `tenant`, given the upstream URL and
/// whether that URL is valid.
pub open spec fn forward_plan(
    tenant: TenantView,
    url: Seq<char>,
    url_ok: bool,
    headers: Seq<HeaderView>,
) -> Result<UpstreamView, ProxyErrorView> {
    if tenant.status != active() {
        Err(ProxyErrorView::TenantInactive { tenant_id: tenant.id, status: tenant.status })
    } else if !url_ok {
        Err(ProxyErrorView::InvalidUpstreamUrl)
    } else if !is_header_value(encode_utf8(tenant.id)) {
        Err(ProxyErrorView::InvalidRequest)
    } else {
        Ok(UpstreamView { url, headers: upstream_headers(headers, tenant.id) })
    }
}

/// What becomes of a request for `tenant` on `server`.
pub open spec fn plan(
    tenant: TenantView,
    server: ServerView,
    path: Seq<char>,
    query: Option<Seq<char>>,
    headers: Seq<HeaderView>,
) -> Result<UpstreamView, ProxyErrorView> {
    let url = upstream_url_of(server.address, path, query);
    forward_plan(tenant, url, uri_accepts(url), headers)
}

/// What becomes of a request: where it is forwarded to, or why it is not.
pub open spec fn handled(
    d: Directory,
    host: Seq<char>,
    path: Seq<char>,
    query: Option<Seq<char>>,
    headers: Seq<HeaderView>,
) -> Result<UpstreamView, ProxyErrorView> {
    match route(d, host) {
        Err(e) => Err(e),
        Ok((tenant, server)) => plan(tenant, server, path, query, headers),
    }
}

/// The upstream URL for a request: `http://`, the server's address, and
/// path and query exactly as the client sent them.
pub fn upstream_url(address: &str, path: &str, query: Option<&str>) -> (url: String)
    ensures
        url@ == upstream_url_of(address@, path@, opt_str_view(query)),
{
    let mut url = joined("http://", address);
    url.append(path);
    match query {
        Some(q) => {
            url.append("?");
            url.append(q);
            assert(url@ =~= "http://"@ + address@ + path@ + ("?"@ + q@));
        },
        None => {
            assert(url@ =~= "http://"@ + address@ + path@ + Seq::<char>::empty());
        },
    }
    url
}

/// The headers of the upstream request. The host header is left out. So is
/// every tenant header that the client sent, whatever its value: the one
/// tenant header that goes upstream is added here, last, and names
/// `tenant_id`. The other headers keep their order and their values.
pub fn forward_headers(headers: &Vec<Header>, tenant_id: &str) -> (out: Vec<Header>)
    ensures
        header_views(out@) == upstream_headers(header_views(headers@), tenant_id@),
        out@.len() >= 1,
        out@.last()@ == injected(tenant_id@),
        forall|i: int|
            0 <= i < out@.len() - 1 ==> !same_header((#[trigger] out@[i])@.name, tenant_header())
                && !same_header(out@[i]@.name, host_header()),
{
    let ghost all = header_views(headers@);
    let ghost p = passed_on();
    let mut out: Vec<Header> = Vec::new();
    let mut i: usize = 0;
    assert(all.take(0) =~= Seq::empty());
    assert(header_views(out@) =~= all.take(0).filter(p));
    while i < headers.len()
        invariant
            i <= headers.len(),
            all == header_views(headers@),
            p == passed_on(),
            header_views(out@) == all.take(i as int).filter(p),
        decreases headers.len() - i,
    {
        let ghost before = header_views(out@);
        proof {
            assert(all.take(i + 1) =~= all.take(i as int).push(all[i as int]));
            all.take(i as int).lemma_filter_push(all[i as int], p);
        }
        let h = &headers[i];
        if !eq_ignore_ascii_case(h.name.as_str(), "Host") && !eq_ignore_ascii_case(
            h.name.as_str(),
            "X-Tenant-ID",
        ) {
            out.push(h.clone());
            assert(header_views(out@) =~= before.push(h@));
        }
        i = i + 1;
    }
    assert(all.take(i as int) =~= all);
    let ghost kept = header_views(out@);
    let tenant = Header { name: String::from_str("X-Tenant-ID"), value: tenant_id.as_bytes_vec() };
    out.push(tenant);
    proof {
        assert(header_views(out@) =~= kept.push(injected(tenant_id@)));
        assert forall|k: int| 0 <= k < out@.len() - 1 implies !same_header(
            (#[trigger] out@[k])@.name,
            tenant_header(),
        ) && !same_header(out@[k]@.name, host_header()) by {
            all.lemma_filter_pred(p, k);
            assert(out@[k]@ == kept[k]);
        }
    }
    out
}

/// Whether `status` is the status that receives traffic.
pub fn is_active(status: &str) -> (yes: bool)
    ensures
        yes == (status@ == active()),
{
    str_eq(status, "active")
}

/// Decides what becomes of a request for `tenant`, given the upstream URL
/// and whether it is a valid URI. A tenant that is not active is refused
/// with `TenantInactive`, whatever else holds, and nothing is forwarded.
/// Else an invalid URL is refused, else a tenant id that cannot stand in a
/// header. Otherwise the request goes to `url` with the headers of
/// `forward_headers`.
pub fn forward(tenant: &Tenant, url: String, url_ok: bool, headers: &Vec<Header>) -> (result:
    Result<UpstreamRequest, ProxyError>)
    ensures
        plan_view(result) == forward_plan(tenant@, url@, url_ok, header_views(headers@)),
        tenant@.status != active() ==> result is Err && result->Err_0@.status_code() == 503,
        result matches Ok(u) ==> u.headers@.len() >= 1 && u.headers@.last()@ == injected(
            tenant@.id,
        ) && forall|i: int|
            0 <= i < u.headers@.len() - 1 ==> !same_header(
                (#[trigger] u.headers@[i])@.name,
                tenant_header(),
            ),
{
    if !is_active(tenant.status.as_str()) {
        return Err(
            ProxyError::TenantInactive {
                tenant_id: tenant.id.clone(),
                status: tenant.status.clone(),
            },
        );
    }
    if !url_ok {
        return Err(ProxyError::InvalidUpstreamUrl);
    }
    if !header_value_ok(tenant.id.as_str().as_bytes()) {
        return Err(ProxyError::InvalidRequest);
    }
    let out = forward_headers(headers, tenant.id.as_str());
    Ok(UpstreamRequest { url, headers: out })
}

/// Decides what becomes of a request for `tenant`, which lives on `server`:
/// see `forward`, with the URL of `upstream_url`.
pub fn plan_request(
    tenant: &Tenant,
    server: &Server,
    path: &str,
    query: Option<&str>,
    headers: &Vec<Header>,
) -> (result: Result<UpstreamRequest, ProxyError>)
    ensures
        plan_view(result) == plan(
            tenant@,
            server@,
            path@,
            opt_str_view(query),
            header_views(headers@),
        ),
        tenant@.status != active() ==> result is Err && result->Err_0@.status_code() == 503,
        result matches Ok(u) ==> u.headers@.len() >= 1 && u.headers@.last()@ == injected(
            tenant@.id,
        ) && forall|i: int|
            0 <= i < u.headers@.len() - 1 ==> !same_header(
                (#[trigger] u.headers@[i])@.name,
                tenant_header(),
            ),
{
    let url = upstream_url(server.address.as_str(), path, query);
    let url_ok = parses_as_uri(url.as_str());
    forward(tenant, url, url_ok, headers)
}

/// Decides what becomes of an inbound request: the upstream request to
/// send, or the error to answer with. The tenant comes from the hostname
/// (see `resolve_host`), the upstream request from `plan_request`.
pub fn handle_request(
    db: &Database,
    host: &str,
    path: &str,
    query: Option<&str>,
    headers: &Vec<Header>,
) -> (result: Result<UpstreamRequest, ProxyError>)
    ensures
        plan_view(result) == handled(
            db@,
            host@,
            path@,
            opt_str_view(query),
            header_views(headers@),
        ),
        route(db@, host@) matches Ok((tenant, _)) && tenant.status != active() ==> result is Err
            && result->Err_0@.status_code() == 503,
        result matches Ok(u) ==> route(db@, host@) matches Ok((tenant, _)) && u.headers@.len() >= 1
            && u.headers@.last()@ == injected(tenant.id) && forall|i: int|
            0 <= i < u.headers@.len() - 1 ==> !same_header(
                (#[trigger] u.headers@[i])@.name,
                tenant_header(),
            ),
{
    match resolve_host(db, host) {
        Err(e) => Err(e),
        Ok((tenant, server)) => plan_request(&tenant, &server, path, query, headers),
    }
}

} // verus!
