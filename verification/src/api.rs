//! The management surface: each operation of the directory as a request
//! and the response that answers it.

use crate::db::{
    opt_view, server_views, tenant_views, Database, Server, Tenant,
};
use crate::error::DirectoryError;
use crate::model::{ErrorView, ServerView, TenantView};
use vstd::prelude::*;
use vstd::string::*;

verus! {

/// The request to add a server.
#[derive(Debug, PartialEq, Eq)]
pub struct AddServerRequest {
    pub name: String,
    pub address: String,
}

/// The request to add a tenant: on the named server or, without one, where
/// the placement policy puts it.
#[derive(Debug, PartialEq, Eq)]
pub struct AddTenantRequest {
    pub id: String,
    pub server: Option<String>,
    pub config: Option<String>,
}

/// What a response carries.
#[derive(Debug, PartialEq, Eq)]
pub enum ApiBody {
    /// The service is up.
    Health,
    Server(Server),
    Servers(Vec<Server>),
    Tenant(Tenant),
    Tenants(Vec<Tenant>),
    /// Nothing: the operation succeeded and has nothing to report.
    Empty,
    /// The reason for a refusal.
    Error(String),
}

/// The answer to a management request: an HTTP status and a payload.
#[derive(Debug, PartialEq, Eq)]
pub struct ApiResponse {
    pub status: u16,
    pub body: ApiBody,
}

/// An `ApiBody` as contracts see it.
pub enum ApiBodyView {
    Health,
    Server(ServerView),
    Servers(Seq<ServerView>),
    Tenant(TenantView),
    Tenants(Seq<TenantView>),
    Empty,
    Error(Seq<char>),
}

/// An `ApiResponse` as contracts see it.
pub struct ApiResponseView {
    pub status: u16,
    pub body: ApiBodyView,
}

impl View for ApiBody {
    type V = ApiBodyView;

    open spec fn view(&self) -> ApiBodyView {
        match *self {
            ApiBody::Health => ApiBodyView::Health,
            ApiBody::Server(s) => ApiBodyView::Server(s@),
            ApiBody::Servers(l) => ApiBodyView::Servers(server_views(l@)),
            ApiBody::Tenant(t) => ApiBodyView::Tenant(t@),
            ApiBody::Tenants(l) => ApiBodyView::Tenants(tenant_views(l@)),
            ApiBody::Empty => ApiBodyView::Empty,
            ApiBody::Error(m) => ApiBodyView::Error(m@),
        }
    }
}

impl View for ApiResponse {
    type V = ApiResponseView;

    open spec fn view(&self) -> ApiResponseView {
        ApiResponseView { status: self.status, body: self.body@ }
    }
}

/// The response that refuses a request: status 400 and the reason in words.
pub open spec fn refusal(e: ErrorView) -> ApiResponseView {
    ApiResponseView { status: 400, body: ApiBodyView::Error(e.message()) }
}

/// The response to a request that created a server, or was refused.
pub open spec fn server_created(r: Result<ServerView, ErrorView>) -> ApiResponseView {
    match r {
        Ok(s) => ApiResponseView { status: 201, body: ApiBodyView::Server(s) },
        Err(e) => refusal(e),
    }
}

/// The response to a request that created a tenant, or was refused.
pub open spec fn tenant_created(r: Result<TenantView, ErrorView>) -> ApiResponseView {
    match r {
        Ok(t) => ApiResponseView { status: 201, body: ApiBodyView::Tenant(t) },
        Err(e) => refusal(e),
    }
}

/// The response to a request that removed something, or was refused.
pub open spec fn removed(r: Result<(), ErrorView>) -> ApiResponseView {
    match r {
        Ok(_) => ApiResponseView { status: 204, body: ApiBodyView::Empty },
        Err(e) => refusal(e),
    }
}

/// The response that refuses a request.
fn refuse(e: &DirectoryError) -> (response: ApiResponse)
    ensures
        response@ == refusal(e@),
{
    ApiResponse { status: 400, body: ApiBody::Error(e.message()) }
}

/// The health check: status 200.
pub fn health() -> (response: ApiResponse)
    ensures
        response@ == (ApiResponseView { status: 200, body: ApiBodyView::Health }),
{
    ApiResponse { status: 200, body: ApiBody::Health }
}

/// Adds the server that `req` describes. Status 201 with the new server,
/// or 400 with the reason; see `Database::add_server` for when.
pub fn add_server(db: &mut Database, req: &AddServerRequest) -> (response: ApiResponse)
    ensures
        old(db)@.name_taken(req.name@) ==> final(db)@ == old(db)@ && response@ == refusal(
            ErrorView::ServerNameTaken(req.name@),
        ),
        !old(db)@.name_taken(req.name@) ==> match response.body {
            ApiBody::Server(s) => response.status == 201 && s.id@.len() == 36 && (
                final(db)@,
                Ok::<ServerView, ErrorView>(s@),
            ) == old(db)@.insert_server(s.id@, req.name@, req.address@, s.created_at@),
            _ => {
                &&& final(db)@ == old(db)@
                &&& exists|i: Seq<char>| #[trigger]
                    old(db)@.has_server_id(i) && response@ == refusal(ErrorView::ServerIdTaken(i))
            },
        },
        old(db)@.wf() ==> final(db)@.wf(),
{
    match db.add_server(req.name.as_str(), req.address.as_str()) {
        Ok(server) => ApiResponse { status: 201, body: ApiBody::Server(server) },
        Err(e) => refuse(&e),
    }
}

/// Lists the servers: status 200 with every server and its tenant count.
pub fn list_servers(db: &Database) -> (response: ApiResponse)
    ensures
        response@ == (ApiResponseView {
            status: 200,
            body: ApiBodyView::Servers(db@.listing()),
        }),
{
    ApiResponse { status: 200, body: ApiBody::Servers(db.list_servers()) }
}

/// Removes the server that answers to `id`. Status 204, or 400 with the
/// reason: no such server, or the server still has tenants.
pub fn remove_server(db: &mut Database, id: &str) -> (response: ApiResponse)
    ensures
        final(db)@ == old(db)@.remove_server(id@).0,
        response@ == removed(old(db)@.remove_server(id@).1),
        old(db)@.wf() ==> final(db)@.wf(),
{
    match db.remove_server(id) {
        Ok(()) => ApiResponse { status: 204, body: ApiBody::Empty },
        Err(e) => refuse(&e),
    }
}

/// Adds the tenant that `req` describes. Status 201 with the new tenant, or
/// 400 with the reason; see `Database::insert_tenant` for when.
pub fn add_tenant(db: &mut Database, req: &AddTenantRequest) -> (response: ApiResponse)
    ensures
        match old(db)@.admission(req.id@, opt_view(req.server)) {
            Ok(_) => match response.body {
                ApiBody::Tenant(t) => response.status == 201 && (
                    final(db)@,
                    Ok::<TenantView, ErrorView>(t@),
                ) == old(db)@.insert_tenant(
                    req.id@,
                    opt_view(req.server),
                    opt_view(req.config),
                    t.created_at@,
                ),
                _ => false,
            },
            Err(e) => final(db)@ == old(db)@ && response@ == refusal(e),
        },
        old(db)@.wf() ==> final(db)@.wf(),
{
    let server: Option<&str> = match &req.server {
        Some(s) => Some(s.as_str()),
        None => None,
    };
    let config: Option<&str> = match &req.config {
        Some(c) => Some(c.as_str()),
        None => None,
    };
    match db.add_tenant(req.id.as_str(), server, config) {
        Ok(tenant) => ApiResponse { status: 201, body: ApiBody::Tenant(tenant) },
        Err(e) => refuse(&e),
    }
}

/// Lists the tenants: status 200 with every tenant.
pub fn list_tenants(db: &Database) -> (response: ApiResponse)
    ensures
        response@ == (ApiResponseView { status: 200, body: ApiBodyView::Tenants(db@.tenants) }),
{
    ApiResponse { status: 200, body: ApiBody::Tenants(db.list_tenants()) }
}

/// Removes the tenant `id` with its aliases: status 204, also where there
/// was no such tenant.
pub fn remove_tenant(db: &mut Database, id: &str) -> (response: ApiResponse)
    ensures
        final(db)@ == old(db)@.remove_tenant(id@),
        response@ == (ApiResponseView { status: 204, body: ApiBodyView::Empty }),
        old(db)@.wf() ==> final(db)@.wf(),
{
    db.remove_tenant(id);
    ApiResponse { status: 204, body: ApiBody::Empty }
}

} // verus!
