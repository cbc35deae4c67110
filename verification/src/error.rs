//! Why the directory refuses an operation.

use crate::model::ErrorView;
use crate::text::{decimal, decimal_string, joined};
use vstd::prelude::*;
use vstd::string::*;

verus! {

/// The classes of failure that the directory and the routing path know.
#[derive(Clone, Copy, Debug, PartialEq, Eq, Structural)]
pub enum ErrorKind {
    /// The request names no tenant.
    BadRequest,
    /// A server, tenant or hostname is not in the directory.
    NotFound,
    /// A name or id is taken, a server still has tenants, or there is no
    /// server to place a tenant on.
    Conflict,
    /// The tenant is in a status that receives no traffic.
    InvalidState,
    /// The backend could not be reached.
    UpstreamUnreachable,
    /// The directory contradicts itself, or a request could not be built.
    InternalInconsistency,
}

/// A refusal by the directory.
#[derive(Debug, PartialEq, Eq)]
pub enum DirectoryError {
    /// No server answers to this id or name.
    ServerNotFound(String),
    /// A server with this name exists already.
    ServerNameTaken(String),
    /// A server with this id exists already.
    ServerIdTaken(String),
    /// The server still has this many tenants.
    ServerHasTenants(usize),
    /// There is no server to place a tenant on.
    NoServersAvailable,
    /// A tenant with this id exists already.
    TenantExists(String),
    /// The tenant with this id names a server that the directory does not hold.
    ServerMissingForTenant(String),
}

impl View for DirectoryError {
    type V = ErrorView;

    open spec fn view(&self) -> ErrorView {
        match *self {
            DirectoryError::ServerNotFound(k) => ErrorView::ServerNotFound(k@),
            DirectoryError::ServerNameTaken(n) => ErrorView::ServerNameTaken(n@),
            DirectoryError::ServerIdTaken(i) => ErrorView::ServerIdTaken(i@),
            DirectoryError::ServerHasTenants(n) => ErrorView::ServerHasTenants(n as nat),
            DirectoryError::NoServersAvailable => ErrorView::NoServersAvailable,
            DirectoryError::TenantExists(i) => ErrorView::TenantExists(i@),
            DirectoryError::ServerMissingForTenant(i) => ErrorView::ServerMissingForTenant(i@),
        }
    }
}

impl ErrorView {
    /// The class of the refusal.
    pub open spec fn kind(self) -> ErrorKind {
        match self {
            ErrorView::ServerNotFound(_) => ErrorKind::NotFound,
            ErrorView::ServerNameTaken(_) => ErrorKind::Conflict,
            ErrorView::ServerIdTaken(_) => ErrorKind::Conflict,
            ErrorView::ServerHasTenants(_) => ErrorKind::Conflict,
            ErrorView::NoServersAvailable => ErrorKind::Conflict,
            ErrorView::TenantExists(_) => ErrorKind::Conflict,
            ErrorView::ServerMissingForTenant(_) => ErrorKind::InternalInconsistency,
        }
    }

    /// The refusal in words.
    pub open spec fn message(self) -> Seq<char> {
        match self {
            ErrorView::ServerNotFound(k) => "Server not found: "@ + k,
            ErrorView::ServerNameTaken(n) => "Server name already exists: "@ + n,
            ErrorView::ServerIdTaken(i) => "Server id already exists: "@ + i,
            ErrorView::ServerHasTenants(n) => "Cannot remove server with "@ + decimal(n)
                + " tenants. Move or remove tenants first."@,
            ErrorView::NoServersAvailable => "No servers available. Add a server first."@,
            ErrorView::TenantExists(i) => "Tenant already exists: "@ + i,
            ErrorView::ServerMissingForTenant(i) => "Server not found for tenant: "@ + i,
        }
    }
}

impl DirectoryError {
    /// The class of the refusal.
    pub fn kind(&self) -> (k: ErrorKind)
        ensures
            k == self@.kind(),
    {
        match self {
            DirectoryError::ServerNotFound(_) => ErrorKind::NotFound,
            DirectoryError::ServerNameTaken(_) => ErrorKind::Conflict,
            DirectoryError::ServerIdTaken(_) => ErrorKind::Conflict,
            DirectoryError::ServerHasTenants(_) => ErrorKind::Conflict,
            DirectoryError::NoServersAvailable => ErrorKind::Conflict,
            DirectoryError::TenantExists(_) => ErrorKind::Conflict,
            DirectoryError::ServerMissingForTenant(_) => ErrorKind::InternalInconsistency,
        }
    }

    /// The refusal in words.
    pub fn message(&self) -> (m: String)
        ensures
            m@ == self@.message(),
    {
        match self {
            DirectoryError::ServerNotFound(k) => joined("Server not found: ", k.as_str()),
            DirectoryError::ServerNameTaken(n) => joined(
                "Server name already exists: ",
                n.as_str(),
            ),
            DirectoryError::ServerIdTaken(i) => joined("Server id already exists: ", i.as_str()),
            DirectoryError::ServerHasTenants(n) => {
                let count = decimal_string(*n);
                let mut m = joined("Cannot remove server with ", count.as_str());
                m.append(" tenants. Move or remove tenants first.");
                m
            },
            DirectoryError::NoServersAvailable => String::from_str(
                "No servers available. Add a server first.",
            ),
            DirectoryError::TenantExists(i) => joined("Tenant already exists: ", i.as_str()),
            DirectoryError::ServerMissingForTenant(i) => joined(
                "Server not found for tenant: ",
                i.as_str(),
            ),
        }
    }
}

} // verus!
