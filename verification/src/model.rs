//! The mathematical model of the fleet directory: what the directory holds,
//! what each lookup answers and what each mutation leaves behind.

use crate::seqs::first_index;
use vstd::prelude::*;

verus! {

/// A server as the directory stores it.
pub struct ServerRow {
    pub id: Seq<char>,
    pub name: Seq<char>,
    pub address: Seq<char>,
    pub created_at: Seq<char>,
}

/// A server as the directory reports it: the stored row and the number of
/// tenants that are assigned to it at that moment.
pub struct ServerView {
    pub id: Seq<char>,
    pub name: Seq<char>,
    pub address: Seq<char>,
    pub tenant_count: nat,
    pub created_at: Seq<char>,
}

/// A tenant.
pub struct TenantView {
    pub id: Seq<char>,
    pub server_id: Seq<char>,
    pub config: Option<Seq<char>>,
    pub status: Seq<char>,
    pub created_at: Seq<char>,
}

/// A hostname that stands for a tenant.
pub struct AliasView {
    pub domain: Seq<char>,
    pub tenant_id: Seq<char>,
}

/// Why a directory operation was refused.
pub enum ErrorView {
    ServerNotFound(Seq<char>),
    ServerNameTaken(Seq<char>),
    ServerIdTaken(Seq<char>),
    ServerHasTenants(nat),
    NoServersAvailable,
    TenantExists(Seq<char>),
    ServerMissingForTenant(Seq<char>),
}

/// The status that a new tenant gets, and the only one that receives traffic.
pub open spec fn active() -> Seq<char> {
    "active"@
}

/// The servers that answer to `key`: by id or by name.
pub open spec fn answers_to(key: Seq<char>) -> spec_fn(ServerRow) -> bool {
    |r: ServerRow| r.id == key || r.name == key
}

/// The servers with the id `id`.
pub open spec fn has_id(id: Seq<char>) -> spec_fn(ServerRow) -> bool {
    |r: ServerRow| r.id == id
}

/// The tenants with the id `id`.
pub open spec fn tenant_is(id: Seq<char>) -> spec_fn(TenantView) -> bool {
    |t: TenantView| t.id == id
}

/// The tenants with another id than `id`.
pub open spec fn tenant_is_not(id: Seq<char>) -> spec_fn(TenantView) -> bool {
    |t: TenantView| t.id != id
}

/// The tenants that are assigned to the server with the id `server_id`.
pub open spec fn hosted_on(server_id: Seq<char>) -> spec_fn(TenantView) -> bool {
    |t: TenantView| t.server_id == server_id
}

/// The aliases of the hostname `domain`.
pub open spec fn alias_of(domain: Seq<char>) -> spec_fn(AliasView) -> bool {
    |a: AliasView| a.domain == domain
}

/// The aliases that stand for another tenant than `tenant_id`.
pub open spec fn points_elsewhere(tenant_id: Seq<char>) -> spec_fn(AliasView) -> bool {
    |a: AliasView| a.tenant_id != tenant_id
}

/// In the listing `servers`, `i` is the server that a new tenant is placed
/// on: none has fewer tenants, and each server before it has more.
pub open spec fn is_least_loaded(servers: Seq<ServerView>, i: int) -> bool {
    &&& 0 <= i < servers.len()
    &&& forall|j: int|
        0 <= j < servers.len() ==> servers[i].tenant_count <= (#[trigger] servers[j]).tenant_count
    &&& forall|j: int| 0 <= j < i ==> servers[i].tenant_count < (#[trigger] servers[j]).tenant_count
}

/// The position in `servers` of the server that a new tenant is placed on;
/// none where there is no server.
pub open spec fn least_loaded(servers: Seq<ServerView>) -> Option<int> {
    if servers.len() == 0 {
        None
    } else {
        Some(choose|i: int| is_least_loaded(servers, i))
    }
}

/// The fleet directory: servers in the order of their creation, tenants in
/// the order of theirs, and the hostname aliases.
pub struct Directory {
    pub servers: Seq<ServerRow>,
    pub tenants: Seq<TenantView>,
    pub aliases: Seq<AliasView>,
}

impl Directory {
    /// The directory without servers, tenants and aliases.
    pub open spec fn empty() -> Directory {
        Directory { servers: Seq::empty(), tenants: Seq::empty(), aliases: Seq::empty() }
    }

    /// The number of tenants that are assigned to the server with the id `server_id`.
    pub open spec fn tenant_count(self, server_id: Seq<char>) -> nat {
        self.tenants.filter(hosted_on(server_id)).len()
    }

    /// The server at position `i` with its number of tenants.
    pub open spec fn annotated(self, i: int) -> ServerView {
        let r = self.servers[i];
        ServerView {
            id: r.id,
            name: r.name,
            address: r.address,
            tenant_count: self.tenant_count(r.id),
            created_at: r.created_at,
        }
    }

    /// All servers in the order of their creation, each with its number of tenants.
    pub open spec fn listing(self) -> Seq<ServerView> {
        Seq::new(self.servers.len(), |i: int| self.annotated(i))
    }

    /// The position of the first server that answers to `key`.
    pub open spec fn server_index(self, key: Seq<char>) -> Option<int> {
        first_index(self.servers, answers_to(key))
    }

    /// The first server that answers to `key`, by id or by name.
    pub open spec fn get_server(self, key: Seq<char>) -> Option<ServerView> {
        match self.server_index(key) {
            Some(i) => Some(self.annotated(i)),
            None => None,
        }
    }

    /// The server with the id `id`. Names play no part: this is how a
    /// tenant's `server_id` is followed.
    pub open spec fn server_by_id(self, id: Seq<char>) -> Option<ServerView> {
        match first_index(self.servers, has_id(id)) {
            Some(i) => Some(self.annotated(i)),
            None => None,
        }
    }

    /// The tenant with the id `id`.
    pub open spec fn get_tenant(self, id: Seq<char>) -> Option<TenantView> {
        match first_index(self.tenants, tenant_is(id)) {
            Some(i) => Some(self.tenants[i]),
            None => None,
        }
    }

    /// The tenant that the hostname `domain` stands for.
    pub open spec fn lookup_by_domain(self, domain: Seq<char>) -> Option<Seq<char>> {
        match first_index(self.aliases, alias_of(domain)) {
            Some(i) => Some(self.aliases[i].tenant_id),
            None => None,
        }
    }

    /// The tenant with the id `id` together with its server: the server
    /// whose id is the tenant's `server_id`. An error where the directory
    /// holds no server of that id.
    pub open spec fn lookup_tenant(self, id: Seq<char>) -> Result<
        Option<(TenantView, ServerView)>,
        ErrorView,
    > {
        match self.get_tenant(id) {
            None => Ok(None),
            Some(t) => match self.server_by_id(t.server_id) {
                Some(s) => Ok(Some((t, s))),
                None => Err(ErrorView::ServerMissingForTenant(id)),
            },
        }
    }

    /// Some server has the name `name`.
    pub open spec fn name_taken(self, name: Seq<char>) -> bool {
        exists|i: int| 0 <= i < self.servers.len() && (#[trigger] self.servers[i]).name == name
    }

    /// Some server has the id `id`.
    pub open spec fn has_server_id(self, id: Seq<char>) -> bool {
        exists|i: int| 0 <= i < self.servers.len() && (#[trigger] self.servers[i]).id == id
    }

    /// Some tenant has the id `id`.
    pub open spec fn has_tenant(self, id: Seq<char>) -> bool {
        exists|i: int| 0 <= i < self.tenants.len() && (#[trigger] self.tenants[i]).id == id
    }

    /// The position of the server that a new tenant is placed on when the
    /// caller names none: the least loaded, the earliest of several.
    pub open spec fn placement(self) -> Option<int> {
        least_loaded(self.listing())
    }

    /// The directory after a request to add a server, and the answer.
    pub open spec fn insert_server(
        self,
        id: Seq<char>,
        name: Seq<char>,
        address: Seq<char>,
        created_at: Seq<char>,
    ) -> (Directory, Result<ServerView, ErrorView>) {
        if self.name_taken(name) {
            (self, Err(ErrorView::ServerNameTaken(name)))
        } else if self.has_server_id(id) {
            (self, Err(ErrorView::ServerIdTaken(id)))
        } else {
            (
                Directory {
                    servers: self.servers.push(ServerRow { id, name, address, created_at }),
                    ..self
                },
                Ok(ServerView { id, name, address, tenant_count: 0, created_at }),
            )
        }
    }

    /// The directory after a request to remove the server that answers to
    /// `key`, and the answer.
    pub open spec fn remove_server(self, key: Seq<char>) -> (Directory, Result<(), ErrorView>) {
        match self.server_index(key) {
            None => (self, Err(ErrorView::ServerNotFound(key))),
            Some(i) => {
                let n = self.tenant_count(self.servers[i].id);
                if n > 0 {
                    (self, Err(ErrorView::ServerHasTenants(n)))
                } else {
                    (Directory { servers: self.servers.remove(i), ..self }, Ok(()))
                }
            },
        }
    }

    /// The position of the server that a new tenant goes to: the one that
    /// answers to `key`, or the placement where the caller names none.
    pub open spec fn target(self, key: Option<Seq<char>>) -> Result<int, ErrorView> {
        match key {
            Some(k) => match self.server_index(k) {
                Some(i) => Ok(i),
                None => Err(ErrorView::ServerNotFound(k)),
            },
            None => match self.placement() {
                Some(i) => Ok(i),
                None => Err(ErrorView::NoServersAvailable),
            },
        }
    }

    /// Whether a tenant `id` can be added for `key`: the position of its
    /// server, or the reason why not. The creation time plays no part.
    pub open spec fn admission(self, id: Seq<char>, key: Option<Seq<char>>) -> Result<
        int,
        ErrorView,
    > {
        match self.target(key) {
            Err(e) => Err(e),
            Ok(i) => if self.has_tenant(id) {
                Err(ErrorView::TenantExists(id))
            } else {
                Ok(i)
            },
        }
    }

    /// The directory after a request to add a tenant, and the answer.
    pub open spec fn insert_tenant(
        self,
        id: Seq<char>,
        key: Option<Seq<char>>,
        config: Option<Seq<char>>,
        created_at: Seq<char>,
    ) -> (Directory, Result<TenantView, ErrorView>) {
        match self.admission(id, key) {
            Err(e) => (self, Err(e)),
            Ok(i) => {
                let t = TenantView {
                    id,
                    server_id: self.servers[i].id,
                    config,
                    status: active(),
                    created_at,
                };
                (Directory { tenants: self.tenants.push(t), ..self }, Ok(t))
            },
        }
    }

    /// The directory after the tenant `id` was removed, with every alias
    /// that stood for it.
    pub open spec fn remove_tenant(self, id: Seq<char>) -> Directory {
        Directory {
            servers: self.servers,
            tenants: self.tenants.filter(tenant_is_not(id)),
            aliases: self.aliases.filter(points_elsewhere(id)),
        }
    }

    /// No two servers share an id.
    pub open spec fn server_ids_distinct(self) -> bool {
        forall|i: int, j: int|
            0 <= i < j < self.servers.len() ==> (#[trigger] self.servers[i]).id != (
            #[trigger] self.servers[j]).id
    }

    /// No two servers share a name.
    pub open spec fn server_names_distinct(self) -> bool {
        forall|i: int, j: int|
            0 <= i < j < self.servers.len() ==> (#[trigger] self.servers[i]).name != (
            #[trigger] self.servers[j]).name
    }

    /// No two tenants share an id.
    pub open spec fn tenant_ids_distinct(self) -> bool {
        forall|i: int, j: int|
            0 <= i < j < self.tenants.len() ==> (#[trigger] self.tenants[i]).id != (
            #[trigger] self.tenants[j]).id
    }

    /// No two aliases share a hostname.
    pub open spec fn alias_domains_distinct(self) -> bool {
        forall|i: int, j: int|
            0 <= i < j < self.aliases.len() ==> (#[trigger] self.aliases[i]).domain != (
            #[trigger] self.aliases[j]).domain
    }

    /// Every tenant is assigned to a server that the directory holds.
    pub open spec fn tenants_hosted(self) -> bool {
        forall|t: int|
            0 <= t < self.tenants.len() ==> self.has_server_id((#[trigger] self.tenants[t]).server_id)
    }

    /// The directory is consistent: ids, names and hostnames are unique and
    /// every tenant's server exists.
    pub open spec fn wf(self) -> bool {
        &&& self.server_ids_distinct()
        &&& self.server_names_distinct()
        &&& self.tenant_ids_distinct()
        &&& self.alias_domains_distinct()
        &&& self.tenants_hosted()
    }
}

} // verus!
