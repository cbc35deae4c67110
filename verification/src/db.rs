//! The directory store: servers, tenants and hostname aliases, and the
//! operations that read and change them.

use crate::error::{DirectoryError, ErrorKind};
use crate::model::{
    alias_of, answers_to, has_id, hosted_on, points_elsewhere, tenant_is, tenant_is_not, AliasView,
    Directory, ErrorView, ServerRow, ServerView, TenantView,
};
use crate::seqs::{
    first_index, lemma_first_index_absent, lemma_first_index_facts, lemma_first_index_found,
};
use crate::invariants::{
    lemma_insert_server_keeps_wf, lemma_lookup_joins_by_id, lemma_insert_tenant_keeps_wf, lemma_remove_server_keeps_wf,
    lemma_remove_tenant_keeps_wf, lemma_target_in_range,
};
use crate::placement::pick_server;
use crate::text::str_eq;
use crate::trusted::{fresh_id, timestamp};
use vstd::prelude::*;
use vstd::string::*;

verus! {

/// A backend server as the directory reports it.
#[derive(Debug, PartialEq, Eq)]
pub struct Server {
    pub id: String,
    pub name: String,
    pub address: String,
    pub tenant_count: usize,
    pub created_at: String,
}

/// A backend server as the directory stores it.
#[derive(Debug, PartialEq, Eq)]
pub struct ServerRecord {
    pub id: String,
    pub name: String,
    pub address: String,
    pub created_at: String,
}

/// A tenant and the server that it is assigned to.
#[derive(Debug, PartialEq, Eq)]
pub struct Tenant {
    pub id: String,
    pub server_id: String,
    pub config: Option<String>,
    pub status: String,
    pub created_at: String,
}

/// A hostname that stands for a tenant.
#[derive(Debug, PartialEq, Eq)]
pub struct DomainAlias {
    pub domain: String,
    pub tenant_id: String,
}

/// The characters of an optional string.
pub open spec fn opt_view(s: Option<String>) -> Option<Seq<char>> {
    match s {
        Some(x) => Some(x@),
        None => None,
    }
}

/// The characters of an optional string slice.
pub open spec fn opt_str_view(s: Option<&str>) -> Option<Seq<char>> {
    match s {
        Some(x) => Some(x@),
        None => None,
    }
}

impl View for Server {
    type V = ServerView;

    open spec fn view(&self) -> ServerView {
        ServerView {
            id: self.id@,
            name: self.name@,
            address: self.address@,
            tenant_count: self.tenant_count as nat,
            created_at: self.created_at@,
        }
    }
}

impl View for ServerRecord {
    type V = ServerRow;

    open spec fn view(&self) -> ServerRow {
        ServerRow {
            id: self.id@,
            name: self.name@,
            address: self.address@,
            created_at: self.created_at@,
        }
    }
}

impl View for Tenant {
    type V = TenantView;

    open spec fn view(&self) -> TenantView {
        TenantView {
            id: self.id@,
            server_id: self.server_id@,
            config: opt_view(self.config),
            status: self.status@,
            created_at: self.created_at@,
        }
    }
}

impl View for DomainAlias {
    type V = AliasView;

    open spec fn view(&self) -> AliasView {
        AliasView { domain: self.domain@, tenant_id: self.tenant_id@ }
    }
}

impl Clone for Server {
    fn clone(&self) -> (copy: Self)
        ensures
            copy@ == self@,
    {
        Server {
            id: self.id.clone(),
            name: self.name.clone(),
            address: self.address.clone(),
            tenant_count: self.tenant_count,
            created_at: self.created_at.clone(),
        }
    }
}

impl Clone for ServerRecord {
    fn clone(&self) -> (copy: Self)
        ensures
            copy@ == self@,
    {
        ServerRecord {
            id: self.id.clone(),
            name: self.name.clone(),
            address: self.address.clone(),
            created_at: self.created_at.clone(),
        }
    }
}

impl Clone for Tenant {
    fn clone(&self) -> (copy: Self)
        ensures
            copy@ == self@,
    {
        let config = match &self.config {
            Some(c) => Some(c.clone()),
            None => None,
        };
        Tenant {
            id: self.id.clone(),
            server_id: self.server_id.clone(),
            config,
            status: self.status.clone(),
            created_at: self.created_at.clone(),
        }
    }
}

impl Clone for DomainAlias {
    fn clone(&self) -> (copy: Self)
        ensures
            copy@ == self@,
    {
        DomainAlias { domain: self.domain.clone(), tenant_id: self.tenant_id.clone() }
    }
}

/// The stored rows that a list of server records stands for.
pub open spec fn server_rows(s: Seq<ServerRecord>) -> Seq<ServerRow> {
    Seq::new(s.len(), |i: int| s[i]@)
}

/// The reports that a list of servers stands for.
pub open spec fn server_views(s: Seq<Server>) -> Seq<ServerView> {
    Seq::new(s.len(), |i: int| s[i]@)
}

/// The tenants that a list of tenant records stands for.
pub open spec fn tenant_views(s: Seq<Tenant>) -> Seq<TenantView> {
    Seq::new(s.len(), |i: int| s[i]@)
}

/// The aliases that a list of alias records stands for.
pub open spec fn alias_views(s: Seq<DomainAlias>) -> Seq<AliasView> {
    Seq::new(s.len(), |i: int| s[i]@)
}

/// The fleet directory. It keeps servers and tenants in the order in which
/// they were added, which is the order of their creation: `new` starts
/// empty, every addition comes last, and `from_rows` relies on its caller
/// for the order. Every change goes through its operations.
pub struct Database {
    servers: Vec<ServerRecord>,
    tenants: Vec<Tenant>,
    aliases: Vec<DomainAlias>,
}

impl View for Database {
    type V = Directory;

    closed spec fn view(&self) -> Directory {
        Directory {
            servers: server_rows(self.servers@),
            tenants: tenant_views(self.tenants@),
            aliases: alias_views(self.aliases@),
        }
    }
}

impl Database {
    /// A directory without servers, tenants and aliases.
    pub fn new() -> (db: Database)
        ensures
            db@ == Directory::empty(),
            db@.wf(),
    {
        let db = Database { servers: Vec::new(), tenants: Vec::new(), aliases: Vec::new() };
        assert(db@.servers =~= Seq::empty());
        assert(db@.tenants =~= Seq::empty());
        assert(db@.aliases =~= Seq::empty());
        db
    }

    /// A directory that holds the given rows, in their order. The caller
    /// hands servers and tenants over in the order of their creation, the
    /// earliest first: the order given here is the order that listings
    /// show and that breaks ties in placement, and the creation stamps are
    /// not compared. Otherwise the rows are taken as they are:
    /// `is_consistent` tells whether they fit together.
    pub fn from_rows(
        servers: Vec<ServerRecord>,
        tenants: Vec<Tenant>,
        aliases: Vec<DomainAlias>,
    ) -> (db: Database)
        ensures
            db@ == (Directory {
                servers: server_rows(servers@),
                tenants: tenant_views(tenants@),
                aliases: alias_views(aliases@),
            }),
    {
        Database { servers, tenants, aliases }
    }

    /// The number of tenants that are assigned to the server with the id `server_id`.
    pub fn count_tenants(&self, server_id: &str) -> (n: usize)
        ensures
            n == self@.tenant_count(server_id@),
    {
        let ghost all = tenant_views(self.tenants@);
        let ghost p = hosted_on(server_id@);
        let mut n: usize = 0;
        let mut i: usize = 0;
        assert(all.take(0) =~= Seq::empty());
        while i < self.tenants.len()
            invariant
                i <= self.tenants.len(),
                all == tenant_views(self.tenants@),
                p == hosted_on(server_id@),
                n == all.take(i as int).filter(p).len(),
                n <= i,
            decreases self.tenants.len() - i,
        {
            proof {
                assert(all.take(i + 1) =~= all.take(i as int).push(all[i as int]));
                all.take(i as int).lemma_filter_len_push(p, all[i as int]);
            }
            if str_eq(self.tenants[i].server_id.as_str(), server_id) {
                n = n + 1;
            }
            i = i + 1;
        }
        assert(all.take(i as int) =~= all);
        n
    }

    /// The server at position `i` with its number of tenants.
    fn server_at(&self, i: usize) -> (s: Server)
        requires
            i < self@.servers.len(),
        ensures
            s@ == self@.annotated(i as int),
    {
        let r = &self.servers[i];
        let n = self.count_tenants(r.id.as_str());
        Server {
            id: r.id.clone(),
            name: r.name.clone(),
            address: r.address.clone(),
            tenant_count: n,
            created_at: r.created_at.clone(),
        }
    }

    /// All servers in the order of their creation, each with the number of
    /// tenants that it has now.
    pub fn list_servers(&self) -> (list: Vec<Server>)
        ensures
            server_views(list@) == self@.listing(),
    {
        let mut list: Vec<Server> = Vec::new();
        let mut i: usize = 0;
        while i < self.servers.len()
            invariant
                i <= self.servers.len(),
                list@.len() == i,
                forall|k: int| 0 <= k < i ==> (#[trigger] list@[k])@ == self@.annotated(k),
            decreases self.servers.len() - i,
        {
            let s = self.server_at(i);
            list.push(s);
            i = i + 1;
        }
        assert(server_views(list@) =~= self@.listing());
        list
    }

    /// The position of the first server that answers to `key`.
    fn find_server(&self, key: &str) -> (found: Option<usize>)
        ensures
            match found {
                Some(i) => self@.server_index(key@) == Some(i as int),
                None => self@.server_index(key@) is None,
            },
    {
        let ghost rows = self@.servers;
        let ghost p = answers_to(key@);
        let mut i: usize = 0;
        while i < self.servers.len()
            invariant
                i <= self.servers.len(),
                rows == self@.servers,
                p == answers_to(key@),
                forall|j: int| 0 <= j < i ==> !p(#[trigger] rows[j]),
            decreases self.servers.len() - i,
        {
            let r = &self.servers[i];
            if str_eq(r.id.as_str(), key) || str_eq(r.name.as_str(), key) {
                proof {
                    lemma_first_index_found(rows, p, i as int);
                }
                return Some(i);
            }
            i = i + 1;
        }
        proof {
            lemma_first_index_absent(rows, p);
        }
        None
    }

    /// The server that answers to `id_or_name`: the first, in the order of
    /// creation, whose id or whose name it is.
    pub fn get_server(&self, id_or_name: &str) -> (found: Option<Server>)
        ensures
            match found {
                Some(s) => self@.get_server(id_or_name@) == Some(s@),
                None => self@.get_server(id_or_name@) is None,
            },
    {
        match self.find_server(id_or_name) {
            Some(i) => Some(self.server_at(i)),
            None => None,
        }
    }

    /// The position of the first tenant with the id `id`.
    fn find_tenant(&self, id: &str) -> (found: Option<usize>)
        ensures
            match found {
                Some(i) => first_index(self@.tenants, tenant_is(id@)) == Some(i as int),
                None => first_index(self@.tenants, tenant_is(id@)) is None,
            },
            found is Some <==> self@.has_tenant(id@),
    {
        let ghost rows = self@.tenants;
        let ghost p = tenant_is(id@);
        let mut i: usize = 0;
        while i < self.tenants.len()
            invariant
                i <= self.tenants.len(),
                rows == self@.tenants,
                p == tenant_is(id@),
                forall|j: int| 0 <= j < i ==> !p(#[trigger] rows[j]),
            decreases self.tenants.len() - i,
        {
            if str_eq(self.tenants[i].id.as_str(), id) {
                proof {
                    lemma_first_index_found(rows, p, i as int);
                    assert(rows[i as int].id == id@);
                }
                return Some(i);
            }
            i = i + 1;
        }
        proof {
            lemma_first_index_absent(rows, p);
            assert forall|j: int| 0 <= j < rows.len() implies (#[trigger] rows[j]).id != id@ by {
                assert(!p(rows[j]));
            }
        }
        None
    }

    /// All tenants in the order of their creation.
    pub fn list_tenants(&self) -> (list: Vec<Tenant>)
        ensures
            tenant_views(list@) == self@.tenants,
    {
        let mut list: Vec<Tenant> = Vec::new();
        let mut i: usize = 0;
        while i < self.tenants.len()
            invariant
                i <= self.tenants.len(),
                list@.len() == i,
                forall|k: int| 0 <= k < i ==> (#[trigger] list@[k])@ == self@.tenants[k],
            decreases self.tenants.len() - i,
        {
            list.push(self.tenants[i].clone());
            i = i + 1;
        }
        assert(tenant_views(list@) =~= self@.tenants);
        list
    }

    /// The tenant with the id `id`.
    pub fn get_tenant(&self, id: &str) -> (found: Option<Tenant>)
        ensures
            match found {
                Some(t) => self@.get_tenant(id@) == Some(t@),
                None => self@.get_tenant(id@) is None,
            },
    {
        match self.find_tenant(id) {
            Some(i) => Some(self.tenants[i].clone()),
            None => None,
        }
    }

    /// The id of the tenant that the hostname `domain` stands for. Only the
    /// alias table is read: the tenant itself may be gone.
    pub fn lookup_by_domain(&self, domain: &str) -> (found: Option<String>)
        ensures
            opt_view(found) == self@.lookup_by_domain(domain@),
    {
        let ghost rows = self@.aliases;
        let ghost p = alias_of(domain@);
        let mut i: usize = 0;
        while i < self.aliases.len()
            invariant
                i <= self.aliases.len(),
                rows == self@.aliases,
                p == alias_of(domain@),
                forall|j: int| 0 <= j < i ==> !p(#[trigger] rows[j]),
            decreases self.aliases.len() - i,
        {
            if str_eq(self.aliases[i].domain.as_str(), domain) {
                proof {
                    lemma_first_index_found(rows, p, i as int);
                }
                return Some(self.aliases[i].tenant_id.clone());
            }
            i = i + 1;
        }
        proof {
            lemma_first_index_absent(rows, p);
        }
        None
    }

    /// The tenant with the id `tenant_id` and the server that it is assigned
    /// to: the server whose id is the tenant's `server_id`, whatever the
    /// servers are called. `Ok(None)` where there is no such tenant; an
    /// error where the directory holds no server of that id.
    pub fn lookup_tenant(&self, tenant_id: &str) -> (result: Result<
        Option<(Tenant, Server)>,
        DirectoryError,
    >)
        ensures
            pair_result_view(result) == self@.lookup_tenant(tenant_id@),
            result matches Ok(Some((t, s))) ==> t@.id == tenant_id@ && s@.id == t@.server_id,
            (result matches Ok(None)) <==> !self@.has_tenant(tenant_id@),
            result is Err <==> (self@.get_tenant(tenant_id@) matches Some(t)
                && !self@.has_server_id(t.server_id)),
    {
        proof {
            lemma_lookup_joins_by_id(self@, tenant_id@);
        }
        let tenant = match self.get_tenant(tenant_id) {
            Some(t) => t,
            None => {
                return Ok(None);
            },
        };
        match self.find_server_id(tenant.server_id.as_str()) {
            Some(i) => {
                let server = self.server_at(i);
                Ok(Some((tenant, server)))
            },
            None => Err(DirectoryError::ServerMissingForTenant(String::from_str(tenant_id))),
        }
    }

    /// Whether some server has the name `name`.
    fn name_in_use(&self, name: &str) -> (used: bool)
        ensures
            used == self@.name_taken(name@),
    {
        let mut i: usize = 0;
        while i < self.servers.len()
            invariant
                i <= self.servers.len(),
                forall|j: int| 0 <= j < i ==> (#[trigger] self@.servers[j]).name != name@,
            decreases self.servers.len() - i,
        {
            if str_eq(self.servers[i].name.as_str(), name) {
                assert(self@.servers[i as int].name == name@);
                return true;
            }
            i = i + 1;
        }
        false
    }

    /// The position of the first server with the id `id`.
    fn find_server_id(&self, id: &str) -> (found: Option<usize>)
        ensures
            match found {
                Some(i) => first_index(self@.servers, has_id(id@)) == Some(i as int) && i
                    < self@.servers.len(),
                None => first_index(self@.servers, has_id(id@)) is None,
            },
            found is Some <==> self@.has_server_id(id@),
    {
        let ghost rows = self@.servers;
        let ghost p = has_id(id@);
        let mut i: usize = 0;
        while i < self.servers.len()
            invariant
                i <= self.servers.len(),
                rows == self@.servers,
                p == has_id(id@),
                forall|j: int| 0 <= j < i ==> !p(#[trigger] rows[j]),
            decreases self.servers.len() - i,
        {
            if str_eq(self.servers[i].id.as_str(), id) {
                proof {
                    lemma_first_index_found(rows, p, i as int);
                    assert(rows[i as int].id == id@);
                }
                return Some(i);
            }
            i = i + 1;
        }
        proof {
            lemma_first_index_absent(rows, p);
            assert forall|j: int| 0 <= j < rows.len() implies (#[trigger] rows[j]).id != id@ by {
                assert(!p(rows[j]));
            }
        }
        None
    }

    /// Whether no two servers share an id or a name.
    fn servers_distinct(&self) -> (ok: bool)
        ensures
            ok == (self@.server_ids_distinct() && self@.server_names_distinct()),
    {
        let mut j: usize = 0;
        while j < self.servers.len()
            invariant
                j <= self.servers.len(),
                forall|a: int, b: int|
                    0 <= a < b < j ==> (#[trigger] self@.servers[a]).id != (
                    #[trigger] self@.servers[b]).id && self@.servers[a].name
                        != self@.servers[b].name,
            decreases self.servers.len() - j,
        {
            let mut i: usize = 0;
            while i < j
                invariant
                    i <= j < self.servers.len(),
                    forall|a: int|
                        0 <= a < i ==> (#[trigger] self@.servers[a]).id != self@.servers[j as int].id
                            && self@.servers[a].name != self@.servers[j as int].name,
                decreases j - i,
            {
                if str_eq(self.servers[i].id.as_str(), self.servers[j].id.as_str()) {
                    assert(self@.servers[i as int].id == self@.servers[j as int].id);
                    return false;
                }
                if str_eq(self.servers[i].name.as_str(), self.servers[j].name.as_str()) {
                    assert(self@.servers[i as int].name == self@.servers[j as int].name);
                    return false;
                }
                i = i + 1;
            }
            j = j + 1;
        }
        true
    }

    /// Whether no two tenants share an id.
    fn tenants_distinct(&self) -> (ok: bool)
        ensures
            ok == self@.tenant_ids_distinct(),
    {
        let mut j: usize = 0;
        while j < self.tenants.len()
            invariant
                j <= self.tenants.len(),
                forall|a: int, b: int|
                    0 <= a < b < j ==> (#[trigger] self@.tenants[a]).id != (
                    #[trigger] self@.tenants[b]).id,
            decreases self.tenants.len() - j,
        {
            let mut i: usize = 0;
            while i < j
                invariant
                    i <= j < self.tenants.len(),
                    forall|a: int|
                        0 <= a < i ==> (#[trigger] self@.tenants[a]).id != self@.tenants[j as int].id,
                decreases j - i,
            {
                if str_eq(self.tenants[i].id.as_str(), self.tenants[j].id.as_str()) {
                    assert(self@.tenants[i as int].id == self@.tenants[j as int].id);
                    return false;
                }
                i = i + 1;
            }
            j = j + 1;
        }
        true
    }

    /// Whether no two aliases share a hostname.
    fn aliases_distinct(&self) -> (ok: bool)
        ensures
            ok == self@.alias_domains_distinct(),
    {
        let mut j: usize = 0;
        while j < self.aliases.len()
            invariant
                j <= self.aliases.len(),
                forall|a: int, b: int|
                    0 <= a < b < j ==> (#[trigger] self@.aliases[a]).domain != (
                    #[trigger] self@.aliases[b]).domain,
            decreases self.aliases.len() - j,
        {
            let mut i: usize = 0;
            while i < j
                invariant
                    i <= j < self.aliases.len(),
                    forall|a: int|
                        0 <= a < i ==> (#[trigger] self@.aliases[a]).domain
                            != self@.aliases[j as int].domain,
                decreases j - i,
            {
                if str_eq(self.aliases[i].domain.as_str(), self.aliases[j].domain.as_str()) {
                    assert(self@.aliases[i as int].domain == self@.aliases[j as int].domain);
                    return false;
                }
                i = i + 1;
            }
            j = j + 1;
        }
        true
    }

    /// Whether every tenant is assigned to a server that the directory holds.
    fn tenants_hosted(&self) -> (ok: bool)
        ensures
            ok == self@.tenants_hosted(),
    {
        let mut t: usize = 0;
        while t < self.tenants.len()
            invariant
                t <= self.tenants.len(),
                forall|a: int|
                    0 <= a < t ==> self@.has_server_id((#[trigger] self@.tenants[a]).server_id),
            decreases self.tenants.len() - t,
        {
            if self.find_server_id(self.tenants[t].server_id.as_str()).is_none() {
                assert(!self@.has_server_id(self@.tenants[t as int].server_id));
                return false;
            }
            t = t + 1;
        }
        true
    }

    /// Whether the directory is consistent: ids, names and hostnames are
    /// unique and every tenant's server exists. A directory made by `new`
    /// is, and every operation keeps it so; one made by `from_rows` is as
    /// consistent as the rows it was given.
    pub fn is_consistent(&self) -> (ok: bool)
        ensures
            ok == self@.wf(),
    {
        self.servers_distinct() && self.tenants_distinct() && self.aliases_distinct()
            && self.tenants_hosted()
    }

    /// Adds a server with the given id and creation time. Refused where a
    /// server of that name exists, else where a server of that id exists;
    /// the new server comes last and has no tenants.
    pub fn insert_server(
        &mut self,
        id: String,
        name: &str,
        address: &str,
        created_at: String,
    ) -> (result: Result<Server, DirectoryError>)
        ensures
            (final(self)@, server_result_view(result)) == old(self)@.insert_server(
                id@,
                name@,
                address@,
                created_at@,
            ),
            old(self)@.wf() ==> final(self)@.wf(),
    {
        proof {
            if self@.wf() {
                lemma_insert_server_keeps_wf(self@, id@, name@, address@, created_at@);
            }
        }
        if self.name_in_use(name) {
            return Err(DirectoryError::ServerNameTaken(String::from_str(name)));
        }
        if self.find_server_id(id.as_str()).is_some() {
            return Err(DirectoryError::ServerIdTaken(id));
        }
        let record = ServerRecord {
            id: id.clone(),
            name: String::from_str(name),
            address: String::from_str(address),
            created_at: created_at.clone(),
        };
        let server = Server {
            id,
            name: String::from_str(name),
            address: String::from_str(address),
            tenant_count: 0,
            created_at,
        };
        self.servers.push(record);
        assert(self@.servers =~= old(self)@.servers.push(record@));
        Ok(server)
    }

    /// Adds a server under a new random id of 36 characters, stamped with
    /// the current time. Refused where a server of that name exists.
    /// Otherwise the server is added as `insert_server` adds it, unless the
    /// new id is one that the directory holds already; then the call is
    /// refused for that.
    pub fn add_server(&mut self, name: &str, address: &str) -> (result: Result<
        Server,
        DirectoryError,
    >)
        ensures
            old(self)@.name_taken(name@) ==> final(self)@ == old(self)@ && server_result_view(
                result,
            ) == Err::<ServerView, ErrorView>(ErrorView::ServerNameTaken(name@)),
            !old(self)@.name_taken(name@) ==> match result {
                Ok(s) => (final(self)@, Ok::<ServerView, ErrorView>(s@)) == old(
                    self,
                )@.insert_server(s.id@, name@, address@, s.created_at@),
                Err(e) => {
                    &&& final(self)@ == old(self)@
                    &&& e@ matches ErrorView::ServerIdTaken(i)
                    &&& old(self)@.has_server_id(i)
                },
            },
            result matches Ok(s) ==> s.id@.len() == 36,
            old(self)@.wf() ==> final(self)@.wf(),
    {
        let id = fresh_id();
        let now = timestamp();
        self.insert_server(id, name, address, now)
    }

    /// Removes the server that answers to `id_or_name`. Refused where none
    /// answers, and where the server still has tenants: then nothing
    /// changes and the error reports their number.
    pub fn remove_server(&mut self, id_or_name: &str) -> (result: Result<(), DirectoryError>)
        ensures
            (final(self)@, unit_result_view(result)) == old(self)@.remove_server(id_or_name@),
            match old(self)@.get_server(id_or_name@) {
                Some(s) => s.tenant_count > 0 ==> {
                    &&& final(self)@ == old(self)@
                    &&& result matches Err(e)
                    &&& e@ == ErrorView::ServerHasTenants(s.tenant_count)
                    &&& e@.kind() == ErrorKind::Conflict
                },
                None => result matches Err(e) && e@.kind() == ErrorKind::NotFound,
            },
            old(self)@.wf() ==> final(self)@.wf(),
    {
        proof {
            if self@.wf() {
                lemma_remove_server_keeps_wf(self@, id_or_name@);
            }
        }
        let i = match self.find_server(id_or_name) {
            Some(i) => i,
            None => {
                return Err(DirectoryError::ServerNotFound(String::from_str(id_or_name)));
            },
        };
        proof {
            lemma_first_index_facts(self@.servers, answers_to(id_or_name@));
        }
        let count = self.count_tenants(self.servers[i].id.as_str());
        if count > 0 {
            return Err(DirectoryError::ServerHasTenants(count));
        }
        let _ = self.servers.remove(i);
        assert(self@.servers =~= old(self)@.servers.remove(i as int));
        Ok(())
    }

    /// Adds a tenant with the given creation time, on the server that
    /// answers to `server_id_or_name` or, where the caller names none, on
    /// the least loaded server, the earliest of several. Refused where the
    /// named server is missing, where the fleet is empty, and else where a
    /// tenant of that id exists. The new tenant comes last and is active.
    pub fn insert_tenant(
        &mut self,
        id: &str,
        server_id_or_name: Option<&str>,
        config: Option<&str>,
        created_at: String,
    ) -> (result: Result<Tenant, DirectoryError>)
        ensures
            (final(self)@, tenant_result_view(result)) == old(self)@.insert_tenant(
                id@,
                opt_str_view(server_id_or_name),
                opt_str_view(config),
                created_at@,
            ),
            old(self)@.wf() ==> final(self)@.wf(),
    {
        proof {
            if self@.wf() {
                lemma_insert_tenant_keeps_wf(
                    self@,
                    id@,
                    opt_str_view(server_id_or_name),
                    opt_str_view(config),
                    created_at@,
                );
            }
            lemma_target_in_range(self@, opt_str_view(server_id_or_name));
        }
        let target: usize = match server_id_or_name {
            Some(key) => match self.find_server(key) {
                Some(i) => i,
                None => {
                    return Err(DirectoryError::ServerNotFound(String::from_str(key)));
                },
            },
            None => {
                let listing = self.list_servers();
                match pick_server(&listing) {
                    Some(i) => i,
                    None => {
                        return Err(DirectoryError::NoServersAvailable);
                    },
                }
            },
        };
        if self.find_tenant(id).is_some() {
            return Err(DirectoryError::TenantExists(String::from_str(id)));
        }
        let tenant = Tenant {
            id: String::from_str(id),
            server_id: self.servers[target].id.clone(),
            config: match config {
                Some(c) => Some(String::from_str(c)),
                None => None,
            },
            status: String::from_str("active"),
            created_at,
        };
        self.tenants.push(tenant.clone());
        assert(self@.tenants =~= old(self)@.tenants.push(tenant@));
        Ok(tenant)
    }

    /// Adds a tenant, stamped with the current time, as `insert_tenant`
    /// adds it.
    pub fn add_tenant(
        &mut self,
        id: &str,
        server_id_or_name: Option<&str>,
        config: Option<&str>,
    ) -> (result: Result<Tenant, DirectoryError>)
        ensures
            match result {
                Ok(t) => (final(self)@, Ok::<TenantView, ErrorView>(t@)) == old(
                    self,
                )@.insert_tenant(
                    id@,
                    opt_str_view(server_id_or_name),
                    opt_str_view(config),
                    t.created_at@,
                ),
                Err(e) => final(self)@ == old(self)@ && Err::<int, ErrorView>(e@) == old(
                    self,
                )@.admission(id@, opt_str_view(server_id_or_name)),
            },
            result is Ok <==> old(self)@.admission(id@, opt_str_view(server_id_or_name)) is Ok,
            old(self)@.wf() ==> final(self)@.wf(),
    {
        let now = timestamp();
        self.insert_tenant(id, server_id_or_name, config, now)
    }

    /// Removes the tenant `id` and every alias that stands for it. Where
    /// there is no such tenant, nothing is wrong and only such aliases go.
    pub fn remove_tenant(&mut self, id: &str)
        ensures
            final(self)@ == old(self)@.remove_tenant(id@),
            old(self)@.wf() ==> final(self)@.wf(),
    {
        proof {
            if self@.wf() {
                lemma_remove_tenant_keeps_wf(self@, id@);
            }
        }
        self.drop_tenants(id);
        self.drop_aliases(id);
    }

    /// Removes the tenants with the id `id`.
    fn drop_tenants(&mut self, id: &str)
        ensures
            final(self)@.tenants == old(self)@.tenants.filter(tenant_is_not(id@)),
            final(self)@.servers == old(self)@.servers,
            final(self)@.aliases == old(self)@.aliases,
    {
        let ghost before = self@.tenants;
        let ghost p = tenant_is_not(id@);
        let mut i: usize = 0;
        let ghost mut k: int = 0;
        assert(before.take(0) =~= Seq::empty());
        assert(self@.tenants.take(0) =~= before.take(0).filter(p));
        assert(self@.tenants.skip(0) =~= before.skip(0));
        while i < self.tenants.len()
            invariant
                i <= self.tenants.len(),
                0 <= k <= before.len(),
                self.tenants.len() - i == before.len() - k,
                p == tenant_is_not(id@),
                self@.tenants.take(i as int) == before.take(k).filter(p),
                self@.tenants.skip(i as int) == before.skip(k),
                self@.servers == old(self)@.servers,
                self@.aliases == old(self)@.aliases,
            decreases self.tenants.len() - i,
        {
            let ghost now = self@.tenants;
            proof {
                assert(now[i as int] == now.skip(i as int)[0]);
                assert(before[k] == before.skip(k)[0]);
                assert(before.take(k + 1) =~= before.take(k).push(before[k]));
                before.take(k).lemma_filter_push(before[k], p);
            }
            if str_eq(self.tenants[i].id.as_str(), id) {
                let _ = self.tenants.remove(i);
                proof {
                    assert(self@.tenants =~= now.remove(i as int));
                    assert(self@.tenants.take(i as int) =~= now.take(i as int));
                    assert(self@.tenants.skip(i as int) =~= now.skip(i as int).skip(1));
                    assert(before.skip(k + 1) =~= before.skip(k).skip(1));
                    k = k + 1;
                }
            } else {
                proof {
                    assert(now.take(i + 1) =~= now.take(i as int).push(now[i as int]));
                    assert(now.skip(i + 1) =~= now.skip(i as int).skip(1));
                    assert(before.skip(k + 1) =~= before.skip(k).skip(1));
                    k = k + 1;
                }
                i = i + 1;
            }
        }
        assert(self@.tenants.take(i as int) =~= self@.tenants);
        assert(before.take(k) =~= before);
    }

    /// Removes the aliases that stand for the tenant `tenant_id`.
    fn drop_aliases(&mut self, tenant_id: &str)
        ensures
            final(self)@.aliases == old(self)@.aliases.filter(points_elsewhere(tenant_id@)),
            final(self)@.servers == old(self)@.servers,
            final(self)@.tenants == old(self)@.tenants,
    {
        let ghost before = self@.aliases;
        let ghost p = points_elsewhere(tenant_id@);
        let mut i: usize = 0;
        let ghost mut k: int = 0;
        assert(before.take(0) =~= Seq::empty());
        assert(self@.aliases.take(0) =~= before.take(0).filter(p));
        assert(self@.aliases.skip(0) =~= before.skip(0));
        while i < self.aliases.len()
            invariant
                i <= self.aliases.len(),
                0 <= k <= before.len(),
                self.aliases.len() - i == before.len() - k,
                p == points_elsewhere(tenant_id@),
                self@.aliases.take(i as int) == before.take(k).filter(p),
                self@.aliases.skip(i as int) == before.skip(k),
                self@.servers == old(self)@.servers,
                self@.tenants == old(self)@.tenants,
            decreases self.aliases.len() - i,
        {
            let ghost now = self@.aliases;
            proof {
                assert(now[i as int] == now.skip(i as int)[0]);
                assert(before[k] == before.skip(k)[0]);
                assert(before.take(k + 1) =~= before.take(k).push(before[k]));
                before.take(k).lemma_filter_push(before[k], p);
            }
            if str_eq(self.aliases[i].tenant_id.as_str(), tenant_id) {
                let _ = self.aliases.remove(i);
                proof {
                    assert(self@.aliases =~= now.remove(i as int));
                    assert(self@.aliases.take(i as int) =~= now.take(i as int));
                    assert(self@.aliases.skip(i as int) =~= now.skip(i as int).skip(1));
                    assert(before.skip(k + 1) =~= before.skip(k).skip(1));
                    k = k + 1;
                }
            } else {
                proof {
                    assert(now.take(i + 1) =~= now.take(i as int).push(now[i as int]));
                    assert(now.skip(i + 1) =~= now.skip(i as int).skip(1));
                    assert(before.skip(k + 1) =~= before.skip(k).skip(1));
                    k = k + 1;
                }
                i = i + 1;
            }
        }
        assert(self@.aliases.take(i as int) =~= self@.aliases);
        assert(before.take(k) =~= before);
    }
}

/// What the answer to a request for a server says.
pub open spec fn server_result_view(r: Result<Server, DirectoryError>) -> Result<
    ServerView,
    ErrorView,
> {
    match r {
        Ok(s) => Ok(s@),
        Err(e) => Err(e@),
    }
}

/// What the answer to a request for a tenant says.
pub open spec fn tenant_result_view(r: Result<Tenant, DirectoryError>) -> Result<
    TenantView,
    ErrorView,
> {
    match r {
        Ok(t) => Ok(t@),
        Err(e) => Err(e@),
    }
}

/// What the answer to a request without a payload says.
pub open spec fn unit_result_view(r: Result<(), DirectoryError>) -> Result<(), ErrorView> {
    match r {
        Ok(_) => Ok(()),
        Err(e) => Err(e@),
    }
}

/// What the answer to a routing lookup says.
pub open spec fn pair_result_view(r: Result<Option<(Tenant, Server)>, DirectoryError>) -> Result<
    Option<(TenantView, ServerView)>,
    ErrorView,
> {
    match r {
        Ok(Some((t, s))) => Ok(Some((t@, s@))),
        Ok(None) => Ok(None),
        Err(e) => Err(e@),
    }
}

} // verus!
