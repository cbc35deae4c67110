//! What every change of the directory preserves: ids, names and hostnames
//! stay unique, and every tenant stays assigned to a server that exists.

use crate::model::{
    answers_to, has_id, hosted_on, points_elsewhere, tenant_is, tenant_is_not, Directory,
};
use crate::seqs::{filter_sources, first_index, lemma_first_index_facts};
use crate::placement::lemma_least_loaded_exists;
use vstd::prelude::*;

verus! {

/// A server without tenants is named by no tenant.
pub proof fn lemma_no_tenants_on(d: Directory, server_id: Seq<char>)
    requires
        d.tenant_count(server_id) == 0,
    ensures
        forall|t: int| 0 <= t < d.tenants.len() ==> (#[trigger] d.tenants[t]).server_id != server_id,
{
    assert forall|t: int| 0 <= t < d.tenants.len() implies (#[trigger] d.tenants[t]).server_id
        != server_id by {
        if d.tenants[t].server_id == server_id {
            d.tenants.lemma_filter_contains(hosted_on(server_id), t);
        }
    }
}

/// A server that no tenant names has no tenants.
pub proof fn lemma_unnamed_server_is_empty(d: Directory, server_id: Seq<char>)
    requires
        forall|t: int| 0 <= t < d.tenants.len() ==> (#[trigger] d.tenants[t]).server_id != server_id,
    ensures
        d.tenant_count(server_id) == 0,
{
    let src = filter_sources(d.tenants, hosted_on(server_id));
    if src.len() > 0 {
        assert(d.tenants[src[0]].server_id == server_id);
    }
}

/// A server that was just added to a consistent directory has no tenants:
/// the count of zero that the answer reports is the count that a listing
/// shows.
pub proof fn lemma_new_server_is_empty(
    d: Directory,
    id: Seq<char>,
    name: Seq<char>,
    address: Seq<char>,
    created_at: Seq<char>,
)
    requires
        d.wf(),
        d.insert_server(id, name, address, created_at).1 is Ok,
    ensures
        ({
            let after = d.insert_server(id, name, address, created_at).0;
            let added = d.insert_server(id, name, address, created_at).1->Ok_0;
            &&& after.servers.len() == d.servers.len() + 1
            &&& after.annotated(d.servers.len() as int) == added
            &&& after.listing().last() == added
        }),
{
    let after = d.insert_server(id, name, address, created_at).0;
    assert forall|t: int| 0 <= t < after.tenants.len() implies (#[trigger] after.tenants[t]).server_id
        != id by {
        assert(d.has_server_id(d.tenants[t].server_id));
    }
    lemma_unnamed_server_is_empty(after, id);
}

/// Adding a server keeps the directory consistent.
pub proof fn lemma_insert_server_keeps_wf(
    d: Directory,
    id: Seq<char>,
    name: Seq<char>,
    address: Seq<char>,
    created_at: Seq<char>,
)
    requires
        d.wf(),
    ensures
        d.insert_server(id, name, address, created_at).0.wf(),
{
    let after = d.insert_server(id, name, address, created_at).0;
    if after != d {
        assert forall|t: int| 0 <= t < after.tenants.len() implies after.has_server_id(
            (#[trigger] after.tenants[t]).server_id,
        ) by {
            assert(d.has_server_id(d.tenants[t].server_id));
            let w = choose|w: int|
                0 <= w < d.servers.len() && (#[trigger] d.servers[w]).id == d.tenants[t].server_id;
            assert(after.servers[w].id == d.tenants[t].server_id);
        }
    }
}

/// Removing a server keeps the directory consistent: a server that is a
/// tenant's server is never the one that leaves.
pub proof fn lemma_remove_server_keeps_wf(d: Directory, key: Seq<char>)
    requires
        d.wf(),
    ensures
        d.remove_server(key).0.wf(),
{
    let after = d.remove_server(key).0;
    lemma_first_index_facts(d.servers, answers_to(key));
    if after != d {
        let i = d.server_index(key)->0;
        lemma_no_tenants_on(d, d.servers[i].id);
        assert forall|t: int| 0 <= t < after.tenants.len() implies after.has_server_id(
            (#[trigger] after.tenants[t]).server_id,
        ) by {
            assert(d.has_server_id(d.tenants[t].server_id));
            let w = choose|w: int|
                0 <= w < d.servers.len() && (#[trigger] d.servers[w]).id == d.tenants[t].server_id;
            assert(w != i);
            if w < i {
                assert(after.servers[w] == d.servers[w]);
            } else {
                assert(after.servers[w - 1] == d.servers[w]);
            }
        }
    }
}

/// The server that a new tenant goes to is one that the directory holds.
pub proof fn lemma_target_in_range(d: Directory, key: Option<Seq<char>>)
    ensures
        d.target(key) matches Ok(i) ==> 0 <= i < d.servers.len(),
{
    match key {
        Some(k) => {
            lemma_first_index_facts(d.servers, answers_to(k));
        },
        None => {
            if d.servers.len() > 0 {
                lemma_least_loaded_exists(d.listing());
            }
        },
    }
}

/// Adding a tenant keeps the directory consistent: the new tenant's server
/// is one that the directory holds.
pub proof fn lemma_insert_tenant_keeps_wf(
    d: Directory,
    id: Seq<char>,
    key: Option<Seq<char>>,
    config: Option<Seq<char>>,
    created_at: Seq<char>,
)
    requires
        d.wf(),
    ensures
        d.insert_tenant(id, key, config, created_at).0.wf(),
{
    let after = d.insert_tenant(id, key, config, created_at).0;
    lemma_target_in_range(d, key);
    if after != d {
        let i = d.target(key)->Ok_0;
        assert forall|t: int| 0 <= t < after.tenants.len() implies after.has_server_id(
            (#[trigger] after.tenants[t]).server_id,
        ) by {
            if t < d.tenants.len() {
                assert(after.tenants[t] == d.tenants[t]);
                assert(d.has_server_id(d.tenants[t].server_id));
                let w = choose|w: int|
                    0 <= w < d.servers.len() && (#[trigger] d.servers[w]).id
                        == d.tenants[t].server_id;
                assert(after.servers[w].id == after.tenants[t].server_id);
            } else {
                assert(after.servers[i].id == after.tenants[t].server_id);
            }
        }
    }
}

/// Removing a tenant keeps the directory consistent.
pub proof fn lemma_remove_tenant_keeps_wf(d: Directory, id: Seq<char>)
    requires
        d.wf(),
    ensures
        d.remove_tenant(id).wf(),
{
    let after = d.remove_tenant(id);
    let ts = filter_sources(d.tenants, tenant_is_not(id));
    let als = filter_sources(d.aliases, points_elsewhere(id));
    assert forall|i: int, j: int| 0 <= i < j < after.tenants.len() implies (
    #[trigger] after.tenants[i]).id != (#[trigger] after.tenants[j]).id by {
        assert(ts[i] < ts[j]);
        assert(d.tenants[ts[i]].id != d.tenants[ts[j]].id);
    }
    assert forall|i: int, j: int| 0 <= i < j < after.aliases.len() implies (
    #[trigger] after.aliases[i]).domain != (#[trigger] after.aliases[j]).domain by {
        assert(als[i] < als[j]);
        assert(d.aliases[als[i]].domain != d.aliases[als[j]].domain);
    }
    assert forall|t: int| 0 <= t < after.tenants.len() implies after.has_server_id(
        (#[trigger] after.tenants[t]).server_id,
    ) by {
        assert(after.tenants[t] == d.tenants[ts[t]]);
        assert(d.has_server_id(d.tenants[ts[t]].server_id));
        let w = choose|w: int|
            0 <= w < d.servers.len() && (#[trigger] d.servers[w]).id == d.tenants[ts[t]].server_id;
        assert(after.servers[w].id == after.tenants[t].server_id);
    }
}

/// A routing lookup joins a tenant to its server by id: the tenant found
/// has the id asked for, the server found has the id that the tenant
/// names, there is no answer exactly where there is no such tenant, and the
/// lookup fails exactly where the tenant's server is missing.
pub proof fn lemma_lookup_joins_by_id(d: Directory, id: Seq<char>)
    ensures
        match d.lookup_tenant(id) {
            Ok(Some((t, s))) => t.id == id && s.id == t.server_id && d.has_tenant(id)
                && d.has_server_id(t.server_id),
            Ok(None) => !d.has_tenant(id),
            Err(_) => (d.get_tenant(id) matches Some(t) && !d.has_server_id(t.server_id)),
        },
{
    lemma_first_index_facts(d.tenants, tenant_is(id));
    match first_index(d.tenants, tenant_is(id)) {
        None => {
            assert forall|j: int| 0 <= j < d.tenants.len() implies (#[trigger] d.tenants[j]).id
                != id by {
                assert(!tenant_is(id)(d.tenants[j]));
            }
        },
        Some(k) => {
            let t = d.tenants[k];
            assert(t.id == id);
            lemma_first_index_facts(d.servers, has_id(t.server_id));
            match first_index(d.servers, has_id(t.server_id)) {
                Some(i) => {
                    assert(d.servers[i].id == t.server_id);
                },
                None => {
                    assert forall|j: int| 0 <= j < d.servers.len() implies (
                    #[trigger] d.servers[j]).id != t.server_id by {
                        assert(!has_id(t.server_id)(d.servers[j]));
                    }
                },
            }
        },
    }
}

/// In a consistent directory every routing lookup succeeds: a tenant's
/// server is always found.
pub proof fn lemma_lookup_tenant_succeeds(d: Directory, id: Seq<char>)
    requires
        d.wf(),
    ensures
        d.lookup_tenant(id) is Ok,
{
    lemma_lookup_joins_by_id(d, id);
    lemma_first_index_facts(d.tenants, tenant_is(id));
    match first_index(d.tenants, tenant_is(id)) {
        None => {},
        Some(k) => {
            assert(d.has_server_id(d.tenants[k].server_id));
        },
    }
}

} // verus!
