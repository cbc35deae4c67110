//! What holds of the directory across several operations.

use crate::error::ErrorKind;
use crate::invariants::{
    lemma_insert_tenant_keeps_wf, lemma_remove_server_keeps_wf, lemma_target_in_range,
};
use crate::model::{
    alias_of, hosted_on, is_least_loaded, points_elsewhere, tenant_is, tenant_is_not, Directory,
    ErrorView,
};
use crate::placement::lemma_least_loaded_found;
use crate::seqs::{first_index, lemma_first_index_facts};
use vstd::prelude::*;

verus! {

/// A request to add a tenant without naming a server.
pub struct Arrival {
    pub id: Seq<char>,
    pub config: Option<Seq<char>>,
    pub created_at: Seq<char>,
}

/// The directory after the tenants of `arrivals` were added one after the
/// other, each without naming a server.
pub open spec fn after_arrivals(d: Directory, arrivals: Seq<Arrival>) -> Directory
    decreases arrivals.len(),
{
    if arrivals.len() == 0 {
        d
    } else {
        let a = arrivals.last();
        after_arrivals(d, arrivals.drop_last()).insert_tenant(a.id, None, a.config, a.created_at).0
    }
}

/// No two of the arrivals ask for the same tenant id.
pub open spec fn arrivals_distinct(arrivals: Seq<Arrival>) -> bool {
    forall|i: int, j: int|
        0 <= i < j < arrivals.len() ==> (#[trigger] arrivals[i]).id != (#[trigger] arrivals[j]).id
}

/// Least-loaded placement fills an empty fleet evenly. In a consistent
/// directory without tenants, the first `k` of a run of arrivals, `k` no
/// more than the number of servers, land on the first `k` servers, one on
/// each, in the order of the servers' creation: every server has one
/// tenant or none, and none has a second before each has its first.
pub proof fn lemma_arrivals_spread(d: Directory, arrivals: Seq<Arrival>, k: int)
    requires
        d.wf(),
        d.tenants.len() == 0,
        arrivals_distinct(arrivals),
        0 <= k <= arrivals.len(),
        k <= d.servers.len(),
    ensures
        ({
            let e = after_arrivals(d, arrivals.take(k));
            &&& e.servers == d.servers
            &&& e.aliases == d.aliases
            &&& e.tenants.len() == k
            &&& forall|j: int|
                0 <= j < k ==> (#[trigger] e.tenants[j]).id == arrivals[j].id && e.tenants[j].server_id
                    == d.servers[j].id
            &&& forall|i: int|
                0 <= i < d.servers.len() ==> e.tenant_count((#[trigger] d.servers[i]).id) == (if i
                    < k {
                    1nat
                } else {
                    0nat
                })
        }),
    decreases k,
{
    let e = after_arrivals(d, arrivals.take(k));
    if k == 0 {
        assert(arrivals.take(0) =~= Seq::empty());
        assert forall|i: int| 0 <= i < d.servers.len() implies e.tenant_count(
            (#[trigger] d.servers[i]).id,
        ) == 0nat by {
            assert(d.tenants =~= Seq::empty());
            reveal(Seq::filter);
        }
    } else {
        lemma_arrivals_spread(d, arrivals, k - 1);
        assert(arrivals.take(k).drop_last() =~= arrivals.take(k - 1));
        let a = arrivals.take(k).last();
        assert(a == arrivals[k - 1]);
        let b = after_arrivals(d, arrivals.take(k - 1));
        assert(e == b.insert_tenant(a.id, None, a.config, a.created_at).0);
        let listing = b.listing();
        assert(is_least_loaded(listing, k - 1)) by {
            assert forall|j: int| 0 <= j < listing.len() implies listing[k - 1].tenant_count <= (
            #[trigger] listing[j]).tenant_count by {
                assert(listing[k - 1].tenant_count == b.tenant_count(d.servers[k - 1].id));
            }
            assert forall|j: int| 0 <= j < k - 1 implies listing[k - 1].tenant_count < (
            #[trigger] listing[j]).tenant_count by {
                assert(listing[k - 1].tenant_count == b.tenant_count(d.servers[k - 1].id));
                assert(listing[j].tenant_count == b.tenant_count(d.servers[j].id));
            }
        }
        lemma_least_loaded_found(listing, k - 1);
        assert(!b.has_tenant(a.id)) by {
            if b.has_tenant(a.id) {
                let w = choose|w: int| 0 <= w < b.tenants.len() && (#[trigger] b.tenants[w]).id == a.id;
                assert(arrivals[w].id != arrivals[k - 1].id);
            }
        }
        let t = e.tenants[k - 1];
        assert(e.tenants =~= b.tenants.push(t));
        assert(t.server_id == d.servers[k - 1].id);
        assert forall|i: int| 0 <= i < d.servers.len() implies e.tenant_count(
            (#[trigger] d.servers[i]).id,
        ) == (if i < k {
            1nat
        } else {
            0nat
        }) by {
            b.tenants.lemma_filter_len_push(hosted_on(d.servers[i].id), t);
            if i != k - 1 {
                if i < k - 1 {
                    assert(d.servers[i].id != d.servers[k - 1].id);
                } else {
                    assert(d.servers[k - 1].id != d.servers[i].id);
                }
            }
        }
    }
}

/// A server with tenants cannot be removed: the request is refused as a
/// conflict that reports the number of tenants, and the directory stays as
/// it is.
pub proof fn lemma_busy_server_stays(d: Directory, key: Seq<char>)
    requires
        d.get_server(key) matches Some(s) && s.tenant_count > 0,
    ensures
        d.remove_server(key).0 == d,
        d.remove_server(key).1 == Err::<(), ErrorView>(
            ErrorView::ServerHasTenants(d.get_server(key)->0.tenant_count),
        ),
        d.remove_server(key).1->Err_0.kind() == ErrorKind::Conflict,
{
}

/// Once a tenant is removed, no hostname resolves to it: whatever alias
/// pointed at it is gone, and so is the tenant.
pub proof fn lemma_removed_tenant_unreachable(d: Directory, id: Seq<char>, domain: Seq<char>)
    ensures
        d.remove_tenant(id).lookup_by_domain(domain) != Some(id),
        d.remove_tenant(id).get_tenant(id) is None,
{
    let after = d.remove_tenant(id);
    lemma_first_index_facts(after.aliases, alias_of(domain));
    match first_index(after.aliases, alias_of(domain)) {
        Some(i) => {
            d.aliases.lemma_filter_pred(points_elsewhere(id), i);
        },
        None => {},
    }
    lemma_first_index_facts(after.tenants, tenant_is(id));
    match first_index(after.tenants, tenant_is(id)) {
        Some(i) => {
            d.tenants.lemma_filter_pred(tenant_is_not(id), i);
        },
        None => {},
    }
}

/// Placing a tenant and removing a server never leave a tenant without
/// its server, in whichever order the two requests are served. The
/// operations take the directory exclusively, so one is always served
/// wholly before the other.
pub proof fn lemma_placement_and_removal_agree(
    d: Directory,
    id: Seq<char>,
    config: Option<Seq<char>>,
    created_at: Seq<char>,
    key: Seq<char>,
)
    requires
        d.wf(),
    ensures
        d.insert_tenant(id, None, config, created_at).0.remove_server(key).0.tenants_hosted(),
        d.remove_server(key).0.insert_tenant(id, None, config, created_at).0.tenants_hosted(),
{
    lemma_insert_tenant_keeps_wf(d, id, None, config, created_at);
    lemma_remove_server_keeps_wf(d.insert_tenant(id, None, config, created_at).0, key);
    lemma_remove_server_keeps_wf(d, key);
    lemma_insert_tenant_keeps_wf(d.remove_server(key).0, id, None, config, created_at);
}

/// A server that has just received a tenant cannot be removed: where the
/// placement put a tenant on the server that answers to `key`, the request
/// to remove that server is refused and the directory keeps both.
pub proof fn lemma_chosen_server_stays(
    d: Directory,
    id: Seq<char>,
    config: Option<Seq<char>>,
    created_at: Seq<char>,
    key: Seq<char>,
)
    requires
        d.insert_tenant(id, None, config, created_at).1 is Ok,
        d.server_index(key) == d.placement(),
    ensures
        ({
            let placed = d.insert_tenant(id, None, config, created_at).0;
            &&& placed.remove_server(key).0 == placed
            &&& placed.remove_server(key).1 matches Err(ErrorView::ServerHasTenants(n)) && n > 0
        }),
{
    let placed = d.insert_tenant(id, None, config, created_at).0;
    lemma_target_in_range(d, None);
    let i = d.placement()->0;
    let t = placed.tenants.last();
    assert(placed.tenants =~= d.tenants.push(t));
    d.tenants.lemma_filter_len_push(hosted_on(d.servers[i].id), t);
}

} // verus!
