//! The placement policy: which server a new tenant lands on when the
//! caller names none.

use crate::db::{server_views, Server};
use crate::model::{is_least_loaded, least_loaded, ServerView};
use vstd::prelude::*;

verus! {

/// Among the first `n` servers, the one with the fewest tenants, the
/// earliest of several.
proof fn least_loaded_among(servers: Seq<ServerView>, n: int) -> (i: int)
    requires
        0 < n <= servers.len(),
    ensures
        0 <= i < n,
        forall|j: int| 0 <= j < n ==> servers[i].tenant_count <= (#[trigger] servers[j]).tenant_count,
        forall|j: int| 0 <= j < i ==> servers[i].tenant_count < (#[trigger] servers[j]).tenant_count,
    decreases n,
{
    if n == 1 {
        0
    } else {
        let i = least_loaded_among(servers, n - 1);
        if servers[n - 1].tenant_count < servers[i].tenant_count {
            n - 1
        } else {
            i
        }
    }
}

/// Two servers cannot both be the least loaded one.
pub proof fn lemma_least_loaded_unique(servers: Seq<ServerView>, i: int, k: int)
    requires
        is_least_loaded(servers, i),
        is_least_loaded(servers, k),
    ensures
        i == k,
{
    if i < k {
        assert(servers[k].tenant_count < servers[i].tenant_count);
        assert(servers[i].tenant_count <= servers[k].tenant_count);
    } else if k < i {
        assert(servers[i].tenant_count < servers[k].tenant_count);
        assert(servers[k].tenant_count <= servers[i].tenant_count);
    }
}

/// A fleet that is not empty has a least loaded server, and the placement
/// is that server.
pub proof fn lemma_least_loaded_exists(servers: Seq<ServerView>)
    requires
        servers.len() > 0,
    ensures
        least_loaded(servers) matches Some(i) && is_least_loaded(servers, i),
{
    let i = least_loaded_among(servers, servers.len() as int);
    assert(is_least_loaded(servers, i));
}

/// The server that satisfies the placement rule is the placement.
pub proof fn lemma_least_loaded_found(servers: Seq<ServerView>, i: int)
    requires
        is_least_loaded(servers, i),
    ensures
        least_loaded(servers) == Some(i),
{
    lemma_least_loaded_exists(servers);
    lemma_least_loaded_unique(servers, i, least_loaded(servers)->0);
}

/// The position, in a listing of the fleet, of the server that a new tenant
/// is placed on: the one with the fewest tenants, and of several the one
/// that comes first. `None` where the fleet is empty.
pub fn pick_server(servers: &Vec<Server>) -> (picked: Option<usize>)
    ensures
        match picked {
            Some(i) => least_loaded(server_views(servers@)) == Some(i as int),
            None => least_loaded(server_views(servers@)) is None,
        },
        picked is None <==> servers@.len() == 0,
        picked matches Some(i) ==> i < servers@.len(),
{
    if servers.len() == 0 {
        return None;
    }
    let ghost views = server_views(servers@);
    let mut best: usize = 0;
    let mut i: usize = 1;
    while i < servers.len()
        invariant
            1 <= i <= servers.len(),
            best < i,
            views == server_views(servers@),
            forall|j: int|
                0 <= j < i ==> views[best as int].tenant_count <= (#[trigger] views[j]).tenant_count,
            forall|j: int|
                0 <= j < best ==> views[best as int].tenant_count < (
                #[trigger] views[j]).tenant_count,
        decreases servers.len() - i,
    {
        if servers[i].tenant_count < servers[best].tenant_count {
            best = i;
        }
        i = i + 1;
    }
    proof {
        lemma_least_loaded_found(views, best as int);
    }
    Some(best)
}

} // verus!
