//! Pending app-server requests: which of them hold up a run or the model catalog.
use vstd::prelude::*;
use std::collections::BTreeMap;
use crate::text::str_eq;
use vstd::std_specs::btree::spec_btree_map_iter;
use vstd::std_specs::iter::IteratorSpec;

verus! {

broadcast use vstd::std_specs::btree::group_btree_axioms;

/// Methods that start or resume a thread or turn.
pub open spec fn starts_turn(method: Seq<char>) -> bool {
    method == "thread/start"@ || method == "thread/resume"@ || method == "turn/start"@
}

/// Model catalog requests, including later pages.
pub open spec fn lists_models(method: Seq<char>) -> bool {
    method == "model/list"@
}

/// The methods that `catalog` (model listing) or turn starts select.
pub open spec fn selected(method: Seq<char>, catalog: bool) -> bool {
    if catalog {
        lists_models(method)
    } else {
        starts_turn(method)
    }
}

/// Some pending request (by id) has a selected method.
pub open spec fn any_pending(pending: Map<u64, String>, catalog: bool) -> bool {
    exists|id: u64| pending.contains_key(id) && selected(#[trigger] pending[id]@, catalog)
}

fn any_pending_where(pending: &BTreeMap<u64, String>, catalog: bool) -> (r: bool)
    ensures
        r == any_pending(pending@, catalog),
{
    let mut found = false;
    let iter = pending.iter();
    let ghost rem = iter.remaining();
    assert(rem == spec_btree_map_iter(pending).remaining());
    for kv in it: iter
        invariant
            it.seq() == rem,
            found == exists|i: int| 0 <= i < it.index() && selected(#[trigger] it.seq()[i].1@, catalog),
    {
        let method = kv.1.as_str();
        let hit = if catalog {
            str_eq(method, "model/list")
        } else {
            str_eq(method, "thread/start") || str_eq(method, "thread/resume") || str_eq(method, "turn/start")
        };
        if hit {
            found = true;
        }
    }
    proof {
        if found {
            let i = choose|i: int| 0 <= i < rem.len() && selected(#[trigger] rem[i].1@, catalog);
            let id = *rem[i].0;
            assert(pending@.contains_key(id) && pending@[id] == *rem[i].1);
            assert(selected(pending@[id]@, catalog));
        } else {
            assert forall|id: u64| pending@.contains_key(id) implies !selected(#[trigger] pending@[id]@, catalog) by {
                assert(rem.contains((&id, &pending@[id])));
                let i = choose|i: int| 0 <= i < rem.len() && rem[i] == (&id, &pending@[id]);
                assert(!selected(rem[i].1@, catalog));
            }
        }
    }
    found
}

/// A run waits for thread and turn requests; model discovery (including
/// pagination) may finish after a turn starts.
pub fn pending_blocks_run(pending: &BTreeMap<u64, String>) -> (r: bool)
    ensures
        r == any_pending(pending@, false),
{
    any_pending_where(pending, false)
}

/// The model catalog is settled for a signed-in account once models were
/// requested and no catalog page is pending; other requests do not block it.
pub fn catalog_settled(account: bool, models_requested: bool, pending: &BTreeMap<u64, String>) -> (r: bool)
    ensures
        r == (account && models_requested && !any_pending(pending@, true)),
{
    account && models_requested && !any_pending_where(pending, true)
}

/// A run waits exactly for outstanding thread starts, thread resumes and
/// turn starts, and the catalog exactly for model-list pages; a model-list
/// page never holds up a run, and a turn request never holds up the
/// catalog.
pub proof fn law_runs_and_catalog_wait_for_their_own_requests(pending: Map<u64, String>, id: u64, method: String)
    requires
        !pending.contains_key(id),
    ensures
        any_pending(pending, false) <==> exists|k: u64| #![trigger pending[k]]
            pending.contains_key(k) && (pending[k]@ == "thread/start"@ || pending[k]@ == "thread/resume"@
                || pending[k]@ == "turn/start"@),
        any_pending(pending, true) <==> exists|k: u64| #![trigger pending[k]]
            pending.contains_key(k) && pending[k]@ == "model/list"@,
        method@ == "model/list"@ ==> any_pending(pending.insert(id, method), false) == any_pending(pending, false),
        starts_turn(method@) ==> any_pending(pending.insert(id, method), true) == any_pending(pending, true),
        starts_turn(method@) ==> any_pending(pending.insert(id, method), false),
        method@ == "model/list"@ ==> any_pending(pending.insert(id, method), true),
{
    reveal_strlit("model/list");
    reveal_strlit("thread/start");
    reveal_strlit("thread/resume");
    reveal_strlit("turn/start");
    assert("model/list"@[0] != "turn/start"@[0]);
    assert("model/list"@.len() != "thread/start"@.len());
    assert("model/list"@.len() != "thread/resume"@.len());
    let p2 = pending.insert(id, method);
    assert(p2.contains_key(id) && p2[id] == method);
    if method@ == "model/list"@ {
        assert(!selected(method@, false));
        if any_pending(p2, false) {
            let k = choose|k: u64| p2.contains_key(k) && selected(#[trigger] p2[k]@, false);
            assert(k != id);
            assert(pending.contains_key(k) && pending[k] == p2[k]);
        }
        if any_pending(pending, false) {
            let k = choose|k: u64| pending.contains_key(k) && selected(#[trigger] pending[k]@, false);
            assert(p2.contains_key(k) && p2[k] == pending[k]);
        }
    }
    if starts_turn(method@) {
        assert(!selected(method@, true));
        if any_pending(p2, true) {
            let k = choose|k: u64| p2.contains_key(k) && selected(#[trigger] p2[k]@, true);
            assert(k != id);
            assert(pending.contains_key(k) && pending[k] == p2[k]);
        }
        if any_pending(pending, true) {
            let k = choose|k: u64| pending.contains_key(k) && selected(#[trigger] pending[k]@, true);
            assert(p2.contains_key(k) && p2[k] == pending[k]);
        }
    }
}

} // verus!
