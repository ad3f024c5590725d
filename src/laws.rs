use vstd::prelude::*;

use crate::registry::{
    after_add, after_complete, after_offer, after_pop, after_remove, awaits, buffered, can_add,
    info_len, is_created, is_initializing, is_live, json_rpc_enabled, lemma_encoded_len_zero,
    lemma_lowest_free, lowest_free, peek_view, view_wf, RegistryView,
};

verus! {

/// A registration hands out an id that held no chain, puts the new chain there, and leaves
/// every other id as it was. So the ids of live chains are unique, and an id comes back only
/// once it has been freed.
pub proof fn lemma_add_gives_fresh_id(v: RegistryView, json_rpc: bool)
    requires
        view_wf(v),
        can_add(v),
    ensures
        !is_live(v, lowest_free(v.slots)),
        is_initializing(after_add(v, json_rpc), lowest_free(v.slots)),
        view_wf(after_add(v, json_rpc)),
        forall|j: nat|
            j != lowest_free(v.slots) && #[trigger] is_live(v, j) ==> after_add(
                v,
                json_rpc,
            ).slots[j as int] == v.slots[j as int],
        forall|j: nat|
            j != lowest_free(v.slots) ==> (#[trigger] is_live(after_add(v, json_rpc), j)
                == is_live(v, j)),
{
    lemma_lowest_free(v.slots);
    let w = after_add(v, json_rpc);
    let id = lowest_free(v.slots);
    assert forall|i: int|
        0 <= i < w.slots.len() && #[trigger] w.slots[i] is Some implies crate::registry::slot_wf(
        w.slots[i].unwrap(),
        w.next_ticket,
    ) by {
        if i != id as int {
            assert(v.slots[i] is Some);
        }
    }
}

/// A removal frees exactly the id it names; every other id keeps what it held.
pub proof fn lemma_remove_frees_only_that_id(v: RegistryView, id: nat)
    requires
        view_wf(v),
    ensures
        !is_live(after_remove(v, id), id),
        view_wf(after_remove(v, id)),
        forall|j: nat|
            j != id ==> (#[trigger] is_live(after_remove(v, id), j) == is_live(v, j)),
        forall|j: nat|
            j != id && #[trigger] is_live(v, j) ==> after_remove(v, id).slots[j as int]
                == v.slots[j as int],
{
    let w = after_remove(v, id);
    assert forall|i: int|
        0 <= i < w.slots.len() && #[trigger] w.slots[i] is Some implies crate::registry::slot_wf(
        w.slots[i].unwrap(),
        w.next_ticket,
    ) by {
        assert(v.slots[i] is Some);
    }
}

/// The response-info of a created chain has length 0 exactly when no response is buffered,
/// and a peek that answers without polling answers that length.
pub proof fn lemma_response_info_consistent(v: RegistryView, id: nat)
    requires
        view_wf(v),
        is_created(v, id),
    ensures
        (info_len(v, id) == 0) == (buffered(v, id) is None),
        peek_view(v, id) matches Some(n) ==> (n == 0) == (buffered(v, id) is None),
{
    assert(v.slots[id as int] is Some);
    if let Some(r) = buffered(v, id) {
        lemma_encoded_len_zero(r);
    }
}

/// After a pop, nothing is buffered: the next peek polls the response stream (or answers
/// length 0 on a chain without JSON-RPC), and what it then buffers is the next non-empty
/// item of the stream, never the response just popped.
pub proof fn lemma_pop_then_peek(v: RegistryView, id: nat, item: Seq<char>)
    requires
        view_wf(v),
        is_created(v, id),
    ensures
        view_wf(after_pop(v, id)),
        is_created(after_pop(v, id), id),
        buffered(after_pop(v, id), id) is None,
        peek_view(after_pop(v, id), id) == (if json_rpc_enabled(v, id) {
            None
        } else {
            Some(0nat)
        }),
        item.len() > 0 ==> buffered(after_offer(after_pop(v, id), id, item), id) == Some(item),
        item.len() == 0 ==> after_offer(after_pop(v, id), id, item) == after_pop(v, id),
{
    let w = after_pop(v, id);
    assert forall|i: int|
        0 <= i < w.slots.len() && #[trigger] w.slots[i] is Some implies crate::registry::slot_wf(
        w.slots[i].unwrap(),
        w.next_ticket,
    ) by {
        if i != id as int {
            assert(v.slots[i] is Some);
        }
    }
}

/// An initialization whose chain was removed before it ended never creates a chain: its end
/// changes nothing, also where the id was handed out again in the meantime.
pub proof fn lemma_removed_initialization_is_discarded(
    v: RegistryView,
    id: nat,
    ticket: nat,
    json_rpc: bool,
    engine_chain: Option<nat>,
)
    requires
        view_wf(v),
        awaits(v, id, ticket),
    ensures
        after_complete(after_remove(v, id), id, ticket, engine_chain) == after_remove(v, id),
        can_add(after_remove(v, id)) ==> after_complete(
            after_add(after_remove(v, id), json_rpc),
            id,
            ticket,
            engine_chain,
        ) == after_add(after_remove(v, id), json_rpc),
{
    assert(v.slots[id as int] is Some);
    let w = after_remove(v, id);
    if can_add(w) {
        lemma_lowest_free(w.slots);
    }
}

/// The end of a background initialization changes at most the slot it was started for:
/// every other id keeps what it held.
pub proof fn lemma_completion_touches_only_its_id(
    v: RegistryView,
    id: nat,
    ticket: nat,
    engine_chain: Option<nat>,
)
    requires
        view_wf(v),
    ensures
        view_wf(after_complete(v, id, ticket, engine_chain)),
        after_complete(v, id, ticket, engine_chain).slots.len() == v.slots.len(),
        forall|j: nat|
            j != id && j < v.slots.len() ==> after_complete(v, id, ticket, engine_chain).slots[j as int]
                == #[trigger] v.slots[j as int],
{
    let w = after_complete(v, id, ticket, engine_chain);
    assert forall|i: int|
        0 <= i < w.slots.len() && #[trigger] w.slots[i] is Some implies crate::registry::slot_wf(
        w.slots[i].unwrap(),
        w.next_ticket,
    ) by {
        if i != id as int {
            assert(v.slots[i] is Some);
        }
    }
}

} // verus!
