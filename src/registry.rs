use vstd::prelude::*;
use vstd::utf8::encode_utf8;

use crate::wire::{decode_relay_chain_ids, json_rpc_config, relay_ids, JsonRpcConfig};

verus! {

/// Information about the response at the front of a chain's queue.
///
/// A `len` of 0 means that the queue is empty.
pub struct JsonRpcResponseInfo {
    /// Length of the buffered response, in bytes of UTF-8.
    pub len: usize,
}

/// State of one slot of the registry.
pub enum Chain {
    /// The engine is still building the chain in the background. `ticket` tells this
    /// initialization apart from every other one, also from a later one under the same id.
    Initializing { ticket: u64, json_rpc: bool },
    /// The engine accepted the chain.
    Created {
        engine_chain: usize,
        response: Option<String>,
        info: JsonRpcResponseInfo,
        json_rpc: bool,
    },
}

/// Mathematical model of a slot.
pub enum ChainView {
    Initializing { ticket: nat, json_rpc: bool },
    Created { engine_chain: nat, response: Option<Seq<char>>, info_len: nat, json_rpc: bool },
}

/// Mathematical model of the registry: one entry per id ever handed out (`None` once
/// freed), and the ticket that the next initialization receives.
pub struct RegistryView {
    pub slots: Seq<Option<ChainView>>,
    pub next_ticket: nat,
}

impl View for Chain {
    type V = ChainView;

    open spec fn view(&self) -> ChainView {
        match self {
            Chain::Initializing { ticket, json_rpc } => ChainView::Initializing {
                ticket: *ticket as nat,
                json_rpc: *json_rpc,
            },
            Chain::Created { engine_chain, response, info, json_rpc } => ChainView::Created {
                engine_chain: *engine_chain as nat,
                response: match response {
                    Some(r) => Some(r@),
                    None => None,
                },
                info_len: info.len as nat,
                json_rpc: *json_rpc,
            },
        }
    }
}

pub open spec fn slot_view(s: Option<Chain>) -> Option<ChainView> {
    match s {
        Some(c) => Some(c@),
        None => None,
    }
}

/// Byte length that the response-info record must carry for a buffered response.
pub open spec fn info_len_of(response: Option<Seq<char>>) -> nat {
    match response {
        Some(r) => encode_utf8(r).len(),
        None => 0,
    }
}

pub open spec fn slot_wf(c: ChainView, next_ticket: nat) -> bool {
    match c {
        ChainView::Initializing { ticket, .. } => ticket < next_ticket,
        ChainView::Created { response, info_len, .. } => {
            &&& info_len == info_len_of(response)
            &&& response matches Some(r) ==> r.len() > 0
        },
    }
}

/// Well-formedness of the model: ids fit in `u32`, tickets were handed out before, and each
/// response-info record agrees with its buffered response, which is never empty.
pub open spec fn view_wf(v: RegistryView) -> bool {
    &&& v.slots.len() <= u32::MAX
    &&& forall|i: int|
        0 <= i < v.slots.len() && #[trigger] v.slots[i] is Some ==> slot_wf(
            v.slots[i].unwrap(),
            v.next_ticket,
        )
}

pub open spec fn is_live(v: RegistryView, id: nat) -> bool {
    id < v.slots.len() && v.slots[id as int] is Some
}

pub open spec fn is_created(v: RegistryView, id: nat) -> bool {
    is_live(v, id) && v.slots[id as int].unwrap() is Created
}

pub open spec fn is_initializing(v: RegistryView, id: nat) -> bool {
    is_live(v, id) && v.slots[id as int].unwrap() is Initializing
}

/// The lowest id at or above `i` that holds no chain.
pub open spec fn lowest_free_from(s: Seq<Option<ChainView>>, i: nat) -> nat
    decreases s.len() - i,
{
    if i >= s.len() {
        s.len()
    } else if s[i as int] is None {
        i
    } else {
        lowest_free_from(s, i + 1)
    }
}

/// The lowest id that holds no chain.
pub open spec fn lowest_free(s: Seq<Option<ChainView>>) -> nat {
    lowest_free_from(s, 0)
}

/// Stores `c` under `id`, growing the table by one where `id` is just past its end.
pub open spec fn put(s: Seq<Option<ChainView>>, id: nat, c: ChainView) -> Seq<Option<ChainView>> {
    if id < s.len() {
        s.update(id as int, Some(c))
    } else {
        s.push(Some(c))
    }
}

/// Whether a new chain can be registered: a free id below `u32::MAX` and a fresh ticket.
pub open spec fn can_add(v: RegistryView) -> bool {
    lowest_free(v.slots) < u32::MAX && v.next_ticket < u64::MAX
}

pub open spec fn after_add(v: RegistryView, json_rpc: bool) -> RegistryView {
    RegistryView {
        slots: put(
            v.slots,
            lowest_free(v.slots),
            ChainView::Initializing { ticket: v.next_ticket, json_rpc },
        ),
        next_ticket: v.next_ticket + 1,
    }
}

pub open spec fn after_remove(v: RegistryView, id: nat) -> RegistryView {
    if id < v.slots.len() {
        RegistryView { slots: v.slots.update(id as int, None), next_ticket: v.next_ticket }
    } else {
        v
    }
}

/// Whether `id` still holds the initialization identified by `ticket`.
pub open spec fn awaits(v: RegistryView, id: nat, ticket: nat) -> bool {
    is_initializing(v, id) && v.slots[id as int].unwrap()->Initializing_ticket == ticket
}

/// What the end of a background initialization does to the registry: nothing unless the
/// slot still awaits it; then the chain is created, or freed where the engine refused it.
pub open spec fn after_complete(
    v: RegistryView,
    id: nat,
    ticket: nat,
    engine_chain: Option<nat>,
) -> RegistryView {
    if awaits(v, id, ticket) {
        match engine_chain {
            Some(e) => RegistryView {
                slots: v.slots.update(
                    id as int,
                    Some(
                        ChainView::Created {
                            engine_chain: e,
                            response: None,
                            info_len: 0,
                            json_rpc: v.slots[id as int].unwrap()->Initializing_json_rpc,
                        },
                    ),
                ),
                next_ticket: v.next_ticket,
            },
            None => RegistryView {
                slots: v.slots.update(id as int, None),
                next_ticket: v.next_ticket,
            },
        }
    } else {
        v
    }
}

/// The buffered response of a created chain.
pub open spec fn buffered(v: RegistryView, id: nat) -> Option<Seq<char>> {
    v.slots[id as int].unwrap()->Created_response
}

pub open spec fn info_len(v: RegistryView, id: nat) -> nat {
    v.slots[id as int].unwrap()->Created_info_len
}

pub open spec fn json_rpc_enabled(v: RegistryView, id: nat) -> bool {
    v.slots[id as int].unwrap()->Created_json_rpc
}

pub open spec fn engine_chain_of(v: RegistryView, id: nat) -> nat {
    v.slots[id as int].unwrap()->Created_engine_chain
}

/// Replaces the buffered response of a created chain (and its response-info record).
pub open spec fn with_response(v: RegistryView, id: nat, r: Option<Seq<char>>) -> RegistryView {
    RegistryView {
        slots: v.slots.update(
            id as int,
            Some(
                ChainView::Created {
                    engine_chain: engine_chain_of(v, id),
                    response: r,
                    info_len: info_len_of(r),
                    json_rpc: json_rpc_enabled(v, id),
                },
            ),
        ),
        next_ticket: v.next_ticket,
    }
}

/// What a peek answers without polling: `Some(len)` is a response-info of that length,
/// `None` asks for the response stream to be polled.
pub open spec fn peek_view(v: RegistryView, id: nat) -> Option<nat> {
    if buffered(v, id) is Some {
        Some(info_len(v, id))
    } else if json_rpc_enabled(v, id) {
        None
    } else {
        Some(0)
    }
}

pub open spec fn after_offer(v: RegistryView, id: nat, item: Seq<char>) -> RegistryView {
    if item.len() == 0 {
        v
    } else {
        with_response(v, id, Some(item))
    }
}

pub open spec fn after_pop(v: RegistryView, id: nat) -> RegistryView {
    with_response(v, id, None)
}

/// The engine chains that the given ids stand for, in order, skipping every id that does not
/// hold a created chain.
pub open spec fn relay_engine_chains(v: RegistryView, ids: Seq<u32>) -> Seq<nat>
    decreases ids.len(),
{
    if ids.len() == 0 {
        seq![]
    } else {
        let rest = relay_engine_chains(v, ids.drop_last());
        let id = ids.last() as nat;
        if is_created(v, id) {
            rest.push(engine_chain_of(v, id))
        } else {
            rest
        }
    }
}

pub open spec fn response_view(o: Option<String>) -> Option<Seq<char>> {
    match o {
        Some(r) => Some(r@),
        None => None,
    }
}

pub open spec fn nat_of(e: Option<usize>) -> Option<nat> {
    match e {
        Some(x) => Some(x as nat),
        None => None,
    }
}

/// What the end of a background initialization asks of the caller, given whether the engine
/// built the chain.
pub open spec fn init_outcome(v: RegistryView, id: nat, ticket: nat, built: bool) -> InitOutcome {
    if awaits(v, id, ticket) {
        if built { InitOutcome::Created } else { InitOutcome::Failed }
    } else {
        if built { InitOutcome::Discard } else { InitOutcome::Ignore }
    }
}

proof fn lemma_lowest_free_from(s: Seq<Option<ChainView>>, k: nat, i: nat)
    requires
        k <= i <= s.len(),
        forall|j: int| k <= j < i ==> s[j] is Some,
        i == s.len() || s[i as int] is None,
    ensures
        lowest_free_from(s, k) == i,
    decreases i - k,
{
    if k < i {
        lemma_lowest_free_from(s, k + 1, i);
    }
}

proof fn lemma_lowest_free_shape(s: Seq<Option<ChainView>>, k: nat)
    requires
        k <= s.len(),
    ensures
        k <= lowest_free_from(s, k) <= s.len(),
        lowest_free_from(s, k) < s.len() ==> s[lowest_free_from(s, k) as int] is None,
        forall|j: int| k <= j < lowest_free_from(s, k) ==> s[j] is Some,
    decreases s.len() - k,
{
    if k < s.len() && s[k as int] is Some {
        lemma_lowest_free_shape(s, k + 1);
    }
}

/// The lowest free id is free (or just past the table), and every id below it is taken.
pub proof fn lemma_lowest_free(s: Seq<Option<ChainView>>)
    ensures
        lowest_free(s) <= s.len(),
        lowest_free(s) < s.len() ==> s[lowest_free(s) as int] is None,
        forall|j: int| 0 <= j < lowest_free(s) ==> s[j] is Some,
{
    lemma_lowest_free_shape(s, 0);
}

/// A character sequence encodes to no bytes exactly when it is empty.
pub proof fn lemma_encoded_len_zero(r: Seq<char>)
    ensures
        (encode_utf8(r).len() == 0) == (r.len() == 0),
{
    if r.len() > 0 {
        assert(encode_utf8(r) == vstd::utf8::encode_scalar(r[0] as u32) + encode_utf8(
            r.drop_first(),
        ));
    }
}

/// A chain whose initialization was started: its id and the ticket of that initialization.
pub struct PendingChain {
    pub id: u32,
    pub ticket: u64,
}

/// A chain whose initialization was started, with what the engine needs to build it: how it
/// serves JSON-RPC, and the engine chains among which it may find its relay chain.
pub struct AddedChain {
    pub id: u32,
    pub ticket: u64,
    pub json_rpc: JsonRpcConfig,
    pub relay_chains: Vec<usize>,
}

/// What the end of a background initialization asks of the caller.
pub enum InitOutcome {
    /// The chain is created: tell the host that it is ready.
    Created,
    /// The engine refused the chain and its id is freed: tell the host, with the engine's
    /// diagnostic.
    Failed,
    /// The slot was freed in the meantime: remove the chain from the engine again, and tell
    /// the host nothing.
    Discard,
    /// The slot was freed in the meantime and the engine built nothing: do nothing.
    Ignore,
}

/// What a removal found under the id.
pub enum Removed {
    Nothing,
    Initializing,
    /// The caller silences the chain's response stream, then removes the chain from the
    /// engine.
    Created { engine_chain: usize, json_rpc: bool },
}

/// Answer of a peek that did not poll.
pub enum Peek {
    Ready(JsonRpcResponseInfo),
    /// No response is buffered: poll the response stream and hand over what it yields.
    Poll,
}

/// Registry of the chains added by the host: a table from small integer ids to chain slots.
pub struct ChainRegistry {
    slots: Vec<Option<Chain>>,
    next_ticket: u64,
}

impl View for ChainRegistry {
    type V = RegistryView;

    closed spec fn view(&self) -> RegistryView {
        RegistryView {
            slots: self.slots@.map_values(|s: Option<Chain>| slot_view(s)),
            next_ticket: self.next_ticket as nat,
        }
    }
}

impl ChainRegistry {
    pub open spec fn wf(&self) -> bool {
        view_wf(self@)
    }

    pub fn new() -> (r: Self)
        ensures
            r.wf(),
            r@.slots.len() == 0,
            r@.next_ticket == 0,
    {
        ChainRegistry { slots: Vec::new(), next_ticket: 0 }
    }

    /// The lowest id that holds no chain (the length of the table where all are taken).
    fn first_free_slot(&self) -> (i: usize)
        ensures
            i as nat == lowest_free(self@.slots),
    {
        let mut i: usize = 0;
        while i < self.slots.len()
            invariant
                i <= self.slots.len(),
                forall|j: int| 0 <= j < i ==> #[trigger] self@.slots[j] is Some,
            decreases self.slots.len() - i,
        {
            if self.slots[i].is_none() {
                proof {
                    lemma_lowest_free_from(self@.slots, 0, i as nat);
                }
                return i;
            }
            i += 1;
        }
        proof {
            lemma_lowest_free_from(self@.slots, 0, i as nat);
        }
        i
    }

    /// Registers a new chain in the `Initializing` state under the lowest free id.
    ///
    /// Returns `None`, and changes nothing, where every id below `u32::MAX` is taken or the
    /// tickets are used up.
    pub fn register(&mut self, json_rpc: bool) -> (r: Option<PendingChain>)
        requires
            old(self).wf(),
        ensures
            final(self).wf(),
            match r {
                Some(p) => {
                    &&& can_add(old(self)@)
                    &&& p.id as nat == lowest_free(old(self)@.slots)
                    &&& p.ticket as nat == old(self)@.next_ticket
                    &&& final(self)@ == after_add(old(self)@, json_rpc)
                },
                None => !can_add(old(self)@) && final(self)@ == old(self)@,
            },
    {
        let id = self.first_free_slot();
        if id >= u32::MAX as usize || self.next_ticket == u64::MAX {
            return None;
        }
        proof {
            lemma_lowest_free(self@.slots);
        }
        let ghost old_v = self@;
        let ticket = self.next_ticket;
        let c = Chain::Initializing { ticket, json_rpc };
        if id < self.slots.len() {
            self.slots.set(id, Some(c));
        } else {
            self.slots.push(Some(c));
        }
        self.next_ticket = ticket + 1;
        proof {
            let want = after_add(old_v, json_rpc);
            assert(self@.slots =~= want.slots);
            assert forall|i: int|
                0 <= i < self@.slots.len() && #[trigger] self@.slots[i] is Some implies slot_wf(
                self@.slots[i].unwrap(),
                self@.next_ticket,
            ) by {
                if i != id as int {
                    assert(old_v.slots[i] is Some);
                }
            }
        }
        Some(PendingChain { id: id as u32, ticket })
    }

    /// Whether `id` holds a created chain.
    pub fn is_ready(&self, id: u32) -> (r: bool)
        ensures
            r == is_created(self@, id as nat),
    {
        let idx = id as usize;
        idx < self.slots.len() && matches!(self.slots[idx], Some(Chain::Created { .. }))
    }

    /// Ends the background initialization `ticket` of `id`, with the engine's chain where the
    /// engine built one. A slot that was freed (and maybe handed out again) in the meantime
    /// is left alone.
    pub fn chain_initialized(&mut self, id: u32, ticket: u64, engine_chain: Option<usize>) -> (r:
        InitOutcome)
        requires
            old(self).wf(),
        ensures
            final(self).wf(),
            final(self)@ == after_complete(
                old(self)@,
                id as nat,
                ticket as nat,
                nat_of(engine_chain),
            ),
            r == init_outcome(old(self)@, id as nat, ticket as nat, engine_chain is Some),
    {
        let idx = id as usize;
        let mut json_rpc = false;
        let mut waiting = false;
        if idx < self.slots.len() {
            if let Some(Chain::Initializing { ticket: t, json_rpc: j }) = &self.slots[idx] {
                if *t == ticket {
                    waiting = true;
                    json_rpc = *j;
                }
            }
        }
        if !waiting {
            return match engine_chain {
                Some(_) => InitOutcome::Discard,
                None => InitOutcome::Ignore,
            };
        }
        let ghost old_v = self@;
        match engine_chain {
            Some(e) => {
                self.slots.set(
                    idx,
                    Some(
                        Chain::Created {
                            engine_chain: e,
                            response: None,
                            info: JsonRpcResponseInfo { len: 0 },
                            json_rpc,
                        },
                    ),
                );
                proof {
                    let want = after_complete(old_v, id as nat, ticket as nat, nat_of(engine_chain));
                    assert(self@.slots =~= want.slots);
                    assert forall|i: int|
                        0 <= i < self@.slots.len() && #[trigger] self@.slots[i] is Some implies slot_wf(
                        self@.slots[i].unwrap(),
                        self@.next_ticket,
                    ) by {
                        if i != idx as int {
                            assert(old_v.slots[i] is Some);
                        }
                    }
                }
                InitOutcome::Created
            },
            None => {
                self.slots.set(idx, None);
                proof {
                    assert(self@.slots =~= old_v.slots.update(idx as int, None));
                    assert forall|i: int|
                        0 <= i < self@.slots.len() && #[trigger] self@.slots[i] is Some implies slot_wf(
                        self@.slots[i].unwrap(),
                        self@.next_ticket,
                    ) by {
                        assert(old_v.slots[i] is Some);
                    }
                }
                InitOutcome::Failed
            },
        }
    }

    /// Answers a peek from the buffered response where there is one. Otherwise a chain with
    /// JSON-RPC asks for its response stream to be polled, and one without answers an empty
    /// response-info.
    pub fn json_rpc_responses_peek(&self, id: u32) -> (r: Peek)
        requires
            self.wf(),
            is_created(self@, id as nat),
        ensures
            match r {
                Peek::Ready(info) => peek_view(self@, id as nat) == Some(info.len as nat),
                Peek::Poll => peek_view(self@, id as nat) is None,
            },
    {
        match &self.slots[id as usize] {
            Some(Chain::Created { response, info, json_rpc, .. }) => {
                if response.is_some() {
                    Peek::Ready(JsonRpcResponseInfo { len: info.len })
                } else if *json_rpc {
                    Peek::Poll
                } else {
                    Peek::Ready(JsonRpcResponseInfo { len: 0 })
                }
            },
            _ => Peek::Ready(JsonRpcResponseInfo { len: 0 }),
        }
    }

    /// Hands over an item polled from the response stream of a chain with nothing buffered.
    /// A non-empty item becomes the buffered response; an empty one is dropped, since a
    /// length of 0 is how a peek tells that the queue is empty.
    pub fn offer_response(&mut self, id: u32, item: String) -> (kept: bool)
        requires
            old(self).wf(),
            is_created(old(self)@, id as nat),
            buffered(old(self)@, id as nat) is None,
        ensures
            final(self).wf(),
            final(self)@ == after_offer(old(self)@, id as nat, item@),
            kept == (item@.len() > 0),
    {
        if item.as_str().is_empty() {
            return false;
        }
        let idx = id as usize;
        let len = item.as_str().as_bytes().len();
        let ghost old_v = self@;
        let ghost r = item@;
        self.set_response(idx, Some(item), len);
        proof {
            assert(encode_utf8(r).len() == len);
        }
        true
    }

    /// Drops the buffered response of a created chain; harmless where there is none.
    pub fn json_rpc_responses_pop(&mut self, id: u32)
        requires
            old(self).wf(),
            is_created(old(self)@, id as nat),
        ensures
            final(self).wf(),
            final(self)@ == after_pop(old(self)@, id as nat),
    {
        self.set_response(id as usize, None, 0);
    }

    fn set_response(&mut self, idx: usize, response: Option<String>, len: usize)
        requires
            old(self).wf(),
            is_created(old(self)@, idx as nat),
            len == info_len_of(response_view(response)),
            response matches Some(r) ==> r@.len() > 0,
        ensures
            final(self).wf(),
            final(self)@ == with_response(old(self)@, idx as nat, response_view(response)),
    {
        let (engine_chain, json_rpc) = match &self.slots[idx] {
            Some(Chain::Created { engine_chain, json_rpc, .. }) => (*engine_chain, *json_rpc),
            _ => (0, false),
        };
        let ghost old_v = self@;
        let ghost rv = response_view(response);
        self.slots.set(
            idx,
            Some(Chain::Created { engine_chain, response, info: JsonRpcResponseInfo { len }, json_rpc }),
        );
        proof {
            let want = with_response(old_v, idx as nat, rv);
            assert(self@.slots =~= want.slots);
            assert forall|i: int|
                0 <= i < self@.slots.len() && #[trigger] self@.slots[i] is Some implies slot_wf(
                self@.slots[i].unwrap(),
                self@.next_ticket,
            ) by {
                if i != idx as int {
                    assert(old_v.slots[i] is Some);
                }
            }
        }
    }

    /// The buffered response of a created chain, which stays in place until the next pop or
    /// removal of that chain.
    pub fn response(&self, id: u32) -> (r: Option<&String>)
        requires
            is_created(self@, id as nat),
        ensures
            match r {
                Some(s) => buffered(self@, id as nat) == Some(s@),
                None => buffered(self@, id as nat) is None,
            },
    {
        match &self.slots[id as usize] {
            Some(Chain::Created { response: Some(s), .. }) => Some(s),
            _ => None,
        }
    }

    /// The engine chain that JSON-RPC requests for `id` go to: `None` unless `id` holds a
    /// created chain with JSON-RPC enabled.
    pub fn json_rpc_target(&self, id: u32) -> (r: Option<usize>)
        ensures
            match r {
                Some(e) => {
                    &&& is_created(self@, id as nat)
                    &&& json_rpc_enabled(self@, id as nat)
                    &&& e as nat == engine_chain_of(self@, id as nat)
                },
                None => !(is_created(self@, id as nat) && json_rpc_enabled(self@, id as nat)),
            },
    {
        let idx = id as usize;
        if idx >= self.slots.len() {
            return None;
        }
        match &self.slots[idx] {
            Some(Chain::Created { engine_chain, json_rpc: true, .. }) => Some(*engine_chain),
            _ => None,
        }
    }

    /// The engine chains behind the given ids, in order, leaving out every id that does not
    /// hold a created chain.
    pub fn resolve_relay_chains(&self, ids: &Vec<u32>) -> (r: Vec<usize>)
        ensures
            r@.map_values(|e: usize| e as nat) == relay_engine_chains(self@, ids@),
    {
        let mut r: Vec<usize> = Vec::new();
        let mut i: usize = 0;
        while i < ids.len()
            invariant
                i <= ids.len(),
                r@.map_values(|e: usize| e as nat) == relay_engine_chains(self@, ids@.subrange(0, i as int)),
            decreases ids.len() - i,
        {
            let id = ids[i];
            proof {
                assert(ids@.subrange(0, i as int + 1).drop_last() =~= ids@.subrange(0, i as int));
            }
            if let Some(e) = self.created_engine_chain(id) {
                r.push(e);
                assert(r@.map_values(|e: usize| e as nat) =~= relay_engine_chains(self@, ids@.subrange(0, i as int)).push(e as nat));
            }
            i += 1;
        }
        assert(ids@.subrange(0, ids.len() as int) =~= ids@);
        r
    }

    fn created_engine_chain(&self, id: u32) -> (r: Option<usize>)
        ensures
            match r {
                Some(e) => is_created(self@, id as nat) && e as nat == engine_chain_of(self@, id as nat),
                None => !is_created(self@, id as nat),
            },
    {
        let idx = id as usize;
        if idx >= self.slots.len() {
            return None;
        }
        match &self.slots[idx] {
            Some(Chain::Created { engine_chain, .. }) => Some(*engine_chain),
            _ => None,
        }
    }

    /// Starts adding a chain: resolves the relay chain ids (32-bit little-endian in
    /// `potential_relay_chains`) that hold created chains, and registers the new chain as
    /// `Initializing`. A `json_rpc_max_pending_requests` of 0 disables JSON-RPC.
    ///
    /// Returns `None`, and changes nothing, where no id or ticket is left.
    pub fn add_chain(
        &mut self,
        json_rpc_max_pending_requests: u32,
        json_rpc_max_subscriptions: u32,
        potential_relay_chains: &Vec<u8>,
    ) -> (r: Option<AddedChain>)
        requires
            old(self).wf(),
            potential_relay_chains.len() % 4 == 0,
        ensures
            final(self).wf(),
            match r {
                Some(a) => {
                    &&& can_add(old(self)@)
                    &&& a.id as nat == lowest_free(old(self)@.slots)
                    &&& a.ticket as nat == old(self)@.next_ticket
                    &&& final(self)@ == after_add(old(self)@, json_rpc_max_pending_requests != 0)
                    &&& a.json_rpc == json_rpc_config(
                        json_rpc_max_pending_requests,
                        json_rpc_max_subscriptions,
                    )
                    &&& a.relay_chains@.map_values(|e: usize| e as nat) == relay_engine_chains(
                        old(self)@,
                        relay_ids(potential_relay_chains@),
                    )
                },
                None => !can_add(old(self)@) && final(self)@ == old(self)@,
            },
    {
        let ids = decode_relay_chain_ids(potential_relay_chains);
        let relay_chains = self.resolve_relay_chains(&ids);
        let json_rpc = json_rpc_config(json_rpc_max_pending_requests, json_rpc_max_subscriptions);
        match self.register(json_rpc_max_pending_requests != 0) {
            Some(p) => Some(AddedChain { id: p.id, ticket: p.ticket, json_rpc, relay_chains }),
            None => None,
        }
    }

    /// Frees `id`, whatever its state. Nothing happens where `id` holds no chain.
    pub fn remove_chain(&mut self, id: u32) -> (r: Removed)
        requires
            old(self).wf(),
        ensures
            final(self).wf(),
            final(self)@ == after_remove(old(self)@, id as nat),
            match r {
                Removed::Nothing => !is_live(old(self)@, id as nat),
                Removed::Initializing => is_initializing(old(self)@, id as nat),
                Removed::Created { engine_chain, json_rpc } => {
                    &&& is_created(old(self)@, id as nat)
                    &&& engine_chain as nat == engine_chain_of(old(self)@, id as nat)
                    &&& json_rpc == json_rpc_enabled(old(self)@, id as nat)
                },
            },
    {
        let idx = id as usize;
        if idx >= self.slots.len() {
            return Removed::Nothing;
        }
        let r = match &self.slots[idx] {
            None => Removed::Nothing,
            Some(Chain::Initializing { .. }) => Removed::Initializing,
            Some(Chain::Created { engine_chain, json_rpc, .. }) => Removed::Created {
                engine_chain: *engine_chain,
                json_rpc: *json_rpc,
            },
        };
        let ghost old_v = self@;
        self.slots.set(idx, None);
        proof {
            assert(self@.slots =~= old_v.slots.update(idx as int, None));
            assert forall|i: int|
                0 <= i < self@.slots.len() && #[trigger] self@.slots[i] is Some implies slot_wf(
                self@.slots[i].unwrap(),
                self@.next_ticket,
            ) by {
                assert(old_v.slots[i] is Some);
            }
        }
        r
    }
}

} // verus!
