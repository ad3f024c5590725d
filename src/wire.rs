use vstd::prelude::*;

verus! {

/// The little-endian value of four bytes.
pub open spec fn le_u32(b0: u8, b1: u8, b2: u8, b3: u8) -> nat {
    b0 as nat + 256 * (b1 as nat) + 65536 * (b2 as nat) + 16777216 * (b3 as nat)
}

/// The `i`-th 32-bit little-endian integer of `bytes`.
pub open spec fn le_u32_at(bytes: Seq<u8>, i: int) -> nat {
    le_u32(bytes[4 * i], bytes[4 * i + 1], bytes[4 * i + 2], bytes[4 * i + 3])
}

/// The chain ids that a buffer of 32-bit little-endian integers lists.
pub open spec fn relay_ids(bytes: Seq<u8>) -> Seq<u32> {
    Seq::new(bytes.len() / 4, |i: int| le_u32_at(bytes, i) as u32)
}

/// Reads a list of chain ids laid out as 32-bit little-endian integers.
pub fn decode_relay_chain_ids(bytes: &Vec<u8>) -> (r: Vec<u32>)
    requires
        bytes.len() % 4 == 0,
    ensures
        r@ == relay_ids(bytes@),
        r.len() == bytes.len() / 4,
        forall|i: int| 0 <= i < r.len() ==> #[trigger] r[i] as nat == le_u32_at(bytes@, i),
{
    let n = bytes.len() / 4;
    let mut r: Vec<u32> = Vec::new();
    let mut i: usize = 0;
    while i < n
        invariant
            n == bytes.len() / 4,
            i <= n,
            r.len() == i,
            forall|k: int| 0 <= k < i ==> #[trigger] r[k] as nat == le_u32_at(bytes@, k),
        decreases n - i,
    {
        let b0 = bytes[4 * i] as u32;
        let b1 = bytes[4 * i + 1] as u32;
        let b2 = bytes[4 * i + 2] as u32;
        let b3 = bytes[4 * i + 3] as u32;
        let v = b0 + 256 * b1 + 65536 * b2 + 16777216 * b3;
        r.push(v);
        i += 1;
    }
    assert(r@ =~= relay_ids(bytes@));
    r
}

/// How the engine is asked to serve JSON-RPC for a chain.
pub enum JsonRpcConfig {
    Disabled,
    Enabled { max_pending_requests: u32, max_subscriptions: u32 },
}

/// A maximum of 0 pending requests disables JSON-RPC; the maximum of subscriptions then
/// plays no part.
pub open spec fn spec_json_rpc_config(max_pending_requests: u32, max_subscriptions: u32) -> JsonRpcConfig {
    if max_pending_requests == 0 {
        JsonRpcConfig::Disabled
    } else {
        JsonRpcConfig::Enabled { max_pending_requests, max_subscriptions }
    }
}

#[verifier::when_used_as_spec(spec_json_rpc_config)]
pub fn json_rpc_config(max_pending_requests: u32, max_subscriptions: u32) -> (r: JsonRpcConfig)
    ensures
        r == spec_json_rpc_config(max_pending_requests, max_subscriptions),
        max_pending_requests == 0 ==> r is Disabled,
        max_pending_requests != 0 ==> r == (JsonRpcConfig::Enabled {
            max_pending_requests,
            max_subscriptions,
        }),
{
    if max_pending_requests == 0 {
        JsonRpcConfig::Disabled
    } else {
        JsonRpcConfig::Enabled { max_pending_requests, max_subscriptions }
    }
}

/// What the engine did with a JSON-RPC request.
pub enum QueueOutcome {
    Queued,
    TooManyPendingRequests,
}

/// The status code handed to the host for a JSON-RPC request: 0 when queued, 1 when the
/// engine pushed back because too many requests are pending.
pub fn json_rpc_send_status(outcome: QueueOutcome) -> (r: u32)
    ensures
        outcome is Queued ==> r == 0,
        outcome is TooManyPendingRequests ==> r == 1,
{
    match outcome {
        QueueOutcome::Queued => 0,
        QueueOutcome::TooManyPendingRequests => 1,
    }
}

} // verus!
