use mobile_node::registry::{ChainRegistry, InitOutcome, JsonRpcResponseInfo, Peek, Removed};
use mobile_node::wire::JsonRpcConfig;

fn created_chain(reg: &mut ChainRegistry, json_rpc: bool, engine_chain: usize) -> u32 {
    let p = reg.register(json_rpc).unwrap();
    assert!(matches!(
        reg.chain_initialized(p.id, p.ticket, Some(engine_chain)),
        InitOutcome::Created
    ));
    p.id
}

fn peek_len(reg: &ChainRegistry, id: u32) -> Option<usize> {
    match reg.json_rpc_responses_peek(id) {
        Peek::Ready(info) => Some(info.len),
        Peek::Poll => None,
    }
}

#[test]
fn ids_are_lowest_free_and_reused_only_after_removal() {
    let mut reg = ChainRegistry::new();
    let a = reg.register(true).unwrap();
    let b = reg.register(true).unwrap();
    let c = reg.register(false).unwrap();
    assert_eq!((a.id, b.id, c.id), (0, 1, 2));
    assert!(matches!(reg.remove_chain(1), Removed::Initializing));
    let d = reg.register(true).unwrap();
    assert_eq!(d.id, 1);
    assert_ne!(d.ticket, b.ticket);
    let e = reg.register(true).unwrap();
    assert_eq!(e.id, 3);
}

#[test]
fn removing_an_unknown_id_does_nothing() {
    let mut reg = ChainRegistry::new();
    assert!(matches!(reg.remove_chain(0), Removed::Nothing));
    assert!(matches!(reg.remove_chain(7), Removed::Nothing));
    let id = created_chain(&mut reg, true, 40);
    assert!(matches!(
        reg.remove_chain(id),
        Removed::Created { engine_chain: 40, json_rpc: true }
    ));
    assert!(matches!(reg.remove_chain(id), Removed::Nothing));
    assert!(!reg.is_ready(id));
}

#[test]
fn peek_on_empty_stream_asks_for_a_poll() {
    let mut reg = ChainRegistry::new();
    let id = created_chain(&mut reg, true, 5);
    assert_eq!(peek_len(&reg, id), None);
    assert!(reg.response(id).is_none());
}

#[test]
fn peek_without_json_rpc_is_empty() {
    let mut reg = ChainRegistry::new();
    let id = created_chain(&mut reg, false, 5);
    assert_eq!(peek_len(&reg, id), Some(0));
    assert_eq!(reg.json_rpc_target(id), None);
}

#[test]
fn response_info_counts_utf8_bytes() {
    let mut reg = ChainRegistry::new();
    let id = created_chain(&mut reg, true, 5);
    assert!(reg.offer_response(id, "h\u{e9}llo".to_string()));
    assert_eq!(peek_len(&reg, id), Some(6));
    assert_eq!(reg.response(id).unwrap().as_str(), "h\u{e9}llo");
}

#[test]
fn pop_then_peek_never_gives_the_popped_response() {
    let mut reg = ChainRegistry::new();
    let id = created_chain(&mut reg, true, 5);
    assert!(reg.offer_response(id, "first".to_string()));
    assert_eq!(peek_len(&reg, id), Some(5));
    reg.json_rpc_responses_pop(id);
    assert_eq!(peek_len(&reg, id), None);
    assert!(reg.response(id).is_none());
    assert!(reg.offer_response(id, "second!".to_string()));
    assert_eq!(reg.response(id).unwrap().as_str(), "second!");
    assert_eq!(peek_len(&reg, id), Some(7));
    reg.json_rpc_responses_pop(id);
    reg.json_rpc_responses_pop(id);
    assert_eq!(peek_len(&reg, id), None);
}

#[test]
fn empty_items_are_never_observed() {
    let mut reg = ChainRegistry::new();
    let id = created_chain(&mut reg, true, 5);
    let mut stream = vec!["a".to_string(), String::new(), "bc".to_string()].into_iter();
    let mut seen: Vec<String> = Vec::new();
    loop {
        let mut len = peek_len(&reg, id);
        while len.is_none() {
            match stream.next() {
                Some(item) => {
                    if reg.offer_response(id, item) {
                        len = peek_len(&reg, id);
                    }
                }
                None => len = Some(0),
            }
        }
        if len == Some(0) {
            break;
        }
        seen.push(reg.response(id).unwrap().clone());
        reg.json_rpc_responses_pop(id);
    }
    assert_eq!(seen, vec!["a".to_string(), "bc".to_string()]);
}

#[test]
fn removal_during_initialization_discards_the_result() {
    let mut reg = ChainRegistry::new();
    let p = reg.register(true).unwrap();
    assert!(matches!(reg.remove_chain(p.id), Removed::Initializing));
    assert!(matches!(
        reg.chain_initialized(p.id, p.ticket, Some(3)),
        InitOutcome::Discard
    ));
    assert!(!reg.is_ready(p.id));
}

#[test]
fn stale_initialization_leaves_a_reused_id_alone() {
    let mut reg = ChainRegistry::new();
    let p = reg.register(true).unwrap();
    reg.remove_chain(p.id);
    let q = reg.register(false).unwrap();
    assert_eq!(q.id, p.id);
    assert!(matches!(reg.chain_initialized(p.id, p.ticket, None), InitOutcome::Ignore));
    assert!(matches!(
        reg.chain_initialized(p.id, p.ticket, Some(9)),
        InitOutcome::Discard
    ));
    assert!(!reg.is_ready(q.id));
    assert!(matches!(
        reg.chain_initialized(q.id, q.ticket, Some(11)),
        InitOutcome::Created
    ));
    assert!(reg.is_ready(q.id));
}

#[test]
fn refused_chain_frees_its_id() {
    let mut reg = ChainRegistry::new();
    let p = reg.register(true).unwrap();
    assert!(matches!(reg.chain_initialized(p.id, p.ticket, None), InitOutcome::Failed));
    assert!(!reg.is_ready(p.id));
    assert_eq!(reg.json_rpc_target(p.id), None);
    assert!(matches!(reg.remove_chain(p.id), Removed::Nothing));
    assert_eq!(reg.register(true).unwrap().id, p.id);
}

#[test]
fn json_rpc_target_is_the_engine_chain() {
    let mut reg = ChainRegistry::new();
    let p = reg.register(true).unwrap();
    assert_eq!(reg.json_rpc_target(p.id), None);
    reg.chain_initialized(p.id, p.ticket, Some(21));
    assert_eq!(reg.json_rpc_target(p.id), Some(21));
}

#[test]
fn relay_chains_resolve_to_created_chains_only() {
    let mut reg = ChainRegistry::new();
    let a = created_chain(&mut reg, true, 100);
    let pending = reg.register(true).unwrap();
    let b = created_chain(&mut reg, false, 200);
    let ids = vec![b, pending.id, 99, a, b];
    assert_eq!(reg.resolve_relay_chains(&ids), vec![200, 100, 200]);
    assert_eq!(reg.resolve_relay_chains(&Vec::new()), Vec::<usize>::new());
}

#[test]
fn add_chain_decodes_and_resolves_relay_chains() {
    let mut reg = ChainRegistry::new();
    let relay = created_chain(&mut reg, true, 70);
    let mut bytes = relay.to_le_bytes().to_vec();
    bytes.extend_from_slice(&5u32.to_le_bytes());
    bytes.extend_from_slice(&relay.to_le_bytes());
    let added = reg.add_chain(16, 64, &bytes).unwrap();
    assert_eq!(added.id, 1);
    assert_eq!(added.relay_chains, vec![70, 70]);
    assert!(matches!(
        added.json_rpc,
        JsonRpcConfig::Enabled { max_pending_requests: 16, max_subscriptions: 64 }
    ));
    assert!(!reg.is_ready(added.id));
    let disabled = reg.add_chain(0, 64, &Vec::new()).unwrap();
    assert_eq!(disabled.id, 2);
    assert!(disabled.relay_chains.is_empty());
    assert!(matches!(disabled.json_rpc, JsonRpcConfig::Disabled));
    reg.chain_initialized(disabled.id, disabled.ticket, Some(8));
    assert_eq!(reg.json_rpc_target(disabled.id), None);
    assert!(matches!(
        reg.json_rpc_responses_peek(disabled.id),
        Peek::Ready(JsonRpcResponseInfo { len: 0 })
    ));
}
