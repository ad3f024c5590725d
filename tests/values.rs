use mobile_node::init;
use mobile_node::logger::{LogLevel, Logger};
use mobile_node::wire::{
    decode_relay_chain_ids, json_rpc_config, json_rpc_send_status, JsonRpcConfig, QueueOutcome,
};

#[test]
fn relay_chain_ids_are_little_endian() {
    let bytes = vec![1, 0, 0, 0, 0x78, 0x56, 0x34, 0x12, 255, 255, 255, 255];
    assert_eq!(decode_relay_chain_ids(&bytes), vec![1, 0x1234_5678, u32::MAX]);
    assert_eq!(decode_relay_chain_ids(&Vec::new()), Vec::<u32>::new());
}

#[test]
fn zero_pending_requests_disables_json_rpc() {
    assert!(matches!(json_rpc_config(0, 64), JsonRpcConfig::Disabled));
    assert!(matches!(
        json_rpc_config(3, 64),
        JsonRpcConfig::Enabled { max_pending_requests: 3, max_subscriptions: 64 }
    ));
}

#[test]
fn backpressure_is_status_one() {
    assert_eq!(json_rpc_send_status(QueueOutcome::Queued), 0);
    assert_eq!(json_rpc_send_status(QueueOutcome::TooManyPendingRequests), 1);
}

#[test]
fn level_codes() {
    assert_eq!(LogLevel::Error.code(), 1);
    assert_eq!(LogLevel::Warn.code(), 2);
    assert_eq!(LogLevel::Info.code(), 3);
    assert_eq!(LogLevel::Debug.code(), 4);
    assert_eq!(LogLevel::Trace.code(), 5);
}

#[test]
fn logger_filters_by_max_level() {
    let mut logger = Logger::new(0);
    assert_eq!(logger.filter(LogLevel::Error), None);
    logger.set_max_level(3);
    assert_eq!(logger.max_level(), 3);
    assert_eq!(logger.filter(LogLevel::Warn), Some(2));
    assert_eq!(logger.filter(LogLevel::Info), Some(3));
    assert_eq!(logger.filter(LogLevel::Debug), None);
}

#[test]
fn init_sets_the_max_level() {
    let logger = init(4);
    assert_eq!(logger.max_level(), 4);
    assert_eq!(logger.filter(LogLevel::Debug), Some(4));
    assert_eq!(logger.filter(LogLevel::Trace), None);
}
