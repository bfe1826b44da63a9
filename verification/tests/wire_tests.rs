use sothis::error::RequestError;
use sothis::format::NumParseError;
use sothis::jsonrpc::{build_request, decode_rpc_body, unquote};
use sothis::rpc::{
    block_number_request, call_request, chain_id_request, evm_mine_request,
    evm_set_automine_request, evm_set_interval_mining_request,
    evm_set_next_block_timestamp_request, get_block_by_number_request,
    get_storage_at_block_request, get_storage_at_request, get_transaction_by_hash_request,
    hardhat_get_automine_request, heartbeat_due, send_raw_transaction_request,
    send_unsigned_transaction_request,
};
use sothis::types::{CallParams, TransactionParams};

#[test]
fn request_shape() {
    assert_eq!(
        build_request("eth_blockNumber", "[]"),
        "{\"method\":\"eth_blockNumber\",\"params\":[],\"id\":1,\"jsonrpc\":\"2.0\"}"
    );
}

#[test]
fn simple_method_requests() {
    assert_eq!(
        block_number_request(),
        "{\"method\":\"eth_blockNumber\",\"params\":[],\"id\":1,\"jsonrpc\":\"2.0\"}"
    );
    assert_eq!(
        chain_id_request(),
        "{\"method\":\"eth_chainId\",\"params\":[],\"id\":1,\"jsonrpc\":\"2.0\"}"
    );
    assert_eq!(
        evm_mine_request(),
        "{\"method\":\"evm_mine\",\"params\":[],\"id\":1,\"jsonrpc\":\"2.0\"}"
    );
    assert_eq!(
        hardhat_get_automine_request(),
        "{\"method\":\"hardhat_getAutomine\",\"params\":[],\"id\":1,\"jsonrpc\":\"2.0\"}"
    );
}

#[test]
fn block_by_number_request_includes_transactions() {
    assert_eq!(
        get_block_by_number_request("0x1"),
        "{\"method\":\"eth_getBlockByNumber\",\"params\":[\"0x1\",true],\"id\":1,\"jsonrpc\":\"2.0\"}"
    );
}

#[test]
fn storage_requests() {
    assert_eq!(
        get_storage_at_request("0xabc", "0x0"),
        "{\"method\":\"eth_getStorageAt\",\"params\":[\"0xabc\",\"0x0\",\"latest\"],\"id\":1,\"jsonrpc\":\"2.0\"}"
    );
    assert_eq!(
        get_storage_at_block_request("0xabc", "0x0", "0x10"),
        "{\"method\":\"eth_getStorageAt\",\"params\":[\"0xabc\",\"0x0\",\"0x10\"],\"id\":1,\"jsonrpc\":\"2.0\"}"
    );
}

#[test]
fn transaction_by_hash_request() {
    assert_eq!(
        get_transaction_by_hash_request("0xdead"),
        "{\"method\":\"eth_getTransactionByHash\",\"params\":[\"0xdead\"],\"id\":1,\"jsonrpc\":\"2.0\"}"
    );
}

#[test]
fn raw_transaction_request() {
    assert_eq!(
        send_raw_transaction_request("0xf86b"),
        "{\"method\":\"eth_sendRawTransaction\",\"params\":[\"0xf86b\"],\"id\":1,\"jsonrpc\":\"2.0\"}"
    );
}

#[test]
fn call_request_shape() {
    let call = CallParams {
        from: None,
        to: "0xb".to_string(),
        data: "0x06fdde03".to_string(),
    };
    assert_eq!(
        call_request(&call, "0x10"),
        "{\"method\":\"eth_call\",\"params\":[{\"from\":null,\"to\":\"0xb\",\"data\":\"0x06fdde03\"},\"0x10\"],\"id\":1,\"jsonrpc\":\"2.0\"}"
    );
}

#[test]
fn unsigned_transaction_request_shape() {
    let params = TransactionParams {
        from: "0xa".to_string(),
        to: None,
        value: "0x0".to_string(),
        gas: "0x5208".to_string(),
        gasPrice: "0x1".to_string(),
        data: "0x".to_string(),
        nonce: Some("0x0".to_string()),
        chainId: Some("5".to_string()),
    };
    assert_eq!(
        send_unsigned_transaction_request(&params),
        "{\"method\":\"eth_sendUnsignedTransaction\",\"params\":[{\"from\":\"0xa\",\"to\":null,\"value\":\"0x0\",\"gas\":\"0x5208\",\"gasPrice\":\"0x1\",\"data\":\"0x\",\"nonce\":\"0x0\",\"chainId\":\"5\"}],\"id\":1,\"jsonrpc\":\"2.0\"}"
    );
}

#[test]
fn mining_control_requests() {
    assert_eq!(
        evm_set_automine_request(false),
        "{\"method\":\"evm_setAutomine\",\"params\":[false],\"id\":1,\"jsonrpc\":\"2.0\"}"
    );
    assert_eq!(
        evm_set_automine_request(true),
        "{\"method\":\"evm_setAutomine\",\"params\":[true],\"id\":1,\"jsonrpc\":\"2.0\"}"
    );
    assert_eq!(
        evm_set_interval_mining_request(4294967295),
        "{\"method\":\"evm_setIntervalMining\",\"params\":[4294967295],\"id\":1,\"jsonrpc\":\"2.0\"}"
    );
    assert_eq!(
        evm_set_next_block_timestamp_request(1690000000),
        "{\"method\":\"evm_setNextBlockTimestamp\",\"params\":[1690000000],\"id\":1,\"jsonrpc\":\"2.0\"}"
    );
}

#[test]
fn decode_success_response() {
    let body = "{\"jsonrpc\":\"2.0\",\"result\":\"0x10\",\"id\":1}";
    let result = decode_rpc_body(body).unwrap();
    assert_eq!(result, "\"0x10\"");
    assert_eq!(unquote(&result), "0x10");
}

#[test]
fn decode_object_result() {
    let body = "{\"jsonrpc\":\"2.0\",\"result\":{\"number\":\"0x1\"},\"id\":1}";
    let result = decode_rpc_body(body).unwrap();
    assert_eq!(result, "{\"number\":\"0x1\"}");
}

#[test]
fn decode_node_error_surfaces_message() {
    let body =
        "{\"jsonrpc\":\"2.0\",\"id\":1,\"error\":{\"code\":-32000,\"message\":\"execution reverted\"}}";
    match decode_rpc_body(body) {
        Err(RequestError::RequestFailed(msg)) => {
            assert_eq!(msg, "\"execution reverted\"");
        }
        other => panic!("unexpected outcome: {:?}", other),
    }
}

#[test]
fn decode_missing_result_and_error() {
    let body = "{\"jsonrpc\":\"2.0\",\"id\":1}";
    match decode_rpc_body(body) {
        Err(RequestError::RequestFailed(msg)) => assert_eq!(msg, "null"),
        other => panic!("unexpected outcome: {:?}", other),
    }
}

#[test]
fn decode_unparseable_body() {
    match decode_rpc_body("not json at all") {
        Err(RequestError::JsonDeserializationFailed(_)) => {}
        other => panic!("unexpected outcome: {:?}", other),
    }
}

#[test]
fn unquote_cases() {
    assert_eq!(unquote("\"0x1\""), "0x1");
    assert_eq!(unquote("0x1"), "0x1");
    assert_eq!(unquote("\"\""), "");
    assert_eq!(unquote("\"\"a"), "a");
}

#[test]
fn error_messages() {
    assert_eq!(
        RequestError::RequestFailed("boom".to_string()).to_message(),
        "Request failed: boom"
    );
    assert_eq!(
        RequestError::JsonDeserializationFailed("bad".to_string()).to_message(),
        "JSON deserialization failed: bad"
    );
    assert_eq!(
        RequestError::JsonSerializationFailed("bad".to_string()).to_message(),
        "JSON serialization failed: bad"
    );
    assert_eq!(
        RequestError::UnknownError("eh".to_string()).to_message(),
        "Unknown error: eh"
    );
}

#[test]
fn error_from_num_parse() {
    match RequestError::from_num_parse(NumParseError::InvalidDigit) {
        RequestError::RequestFailed(msg) => assert_eq!(msg, "invalid digit found in string"),
        other => panic!("unexpected: {:?}", other),
    }
}

#[test]
fn heartbeat_threshold() {
    assert!(heartbeat_due(20000));
    assert!(heartbeat_due(25000));
    assert!(!heartbeat_due(19999));
}
