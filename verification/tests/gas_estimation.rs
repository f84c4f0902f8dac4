use ethgas::Address;
use ethgas::ClientError;
use ethgas::Transaction;
use ethgas::U256;
use ethgas::estimate_gas_params;
use ethgas::estimate_gas_request;
use ethgas::estimate_gas_response;
use ethgas::gas_from_hex_string;

fn sample_transaction() -> Transaction {
    let from = Address::parse("0x84d82ac02AdE3a3d8a636Fb06E442ab701aA7BB4").unwrap();
    let to = Address::parse("0x1111111111111111111111111111111111111111").unwrap();
    Transaction {
        nonce: U256::from_u64(123),
        gas_price: Some(U256::from_u64(1000)),
        gas_limit: U256::from_u64(1_000_000_000),
        from,
        to,
        value: gas_from_hex_string("0x0000000000000000000000000000000000000001").unwrap(),
        data: Vec::new(),
        v: 777,
        r: U256::from_u64(987654321),
        s: U256::from_u64(121212),
    }
}

#[test]
fn gas_estimation_eth_transfer() {
    let tx = sample_transaction();
    assert!(tx.is_well_formed());
    let request = estimate_gas_request(&tx);
    assert_eq!(
        request,
        "{\"jsonrpc\":\"2.0\",\"method\":\"eth_estimateGas\",\"params\":[{\"from\":\"0x84d82ac02ade3a3d8a636fb06e442ab701aa7bb4\",\"to\":\"0x1111111111111111111111111111111111111111\",\"value\":\"0x1\",\"data\":\"0x\"}],\"id\":1}"
    );
    let stub_body = "{\"jsonrpc\":\"2.0\",\"id\":1,\"result\":\"0x5208\"}";
    let expected = U256::from_u64(21_000);
    assert_eq!(estimate_gas_response(stub_body).expect("should succeed"), expected);
}

#[test]
fn params_object_holds_exactly_the_call_shape_fields() {
    let tx = sample_transaction();
    let params = estimate_gas_params(&tx);
    assert_eq!(
        params,
        "{\"from\":\"0x84d82ac02ade3a3d8a636fb06e442ab701aa7bb4\",\"to\":\"0x1111111111111111111111111111111111111111\",\"value\":\"0x1\",\"data\":\"0x\"}"
    );
    assert!(!params.contains("nonce"));
    assert!(!params.contains("gas"));
}

#[test]
fn gas_estimation_with_call_data() {
    let mut tx = sample_transaction();
    tx.data = vec![0xab, 0x01, 0x00];
    let params = estimate_gas_params(&tx);
    assert!(params.contains("\"data\":\"0xab0100\""));
}

#[test]
fn rpc_protocol_error_is_surfaced_with_code_and_message() {
    let body = "{\"result\": null, \"error\": {\"code\": -32000, \"message\": \"insufficient funds\"}}";
    match estimate_gas_response(body) {
        Err(ClientError::RpcProtocol(e)) => {
            assert_eq!(e.code, -32000);
            assert_eq!(e.message, "insufficient funds");
        },
        other => panic!("expected an RPC protocol error, got {:?}", other),
    }
}

#[test]
fn empty_response_is_distinct_from_protocol_error() {
    let body = "{\"result\": null, \"error\": null}";
    match estimate_gas_response(body) {
        Err(ClientError::RpcEmptyResponse) => {},
        other => panic!("expected the empty-response error, got {:?}", other),
    }
}

#[test]
fn non_hex_result_is_an_encoding_error() {
    let body = "{\"result\": \"not-a-hex-string\"}";
    match estimate_gas_response(body) {
        Err(ClientError::Encoding(s)) => assert_eq!(s, "not-a-hex-string"),
        other => panic!("expected an encoding error, got {:?}", other),
    }
}

#[test]
fn non_json_body_is_a_transport_error() {
    match estimate_gas_response("this is not json") {
        Err(ClientError::Transport(_)) => {},
        other => panic!("expected a transport error, got {:?}", other),
    }
}

#[test]
fn non_string_result_is_a_transport_error() {
    match estimate_gas_response("{\"result\": 21000}") {
        Err(ClientError::Transport(_)) => {},
        other => panic!("expected a transport error, got {:?}", other),
    }
}

#[test]
fn malformed_error_object_is_a_transport_error() {
    match estimate_gas_response("{\"result\": null, \"error\": {\"code\": \"oops\"}}") {
        Err(ClientError::Transport(_)) => {},
        other => panic!("expected a transport error, got {:?}", other),
    }
}

#[test]
fn result_wins_over_error_when_both_are_present() {
    let body = "{\"result\": \"0x10\", \"error\": {\"code\": 1, \"message\": \"ignored\"}}";
    assert_eq!(estimate_gas_response(body).unwrap(), U256::from_u64(16));
}
