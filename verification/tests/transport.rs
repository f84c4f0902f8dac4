use ethgas::ClientError;
use ethgas::Envelope;
use ethgas::RpcError;
use ethgas::resolve_envelope;
use ethgas::rpc_request_body;

#[test]
fn request_body_frames_method_params_and_fixed_id() {
    let body = rpc_request_body("eth_estimateGas", "{\"from\":\"0x0\"}");
    assert_eq!(
        body,
        "{\"jsonrpc\":\"2.0\",\"method\":\"eth_estimateGas\",\"params\":[{\"from\":\"0x0\"}],\"id\":1}"
    );
}

#[test]
fn request_body_with_empty_params_list() {
    let body = rpc_request_body("web3_clientVersion", "");
    assert_eq!(body, "{\"jsonrpc\":\"2.0\",\"method\":\"web3_clientVersion\",\"params\":[],\"id\":1}");
}

#[test]
fn resolve_prefers_a_present_result() {
    let env: Envelope<i32> = Envelope {
        result: Some(5),
        error: Some(RpcError { code: 1, message: String::from("ignored") }),
    };
    assert_eq!(resolve_envelope(env).unwrap(), 5);
}

#[test]
fn resolve_surfaces_a_protocol_error() {
    let env: Envelope<i32> = Envelope {
        result: None,
        error: Some(RpcError { code: -32000, message: String::from("insufficient funds") }),
    };
    match resolve_envelope(env) {
        Err(ClientError::RpcProtocol(e)) => {
            assert_eq!(e.code, -32000);
            assert_eq!(e.message, "insufficient funds");
        },
        other => panic!("expected an RPC protocol error, got {:?}", other),
    }
}

#[test]
fn resolve_reports_an_empty_envelope() {
    let env: Envelope<i32> = Envelope { result: None, error: None };
    assert!(matches!(resolve_envelope(env), Err(ClientError::RpcEmptyResponse)));
}
