use trident::error::{ConfigError, HealthError, RpcError};

#[test]
fn rpc_error_messages() {
    assert_eq!(RpcError::Unresponsive.message(), "RPC is unresponsive");
    assert_eq!(
        RpcError::OutOfBounds.message(),
        "Request out of bounds. Most likeley a bad response from the current RPC node."
    );
    assert_eq!(
        RpcError::InvalidResponse("bad json".to_string()).message(),
        "Invalid RPC response: bad json"
    );
}

#[test]
fn health_error_messages() {
    assert_eq!(HealthError::Unresponsive.message(), "RPC is unresponsive");
    assert_eq!(HealthError::TimedOut.message(), "Health check timed out!");
    assert_eq!(
        HealthError::GetSafeBlockError("no route".to_string()).message(),
        "Could not get safe block: no route"
    );
    assert_eq!(
        HealthError::OutOfBounds.message(),
        "Request out of bounds. Most likeley a bad response from the current RPC node."
    );
    assert_eq!(
        HealthError::InvalidResponse("x".to_string()).message(),
        "Invalid RPC response: x"
    );
}

#[test]
fn rpc_error_becomes_a_health_error() {
    match HealthError::from(RpcError::Unresponsive) {
        HealthError::GetSafeBlockError(reason) => assert_eq!(reason, "RPC is unresponsive"),
        other => panic!("unexpected {:?}", other),
    }
    let health: HealthError = RpcError::InvalidResponse("eof".to_string()).into();
    assert_eq!(
        health.message(),
        "Could not get safe block: Invalid RPC response: eof"
    );
}

#[test]
fn rpc_error_becomes_a_config_error() {
    match ConfigError::from(RpcError::OutOfBounds) {
        ConfigError::RpcError(reason) => assert_eq!(
            reason,
            "Request out of bounds. Most likeley a bad response from the current RPC node."
        ),
        other => panic!("unexpected {:?}", other),
    }
}

#[test]
fn json_error_becomes_an_rpc_error() {
    let mut bytes = b"{\"unterminated\": ".to_vec();
    let error = simd_json::to_owned_value(&mut bytes).unwrap_err();
    match RpcError::from(error) {
        RpcError::InvalidResponse(reason) => {
            assert_eq!(reason, "Error while trying to parse JSON")
        }
        other => panic!("unexpected {:?}", other),
    }
}

#[test]
fn transport_error_becomes_a_health_error() {
    let error = reqwest::Client::new().get("no scheme here").build().unwrap_err();
    let text = error.to_string();
    match HealthError::from(error) {
        HealthError::GetSafeBlockError(reason) => {
            assert_eq!(reason, text);
            assert!(!reason.is_empty());
        }
        other => panic!("unexpected {:?}", other),
    }
}
