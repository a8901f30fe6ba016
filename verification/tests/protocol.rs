use delphos::protocol::{AcpMethod, RpcError, RpcErrorCode, RpcId, RpcRequest, RpcResponse};

fn json(text: &str) -> serde_json::Value {
    serde_json::from_str(text).unwrap()
}

#[test]
fn roundtrip() {
    for m in [AcpMethod::SessionCreate, AcpMethod::BkgInfo, AcpMethod::ProcessStart] {
        assert_eq!(AcpMethod::parse(m.as_str()), Some(m));
    }
}

#[test]
fn unknown() {
    assert!(AcpMethod::parse("unknown/method").is_none());
}

#[test]
fn bkg_prefix() {
    assert!(AcpMethod::BkgInfo.as_str().starts_with("_bkg/"));
}

#[test]
fn request_roundtrip() {
    let req = RpcRequest::new("session/create", json(r#"{"agent":"assistant"}"#));
    assert_eq!(req.method, "session/create");
    assert!(!req.is_notification());
    assert_eq!(req.jsonrpc, "2.0");
    match &req.id {
        Some(RpcId::Str(s)) => assert_eq!(s.len(), 36),
        other => panic!("expected a string id, got {other:?}"),
    }
}

#[test]
fn notification_no_id() {
    let n = RpcRequest::notification("session/event", json("{}"));
    assert!(n.is_notification());
}

#[test]
fn error_codes() {
    assert_eq!(RpcErrorCode::MethodNotFound.code(), -32601);
    let err = RpcError::internal("boom");
    assert_eq!(err.code, -32603);
}

#[test]
fn response_success() {
    let r = RpcResponse::success(Some(RpcId::Num(1)), json(r#"{"ok":true}"#));
    assert!(r.is_success());
}

#[test]
fn every_method_name_parses_back() {
    let names = [
        "initialize", "session/create", "session/prompt", "session/cancel", "session/list", "session/event",
    ];
    for name in names {
        if let Some(m) = AcpMethod::parse(name) {
            assert_eq!(m.as_str(), name);
        }
    }
    assert_eq!(AcpMethod::parse(""), None);
}

#[test]
fn error_objects_carry_codes_and_messages() {
    let e = RpcError::method_not_found("x/y");
    assert_eq!(e.code, -32601);
    assert_eq!(e.message, "method 'x/y' not found");
    let e = RpcError::new(RpcErrorCode::ParseError, None);
    assert_eq!(e.code, -32700);
    assert_eq!(e.message, "Parse error");
    let r = RpcResponse::error(None, e);
    assert!(!r.is_success());
    assert!(r.result.is_none());
}
