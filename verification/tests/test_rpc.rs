use animus::codec::parse_json;
use animus::json::Json;
use animus::rpc_adapter::{RequestIds, RpcAdapter, RESTARTS};

const READY: &str = "{\"jsonrpc\":\"2.0\",\"method\":\"ready\",\"params\":{\"pid\":7}}\n";

fn adapter() -> RpcAdapter {
    match RpcAdapter::new("/tmp/bridge.py", READY) {
        Ok(adapter) => adapter,
        Err(e) => panic!("{}", e),
    }
}

#[test]
fn rpc_adapter_ingest_roundtrip() {
    let adapter = adapter();
    assert_eq!(adapter.bridge_path, "/tmp/bridge.py");
    let mut ids = RequestIds::new();
    let params = parse_json(r#"{"message":{"role":"user","content":"hello"}}"#).unwrap();
    let line = adapter.call(ids.next_id(), "ingest", &params);
    assert_eq!(
        line,
        "{\"id\":1,\"jsonrpc\":\"2.0\",\"method\":\"ingest\",\"params\":{\"message\":{\"content\":\"hello\",\"role\":\"user\"}}}\n"
    );
    let result = adapter.on_response("{\"jsonrpc\":\"2.0\",\"id\":1,\"result\":{\"ingested\":true}}\n");
    assert!(result.is_ok());
    let resp = result.unwrap();
    assert_eq!(resp.get("ingested"), Some(&Json::Bool(true)));
}

#[test]
fn ids_count_up_from_one() {
    let mut ids = RequestIds::new();
    assert_eq!(ids.next_id(), 1);
    assert_eq!(ids.next_id(), 2);
    let mut ids = RequestIds { next: u64::MAX };
    assert_eq!(ids.next_id(), u64::MAX);
    assert_eq!(ids.next_id(), 0);
}

#[test]
fn bad_ready_signals_are_told_apart() {
    let error = RpcAdapter::new("b", "oops").err().unwrap();
    assert!(error.starts_with("Bad ready signal: "));
    assert_eq!(
        error,
        format!(
            "Bad ready signal: {}",
            serde_json::from_str::<serde_json::Value>("oops").unwrap_err()
        )
    );
    let error = RpcAdapter::new("b", "{\"method\":\"busy\"}\n").err().unwrap();
    assert_eq!(error, "Unexpected ready signal: {\"method\":\"busy\"}\n");
    assert!(RpcAdapter::check_ready("  {\"method\":\"ready\"}  ").is_none());
}

#[test]
fn responses_tell_results_and_errors() {
    let a = adapter();
    assert_eq!(a.on_response("{\"id\":1}").unwrap(), Json::Null);
    assert_eq!(
        a.on_response("{\"error\":{\"code\":1}}").unwrap_err(),
        "NG RPC error: {\"code\":1}"
    );
    assert_eq!(a.on_response("{\"error\":null}").unwrap_err(), "NG RPC error: null");
    assert!(a.on_response("").unwrap_err().starts_with("Bad bridge response: "));
}

#[test]
fn restarts_back_off() {
    let a = adapter();
    let delays: Vec<Option<u64>> = (0..RESTARTS + 1).map(|k| a.restart(k)).collect();
    assert_eq!(
        delays,
        vec![Some(1), Some(2), Some(4), Some(8), Some(16), Some(30), None]
    );
}
