use mm2_rtui::json::{JsonNumber, JsonValue};
use mm2_rtui::kdf_client::{
    my_balance_request, my_orders_request, order_status_request, orderbook_request, response_error,
    send_raw_transaction_request, setprice_request, stop_request, version_request, withdraw_request,
    GetWalletNamesRequest, MyTxHistoryRequest, TaskEnableUtxoInitRequest, TaskEnableUtxoStatusRequest,
};

fn members(v: &JsonValue) -> Vec<(String, String)> {
    match v {
        JsonValue::Object(ms) => ms
            .iter()
            .map(|(k, v)| (k.clone(), v.as_str().map(|s| s.to_string()).unwrap_or_else(|| "<non-string>".to_string())))
            .collect(),
        _ => panic!("not an object"),
    }
}

fn pairs(list: &[(&str, &str)]) -> Vec<(String, String)> {
    list.iter().map(|(k, v)| (k.to_string(), v.to_string())).collect()
}

#[test]
fn legacy_requests_carry_method_and_password() {
    assert_eq!(members(&version_request("pw")), pairs(&[("method", "version"), ("userpass", "pw")]));
    assert_eq!(members(&stop_request("pw")), pairs(&[("method", "stop"), ("userpass", "pw")]));
    assert_eq!(members(&my_orders_request("pw")), pairs(&[("method", "my_orders"), ("userpass", "pw")]));
    assert_eq!(
        members(&my_balance_request("pw", "KMD")),
        pairs(&[("method", "my_balance"), ("coin", "KMD"), ("userpass", "pw")])
    );
    assert_eq!(
        members(&withdraw_request("pw", "KMD", "RAddr", "1.5")),
        pairs(&[("method", "withdraw"), ("coin", "KMD"), ("to", "RAddr"), ("amount", "1.5"), ("userpass", "pw")])
    );
    assert_eq!(
        members(&send_raw_transaction_request("pw", "KMD", "00ff")),
        pairs(&[("method", "send_raw_transaction"), ("coin", "KMD"), ("tx_hex", "00ff"), ("userpass", "pw")])
    );
    let ob = orderbook_request("pw", "KMD", "BTC");
    assert_eq!(
        members(&ob),
        pairs(&[("method", "orderbook"), ("mmrpc", "2.0"), ("params", "<non-string>"), ("userpass", "pw")])
    );
    assert_eq!(members(ob.get("params").unwrap()), pairs(&[("base", "KMD"), ("rel", "BTC")]));
    assert_eq!(
        members(&order_status_request("pw", "u-1")),
        pairs(&[("method", "order_status"), ("userpass", "pw"), ("uuid", "u-1")])
    );
}

#[test]
fn error_member_is_found() {
    let err = JsonValue::Object(vec![("error".to_string(), JsonValue::Str("No such coin".to_string()))]);
    assert_eq!(response_error(&err).and_then(|e| e.as_str()), Some("No such coin"));
    let ok = JsonValue::Object(vec![("result".to_string(), JsonValue::Str("success".to_string()))]);
    assert!(response_error(&ok).is_none());
    assert!(response_error(&JsonValue::Null).is_none());
}

#[test]
fn wallet_names_request_is_mmrpc2() {
    let r = GetWalletNamesRequest::new("pw", 42);
    assert_eq!(r.method, "get_wallet_names");
    assert_eq!(r.mmrpc, "2.0");
    assert!(r.params.is_none());
    assert_eq!(r.id, 42);
    let j = r.to_json();
    assert_eq!(j.get("method").and_then(|v| v.as_str()), Some("get_wallet_names"));
    assert!(matches!(j.get("params"), Some(JsonValue::Null)));
    assert_eq!(j.get("id").and_then(|v| v.as_u64()), Some(42));
}

#[test]
fn utxo_activation_requests() {
    let params = JsonValue::Object(vec![("x".to_string(), JsonValue::Bool(true))]);
    let init = TaskEnableUtxoInitRequest::new("pw", "KMD", params).into_json();
    assert_eq!(init.get("method").and_then(|v| v.as_str()), Some("task::enable_utxo::init"));
    assert_eq!(init.get("mmrpc").and_then(|v| v.as_str()), Some("2.0"));
    let p = init.get("params").unwrap();
    assert_eq!(p.get("ticker").and_then(|v| v.as_str()), Some("KMD"));
    assert!(matches!(p.get("activation_params").and_then(|a| a.get("x")), Some(JsonValue::Bool(true))));

    let status = TaskEnableUtxoStatusRequest::new("pw", 7, false).to_json();
    assert_eq!(status.get("method").and_then(|v| v.as_str()), Some("task::enable_utxo::status"));
    let sp = status.get("params").unwrap();
    assert_eq!(sp.get("task_id").and_then(|v| v.as_u64()), Some(7));
    assert!(matches!(sp.get("forget_if_finished"), Some(JsonValue::Bool(false))));
}

#[test]
fn tx_history_request_pages() {
    let r = MyTxHistoryRequest::new("pw", "KMD", 10, Some(3)).to_json();
    assert_eq!(r.get("method").and_then(|v| v.as_str()), Some("my_tx_history"));
    let p = r.get("params").unwrap();
    assert_eq!(p.get("coin").and_then(|v| v.as_str()), Some("KMD"));
    assert_eq!(p.get("limit").and_then(|v| v.as_u64()), Some(10));
    assert_eq!(p.get("paging_options").and_then(|o| o.get("PageNumber")).and_then(|v| v.as_u64()), Some(3));
    let first = MyTxHistoryRequest::new("pw", "KMD", 10, None).to_json();
    assert!(first.get("params").unwrap().get("paging_options").is_none());
}

#[test]
fn json_numbers_compare() {
    assert_eq!(JsonNumber::UInt(1), JsonNumber::UInt(1));
    assert_ne!(JsonNumber::Int(-1), JsonNumber::UInt(1));
}

#[test]
fn setprice_request_lists_the_order() {
    let r = setprice_request("pw", "KMD", "BTC", "0.001", "10", 1, false, 2, true);
    assert_eq!(r.get("method").and_then(|v| v.as_str()), Some("setprice"));
    assert_eq!(r.get("price").and_then(|v| v.as_str()), Some("0.001"));
    assert_eq!(r.get("volume").and_then(|v| v.as_str()), Some("10"));
    assert_eq!(r.get("base_confs").and_then(|v| v.as_u64()), Some(1));
    assert!(matches!(r.get("rel_nota"), Some(JsonValue::Bool(true))));
}
