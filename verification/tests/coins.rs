use mm2_rtui::coins::{
    build_utxo_activation_params, coin_amount_to_satoshis, default_tickers, my_balance_to_satoshis,
    parse_status_details, satoshis_to_display, status_balance, utxo_coin_list, utxo_coins_from_configs, Coin,
    CoinConfig, CoinListItem, CoinConfigError, CoinType, ElectrumServer, ProtocolInfo,
};
use mm2_rtui::json::{JsonNumber, JsonValue};

fn s(x: &str) -> String {
    x.to_string()
}

fn obj(members: Vec<(&str, JsonValue)>) -> JsonValue {
    JsonValue::Object(members.into_iter().map(|(k, v)| (k.to_string(), v)).collect())
}

fn text(x: &str) -> JsonValue {
    JsonValue::Str(x.to_string())
}

fn coin(ticker: &str, spend: Option<i64>, unspend: Option<i64>) -> Coin {
    Coin {
        ticker: s(ticker),
        name: s("name"),
        coin_type: CoinType::UTXO,
        activated: false,
        spendable_satoshis: spend,
        unspendable_satoshis: unspend,
        current_block: None,
        wallet_type: None,
        address: None,
    }
}

#[test]
fn protocol_types_are_recognised() {
    assert_eq!(CoinType::from_protocol_type("UTXO"), Some(CoinType::UTXO));
    assert_eq!(CoinType::from_protocol_type("ZHTLC"), Some(CoinType::ZHTLC));
    assert_eq!(CoinType::from_protocol_type("Tendermint"), Some(CoinType::Tendermint));
    assert_eq!(CoinType::from_protocol_type("QTUM"), Some(CoinType::QTUM));
    assert_eq!(CoinType::from_protocol_type("EVM"), Some(CoinType::EVM));
    assert_eq!(CoinType::from_protocol_type("utxo"), None);
    assert_eq!(CoinType::from_protocol_type(""), None);
}

#[test]
fn default_tickers_are_kmd_and_btc() {
    assert_eq!(default_tickers(), vec![s("KMD"), s("BTC")]);
}

#[test]
fn satoshis_display_with_eight_decimals() {
    assert_eq!(satoshis_to_display(0), "0.00000000");
    assert_eq!(satoshis_to_display(426937384458), "4269.37384458");
    assert_eq!(satoshis_to_display(100_000_000), "1.00000000");
    assert_eq!(satoshis_to_display(1), "0.00000001");
    assert_eq!(satoshis_to_display(-150_000_000), "-1.50000000");
    // a negative amount below one coin shows no sign, as integer division does
    assert_eq!(satoshis_to_display(-5), "0.00000005");
    assert_eq!(satoshis_to_display(i64::MIN), "-92233720368.54775808");
}

#[test]
fn balance_display_sums_both_parts() {
    let c = coin("KMD", Some(150_000_000), Some(25_000_000));
    assert_eq!(c.balance_display(), "1.75000000");
    assert_eq!(c.spendable_display(), "1.50000000");
    assert_eq!(c.unspendable_display(), "0.25000000");
    let unknown = coin("KMD", None, None);
    assert_eq!(unknown.balance_display(), "0.00000000");
}

#[test]
fn amounts_parse_to_satoshis() {
    assert_eq!(coin_amount_to_satoshis("4269.37384458"), 426937384458);
    assert_eq!(coin_amount_to_satoshis("0"), 0);
    assert_eq!(coin_amount_to_satoshis("1"), 100_000_000);
    assert_eq!(coin_amount_to_satoshis("0.1"), 10_000_000);
    assert_eq!(coin_amount_to_satoshis(".5"), 50_000_000);
    assert_eq!(coin_amount_to_satoshis("5."), 500_000_000);
    assert_eq!(coin_amount_to_satoshis("  2.5 \n"), 250_000_000);
    assert_eq!(coin_amount_to_satoshis("+3"), 300_000_000);
    assert_eq!(coin_amount_to_satoshis("-0.00000001"), -1);
}

#[test]
fn amounts_round_half_away_from_zero() {
    assert_eq!(coin_amount_to_satoshis("0.000000015"), 2);
    assert_eq!(coin_amount_to_satoshis("0.000000014999"), 1);
    assert_eq!(coin_amount_to_satoshis("-0.000000015"), -2);
    assert_eq!(coin_amount_to_satoshis("1.123456789"), 112345679);
}

#[test]
fn malformed_amounts_give_zero() {
    assert_eq!(coin_amount_to_satoshis(""), 0);
    assert_eq!(coin_amount_to_satoshis("."), 0);
    assert_eq!(coin_amount_to_satoshis("abc"), 0);
    assert_eq!(coin_amount_to_satoshis("1.2.3"), 0);
    assert_eq!(coin_amount_to_satoshis("-"), 0);
    assert_eq!(coin_amount_to_satoshis("NaN"), 0);
    assert_eq!(coin_amount_to_satoshis("1 2"), 0);
}

#[test]
fn huge_amounts_saturate() {
    assert_eq!(coin_amount_to_satoshis("100000000000"), i64::MAX);
    assert_eq!(coin_amount_to_satoshis("-100000000000"), i64::MIN);
    assert_eq!(coin_amount_to_satoshis("inf"), i64::MAX);
    assert_eq!(coin_amount_to_satoshis("-Infinity"), i64::MIN);
    assert_eq!(coin_amount_to_satoshis("92233720368.54775807"), i64::MAX);
    assert_eq!(coin_amount_to_satoshis("-92233720368.54775808"), i64::MIN);
}

#[test]
fn my_balance_amounts_become_satoshis() {
    assert_eq!(my_balance_to_satoshis("1.5", "0.25"), (150_000_000, 25_000_000));
    assert_eq!(my_balance_to_satoshis("bad", "0"), (0, 0));
}

fn iguana_details() -> JsonValue {
    obj(vec![
        ("current_block", JsonValue::Number(JsonNumber::UInt(3_500_000))),
        (
            "wallet_balance",
            obj(vec![
                ("wallet_type", text("Iguana")),
                ("address", text("RAddr")),
                (
                    "balance",
                    obj(vec![("KMD", obj(vec![("spendable", text("4269.37384458")), ("unspendable", text("0.5"))]))]),
                ),
            ]),
        ),
    ])
}

#[test]
fn status_details_of_iguana_wallet() {
    let d = parse_status_details(&iguana_details(), "KMD").unwrap();
    assert_eq!(d.current_block, Some(3_500_000));
    assert_eq!(d.spendable_satoshis, 426937384458);
    assert_eq!(d.unspendable_satoshis, 50_000_000);
    assert_eq!(d.wallet_type.as_deref(), Some("Iguana"));
    assert_eq!(d.address.as_deref(), Some("RAddr"));
    // the balance object is there but not for this ticker
    assert!(parse_status_details(&iguana_details(), "BTC").is_none());
}

#[test]
fn status_details_of_hd_wallet() {
    let details = obj(vec![(
        "wallet_balance",
        obj(vec![
            ("wallet_type", text("HD")),
            (
                "accounts",
                JsonValue::Array(vec![obj(vec![(
                    "total_balance",
                    obj(vec![("KMD", obj(vec![("spendable", text("2"))]))]),
                )])]),
            ),
        ]),
    )]);
    let d = parse_status_details(&details, "KMD").unwrap();
    assert_eq!(d.current_block, None);
    assert_eq!(d.spendable_satoshis, 200_000_000);
    // a missing amount reads as "0"
    assert_eq!(d.unspendable_satoshis, 0);
    assert_eq!(d.wallet_type.as_deref(), Some("HD"));
    assert_eq!(d.address, None);
}

#[test]
fn status_details_need_wallet_balance() {
    let details = obj(vec![("current_block", JsonValue::Number(JsonNumber::UInt(1)))]);
    assert!(parse_status_details(&details, "KMD").is_none());
    assert!(status_balance(&details, "KMD").is_none());
    let empty_accounts = obj(vec![("wallet_balance", obj(vec![("accounts", JsonValue::Array(vec![]))]))]);
    assert!(parse_status_details(&empty_accounts, "KMD").is_none());
    assert!(parse_status_details(&JsonValue::Null, "KMD").is_none());
}

#[test]
fn status_balance_keeps_amount_text() {
    let b = status_balance(&iguana_details(), "KMD").unwrap();
    assert_eq!(b.spendable, "4269.37384458");
    assert_eq!(b.unspendable, "0.5");
}

fn server(url: &str, protocol: &str) -> ElectrumServer {
    ElectrumServer { url: s(url), protocol: s(protocol) }
}

fn config(ticker: &str, protocol: Option<&str>, electrum: Option<Vec<ElectrumServer>>) -> CoinConfig {
    CoinConfig {
        coin: s(ticker),
        name: format!("{} coin", ticker),
        protocol: protocol.map(|p| ProtocolInfo { type_: s(p) }),
        electrum,
        required_confirmations: None,
        requires_notarization: Some(true),
        txfee: None,
        txversion: None,
        pubtype: Some(0),
        p2shtype: None,
        wiftype: None,
        overwintered: None,
    }
}

fn num(v: &JsonValue, key: &str) -> Option<u64> {
    v.get(key).and_then(|x| x.as_u64())
}

#[test]
fn activation_params_use_defaults_and_tcp_ssl_servers() {
    let servers = vec![server("a:1", "TCP"), server("b:2", "WSS"), server("c:3", "SSL")];
    let raw = config("KMD", Some("UTXO"), Some(vec![]));
    let params = build_utxo_activation_params("KMD", &raw, &servers).unwrap();
    assert_eq!(num(&params, "required_confirmations"), Some(2));
    assert!(matches!(params.get("requires_notarization"), Some(JsonValue::Bool(true))));
    assert_eq!(params.get("priv_key_policy").and_then(|v| v.as_str()), Some("ContextPrivKey"));
    assert_eq!(num(&params, "min_addresses_number"), Some(1));
    assert_eq!(params.get("scan_policy").and_then(|v| v.as_str()), Some("scan_if_new_wallet"));
    assert_eq!(num(&params, "gap_limit"), Some(20));
    assert_eq!(num(&params, "txversion"), Some(4));
    assert_eq!(num(&params, "txfee"), Some(1000));
    assert_eq!(num(&params, "pubtype"), Some(0));
    assert_eq!(num(&params, "p2shtype"), Some(85));
    assert_eq!(num(&params, "wiftype"), Some(188));
    assert_eq!(num(&params, "overwintered"), Some(1));
    assert_eq!(num(&params, "max_connected"), Some(1));
    assert!(matches!(params.get("tx_history"), Some(JsonValue::Bool(true))));
    let mode = params.get("mode").unwrap();
    assert_eq!(mode.get("rpc").and_then(|v| v.as_str()), Some("Electrum"));
    let rpc_data = mode.get("rpc_data").unwrap();
    assert_eq!(num(rpc_data, "max_connected"), Some(1));
    let list = rpc_data.get("servers").and_then(|v| v.as_array()).unwrap();
    assert_eq!(list.len(), 2);
    assert_eq!(list[0].get("url").and_then(|v| v.as_str()), Some("a:1"));
    assert_eq!(list[1].get("protocol").and_then(|v| v.as_str()), Some("SSL"));
    assert!(matches!(list[1].get("disable_cert_verification"), Some(JsonValue::Bool(false))));
}

#[test]
fn activation_params_need_a_tcp_or_ssl_server() {
    let raw = config("KMD", None, None);
    let err = build_utxo_activation_params("KMD", &raw, &vec![server("w:1", "WSS")]).unwrap_err();
    assert!(matches!(&err, CoinConfigError::NoTcpSslServers { ticker } if ticker == "KMD"));
    assert_eq!(err.message(), "Coin KMD has no TCP/SSL electrum servers in coins_config.json");
}

#[test]
fn utxo_coins_skip_unknown_and_non_utxo() {
    let configs = vec![
        (s("KMD"), config("KMD", Some("UTXO"), Some(vec![server("k:1", "TCP")]))),
        (s("ETH"), config("ETH", Some("EVM"), None)),
        (s("LTC"), config("LTC", Some("UTXO"), Some(vec![server("l:1", "SSL")]))),
        (s("BCH"), config("BCH", None, Some(vec![server("b:1", "TCP")]))),
        (s("USDT"), config("USDT", Some("ERC20"), Some(vec![server("u:1", "TCP")]))),
    ];
    let tickers = vec![s("ETH"), s("DOGE"), s("BCH"), s("LTC"), s("USDT"), s("KMD")];
    let out = utxo_coins_from_configs(&configs, &tickers).unwrap();
    let names: Vec<&str> = out.iter().map(|(c, _)| c.ticker.as_str()).collect();
    assert_eq!(names, vec!["LTC", "KMD"]);
    assert_eq!(out[0].0.name, "LTC coin");
    assert!(!out[0].0.activated);
    assert_eq!(out[0].0.coin_type, CoinType::UTXO);
    assert_eq!(out[0].0.spendable_satoshis, None);
}

#[test]
fn utxo_coins_stop_at_missing_servers() {
    let configs = vec![
        (s("KMD"), config("KMD", Some("UTXO"), None)),
        (s("LTC"), config("LTC", Some("UTXO"), Some(vec![server("l:1", "WSS")]))),
    ];
    let err = utxo_coins_from_configs(&configs, &vec![s("KMD"), s("LTC")]).unwrap_err();
    assert!(matches!(&err, CoinConfigError::NoElectrumServers { ticker } if ticker == "KMD"));
    assert_eq!(err.message(), "Coin KMD has no electrum servers in coins_config.json");
    let err = utxo_coins_from_configs(&configs, &vec![s("LTC")]).unwrap_err();
    assert!(matches!(err, CoinConfigError::NoTcpSslServers { .. }));
}

#[test]
fn displayed_amounts_parse_back() {
    for sat in [0i64, 1, 99_999_999, 100_000_000, 426937384458, i64::MAX, -100_000_000, -150_000_001, i64::MIN] {
        assert_eq!(coin_amount_to_satoshis(&satoshis_to_display(sat)), sat);
    }
    // a negative amount of less than one coin is shown without its sign
    assert_eq!(coin_amount_to_satoshis(&satoshis_to_display(-5)), 5);
}

fn item(coin: &str, fname: Option<&str>, protocol: Option<&str>) -> CoinListItem {
    CoinListItem { coin: s(coin), fname: fname.map(s), protocol: protocol.map(|p| ProtocolInfo { type_: s(p) }) }
}

#[test]
fn coin_list_keeps_utxo_entries_with_their_names() {
    let items = vec![
        item("KMD", Some("Komodo"), Some("UTXO")),
        item("ETH", Some("Ethereum"), Some("ETH")),
        item("LTC", None, Some("UTXO")),
        item("DOC", Some("Doc"), None),
        item("ARRR", Some("Pirate"), Some("ZHTLC")),
        item("BTC", Some("Bitcoin"), Some("utxo")),
    ];
    let list = utxo_coin_list(&items);
    let pairs: Vec<(&str, &str)> = list.iter().map(|e| (e.ticker.as_str(), e.fname.as_str())).collect();
    assert_eq!(pairs, vec![("KMD", "Komodo"), ("LTC", "LTC")]);
    assert!(utxo_coin_list(&vec![]).is_empty());
}

#[test]
fn amounts_in_exponent_form() {
    assert_eq!(coin_amount_to_satoshis("1e3"), 100_000_000_000);
    assert_eq!(coin_amount_to_satoshis("1.5E-2"), 1_500_000);
    assert_eq!(coin_amount_to_satoshis("-4.2e1"), -4_200_000_000);
    assert_eq!(coin_amount_to_satoshis("+7E+0"), 700_000_000);
    assert_eq!(coin_amount_to_satoshis(".5e1"), 500_000_000);
    assert_eq!(coin_amount_to_satoshis("5.e-1"), 50_000_000);
    assert_eq!(coin_amount_to_satoshis(" 12.345e2 "), 123_450_000_000);
    assert_eq!(coin_amount_to_satoshis("1e-9"), 0);
    assert_eq!(coin_amount_to_satoshis("6e-9"), 1);
    assert_eq!(coin_amount_to_satoshis("1e30"), i64::MAX);
    assert_eq!(coin_amount_to_satoshis("-1e30"), i64::MIN);
    assert_eq!(coin_amount_to_satoshis("0e99999999999999999999999"), 0);
    assert_eq!(coin_amount_to_satoshis("1e-99999999999999999999999"), 0);
    assert_eq!(coin_amount_to_satoshis("3e00000000000000000000000001"), 3_000_000_000);
}

#[test]
fn malformed_exponents_give_zero() {
    for t in ["1e", "e5", "1e+", "1e-", "1.2.3e4", "1e5e3", "1e2.0", ".e1", "infe3"] {
        assert_eq!(coin_amount_to_satoshis(t), 0, "{}", t);
    }
}
