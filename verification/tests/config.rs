use mm2_rtui::config::{
    build_mm2_config, choose_rpc_password, generate_secure_password, password_from_indices, seed_node_hosts, with_wallet_fields,
    ExistingConfig, PasswordOrigin, SeedNode, PASSWORD_CHARSET,
};
use mm2_rtui::json::{JsonNumber, JsonValue};

fn s(x: &str) -> String {
    x.to_string()
}

fn is_generated(pw: &str) -> bool {
    pw.chars().count() == 16 && pw.chars().all(|c| PASSWORD_CHARSET.contains(c))
}

#[test]
fn generated_passwords_use_the_charset() {
    let a = generate_secure_password();
    let b = generate_secure_password();
    assert!(is_generated(&a));
    assert!(is_generated(&b));
    assert_ne!(a, b);
}

#[test]
fn existing_password_is_kept() {
    let cfg = JsonValue::Object(vec![(s("rpc_password"), JsonValue::Str(s("secret")))]);
    let (pw, origin) = choose_rpc_password(&ExistingConfig::Parsed(cfg));
    assert_eq!(pw, "secret");
    assert_eq!(origin, PasswordOrigin::Existing);
}

#[test]
fn missing_or_bad_passwords_are_generated() {
    let empty = JsonValue::Object(vec![(s("rpc_password"), JsonValue::Str(s("")))]);
    let (pw, origin) = choose_rpc_password(&ExistingConfig::Parsed(empty));
    assert!(is_generated(&pw));
    assert_eq!(origin, PasswordOrigin::EmptyInConfig);
    let number = JsonValue::Object(vec![(s("rpc_password"), JsonValue::Number(JsonNumber::UInt(5)))]);
    assert_eq!(choose_rpc_password(&ExistingConfig::Parsed(number)).1, PasswordOrigin::MissingInConfig);
    assert_eq!(choose_rpc_password(&ExistingConfig::Parsed(JsonValue::Null)).1, PasswordOrigin::MissingInConfig);
    assert_eq!(choose_rpc_password(&ExistingConfig::Unparsable).1, PasswordOrigin::UnparsableConfig);
    assert_eq!(choose_rpc_password(&ExistingConfig::Unreadable).1, PasswordOrigin::UnreadableConfig);
    let (pw, origin) = choose_rpc_password(&ExistingConfig::Missing);
    assert!(is_generated(&pw));
    assert_eq!(origin, PasswordOrigin::NoConfig);
}

fn node(host: &str) -> SeedNode {
    SeedNode { name: s("n"), host: s(host), node_type: s("domain"), wss: true, netid: 8762, contact: vec![] }
}

#[test]
fn seed_hosts_in_order() {
    assert_eq!(seed_node_hosts(&vec![node("a.example"), node("b.example")]), vec![s("a.example"), s("b.example")]);
    assert!(seed_node_hosts(&vec![]).is_empty());
}

#[test]
fn initial_config_document() {
    let cfg = build_mm2_config("pw", &vec![s("a.example")], "/home/u/Documents", "/home/u/Documents/.kdf");
    let keys: Vec<&str> = match &cfg {
        JsonValue::Object(ms) => ms.iter().map(|(k, _)| k.as_str()).collect(),
        _ => panic!("object expected"),
    };
    assert_eq!(
        keys,
        vec![
            "mm2", "gui", "rpcport", "netid", "https", "wallet_name", "wallet_password", "seed",
            "allowRegistrations", "enable_hd", "rpcLocalOnly", "rpc_password", "seednodes", "userhome", "dbdir"
        ]
    );
    assert_eq!(cfg.get("mm2").and_then(|v| v.as_u64()), Some(1));
    assert_eq!(cfg.get("gui").and_then(|v| v.as_str()), Some("mm2-rtui"));
    assert_eq!(cfg.get("rpcport").and_then(|v| v.as_u64()), Some(7783));
    assert_eq!(cfg.get("netid").and_then(|v| v.as_u64()), Some(8762));
    assert!(matches!(cfg.get("wallet_name"), Some(JsonValue::Null)));
    assert!(matches!(cfg.get("rpcLocalOnly"), Some(JsonValue::Bool(true))));
    assert_eq!(cfg.get("rpc_password").and_then(|v| v.as_str()), Some("pw"));
    let hosts = cfg.get("seednodes").and_then(|v| v.as_array()).unwrap();
    assert_eq!(hosts[0].as_str(), Some("a.example"));
    assert_eq!(cfg.get("dbdir").and_then(|v| v.as_str()), Some("/home/u/Documents/.kdf"));
}

#[test]
fn wallet_fields_are_written_and_read_back() {
    let cfg = build_mm2_config("pw", &vec![], "h", "d");
    let updated = with_wallet_fields(cfg, "main", "secret", true).unwrap();
    assert_eq!(updated.get("wallet_name").and_then(|v| v.as_str()), Some("main"));
    assert_eq!(updated.get("wallet_password").and_then(|v| v.as_str()), Some("secret"));
    assert!(matches!(updated.get("enable_hd"), Some(JsonValue::Bool(true))));
    assert_eq!(updated.get("rpc_password").and_then(|v| v.as_str()), Some("pw"));
    // the keys were replaced in place, not added
    match &updated {
        JsonValue::Object(ms) => assert_eq!(ms.len(), 15),
        _ => panic!("object expected"),
    }
}

#[test]
fn wallet_fields_are_added_when_absent() {
    let updated = with_wallet_fields(JsonValue::Object(vec![]), "w", "p", false).unwrap();
    match &updated {
        JsonValue::Object(ms) => {
            let keys: Vec<&str> = ms.iter().map(|(k, _)| k.as_str()).collect();
            assert_eq!(keys, vec!["wallet_name", "wallet_password", "enable_hd"]);
        }
        _ => panic!("object expected"),
    }
}

#[test]
fn wallet_fields_need_an_object() {
    assert!(with_wallet_fields(JsonValue::Null, "w", "p", false).is_none());
    assert!(with_wallet_fields(JsonValue::Array(vec![]), "w", "p", false).is_none());
}

#[test]
fn drawn_indices_spell_the_password() {
    assert_eq!(password_from_indices(&vec![0, 25, 26, 51, 52, 61, 62, 69]), "AZaz09!*");
    assert_eq!(password_from_indices(&vec![]), "");
    assert_eq!(password_from_indices(&vec![7; 16]), "HHHHHHHHHHHHHHHH");
}
