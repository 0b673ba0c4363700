//! Coins shown in the wallet, balance formatting, and the UTXO activation
//! parameters derived from `coins_config.json`.

use crate::json::{
    json_as_str, json_as_u64, json_get, json_string, lemma_member_get_index, lemma_seq_model, member_str, members_model, push_element,
    push_member, seq_model, uint, uint_value, Json, JsonValue, NumberModel,
};
use crate::text::{decimal, digit_char, fixed_digits, is_digit, owned, push_char, push_decimal, push_fixed_digits, str_eq};
use vstd::prelude::*;

verus! {

/// The tickers activated once a wallet is opened.
pub fn default_tickers() -> (v: Vec<String>)
    ensures
        v@.len() == 2,
        v@[0]@ == "KMD"@,
        v@[1]@ == "BTC"@,
{
    let mut v = Vec::new();
    v.push(owned("KMD"));
    v.push(owned("BTC"));
    v
}

/// Protocol family of a coin.
#[derive(Debug, Clone, Copy, PartialEq, Eq, Structural)]
pub enum CoinType {
    UTXO,
    ZHTLC,
    Tendermint,
    QTUM,
    EVM,
}

/// The coin type named by a `protocol.type` string.
pub open spec fn protocol_type_of(s: Seq<char>) -> Option<CoinType> {
    if s == "UTXO"@ {
        Some(CoinType::UTXO)
    } else if s == "ZHTLC"@ {
        Some(CoinType::ZHTLC)
    } else if s == "Tendermint"@ {
        Some(CoinType::Tendermint)
    } else if s == "QTUM"@ {
        Some(CoinType::QTUM)
    } else if s == "EVM"@ {
        Some(CoinType::EVM)
    } else {
        None
    }
}

impl CoinType {
    /// Parses a `protocol.type` string.
    pub fn from_protocol_type(s: &str) -> (r: Option<Self>)
        ensures
            r == protocol_type_of(s@),
    {
        if str_eq(s, "UTXO") {
            Some(CoinType::UTXO)
        } else if str_eq(s, "ZHTLC") {
            Some(CoinType::ZHTLC)
        } else if str_eq(s, "Tendermint") {
            Some(CoinType::Tendermint)
        } else if str_eq(s, "QTUM") {
            Some(CoinType::QTUM)
        } else if str_eq(s, "EVM") {
            Some(CoinType::EVM)
        } else {
            None
        }
    }
}

/// A coin in the wallet's coin list.
#[derive(Debug, Clone)]
pub struct Coin {
    pub ticker: String,
    pub name: String,
    pub coin_type: CoinType,
    pub activated: bool,
    /// Spendable balance in satoshis (1 coin = 100_000_000).
    pub spendable_satoshis: Option<i64>,
    /// Unspendable balance in satoshis.
    pub unspendable_satoshis: Option<i64>,
    /// Current block from the last activation status.
    pub current_block: Option<u64>,
    /// Wallet type from status details (e.g. "Iguana", "HD").
    pub wallet_type: Option<String>,
    /// Address from the activation status or `my_balance`.
    pub address: Option<String>,
}

/// Satoshis per coin.
pub const SATOSHI_PER_COIN: i64 = 100_000_000;

/// The magnitude of an integer.
pub open spec fn abs(x: int) -> nat {
    if x < 0 { (-x) as nat } else { x as nat }
}

/// `whole.fraction` text of an amount in satoshis: the whole part is the
/// quotient truncated toward zero (so a minus sign shows only when it is
/// non-zero), the fraction is the magnitude of the remainder in eight digits.
pub open spec fn satoshi_text(sat: int) -> Seq<char> {
    let whole = abs(sat) / 100_000_000;
    let frac = abs(sat) % 100_000_000;
    (if sat < 0 && whole > 0 { seq!['-'] } else { Seq::empty() }) + decimal(whole) + seq!['.']
        + fixed_digits(frac, 8)
}

/// Formats an amount in satoshis as coins with eight decimals.
pub fn satoshis_to_display(sat: i64) -> (s: String)
    ensures
        s@ == satoshi_text(sat as int),
{
    let mag: u64 = if sat < 0 {
        (0i128 - sat as i128) as u64
    } else {
        sat as u64
    };
    assert(mag == abs(sat as int));
    let whole = mag / 100_000_000;
    let frac = mag % 100_000_000;
    let mut s = String::new();
    if sat < 0 && whole > 0 {
        push_char(&mut s, '-');
    }
    push_decimal(&mut s, whole);
    push_char(&mut s, '.');
    push_fixed_digits(&mut s, frac, 8);
    s
}

/// An amount that is absent counts as zero.
pub open spec fn or_zero(x: Option<i64>) -> int {
    match x {
        Some(v) => v as int,
        None => 0,
    }
}

impl Coin {
    /// Total balance (spendable + unspendable) as shown in the coin list.
    pub fn balance_display(&self) -> (s: String)
        requires
            i64::MIN <= or_zero(self.spendable_satoshis) + or_zero(self.unspendable_satoshis)
                <= i64::MAX,
        ensures
            s@ == satoshi_text(
                or_zero(self.spendable_satoshis) + or_zero(self.unspendable_satoshis),
            ),
    {
        let spend = match self.spendable_satoshis {
            Some(v) => v,
            None => 0,
        };
        let unspend = match self.unspendable_satoshis {
            Some(v) => v,
            None => 0,
        };
        satoshis_to_display(spend + unspend)
    }

    /// The spendable balance.
    pub fn spendable_display(&self) -> (s: String)
        ensures
            s@ == satoshi_text(or_zero(self.spendable_satoshis)),
    {
        satoshis_to_display(
            match self.spendable_satoshis {
                Some(v) => v,
                None => 0,
            },
        )
    }

    /// The unspendable balance.
    pub fn unspendable_display(&self) -> (s: String)
        ensures
            s@ == satoshi_text(or_zero(self.unspendable_satoshis)),
    {
        satoshis_to_display(
            match self.unspendable_satoshis {
                Some(v) => v,
                None => 0,
            },
        )
    }
}

/// An entry of the coin list offered for activation.
#[derive(Debug, Clone)]
pub struct CoinEntry {
    pub ticker: String,
    pub fname: String,
}

/// Fields parsed from the details of a finished activation task.
#[derive(Debug, Clone, Default)]
pub struct CoinStatusDetails {
    pub current_block: Option<u64>,
    pub spendable_satoshis: i64,
    pub unspendable_satoshis: i64,
    pub wallet_type: Option<String>,
    pub address: Option<String>,
}

} // verus!

verus! {

/// The text of an optional string, absent meaning `"0"`.
pub open spec fn str_or_zero(v: Option<Seq<char>>) -> Seq<char> {
    match v {
        Some(s) => s,
        None => "0"@,
    }
}

/// The view of an optional string.
pub open spec fn opt_text(v: Option<String>) -> Option<Seq<char>> {
    match v {
        Some(s) => Some(s@),
        None => None,
    }
}

/// An optional `u64` as a natural number.
pub open spec fn opt_nat(v: Option<u64>) -> Option<nat> {
    match v {
        Some(n) => Some(n as nat),
        None => None,
    }
}

/// Balance fields of an activation status, with amounts still as decimal text.
#[derive(Debug, Clone)]
pub struct StatusBalance {
    pub current_block: Option<u64>,
    pub spendable: String,
    pub unspendable: String,
    pub wallet_type: Option<String>,
    pub address: Option<String>,
}

/// What an activation status says about the coin `ticker`:
/// `(current_block, spendable, unspendable, wallet_type, address)`.
/// Iguana wallets keep the balance under `wallet_balance.balance.<ticker>`,
/// HD wallets under the first account's `total_balance.<ticker>`; a missing
/// amount reads as `"0"`.
pub open spec fn status_balance_of(details: Json, ticker: Seq<char>) -> Option<
    (Option<nat>, Seq<char>, Seq<char>, Option<Seq<char>>, Option<Seq<char>>),
> {
    let current_block = json_as_u64(json_get(details, "current_block"@));
    match json_get(details, "wallet_balance"@) {
        None => None,
        Some(wb) => {
            let wallet_type = json_as_str(json_get(wb, "wallet_type"@));
            let address = json_as_str(json_get(wb, "address"@));
            let coin = match json_get(wb, "balance"@) {
                Some(bal) => json_get(bal, ticker),
                None => match json_get(wb, "accounts"@) {
                    Some(Json::Array(accounts)) => if accounts.len() > 0 {
                        match json_get(accounts[0], "total_balance"@) {
                            Some(total) => json_get(total, ticker),
                            None => None,
                        }
                    } else {
                        None
                    },
                    _ => None,
                },
            };
            match coin {
                None => None,
                Some(c) => Some(
                    (
                        current_block,
                        str_or_zero(json_as_str(json_get(c, "spendable"@))),
                        str_or_zero(json_as_str(json_get(c, "unspendable"@))),
                        wallet_type,
                        address,
                    ),
                ),
            }
        },
    }
}

fn opt_owned(s: Option<&str>) -> (r: Option<String>)
    ensures
        match s {
            Some(x) => r matches Some(y) && y@ == x@,
            None => r is None,
        },
{
    match s {
        Some(x) => Some(owned(x)),
        None => None,
    }
}

fn amount_text(coin: &JsonValue, key: &str) -> (r: String)
    ensures
        r@ == str_or_zero(json_as_str(json_get(coin@, key@))),
{
    match member_str(coin, key) {
        Some(s) => owned(s),
        None => owned("0"),
    }
}

/// Reads the balance fields of the activation status `details` for `ticker`.
pub fn status_balance(details: &JsonValue, ticker: &str) -> (r: Option<StatusBalance>)
    ensures
        r is Some <==> status_balance_of(details@, ticker@) is Some,
        r matches Some(b) ==> status_balance_of(details@, ticker@) == Some(
            (
                opt_nat(b.current_block),
                b.spendable@,
                b.unspendable@,
                opt_text(b.wallet_type),
                opt_text(b.address),
            ),
        ),
{
    let current_block = match details.get("current_block") {
        Some(v) => v.as_u64(),
        None => None,
    };
    let wb = match details.get("wallet_balance") {
        Some(wb) => wb,
        None => return None,
    };
    let wallet_type = opt_owned(member_str(wb, "wallet_type"));
    let address = opt_owned(member_str(wb, "address"));
    let coin = match wb.get("balance") {
        Some(bal) => bal.get(ticker),
        None => match wb.get("accounts") {
            Some(acc) => match acc.as_array() {
                Some(accounts) => {
                    proof {
                        lemma_seq_model(accounts@);
                    }
                    if accounts.len() > 0 {
                        match accounts[0].get("total_balance") {
                            Some(total) => total.get(ticker),
                            None => None,
                        }
                    } else {
                        None
                    }
                },
                None => None,
            },
            None => None,
        },
    };
    match coin {
        None => None,
        Some(c) => Some(
            StatusBalance {
                current_block,
                spendable: amount_text(c, "spendable"),
                unspendable: amount_text(c, "unspendable"),
                wallet_type,
                address,
            },
        ),
    }
}

} // verus!

verus! {

/// `protocol` object of a coin configuration.
#[derive(Debug, Clone)]
pub struct ProtocolInfo {
    pub type_: String,
}

/// An electrum server listed in a coin configuration.
#[derive(Debug, Clone)]
pub struct ElectrumServer {
    pub url: String,
    pub protocol: String,
}

/// The fields of a `coins_config.json` entry that activation reads.
#[derive(Debug, Clone)]
pub struct CoinConfig {
    pub coin: String,
    pub name: String,
    pub protocol: Option<ProtocolInfo>,
    pub electrum: Option<Vec<ElectrumServer>>,
    pub required_confirmations: Option<u32>,
    pub requires_notarization: Option<bool>,
    pub txfee: Option<u64>,
    pub txversion: Option<u32>,
    pub pubtype: Option<u8>,
    pub p2shtype: Option<u8>,
    pub wiftype: Option<u8>,
    pub overwintered: Option<u8>,
}

/// Why a requested coin could not be prepared for activation.
#[derive(Debug, Clone)]
pub enum CoinConfigError {
    /// The configuration lists no electrum servers.
    NoElectrumServers { ticker: String },
    /// None of the listed electrum servers speaks TCP or SSL.
    NoTcpSslServers { ticker: String },
}

/// The mathematical form of a [`CoinConfigError`].
pub enum ConfigFault {
    NoElectrumServers(Seq<char>),
    NoTcpSslServers(Seq<char>),
}

impl View for CoinConfigError {
    type V = ConfigFault;

    open spec fn view(&self) -> ConfigFault {
        match self {
            CoinConfigError::NoElectrumServers { ticker } => ConfigFault::NoElectrumServers(ticker@),
            CoinConfigError::NoTcpSslServers { ticker } => ConfigFault::NoTcpSslServers(ticker@),
        }
    }
}

/// The text of an error.
pub open spec fn fault_message(f: ConfigFault) -> Seq<char> {
    match f {
        ConfigFault::NoElectrumServers(t) => "Coin "@ + t + " has no electrum servers in coins_config.json"@,
        ConfigFault::NoTcpSslServers(t) => "Coin "@ + t
            + " has no TCP/SSL electrum servers in coins_config.json"@,
    }
}

impl CoinConfigError {
    /// The human-readable message of this error.
    pub fn message(&self) -> (m: String)
        ensures
            m@ == fault_message(self@),
    {
        match self {
            CoinConfigError::NoElectrumServers { ticker } => {
                let mut m = owned("Coin ");
                m.append(ticker.as_str());
                m.append(" has no electrum servers in coins_config.json");
                m
            },
            CoinConfigError::NoTcpSslServers { ticker } => {
                let mut m = owned("Coin ");
                m.append(ticker.as_str());
                m.append(" has no TCP/SSL electrum servers in coins_config.json");
                m
            },
        }
    }
}

/// A server usable for activation speaks TCP or SSL.
pub open spec fn tcp_or_ssl(e: ElectrumServer) -> bool {
    e.protocol@ == "TCP"@ || e.protocol@ == "SSL"@
}

/// The activation entry of one server.
pub open spec fn server_json(e: ElectrumServer) -> Json {
    Json::Object(
        seq![
            ("url"@, Json::Str(e.url@)),
            ("protocol"@, Json::Str(e.protocol@)),
            ("disable_cert_verification"@, Json::Bool(false)),
        ],
    )
}

/// The activation entries of the TCP/SSL servers of `es`, in order.
pub open spec fn tcp_ssl_servers(es: Seq<ElectrumServer>) -> Seq<Json>
    decreases es.len(),
{
    if es.len() == 0 {
        Seq::empty()
    } else if tcp_or_ssl(es.last()) {
        tcp_ssl_servers(es.drop_last()).push(server_json(es.last()))
    } else {
        tcp_ssl_servers(es.drop_last())
    }
}

/// `o`, or `d` when absent.
pub open spec fn or_default<T>(o: Option<T>, d: T) -> T {
    match o {
        Some(v) => v,
        None => d,
    }
}

/// The `activation_params` of `task::enable_utxo::init` for `raw` and its usable servers.
pub open spec fn activation_json(raw: CoinConfig, servers: Seq<Json>) -> Json {
    Json::Object(
        seq![
            ("required_confirmations"@, uint(or_default(raw.required_confirmations, 2) as nat)),
            ("requires_notarization"@, Json::Bool(or_default(raw.requires_notarization, false))),
            ("priv_key_policy"@, Json::Str("ContextPrivKey"@)),
            ("min_addresses_number"@, uint(1)),
            ("scan_policy"@, Json::Str("scan_if_new_wallet"@)),
            ("gap_limit"@, uint(20)),
            ("mode"@, Json::Object(
                seq![
                    ("rpc"@, Json::Str("Electrum"@)),
                    ("rpc_data"@, Json::Object(
                        seq![("servers"@, Json::Array(servers)), ("max_connected"@, uint(1))],
                    )),
                ],
            )),
            ("tx_history"@, Json::Bool(true)),
            ("txversion"@, uint(or_default(raw.txversion, 4) as nat)),
            ("txfee"@, uint(or_default(raw.txfee, 1000) as nat)),
            ("pubtype"@, uint(or_default(raw.pubtype, 60) as nat)),
            ("p2shtype"@, uint(or_default(raw.p2shtype, 85) as nat)),
            ("wiftype"@, uint(or_default(raw.wiftype, 188) as nat)),
            ("overwintered"@, uint(or_default(raw.overwintered, 1) as nat)),
            ("max_connected"@, uint(1)),
        ],
    )
}

fn server_value(e: &ElectrumServer) -> (r: JsonValue)
    ensures
        r@ == server_json(*e),
{
    let mut m: Vec<(String, JsonValue)> = Vec::new();
    push_member(&mut m, "url", JsonValue::Str(e.url.clone()));
    push_member(&mut m, "protocol", JsonValue::Str(e.protocol.clone()));
    push_member(&mut m, "disable_cert_verification", JsonValue::Bool(false));
    assert(members_model(m@) =~= seq![
        ("url"@, Json::Str(e.url@)),
        ("protocol"@, Json::Str(e.protocol@)),
        ("disable_cert_verification"@, Json::Bool(false)),
    ]);
    JsonValue::Object(m)
}

/// Builds the `activation_params` for `task::enable_utxo::init` from a coin
/// configuration; only TCP and SSL electrum servers are kept.
pub fn build_utxo_activation_params(
    ticker: &str,
    raw: &CoinConfig,
    electrum: &Vec<ElectrumServer>,
) -> (r: Result<JsonValue, CoinConfigError>)
    ensures
        tcp_ssl_servers(electrum@).len() == 0 ==> (r matches Err(e) && e@
            == ConfigFault::NoTcpSslServers(ticker@)),
        tcp_ssl_servers(electrum@).len() > 0 ==> (r matches Ok(v) && v@ == activation_json(
            *raw,
            tcp_ssl_servers(electrum@),
        )),
{
    let mut servers: Vec<JsonValue> = Vec::new();
    let mut i: usize = 0;
    while i < electrum.len()
        invariant
            i <= electrum@.len(),
            seq_model(servers@) == tcp_ssl_servers(electrum@.take(i as int)),
        decreases electrum@.len() - i,
    {
        let e = &electrum[i];
        assert(electrum@.take(i + 1).drop_last() =~= electrum@.take(i as int));
        if str_eq(e.protocol.as_str(), "TCP") || str_eq(e.protocol.as_str(), "SSL") {
            push_element(&mut servers, server_value(e));
        }
        i = i + 1;
    }
    assert(electrum@.take(electrum@.len() as int) =~= electrum@);
    proof {
        lemma_seq_model(servers@);
    }
    if servers.len() == 0 {
        return Err(CoinConfigError::NoTcpSslServers { ticker: owned(ticker) });
    }
    let ghost servers_model = seq_model(servers@);
    let mut rpc_data: Vec<(String, JsonValue)> = Vec::new();
    push_member(&mut rpc_data, "servers", JsonValue::Array(servers));
    push_member(&mut rpc_data, "max_connected", uint_value(1));
    assert(members_model(rpc_data@) =~= seq![("servers"@, Json::Array(servers_model)), ("max_connected"@, uint(1))]);
    let mut mode: Vec<(String, JsonValue)> = Vec::new();
    push_member(&mut mode, "rpc", json_string("Electrum"));
    push_member(&mut mode, "rpc_data", JsonValue::Object(rpc_data));
    assert(members_model(mode@) =~= seq![
        ("rpc"@, Json::Str("Electrum"@)),
        ("rpc_data"@, Json::Object(seq![("servers"@, Json::Array(servers_model)), ("max_connected"@, uint(1))])),
    ]);
    let mut m: Vec<(String, JsonValue)> = Vec::new();
    push_member(
        &mut m,
        "required_confirmations",
        uint_value(
            match raw.required_confirmations {
                Some(v) => v as u64,
                None => 2,
            },
        ),
    );
    push_member(
        &mut m,
        "requires_notarization",
        JsonValue::Bool(
            match raw.requires_notarization {
                Some(v) => v,
                None => false,
            },
        ),
    );
    push_member(&mut m, "priv_key_policy", json_string("ContextPrivKey"));
    push_member(&mut m, "min_addresses_number", uint_value(1));
    push_member(&mut m, "scan_policy", json_string("scan_if_new_wallet"));
    push_member(&mut m, "gap_limit", uint_value(20));
    push_member(&mut m, "mode", JsonValue::Object(mode));
    push_member(&mut m, "tx_history", JsonValue::Bool(true));
    push_member(
        &mut m,
        "txversion",
        uint_value(
            match raw.txversion {
                Some(v) => v as u64,
                None => 4,
            },
        ),
    );
    push_member(
        &mut m,
        "txfee",
        uint_value(
            match raw.txfee {
                Some(v) => v,
                None => 1000,
            },
        ),
    );
    push_member(
        &mut m,
        "pubtype",
        uint_value(
            match raw.pubtype {
                Some(v) => v as u64,
                None => 60,
            },
        ),
    );
    push_member(
        &mut m,
        "p2shtype",
        uint_value(
            match raw.p2shtype {
                Some(v) => v as u64,
                None => 85,
            },
        ),
    );
    push_member(
        &mut m,
        "wiftype",
        uint_value(
            match raw.wiftype {
                Some(v) => v as u64,
                None => 188,
            },
        ),
    );
    push_member(
        &mut m,
        "overwintered",
        uint_value(
            match raw.overwintered {
                Some(v) => v as u64,
                None => 1,
            },
        ),
    );
    push_member(&mut m, "max_connected", uint_value(1));
    let r = JsonValue::Object(m);
    assert(members_model(m@) =~= match activation_json(*raw, servers_model) {
        Json::Object(ms) => ms,
        _ => Seq::empty(),
    });
    Ok(r)
}

} // verus!

verus! {

/// The configuration stored under `ticker` (the first entry with that key).
pub open spec fn config_for(configs: Seq<(String, CoinConfig)>, ticker: Seq<char>) -> Option<CoinConfig>
    decreases configs.len(),
{
    if configs.len() == 0 {
        None
    } else if configs[0].0@ == ticker {
        Some(configs[0].1)
    } else {
        config_for(configs.drop_first(), ticker)
    }
}

/// The `protocol.type` of a configuration, empty when absent.
pub open spec fn protocol_text(raw: CoinConfig) -> Seq<char> {
    match raw.protocol {
        Some(p) => p.type_@,
        None => ""@,
    }
}

/// A configuration is activated as UTXO exactly when its `protocol.type` is `"UTXO"`.
pub open spec fn is_utxo_config(raw: CoinConfig) -> bool {
    protocol_text(raw) == "UTXO"@
}

/// The not-yet-activated coin listed for a configuration.
pub open spec fn fresh_coin(raw: CoinConfig) -> Coin {
    Coin {
        ticker: raw.coin,
        name: raw.name,
        coin_type: CoinType::UTXO,
        activated: false,
        spendable_satoshis: None,
        unspendable_satoshis: None,
        current_block: None,
        wallet_type: None,
        address: None,
    }
}

/// The coins (with activation parameters) prepared for `tickers`, in order:
/// tickers without a configuration or with a non-UTXO protocol are skipped,
/// and the first configuration without usable servers stops with its error.
pub open spec fn utxo_coins_of(configs: Seq<(String, CoinConfig)>, tickers: Seq<String>) -> Result<
    Seq<(Coin, Json)>,
    ConfigFault,
>
    decreases tickers.len(),
{
    if tickers.len() == 0 {
        Ok(Seq::empty())
    } else {
        match utxo_coins_of(configs, tickers.drop_last()) {
            Err(f) => Err(f),
            Ok(prev) => {
                let t = tickers.last()@;
                match config_for(configs, t) {
                    None => Ok(prev),
                    Some(raw) => if !is_utxo_config(raw) {
                        Ok(prev)
                    } else {
                        match raw.electrum {
                            None => Err(ConfigFault::NoElectrumServers(t)),
                            Some(es) => if tcp_ssl_servers(es@).len() == 0 {
                                Err(ConfigFault::NoTcpSslServers(t))
                            } else {
                                Ok(prev.push((fresh_coin(raw), activation_json(raw, tcp_ssl_servers(es@)))))
                            },
                        }
                    },
                }
            },
        }
    }
}

/// The mathematical form of prepared coins.
pub open spec fn prepared_model(v: Seq<(Coin, JsonValue)>) -> Seq<(Coin, Json)> {
    v.map_values(|p: (Coin, JsonValue)| (p.0, p.1@))
}

proof fn lemma_config_for_index(configs: Seq<(String, CoinConfig)>, ticker: Seq<char>, i: int)
    requires
        0 <= i < configs.len(),
        configs[i].0@ == ticker,
        forall|j: int| 0 <= j < i ==> configs[j].0@ != ticker,
    ensures
        config_for(configs, ticker) == Some(configs[i].1),
    decreases i,
{
    if i > 0 {
        lemma_config_for_index(configs.drop_first(), ticker, i - 1);
    }
}

proof fn lemma_config_for_none(configs: Seq<(String, CoinConfig)>, ticker: Seq<char>)
    requires
        forall|j: int| 0 <= j < configs.len() ==> configs[j].0@ != ticker,
    ensures
        config_for(configs, ticker) is None,
    decreases configs.len(),
{
    if configs.len() > 0 {
        lemma_config_for_none(configs.drop_first(), ticker);
    }
}

proof fn lemma_error_persists(configs: Seq<(String, CoinConfig)>, tickers: Seq<String>, i: int)
    requires
        0 <= i <= tickers.len(),
        utxo_coins_of(configs, tickers.take(i)) is Err,
    ensures
        utxo_coins_of(configs, tickers) == utxo_coins_of(configs, tickers.take(i)),
    decreases tickers.len() - i,
{
    if i < tickers.len() {
        assert(tickers.take(i + 1).drop_last() =~= tickers.take(i));
        lemma_error_persists(configs, tickers, i + 1);
    } else {
        assert(tickers.take(i) =~= tickers);
    }
}

/// Looks up the configuration stored under `ticker`.
fn find_config<'a>(configs: &'a Vec<(String, CoinConfig)>, ticker: &str) -> (r: Option<&'a CoinConfig>)
    ensures
        match config_for(configs@, ticker@) {
            Some(c) => r == Some(&c),
            None => r is None,
        },
{
    let mut i: usize = 0;
    while i < configs.len()
        invariant
            i <= configs@.len(),
            forall|j: int| 0 <= j < i ==> configs@[j].0@ != ticker@,
        decreases configs@.len() - i,
    {
        if str_eq(configs[i].0.as_str(), ticker) {
            proof {
                lemma_config_for_index(configs@, ticker@, i as int);
            }
            return Some(&configs[i].1);
        }
        i = i + 1;
    }
    proof {
        lemma_config_for_none(configs@, ticker@);
    }
    None
}

/// Prepares the UTXO coins among `tickers` for activation, from the parsed
/// `coins_config.json` entries `configs`.
pub fn utxo_coins_from_configs(
    configs: &Vec<(String, CoinConfig)>,
    tickers: &Vec<String>,
) -> (r: Result<Vec<(Coin, JsonValue)>, CoinConfigError>)
    ensures
        match r {
            Ok(v) => utxo_coins_of(configs@, tickers@) == Ok::<Seq<(Coin, Json)>, ConfigFault>(
                prepared_model(v@),
            ),
            Err(e) => utxo_coins_of(configs@, tickers@) == Err::<Seq<(Coin, Json)>, ConfigFault>(
                e@,
            ),
        },
{
    let mut out: Vec<(Coin, JsonValue)> = Vec::new();
    let mut i: usize = 0;
    assert(tickers@.take(0) =~= Seq::<String>::empty());
    assert(prepared_model(out@) =~= Seq::<(Coin, Json)>::empty());
    while i < tickers.len()
        invariant
            i <= tickers@.len(),
            utxo_coins_of(configs@, tickers@.take(i as int)) == Ok::<Seq<(Coin, Json)>, ConfigFault>(
                prepared_model(out@),
            ),
        decreases tickers@.len() - i,
    {
        let ticker = tickers[i].as_str();
        assert(tickers@.take(i + 1).drop_last() =~= tickers@.take(i as int));
        assert(tickers@.take(i + 1).last() == tickers@[i as int]);
        match find_config(configs, ticker) {
            None => {},
            Some(raw) => {
                let proto = match &raw.protocol {
                    Some(p) => p.type_.as_str(),
                    None => "",
                };
                if str_eq(proto, "UTXO") {
                    match &raw.electrum {
                        None => {
                            let e = CoinConfigError::NoElectrumServers { ticker: owned(ticker) };
                            proof {
                                lemma_error_persists(configs@, tickers@, i + 1);
                            }
                            return Err(e);
                        },
                        Some(electrum) => {
                            match build_utxo_activation_params(ticker, raw, electrum) {
                                Err(e) => {
                                    proof {
                                        lemma_error_persists(configs@, tickers@, i + 1);
                                    }
                                    return Err(e);
                                },
                                Ok(params) => {
                                    let coin = Coin {
                                        ticker: raw.coin.clone(),
                                        name: raw.name.clone(),
                                        coin_type: CoinType::UTXO,
                                        activated: false,
                                        spendable_satoshis: None,
                                        unspendable_satoshis: None,
                                        current_block: None,
                                        wallet_type: None,
                                        address: None,
                                    };
                                    assert(coin == fresh_coin(*raw));
                                    let ghost before = out@;
                                    out.push((coin, params));
                                    assert(prepared_model(out@) =~= prepared_model(before).push(
                                        (coin, params@),
                                    ));
                                },
                            }
                        },
                    }
                }
            },
        }
        i = i + 1;
    }
    assert(tickers@.take(tickers@.len() as int) =~= tickers@);
    Ok(out)
}

} // verus!

verus! {

/// An entry of `coins.json` as the coin list reads it.
#[derive(Debug, Clone)]
pub struct CoinListItem {
    pub coin: String,
    pub fname: Option<String>,
    pub protocol: Option<ProtocolInfo>,
}

/// The `protocol.type` of a `coins.json` entry, empty when absent.
pub open spec fn listed_protocol(item: CoinListItem) -> Seq<char> {
    match item.protocol {
        Some(p) => p.type_@,
        None => ""@,
    }
}

/// The name shown for a `coins.json` entry: its `fname`, else its ticker.
pub open spec fn listed_name(item: CoinListItem) -> Seq<char> {
    match item.fname {
        Some(f) => f@,
        None => item.coin@,
    }
}

/// The `(ticker, name)` pairs offered for activation: the entries whose
/// `protocol.type` is `"UTXO"`, in order.
pub open spec fn utxo_list_of(items: Seq<CoinListItem>) -> Seq<(Seq<char>, Seq<char>)>
    decreases items.len(),
{
    if items.len() == 0 {
        Seq::empty()
    } else if listed_protocol(items.last()) == "UTXO"@ {
        utxo_list_of(items.drop_last()).push((items.last().coin@, listed_name(items.last())))
    } else {
        utxo_list_of(items.drop_last())
    }
}

/// The mathematical form of a coin list.
pub open spec fn entries_model(v: Seq<CoinEntry>) -> Seq<(Seq<char>, Seq<char>)> {
    v.map_values(|e: CoinEntry| (e.ticker@, e.fname@))
}

/// The coins of `coins.json` that can be activated: its UTXO entries, each
/// named by its `fname` or, without one, by its ticker.
pub fn utxo_coin_list(items: &Vec<CoinListItem>) -> (r: Vec<CoinEntry>)
    ensures
        entries_model(r@) == utxo_list_of(items@),
{
    let mut out: Vec<CoinEntry> = Vec::new();
    let mut i: usize = 0;
    assert(entries_model(out@) =~= utxo_list_of(items@.take(0)));
    while i < items.len()
        invariant
            i <= items@.len(),
            entries_model(out@) == utxo_list_of(items@.take(i as int)),
        decreases items@.len() - i,
    {
        let item = &items[i];
        assert(items@.take(i + 1).drop_last() =~= items@.take(i as int));
        assert(items@.take(i + 1).last() == items@[i as int]);
        let proto = match &item.protocol {
            Some(p) => p.type_.as_str(),
            None => "",
        };
        if str_eq(proto, "UTXO") {
            let fname = match &item.fname {
                Some(f) => f.clone(),
                None => item.coin.clone(),
            };
            let entry = CoinEntry { ticker: item.coin.clone(), fname };
            let ghost before = out@;
            out.push(entry);
            assert(entries_model(out@) =~= entries_model(before).push((entry.ticker@, entry.fname@)));
        }
        i = i + 1;
    }
    assert(items@.take(items@.len() as int) =~= items@);
    out
}

} // verus!

verus! {

/// A character that `char::is_whitespace` accepts (the Unicode `White_Space` set).
pub open spec fn is_space(c: char) -> bool {
    ||| ('\t' <= c && c <= '\r')
    ||| c == ' '
    ||| c == '\u{85}'
    ||| c == '\u{a0}'
    ||| c == '\u{1680}'
    ||| ('\u{2000}' <= c && c <= '\u{200a}')
    ||| c == '\u{2028}'
    ||| c == '\u{2029}'
    ||| c == '\u{202f}'
    ||| c == '\u{205f}'
    ||| c == '\u{3000}'
}

/// `s` without its leading whitespace.
pub open spec fn trim_start(s: Seq<char>) -> Seq<char>
    decreases s.len(),
{
    if s.len() > 0 && is_space(s[0]) {
        trim_start(s.drop_first())
    } else {
        s
    }
}

/// `s` without its trailing whitespace.
pub open spec fn trim_end(s: Seq<char>) -> Seq<char>
    decreases s.len(),
{
    if s.len() > 0 && is_space(s.last()) {
        trim_end(s.drop_last())
    } else {
        s
    }
}

/// `s` without leading and trailing whitespace, as `str::trim` gives it.
pub open spec fn trimmed(s: Seq<char>) -> Seq<char> {
    trim_end(trim_start(s))
}

/// The value of a decimal digit character.
pub open spec fn digit_value(c: char) -> nat {
    (c as int - '0' as int) as nat
}

/// Every character of `s` is a decimal digit.
pub open spec fn all_digits(s: Seq<char>) -> bool {
    forall|i: int| 0 <= i < s.len() ==> is_digit(#[trigger] s[i])
}

/// The number of decimal digits at the start of `s`.
pub open spec fn lead_digits(s: Seq<char>) -> nat
    decreases s.len(),
{
    if s.len() > 0 && is_digit(s[0]) {
        1 + lead_digits(s.drop_first())
    } else {
        0
    }
}

/// The number that a string of decimal digits denotes.
pub open spec fn digits_value(s: Seq<char>) -> nat
    decreases s.len(),
{
    if s.len() == 0 {
        0
    } else {
        digits_value(s.drop_last()) * 10 + digit_value(s.last())
    }
}

/// Ten to the power `n`.
pub open spec fn pow10(n: nat) -> nat
    decreases n,
{
    if n == 0 {
        1
    } else {
        10 * pow10((n - 1) as nat)
    }
}

/// The fraction digits `f` in units of 10^-8, rounded half away from zero.
pub open spec fn fraction_units(f: Seq<char>) -> nat {
    if f.len() <= 8 {
        digits_value(f) * pow10((8 - f.len()) as nat)
    } else {
        digits_value(f.take(8)) + (if digit_value(f[8]) >= 5 { 1nat } else { 0nat })
    }
}

/// The unsigned decimal text `u` in satoshis: digits, optionally a dot and
/// more digits, with at least one digit in all; `None` for any other text.
pub open spec fn decimal_units(u: Seq<char>) -> Option<nat> {
    let k = lead_digits(u);
    let whole = digits_value(u.take(k as int));
    let rest = u.skip(k as int);
    if rest.len() == 0 {
        if k > 0 {
            Some(whole * 100_000_000)
        } else {
            None
        }
    } else if rest[0] == '.' && all_digits(rest.drop_first()) && k + rest.len() > 1 {
        Some(whole * 100_000_000 + fraction_units(rest.drop_first()))
    } else {
        None
    }
}

/// `c` marks an exponent.
pub open spec fn is_exp_mark(c: char) -> bool {
    c == 'e' || c == 'E'
}

/// The number of characters of `u` before its first exponent mark (all of
/// them when there is none).
pub open spec fn before_mark(u: Seq<char>) -> nat
    decreases u.len(),
{
    if u.len() > 0 && !is_exp_mark(u[0]) {
        1 + before_mark(u.drop_first())
    } else {
        0
    }
}

/// The digits of the decimal mantissa `m`, without its point.
pub open spec fn mantissa_digits(m: Seq<char>) -> Seq<char> {
    let k = lead_digits(m) as int;
    if k < m.len() {
        m.take(k) + m.skip(k + 1)
    } else {
        m
    }
}

/// The value of an exponent: an optional sign, then one or more digits.
pub open spec fn exponent_value(x: Seq<char>) -> Option<int> {
    let (neg, d) = unsigned_part(x);
    if d.len() > 0 && all_digits(d) {
        Some(if neg { -(digits_value(d) as int) } else { digits_value(d) as int })
    } else {
        None
    }
}

/// The digits `d` read as a whole number after moving the point to just
/// before position `q`, rounded half up on the first digit dropped.
pub open spec fn shifted_units(d: Seq<char>, q: int) -> nat {
    if q < 0 {
        0
    } else if q >= d.len() {
        digits_value(d) * pow10((q - d.len()) as nat)
    } else {
        digits_value(d.take(q)) + (if digit_value(d[q]) >= 5 { 1nat } else { 0nat })
    }
}

/// The unsigned text `u` in scientific form, in satoshis: a decimal mantissa,
/// `e` or `E`, and an exponent; `None` when either part is malformed.
pub open spec fn scientific_units(u: Seq<char>) -> Option<nat> {
    let p = before_mark(u) as int;
    let m = u.take(p);
    match (decimal_units(m), exponent_value(u.skip(p + 1))) {
        (Some(_), Some(e)) => Some(shifted_units(mantissa_digits(m), lead_digits(m) + 8 + e)),
        _ => None,
    }
}

/// The unsigned number text `u` in satoshis: scientific when it has an
/// exponent mark, plain decimal otherwise.
pub open spec fn number_units(u: Seq<char>) -> Option<nat> {
    if before_mark(u) < u.len() {
        scientific_units(u)
    } else {
        decimal_units(u)
    }
}

/// A leading `-` or `+` taken off: whether the text is negative, and the rest.
pub open spec fn unsigned_part(t: Seq<char>) -> (bool, Seq<char>) {
    if t.len() > 0 && t[0] == '-' {
        (true, t.drop_first())
    } else if t.len() > 0 && t[0] == '+' {
        (false, t.drop_first())
    } else {
        (false, t)
    }
}

/// `u` equals the word whose lowercase form is `lower` and uppercase form is
/// `upper`, each letter in either case.
pub open spec fn word_any_case(u: Seq<char>, lower: Seq<char>, upper: Seq<char>) -> bool {
    &&& u.len() == lower.len()
    &&& forall|i: int| 0 <= i < u.len() ==> #[trigger] u[i] == lower[i] || u[i] == upper[i]
}

/// `inf` or `infinity`, in any case.
pub open spec fn is_infinity_word(u: Seq<char>) -> bool {
    word_any_case(u, "inf"@, "INF"@) || word_any_case(u, "infinity"@, "INFINITY"@)
}

/// `v` saturated to the range of `i64`.
pub open spec fn clamp_i64(v: int) -> int {
    if v > i64::MAX {
        i64::MAX as int
    } else if v < i64::MIN {
        i64::MIN as int
    } else {
        v
    }
}

/// The satoshis that the coin amount text `s` denotes: surrounding whitespace
/// is ignored, a sign may lead, an exponent may follow, the amount is rounded
/// half away from zero to eight decimals and saturated to `i64`; an infinity
/// saturates; text that is not a number gives 0.
pub open spec fn amount_satoshis(s: Seq<char>) -> int {
    let (neg, u) = unsigned_part(trimmed(s));
    if is_infinity_word(u) {
        if neg {
            i64::MIN as int
        } else {
            i64::MAX as int
        }
    } else {
        match number_units(u) {
            Some(m) => clamp_i64(if neg { -m } else { m as int }),
            None => 0,
        }
    }
}

} // verus!

verus! {

/// The whole-coin count from which an amount no longer fits in `i64` satoshis.
const WHOLE_CAP: u64 = 92_233_720_369;

/// The magnitude of `i64::MIN`: amounts are saturated to it before the sign is applied.
const MAGNITUDE_CAP: u64 = 9_223_372_036_854_775_808;

/// The smaller of two naturals.
pub open spec fn min_nat(a: nat, b: nat) -> nat {
    if a <= b {
        a
    } else {
        b
    }
}

fn is_space_char(c: char) -> (r: bool)
    ensures
        r == is_space(c),
{
    ('\t' <= c && c <= '\r') || c == ' ' || c == '\u{85}' || c == '\u{a0}' || c == '\u{1680}' || (
    '\u{2000}' <= c && c <= '\u{200a}') || c == '\u{2028}' || c == '\u{2029}' || c == '\u{202f}'
        || c == '\u{205f}' || c == '\u{3000}'
}

fn digit_of(c: char) -> (d: u64)
    requires
        is_digit(c),
    ensures
        d == digit_value(c),
        d < 10,
{
    (c as u32 - '0' as u32) as u64
}

fn pow10_upto_8(n: u64) -> (r: u64)
    requires
        n <= 8,
    ensures
        r == pow10(n as nat),
        r <= 100_000_000,
{
    proof {
        reveal_with_fuel(pow10, 9);
    }
    if n == 0 { 1 }
    else if n == 1 { 10 }
    else if n == 2 { 100 }
    else if n == 3 { 1_000 }
    else if n == 4 { 10_000 }
    else if n == 5 { 100_000 }
    else if n == 6 { 1_000_000 }
    else if n == 7 { 10_000_000 }
    else { 100_000_000 }
}

proof fn lemma_pow10_mono(a: nat, b: nat)
    requires
        a <= b,
    ensures
        pow10(a) <= pow10(b),
    decreases b,
{
    if a < b {
        lemma_pow10_mono(a, (b - 1) as nat);
    }
}

pub(crate) fn chars_of(s: &str) -> (v: Vec<char>)
    ensures
        v@ == s@,
{
    let n = s.unicode_len();
    let mut v: Vec<char> = Vec::new();
    let mut i: usize = 0;
    while i < n
        invariant
            n == s@.len(),
            i <= n,
            v@ == s@.take(i as int),
        decreases n - i,
    {
        v.push(s.get_char(i));
        i = i + 1;
        assert(v@ =~= s@.take(i as int));
    }
    assert(v@ =~= s@);
    v
}

fn sub_chars(v: &Vec<char>, lo: usize, hi: usize) -> (r: Vec<char>)
    requires
        lo <= hi <= v.len(),
    ensures
        r@ == v@.subrange(lo as int, hi as int),
{
    let mut r: Vec<char> = Vec::new();
    let mut i: usize = lo;
    while i < hi
        invariant
            lo <= i <= hi,
            hi <= v.len(),
            r@ == v@.subrange(lo as int, i as int),
        decreases hi - i,
    {
        r.push(v[i]);
        i = i + 1;
        assert(r@ =~= v@.subrange(lo as int, i as int));
    }
    r
}

pub(crate) fn trim_chars(v: &Vec<char>) -> (r: Vec<char>)
    ensures
        r@ == trimmed(v@),
{
    let n = v.len();
    let mut lo: usize = 0;
    assert(v@.skip(0) =~= v@);
    while lo < n && is_space_char(v[lo])
        invariant
            n == v.len(),
            lo <= n,
            trim_start(v@) == trim_start(v@.skip(lo as int)),
        decreases n - lo,
    {
        assert(v@.skip(lo as int).drop_first() =~= v@.skip(lo + 1));
        lo = lo + 1;
    }
    assert(trim_start(v@) == v@.skip(lo as int));
    let mut hi: usize = n;
    while hi > lo && is_space_char(v[hi - 1])
        invariant
            n == v.len(),
            lo <= hi <= n,
            trim_start(v@) == v@.skip(lo as int),
            trimmed(v@) == trim_end(v@.subrange(lo as int, hi as int)),
        decreases hi - lo,
    {
        assert(v@.subrange(lo as int, hi as int).drop_last() =~= v@.subrange(lo as int, hi - 1));
        hi = hi - 1;
    }
    assert(v@.subrange(lo as int, n as int) =~= v@.skip(lo as int));
    sub_chars(v, lo, hi)
}

fn word_matches(u: &Vec<char>, lower: &str, upper: &str) -> (r: bool)
    requires
        lower@.len() == upper@.len(),
    ensures
        r == word_any_case(u@, lower@, upper@),
{
    let n = lower.unicode_len();
    if u.len() != n {
        return false;
    }
    let mut i: usize = 0;
    while i < n
        invariant
            n == lower@.len(),
            n == upper@.len(),
            n == u.len(),
            i <= n,
            forall|j: int| 0 <= j < i ==> #[trigger] u@[j] == lower@[j] || u@[j] == upper@[j],
        decreases n - i,
    {
        let c = u[i];
        if c != lower.get_char(i) && c != upper.get_char(i) {
            return false;
        }
        i = i + 1;
    }
    true
}

fn finish_magnitude(acc: u64, units: u64, Ghost(whole): Ghost<nat>) -> (r: u64)
    requires
        acc == min_nat(whole, WHOLE_CAP as nat),
        units <= 10_000_000_000_000_000,
    ensures
        r == min_nat(whole * 100_000_000 + units as nat, MAGNITUDE_CAP as nat),
{
    if acc >= WHOLE_CAP {
        MAGNITUDE_CAP
    } else {
        let m = acc * 100_000_000 + units;
        if m > MAGNITUDE_CAP {
            MAGNITUDE_CAP
        } else {
            m
        }
    }
}

/// The magnitude in satoshis of the unsigned decimal text `u`, saturated to
/// the magnitude of `i64::MIN`; `None` when `u` is not a decimal number.
fn decimal_magnitude(u: &Vec<char>) -> (r: Option<u64>)
    ensures
        match decimal_units(u@) {
            Some(m) => r == Some(min_nat(m, MAGNITUDE_CAP as nat) as u64),
            None => r is None,
        },
{
    let n = u.len();
    let mut k: usize = 0;
    let mut acc: u64 = 0;
    assert(u@.skip(0) =~= u@);
    while k < n && '0' <= u[k] && u[k] <= '9'
        invariant
            n == u.len(),
            k <= n,
            lead_digits(u@) == k + lead_digits(u@.skip(k as int)),
            acc == min_nat(digits_value(u@.take(k as int)), WHOLE_CAP as nat),
        decreases n - k,
    {
        assert(u@.skip(k as int).drop_first() =~= u@.skip(k + 1));
        assert(u@.take(k + 1).drop_last() =~= u@.take(k as int));
        let d = digit_of(u[k]);
        if acc < WHOLE_CAP {
            let t = acc * 10 + d;
            acc = if t > WHOLE_CAP { WHOLE_CAP } else { t };
        }
        k = k + 1;
    }
    assert(lead_digits(u@) == k);
    let ghost whole = digits_value(u@.take(k as int));
    if k == n {
        assert(u@.skip(k as int).len() == 0);
        if k == 0 {
            return None;
        }
        return Some(finish_magnitude(acc, 0, Ghost(whole)));
    }
    if u[k] != '.' {
        return None;
    }
    let f = sub_chars(u, k + 1, n);
    assert(f@ =~= u@.skip(k as int).drop_first());
    let fl = f.len();
    let mut i: usize = 0;
    let mut fv: u64 = 0;
    let mut up = false;
    while i < fl
        invariant
            fl == f.len(),
            i <= fl,
            n == u.len(),
            k < n,
            u@[k as int] == '.',
            lead_digits(u@) == k,
            f@ == u@.skip(k as int).drop_first(),
            forall|j: int| 0 <= j < i ==> is_digit(#[trigger] f@[j]),
            i <= 8 ==> fv == digits_value(f@.take(i as int)) && fv < pow10(i as nat),
            i > 8 ==> fv == digits_value(f@.take(8)) && fv < pow10(8),
            up == (i > 8 && digit_value(f@[8]) >= 5),
        decreases fl - i,
    {
        let c = f[i];
        if !('0' <= c && c <= '9') {
            assert(!all_digits(f@));
            return None;
        }
        let d = digit_of(c);
        if i < 8 {
            proof {
                lemma_pow10_mono(i as nat, 7);
                reveal_with_fuel(pow10, 8);
                assert(f@.take(i + 1).drop_last() =~= f@.take(i as int));
            }
            fv = fv * 10 + d;
        } else if i == 8 {
            up = d >= 5;
        }
        i = i + 1;
    }
    assert(all_digits(f@));
    if k == 0 && fl == 0 {
        return None;
    }
    let units: u64 = if fl <= 8 {
        let p = pow10_upto_8(8 - fl as u64);
        assert(f@.take(fl as int) =~= f@);
        proof {
            lemma_pow10_mono(fl as nat, 8);
            reveal_with_fuel(pow10, 9);
            assert(fv * p <= 10_000_000_000_000_000) by (nonlinear_arith)
                requires
                    fv <= 100_000_000,
                    p <= 100_000_000,
            ;
        }
        fv * p
    } else {
        proof {
            reveal_with_fuel(pow10, 9);
        }
        if up { fv + 1 } else { fv }
    };
    Some(finish_magnitude(acc, units, Ghost(whole)))
}

/// The bound to which an exponent is clamped while it is read: past it the
/// amount is zero or saturated whatever the mantissa.
const EXP_CAP: u128 = 1_267_650_600_228_229_401_496_703_205_376;

/// An exponent clamped to `-EXP_CAP ..= EXP_CAP`.
spec fn clamp_exp(e: int) -> int {
    if e > EXP_CAP as int {
        EXP_CAP as int
    } else if e < -(EXP_CAP as int) {
        -(EXP_CAP as int)
    } else {
        e
    }
}

/// The position of the first exponent mark of `u`, or its length.
fn exp_mark_index(u: &Vec<char>) -> (p: usize)
    ensures
        p == before_mark(u@),
        p <= u.len(),
{
    let n = u.len();
    let mut i: usize = 0;
    assert(u@.skip(0) =~= u@);
    while i < n && u[i] != 'e' && u[i] != 'E'
        invariant
            n == u.len(),
            i <= n,
            before_mark(u@) == i + before_mark(u@.skip(i as int)),
        decreases n - i,
    {
        assert(u@.skip(i as int).drop_first() =~= u@.skip(i + 1));
        i = i + 1;
    }
    i
}

proof fn lemma_lead_digits_prefix(s: Seq<char>)
    ensures
        lead_digits(s) <= s.len(),
        forall|j: int| 0 <= j < lead_digits(s) ==> is_digit(#[trigger] s[j]),
        lead_digits(s) < s.len() ==> !is_digit(s[lead_digits(s) as int]),
    decreases s.len(),
{
    if s.len() > 0 && is_digit(s[0]) {
        lemma_lead_digits_prefix(s.drop_first());
        assert forall|j: int| 0 <= j < lead_digits(s) implies is_digit(#[trigger] s[j]) by {
            if j > 0 {
                assert(s[j] == s.drop_first()[j - 1]);
            }
        }
    }
}

/// The number of decimal digits at the start of `v`.
fn lead_digit_count(v: &Vec<char>) -> (k: usize)
    ensures
        k == lead_digits(v@),
{
    let n = v.len();
    let mut k: usize = 0;
    assert(v@.skip(0) =~= v@);
    while k < n && '0' <= v[k] && v[k] <= '9'
        invariant
            n == v.len(),
            k <= n,
            lead_digits(v@) == k + lead_digits(v@.skip(k as int)),
        decreases n - k,
    {
        assert(v@.skip(k as int).drop_first() =~= v@.skip(k + 1));
        k = k + 1;
    }
    k
}

/// The digits of the mantissa `m` without its point, `k` being its count of
/// leading digits.
fn strip_point(m: &Vec<char>, k: usize) -> (d: Vec<char>)
    requires
        k == lead_digits(m@),
    ensures
        d@ == mantissa_digits(m@),
{
    proof {
        lemma_lead_digits_prefix(m@);
    }
    let n = m.len();
    if k < n {
        let mut d = sub_chars(m, 0, k);
        let tail = sub_chars(m, k + 1, n);
        let mut j: usize = 0;
        while j < tail.len()
            invariant
                j <= tail.len(),
                d@ == m@.take(k as int) + tail@.take(j as int),
            decreases tail.len() - j,
        {
            d.push(tail[j]);
            j = j + 1;
            assert(d@ =~= m@.take(k as int) + tail@.take(j as int));
        }
        assert(tail@.take(j as int) =~= m@.skip(k + 1));
        assert(m@.subrange(0, k as int) =~= m@.take(k as int));
        d
    } else {
        let d = sub_chars(m, 0, n);
        assert(d@ =~= m@);
        d
    }
}

/// `min(digits_value(d[..j]), cap)`, read without overflow.
fn capped_digits(d: &Vec<char>, j: usize, cap: u128) -> (r: u128)
    requires
        j <= d.len(),
        cap <= EXP_CAP,
        forall|i: int| 0 <= i < j ==> is_digit(#[trigger] d@[i]),
    ensures
        r == min_nat(digits_value(d@.take(j as int)), cap as nat),
{
    let mut acc: u128 = 0;
    let mut i: usize = 0;
    assert(d@.take(0) =~= Seq::<char>::empty());
    while i < j
        invariant
            i <= j <= d.len(),
            cap <= EXP_CAP,
            forall|t: int| 0 <= t < j ==> is_digit(#[trigger] d@[t]),
            acc == min_nat(digits_value(d@.take(i as int)), cap as nat),
        decreases j - i,
    {
        assert(d@.take(i + 1).drop_last() =~= d@.take(i as int));
        let dv = digit_of(d[i]);
        let t = acc * 10 + dv as u128;
        acc = if t > cap { cap } else { t };
        i = i + 1;
    }
    acc
}

/// The exponent text `x`, clamped to `-EXP_CAP ..= EXP_CAP`; `None` when it
/// is not an optional sign followed by one or more digits.
fn exponent_capped(x: &Vec<char>) -> (r: Option<i128>)
    ensures
        match exponent_value(x@) {
            Some(e) => r == Some(clamp_exp(e) as i128),
            None => r is None,
        },
{
    let n = x.len();
    let neg = n > 0 && x[0] == '-';
    let start: usize = if n > 0 && (x[0] == '-' || x[0] == '+') { 1 } else { 0 };
    let dd = sub_chars(x, start, n);
    assert(unsigned_part(x@) == (neg, dd@)) by {
        if start == 1 {
            assert(dd@ =~= x@.drop_first());
        } else {
            assert(dd@ =~= x@);
        }
    }
    if dd.len() == 0 {
        assert(exponent_value(x@) is None);
        return None;
    }
    let mut i: usize = 0;
    while i < dd.len()
        invariant
            i <= dd.len(),
            unsigned_part(x@) == (neg, dd@),
            forall|t: int| 0 <= t < i ==> is_digit(#[trigger] dd@[t]),
        decreases dd.len() - i,
    {
        if !('0' <= dd[i] && dd[i] <= '9') {
            assert(!all_digits(dd@));
            return None;
        }
        i = i + 1;
    }
    let v = capped_digits(&dd, dd.len(), EXP_CAP);
    assert(dd@.take(dd.len() as int) =~= dd@);
    let c = v as i128;
    Some(if neg { -c } else { c })
}

/// `10^t` for a small `t`.
fn pow10_small(t: u32) -> (r: u128)
    requires
        t <= 19,
    ensures
        r == pow10(t as nat),
{
    let mut r: u128 = 1;
    let mut i: u32 = 0;
    while i < t
        invariant
            i <= t <= 19,
            r == pow10(i as nat),
        decreases t - i,
    {
        proof {
            lemma_pow10_mono(i as nat, 18);
            lemma_pow10_19();
        }
        r = r * 10;
        i = i + 1;
    }
    r
}

proof fn lemma_pow10_19()
    ensures
        pow10(18) == 1_000_000_000_000_000_000,
        pow10(19) == 10_000_000_000_000_000_000,
{
    reveal_with_fuel(pow10, 20);
}

proof fn lemma_cap_scaled(m: nat, c: nat, p: nat)
    requires
        p >= 1,
    ensures
        min_nat(min_nat(m, c) * p, c) == min_nat(m * p, c),
{
    if m >= c {
        assert(m * p >= m) by (nonlinear_arith)
            requires
                p >= 1,
        ;
        assert(c * p >= c) by (nonlinear_arith)
            requires
                p >= 1,
        ;
    }
}

proof fn lemma_big_product(m: nat, p: nat, b: nat)
    requires
        m >= 1,
        p >= b,
    ensures
        m * p >= b,
{
    assert(m * p >= p) by (nonlinear_arith)
        requires
            m >= 1,
    ;
}

proof fn lemma_mantissa_digits(m: Seq<char>)
    requires
        decimal_units(m) is Some,
    ensures
        all_digits(mantissa_digits(m)),
{
    lemma_lead_digits_prefix(m);
    let k = lead_digits(m) as int;
    let d = mantissa_digits(m);
    if k < m.len() {
        let rest = m.skip(k);
        assert(rest[0] == '.' && all_digits(rest.drop_first()));
        assert forall|i: int| 0 <= i < d.len() implies is_digit(#[trigger] d[i]) by {
            if i >= k {
                assert(d[i] == rest.drop_first()[i - k]);
            } else {
                assert(d[i] == m[i]);
            }
        }
    } else {
        assert forall|i: int| 0 <= i < d.len() implies is_digit(#[trigger] d[i]) by {
            assert(d[i] == m[i]);
        }
    }
}

/// The magnitude in satoshis of the unsigned text `u` in scientific form,
/// whose first exponent mark is at `p`, saturated to the magnitude of
/// `i64::MIN`; `None` when it is malformed.
fn scientific_magnitude(u: &Vec<char>, p: usize) -> (r: Option<u64>)
    requires
        p == before_mark(u@),
        p < u.len(),
    ensures
        match scientific_units(u@) {
            Some(m) => r == Some(min_nat(m, MAGNITUDE_CAP as nat) as u64),
            None => r is None,
        },
{
    let n = u.len();
    let m = sub_chars(u, 0, p);
    assert(m@ =~= u@.take(p as int));
    if decimal_magnitude(&m).is_none() {
        return None;
    }
    let x = sub_chars(u, p + 1, n);
    assert(x@ =~= u@.skip(p + 1));
    let e = match exponent_capped(&x) {
        Some(e) => e,
        None => {
            return None;
        },
    };
    let ghost et = exponent_value(x@)->0;
    assert(e as int == clamp_exp(et));
    let k = lead_digit_count(&m);
    let d = strip_point(&m, k);
    proof {
        lemma_mantissa_digits(m@);
        lemma_lead_digits_prefix(m@);
        lemma_pow10_19();
    }
    let ghost dg = d@;
    let ghost qt = k + 8 + et;
    assert(scientific_units(u@) == Some(shifted_units(dg, qt)));
    let len = d.len();
    let q: i128 = k as i128 + 8 + e;
    let cap = MAGNITUDE_CAP as u128;
    if q < 0 {
        assert(qt < 0);
        return Some(0);
    }
    if q >= len as i128 {
        let mc = capped_digits(&d, len, cap);
        assert(d@.take(len as int) =~= dg);
        assert(qt >= len);
        if mc == 0 {
            assert(digits_value(dg) == 0);
            let ghost pq = pow10((qt - dg.len()) as nat);
            assert(0 * pq == 0) by (nonlinear_arith);
            assert(shifted_units(dg, qt) == 0);
            return Some(0);
        }
        if q - len as i128 >= 19 {
            proof {
                lemma_pow10_mono(19, (qt - len) as nat);
                lemma_big_product(digits_value(dg), pow10((qt - len) as nat), pow10(19));
            }
            return Some(MAGNITUDE_CAP);
        }
        assert(q == qt);
        let t = (q - len as i128) as u32;
        let pw = pow10_small(t);
        proof {
            lemma_pow10_mono(t as nat, 18);
            lemma_pow10_mono(0, t as nat);
            assert(pow10(0) == 1);
            lemma_cap_scaled(digits_value(dg), cap as nat, pw as nat);
            assert(mc * pw <= cap * 1_000_000_000_000_000_000) by (nonlinear_arith)
                requires
                    mc <= cap,
                    pw <= 1_000_000_000_000_000_000u128,
            ;
        }
        let v = mc * pw;
        return Some(if v > cap { MAGNITUDE_CAP } else { v as u64 });
    }
    assert(q == qt);
    let qq = q as usize;
    let xc = capped_digits(&d, qq, cap);
    let up: u128 = if digit_of(d[qq]) >= 5 { 1 } else { 0 };
    let v = xc + up;
    Some(if v > cap { MAGNITUDE_CAP } else { v as u64 })
}

/// Parses a decimal coin amount (such as `"4269.37384458"`) to satoshis:
/// surrounding whitespace is ignored, a sign may lead and an exponent (such
/// as `"1.5e-3"`) may follow; the amount is
/// rounded half away from zero to eight decimals and saturated to `i64`,
/// an infinity saturates, and text that is not a number gives 0.
pub fn coin_amount_to_satoshis(s: &str) -> (r: i64)
    ensures
        r == amount_satoshis(s@),
{
    let all = chars_of(s);
    let t = trim_chars(&all);
    let n = t.len();
    let neg = n > 0 && t[0] == '-';
    let start: usize = if n > 0 && (t[0] == '-' || t[0] == '+') { 1 } else { 0 };
    let u = sub_chars(&t, start, n);
    assert(unsigned_part(t@) == (neg, u@)) by {
        if start == 1 {
            assert(u@ =~= t@.drop_first());
        } else {
            assert(u@ =~= t@);
        }
    }
    proof {
        reveal_strlit("inf");
        reveal_strlit("INF");
        reveal_strlit("infinity");
        reveal_strlit("INFINITY");
    }
    if word_matches(&u, "inf", "INF") || word_matches(&u, "infinity", "INFINITY") {
        return if neg { i64::MIN } else { i64::MAX };
    }
    let p = exp_mark_index(&u);
    let magnitude = if p < u.len() {
        scientific_magnitude(&u, p)
    } else {
        decimal_magnitude(&u)
    };
    match magnitude {
        None => 0,
        Some(x) => {
            if neg {
                if x == MAGNITUDE_CAP {
                    i64::MIN
                } else {
                    -(x as i64)
                }
            } else {
                if x >= MAGNITUDE_CAP {
                    i64::MAX
                } else {
                    x as i64
                }
            }
        },
    }
}

/// Converts the `balance` and `unspendable_balance` texts of a `my_balance`
/// reply to satoshis.
pub fn my_balance_to_satoshis(balance: &str, unspendable_balance: &str) -> (r: (i64, i64))
    ensures
        r.0 == amount_satoshis(balance@),
        r.1 == amount_satoshis(unspendable_balance@),
{
    (coin_amount_to_satoshis(balance), coin_amount_to_satoshis(unspendable_balance))
}

} // verus!

verus! {

/// Parses the details of a finished `task::enable_utxo::status` reply for
/// `ticker`: the balance amounts, decimal texts there, become satoshis.
pub fn parse_status_details(details: &JsonValue, ticker: &str) -> (r: Option<CoinStatusDetails>)
    ensures
        r is Some <==> status_balance_of(details@, ticker@) is Some,
        r matches Some(d) ==> {
            let (block, spendable, unspendable, wallet_type, address) = status_balance_of(
                details@,
                ticker@,
            )->0;
            &&& opt_nat(d.current_block) == block
            &&& d.spendable_satoshis == amount_satoshis(spendable)
            &&& d.unspendable_satoshis == amount_satoshis(unspendable)
            &&& opt_text(d.wallet_type) == wallet_type
            &&& opt_text(d.address) == address
        },
{
    match status_balance(details, ticker) {
        None => None,
        Some(b) => Some(
            CoinStatusDetails {
                current_block: b.current_block,
                spendable_satoshis: coin_amount_to_satoshis(b.spendable.as_str()),
                unspendable_satoshis: coin_amount_to_satoshis(b.unspendable.as_str()),
                wallet_type: b.wallet_type,
                address: b.address,
            },
        ),
    }
}

} // verus!

verus! {

proof fn lemma_digit_char(d: nat)
    requires
        d < 10,
    ensures
        is_digit(digit_char(d)),
        digit_value(digit_char(d)) == d,
{
}

proof fn lemma_decimal_digits(n: nat)
    ensures
        decimal(n).len() >= 1,
        all_digits(decimal(n)),
        digits_value(decimal(n)) == n,
    decreases n,
{
    lemma_digit_char(n % 10);
    let d = decimal(n);
    if n >= 10 {
        lemma_decimal_digits(n / 10);
        assert(d.drop_last() =~= decimal(n / 10));
        assert(d.last() == digit_char(n % 10));
        assert(digits_value(d) == digits_value(decimal(n / 10)) * 10 + digit_value(digit_char(n % 10)));
        assert forall|i: int| 0 <= i < d.len() implies is_digit(#[trigger] d[i]) by {
            if i < d.len() - 1 {
                assert(d[i] == decimal(n / 10)[i]);
            }
        }
    } else {
        assert(d.drop_last() =~= Seq::<char>::empty());
        assert(d.last() == digit_char(n));
        assert(digits_value(d) == digits_value(Seq::<char>::empty()) * 10 + digit_value(digit_char(n)));
    }
}

proof fn lemma_fixed_digits(n: nat, k: nat)
    ensures
        fixed_digits(n, k).len() == k,
        all_digits(fixed_digits(n, k)),
        digits_value(fixed_digits(n, k)) == n % pow10(k),
    decreases k,
{
    if k == 0 {
        assert(fixed_digits(n, 0) =~= Seq::<char>::empty());
    } else {
        let km = (k - 1) as nat;
        lemma_fixed_digits(n / 10, km);
        lemma_digit_char(n % 10);
        let f = fixed_digits(n, k);
        assert(f.drop_last() =~= fixed_digits(n / 10, km));
        assert forall|i: int| 0 <= i < f.len() implies is_digit(#[trigger] f[i]) by {
            if i < f.len() - 1 {
                assert(f[i] == fixed_digits(n / 10, km)[i]);
            }
        }
        lemma_pow10_positive(km);
        vstd::arithmetic::div_mod::lemma_mod_breakdown(n as int, 10, pow10(km) as int);
    }
}

proof fn lemma_pow10_positive(k: nat)
    ensures
        pow10(k) > 0,
    decreases k,
{
    if k > 0 {
        lemma_pow10_positive((k - 1) as nat);
    }
}

proof fn lemma_lead_digits(d: Seq<char>, r: Seq<char>)
    requires
        all_digits(d),
    ensures
        lead_digits(d + seq!['.'] + r) == d.len(),
    decreases d.len(),
{
    let s = d + seq!['.'] + r;
    if d.len() == 0 {
        assert(s[0] == '.');
    } else {
        assert(is_digit(d[0]));
        assert(s[0] == d[0]);
        lemma_lead_digits(d.drop_first(), r);
        assert(s.drop_first() =~= d.drop_first() + seq!['.'] + r);
    }
}

proof fn lemma_plain_text_trimmed(t: Seq<char>)
    requires
        t.len() > 0,
        !is_space(t[0]),
        !is_space(t.last()),
    ensures
        trimmed(t) == t,
{
    assert(trim_start(t) == t);
    assert(trim_end(t) == t);
}

proof fn lemma_digit_led_not_infinity(u: Seq<char>)
    requires
        u.len() > 0,
        is_digit(u[0]),
    ensures
        !is_infinity_word(u),
{
    reveal_strlit("inf");
    reveal_strlit("INF");
    reveal_strlit("infinity");
    reveal_strlit("INFINITY");
    if word_any_case(u, "inf"@, "INF"@) {
        assert(u[0] == 'i' || u[0] == 'I');
    }
    if word_any_case(u, "infinity"@, "INFINITY"@) {
        assert(u[0] == 'i' || u[0] == 'I');
    }
}

proof fn lemma_display_units(whole: nat, frac: nat)
    requires
        frac < 100_000_000,
    ensures
        decimal_units(decimal(whole) + seq!['.'] + fixed_digits(frac, 8)) == Some(
            (whole * 100_000_000 + frac) as nat,
        ),
{
    let dw = decimal(whole);
    let ff = fixed_digits(frac, 8);
    let u = dw + seq!['.'] + ff;
    lemma_decimal_digits(whole);
    lemma_fixed_digits(frac, 8);
    assert(pow10(8) == 100_000_000) by {
        reveal_with_fuel(pow10, 9);
    }
    assert(pow10(0) == 1);
    lemma_lead_digits(dw, ff);
    assert(u.take(dw.len() as int) =~= dw);
    assert(u.skip(dw.len() as int) =~= seq!['.'] + ff);
    assert((seq!['.'] + ff).drop_first() =~= ff);
    vstd::arithmetic::div_mod::lemma_small_mod(frac, 100_000_000);
    assert(digits_value(ff) == frac);
    assert(ff.len() == 8);
    assert(fraction_units(ff) == digits_value(ff) * pow10(0));
    let dv = digits_value(ff);
    let p0 = pow10(0);
    assert(dv * p0 == dv) by (nonlinear_arith)
        requires
            p0 == 1,
    ;
    assert(fraction_units(ff) == frac);
}

proof fn lemma_no_mark(u: Seq<char>)
    requires
        forall|i: int| 0 <= i < u.len() ==> !is_exp_mark(#[trigger] u[i]),
    ensures
        before_mark(u) == u.len(),
    decreases u.len(),
{
    if u.len() > 0 {
        assert forall|i: int| 0 <= i < u.drop_first().len() implies !is_exp_mark(#[trigger] u.drop_first()[i]) by {
            assert(u.drop_first()[i] == u[i + 1]);
        }
        lemma_no_mark(u.drop_first());
    }
}

/// Law: an amount shown by `satoshis_to_display` parses back to the same
/// satoshis, for every amount whose text keeps its sign (no negative amount
/// of less than one coin, whose text loses the minus sign).
pub proof fn law_display_then_parse(sat: i64)
    requires
        sat >= 0 || sat <= -100_000_000,
    ensures
        amount_satoshis(satoshi_text(sat as int)) == sat,
{
    let mag = abs(sat as int);
    let whole = mag / 100_000_000;
    let frac = mag % 100_000_000;
    let neg = sat < 0 && whole > 0;
    let dw = decimal(whole);
    let ff = fixed_digits(frac, 8);
    let u = dw + seq!['.'] + ff;
    let t = satoshi_text(sat as int);
    lemma_decimal_digits(whole);
    lemma_fixed_digits(frac, 8);
    assert(t =~= (if neg { seq!['-'] } else { Seq::empty() }) + u);
    assert(sat < 0 ==> neg);
    assert(u[0] == dw[0]);
    assert(t.last() == ff[7]);
    lemma_plain_text_trimmed(t);
    assert(unsigned_part(t) == (neg, u)) by {
        if neg {
            assert(t.drop_first() =~= u);
        } else {
            assert(t =~= u);
        }
    }
    lemma_digit_led_not_infinity(u);
    lemma_display_units(whole, frac);
    assert forall|i: int| 0 <= i < u.len() implies !is_exp_mark(#[trigger] u[i]) by {
        if i < dw.len() {
            assert(u[i] == dw[i] && is_digit(dw[i]));
        } else if i > dw.len() {
            assert(u[i] == ff[i - dw.len() - 1] && is_digit(ff[i - dw.len() - 1]));
        }
    }
    lemma_no_mark(u);
    assert(whole * 100_000_000 + frac == mag);
}

/// Law: the activation parameters carry the coin configuration. Each
/// numeric parameter is the configuration's field of the same name when it
/// is present and its default only when it is absent, the notarization flag
/// likewise, and the usable servers are sent as they are.
pub proof fn law_activation_params_follow_config(raw: CoinConfig, servers: Seq<Json>)
    ensures
        json_as_u64(json_get(activation_json(raw, servers), "required_confirmations"@)) == Some(
            match raw.required_confirmations { Some(v) => v as nat, None => 2nat },
        ),
        json_get(activation_json(raw, servers), "requires_notarization"@) == Some(
            Json::Bool(match raw.requires_notarization { Some(b) => b, None => false }),
        ),
        json_as_u64(json_get(activation_json(raw, servers), "txversion"@)) == Some(
            match raw.txversion { Some(v) => v as nat, None => 4nat },
        ),
        json_as_u64(json_get(activation_json(raw, servers), "txfee"@)) == Some(
            match raw.txfee { Some(v) => v as nat, None => 1000nat },
        ),
        json_as_u64(json_get(activation_json(raw, servers), "pubtype"@)) == Some(
            match raw.pubtype { Some(v) => v as nat, None => 60nat },
        ),
        json_as_u64(json_get(activation_json(raw, servers), "p2shtype"@)) == Some(
            match raw.p2shtype { Some(v) => v as nat, None => 85nat },
        ),
        json_as_u64(json_get(activation_json(raw, servers), "wiftype"@)) == Some(
            match raw.wiftype { Some(v) => v as nat, None => 188nat },
        ),
        json_as_u64(json_get(activation_json(raw, servers), "overwintered"@)) == Some(
            match raw.overwintered { Some(v) => v as nat, None => 1nat },
        ),
        json_get(
            json_get(json_get(activation_json(raw, servers), "mode"@)->0, "rpc_data"@)->0,
            "servers"@,
        ) == Some(Json::Array(servers)),
{
    reveal_strlit("required_confirmations");
    reveal_strlit("requires_notarization");
    reveal_strlit("priv_key_policy");
    reveal_strlit("min_addresses_number");
    reveal_strlit("scan_policy");
    reveal_strlit("gap_limit");
    reveal_strlit("mode");
    reveal_strlit("rpc");
    reveal_strlit("rpc_data");
    reveal_strlit("servers");
    reveal_strlit("tx_history");
    reveal_strlit("txversion");
    reveal_strlit("txfee");
    reveal_strlit("pubtype");
    reveal_strlit("p2shtype");
    reveal_strlit("wiftype");
    reveal_strlit("overwintered");
    let a = activation_json(raw, servers);
    let ms = match a {
        Json::Object(ms) => ms,
        _ => Seq::empty(),
    };
    assert(ms.len() == 15);
    assert("gap_limit"@[0] != "txversion"@[0]);
    assert("pubtype"@[0] != "wiftype"@[0]);
    assert(ms[0].0 == "required_confirmations"@ && ms[0].0.len() == 22);
    assert(ms[1].0 == "requires_notarization"@ && ms[1].0.len() == 21);
    assert(ms[2].0 == "priv_key_policy"@ && ms[2].0.len() == 15);
    assert(ms[3].0 == "min_addresses_number"@ && ms[3].0.len() == 20);
    assert(ms[4].0 == "scan_policy"@ && ms[4].0.len() == 11);
    assert(ms[5].0 == "gap_limit"@ && ms[5].0.len() == 9);
    assert(ms[6].0 == "mode"@ && ms[6].0.len() == 4);
    assert(ms[7].0 == "tx_history"@ && ms[7].0.len() == 10);
    assert(ms[8].0 == "txversion"@ && ms[8].0.len() == 9);
    assert(ms[9].0 == "txfee"@ && ms[9].0.len() == 5);
    assert(ms[10].0 == "pubtype"@ && ms[10].0.len() == 7);
    assert(ms[11].0 == "p2shtype"@ && ms[11].0.len() == 8);
    assert(ms[12].0 == "wiftype"@ && ms[12].0.len() == 7);
    assert(ms[13].0 == "overwintered"@ && ms[13].0.len() == 12);
    assert forall|j: int| 0 <= j < 0 implies ms[j].0 != "required_confirmations"@ by {
        assert(ms[j].0.len() != 22 || ms[j].0[0] != "required_confirmations"@[0]);
    }
    lemma_member_get_index(ms, "required_confirmations"@, 0);
    assert forall|j: int| 0 <= j < 1 implies ms[j].0 != "requires_notarization"@ by {
        assert(ms[j].0.len() != 21 || ms[j].0[0] != "requires_notarization"@[0]);
    }
    lemma_member_get_index(ms, "requires_notarization"@, 1);
    assert forall|j: int| 0 <= j < 6 implies ms[j].0 != "mode"@ by {
        assert(ms[j].0.len() != 4 || ms[j].0[0] != "mode"@[0]);
    }
    lemma_member_get_index(ms, "mode"@, 6);
    assert forall|j: int| 0 <= j < 8 implies ms[j].0 != "txversion"@ by {
        assert(ms[j].0.len() != 9 || ms[j].0[0] != "txversion"@[0]);
    }
    lemma_member_get_index(ms, "txversion"@, 8);
    assert forall|j: int| 0 <= j < 9 implies ms[j].0 != "txfee"@ by {
        assert(ms[j].0.len() != 5 || ms[j].0[0] != "txfee"@[0]);
    }
    lemma_member_get_index(ms, "txfee"@, 9);
    assert forall|j: int| 0 <= j < 10 implies ms[j].0 != "pubtype"@ by {
        assert(ms[j].0.len() != 7 || ms[j].0[0] != "pubtype"@[0]);
    }
    lemma_member_get_index(ms, "pubtype"@, 10);
    assert forall|j: int| 0 <= j < 11 implies ms[j].0 != "p2shtype"@ by {
        assert(ms[j].0.len() != 8 || ms[j].0[0] != "p2shtype"@[0]);
    }
    lemma_member_get_index(ms, "p2shtype"@, 11);
    assert forall|j: int| 0 <= j < 12 implies ms[j].0 != "wiftype"@ by {
        assert(ms[j].0.len() != 7 || ms[j].0[0] != "wiftype"@[0]);
    }
    lemma_member_get_index(ms, "wiftype"@, 12);
    assert forall|j: int| 0 <= j < 13 implies ms[j].0 != "overwintered"@ by {
        assert(ms[j].0.len() != 12 || ms[j].0[0] != "overwintered"@[0]);
    }
    lemma_member_get_index(ms, "overwintered"@, 13);
    let mode = ms[6].1;
    let mms = match mode {
        Json::Object(m) => m,
        _ => Seq::empty(),
    };
    assert(mms.len() == 2 && mms[0].0 == "rpc"@ && mms[1].0 == "rpc_data"@);
    assert(mms[0].0.len() != mms[1].0.len());
    lemma_member_get_index(mms, "rpc_data"@, 1);
    let rd = match mms[1].1 {
        Json::Object(m) => m,
        _ => Seq::empty(),
    };
    lemma_member_get_index(rd, "servers"@, 0);
}

} // verus!
