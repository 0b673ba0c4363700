//! KDF RPC messages: the payloads the wallet sends and the responses it reads.

use crate::json::{
    json_get, json_string, members_model, push_member, uint, uint_value, Json, JsonValue,
};
use std::collections::HashMap;
use vstd::prelude::*;

verus! {

/// Response of `version`.
#[derive(Debug, Clone)]
pub struct VersionResponse {
    pub result: String,
    pub datetime: String,
}

/// Response of `stop`.
#[derive(Debug, Clone)]
pub struct StopResponse {
    pub result: String,
}

/// Response of `my_balance`.
#[derive(Debug, Clone)]
pub struct MyBalanceResponse {
    pub coin: String,
    pub balance: String,
    pub unspendable_balance: String,
    pub address: String,
}

/// Request of `get_wallet_names` (mmrpc 2.0).
#[derive(Debug, Clone)]
pub struct GetWalletNamesRequest {
    pub method: String,
    pub mmrpc: String,
    pub params: Option<()>,
    pub userpass: String,
    pub id: u64,
}

/// Result of `get_wallet_names`.
#[derive(Debug, Clone)]
pub struct GetWalletNamesResult {
    pub wallet_names: Vec<String>,
    pub activated_wallet: Option<String>,
}

/// Response of `get_wallet_names`.
#[derive(Debug, Clone)]
pub struct GetWalletNamesResponse {
    pub result: GetWalletNamesResult,
    pub id: u64,
}

/// Request of `task::enable_utxo::init`.
#[derive(Debug)]
pub struct TaskEnableUtxoInitRequest {
    pub method: String,
    pub mmrpc: String,
    pub params: JsonValue,
    pub userpass: String,
}

/// Response of `task::enable_utxo::init`.
#[derive(Debug, Clone)]
pub struct TaskEnableUtxoInitResponse {
    pub result: TaskEnableUtxoInitResult,
}

/// Result of `task::enable_utxo::init`: the task to poll.
#[derive(Debug, Clone)]
pub struct TaskEnableUtxoInitResult {
    pub task_id: u64,
}

/// Request of `task::enable_utxo::status`.
#[derive(Debug, Clone)]
pub struct TaskEnableUtxoStatusRequest {
    pub method: String,
    pub mmrpc: String,
    pub params: TaskEnableUtxoStatusParams,
    pub userpass: String,
}

/// Parameters of `task::enable_utxo::status`.
#[derive(Debug, Clone)]
pub struct TaskEnableUtxoStatusParams {
    pub task_id: u64,
    pub forget_if_finished: bool,
}

/// Response of `task::enable_utxo::status`.
#[derive(Debug)]
pub struct TaskEnableUtxoStatusResponse {
    pub result: TaskEnableUtxoStatusResult,
}

/// Status of an activation task and its details.
#[derive(Debug)]
pub struct TaskEnableUtxoStatusResult {
    pub status: String,
    pub details: JsonValue,
}

/// Request of `my_tx_history` (mmrpc 2.0).
#[derive(Debug, Clone)]
pub struct MyTxHistoryRequest {
    pub method: String,
    pub mmrpc: String,
    pub params: MyTxHistoryParams,
    pub userpass: String,
}

/// Parameters of `my_tx_history`.
#[derive(Debug, Clone)]
pub struct MyTxHistoryParams {
    pub coin: String,
    pub limit: u32,
    pub paging_options: Option<PagingOptions>,
}

/// Which page of the history to fetch.
#[derive(Debug, Clone)]
pub struct PagingOptions {
    pub page_number: u32,
}

/// Target of a history query.
#[derive(Debug, Clone)]
pub struct Target {
    pub target_type: String,
}

/// A transaction of the history.
#[derive(Debug)]
pub struct Transaction {
    pub tx_hex: String,
    pub tx_hash: String,
    pub from: Vec<String>,
    pub to: Vec<String>,
    pub total_amount: String,
    pub spent_by_me: String,
    pub received_by_me: String,
    pub my_balance_change: String,
    pub block_height: u64,
    pub timestamp: i64,
    pub fee_details: JsonValue,
    pub coin: String,
    pub internal_id: String,
    pub transaction_type: String,
    pub memo: Option<String>,
    pub confirmations: u32,
}

/// Synchronisation state of the history.
#[derive(Debug, Clone)]
pub struct SyncStatus {
    pub state: String,
}

/// Result of `my_tx_history`.
#[derive(Debug)]
pub struct MyTxHistoryResult {
    pub coin: String,
    pub target: Target,
    pub current_block: u64,
    pub transactions: Vec<Transaction>,
    pub sync_status: SyncStatus,
    pub limit: u32,
    pub skipped: u32,
    pub total: u32,
    pub total_pages: u32,
    pub paging_options: PagingOptionsResult,
}

/// Paging options echoed in the response.
#[derive(Debug, Clone)]
pub struct PagingOptionsResult {
    pub page_number: u32,
}

/// Response of `my_tx_history`.
#[derive(Debug)]
pub struct MyTxHistoryResponse {
    pub mmrpc: String,
    pub result: MyTxHistoryResult,
    pub id: Option<JsonValue>,
}

/// Response of `withdraw`: a signed transaction not yet broadcast.
#[derive(Debug)]
pub struct WithdrawResponse {
    pub tx_hex: String,
    pub tx_hash: String,
    pub from: Vec<String>,
    pub to: Vec<String>,
    pub total_amount: String,
    pub spent_by_me: String,
    pub received_by_me: String,
    pub my_balance_change: String,
    pub block_height: u64,
    pub timestamp: i64,
    pub fee_details: JsonValue,
    pub coin: String,
    pub internal_id: String,
}

/// A decimal amount of the orderbook.
#[derive(Debug, Clone)]
pub struct OrderbookDecimal {
    pub decimal: String,
}

/// One ask or bid of the orderbook.
#[derive(Debug, Clone)]
pub struct OrderbookEntry {
    pub coin: String,
    pub price: OrderbookDecimal,
    pub base_max_volume: OrderbookDecimal,
    pub base_min_volume: OrderbookDecimal,
    pub rel_max_volume: OrderbookDecimal,
    pub rel_min_volume: OrderbookDecimal,
    pub uuid: String,
    pub is_mine: bool,
    pub pubkey: String,
}

/// Result of `orderbook`.
#[derive(Debug, Clone)]
pub struct OrderbookResult {
    pub asks: Vec<OrderbookEntry>,
    pub bids: Vec<OrderbookEntry>,
    pub base: String,
    pub rel: String,
    pub num_asks: u32,
    pub num_bids: u32,
    pub timestamp: u64,
    pub total_asks_base_vol: OrderbookDecimal,
    pub total_asks_rel_vol: OrderbookDecimal,
    pub total_bids_base_vol: OrderbookDecimal,
    pub total_bids_rel_vol: OrderbookDecimal,
}

/// Response of `orderbook`.
#[derive(Debug, Clone)]
pub struct OrderbookResponse {
    pub result: OrderbookResult,
}

/// Confirmation settings of an order.
#[derive(Debug, Clone)]
pub struct ConfSettings {
    pub base_confs: u32,
    pub base_nota: bool,
    pub rel_confs: u32,
    pub rel_nota: bool,
}

/// Result of `setprice`.
#[derive(Debug, Clone)]
pub struct SetPriceResult {
    pub base: String,
    pub rel: String,
    pub price: String,
    pub max_base_vol: String,
    pub min_base_vol: String,
    pub created_at: u64,
    pub uuid: String,
    pub conf_settings: Option<ConfSettings>,
}

/// Response of `setprice`.
#[derive(Debug, Clone)]
pub struct SetPriceResponse {
    pub result: SetPriceResult,
}

/// A maker order of `my_orders`.
#[derive(Debug, Clone)]
pub struct MyMakerOrder {
    pub base: String,
    pub rel: String,
    pub price: String,
    pub max_base_vol: String,
    pub min_base_vol: String,
    pub created_at: u64,
    pub uuid: String,
    pub conf_settings: Option<ConfSettings>,
    pub cancellable: bool,
    pub available_amount: Option<String>,
}

/// A taker order of `my_orders`.
#[derive(Debug, Clone)]
pub struct MyTakerOrder {
    pub created_at: u64,
    pub request: TakerOrderRequest,
    pub cancellable: bool,
    pub order_type: Option<String>,
}

/// The request part of a taker order.
#[derive(Debug, Clone)]
pub struct TakerOrderRequest {
    pub base: String,
    pub rel: String,
    pub base_amount: String,
    pub rel_amount: String,
    pub action: String,
    pub uuid: String,
}

/// Result of `my_orders`, keyed by order uuid.
#[derive(Debug, Clone)]
pub struct MyOrdersResult {
    pub maker_orders: HashMap<String, MyMakerOrder>,
    pub taker_orders: HashMap<String, MyTakerOrder>,
}

/// Response of `my_orders`.
#[derive(Debug, Clone)]
pub struct MyOrdersResponse {
    pub result: MyOrdersResult,
}

/// A maker order as reported by `order_status`.
#[derive(Debug, Clone)]
pub struct OrderStatusMakerOrder {
    pub base: String,
    pub rel: String,
    pub price: String,
    pub max_base_vol: String,
    pub min_base_vol: String,
    pub available_amount: Option<String>,
    pub created_at: u64,
    pub updated_at: Option<u64>,
    pub uuid: String,
    pub cancellable: bool,
    pub started_swaps: Vec<String>,
    pub conf_settings: Option<ConfSettings>,
    pub cancellation_reason: Option<String>,
}

/// The request part of a taker order in `order_status`.
#[derive(Debug, Clone)]
pub struct OrderStatusTakerRequest {
    pub base: String,
    pub rel: String,
    pub base_amount: String,
    pub rel_amount: String,
    pub action: String,
    pub uuid: String,
}

/// The type of a taker order in `order_status`.
#[derive(Debug, Clone)]
pub struct OrderStatusTakerOrderType {
    pub order_type: String,
}

/// A taker order as reported by `order_status`.
#[derive(Debug, Clone)]
pub struct OrderStatusTakerOrder {
    pub created_at: u64,
    pub request: OrderStatusTakerRequest,
    pub cancellable: bool,
    pub order_type: Option<OrderStatusTakerOrderType>,
}

/// Response of `order_status`, tagged by order kind.
#[derive(Debug, Clone)]
pub enum OrderStatusResponse {
    Maker { order: OrderStatusMakerOrder },
    Taker { order: OrderStatusTakerOrder, cancellation_reason: Option<String> },
}

/// Response of `send_raw_transaction`.
#[derive(Debug, Clone)]
pub struct SendRawTransactionResponse {
    pub tx_hash: String,
}

} // verus!

verus! {

/// A JSON string.
pub open spec fn jstr(s: Seq<char>) -> Json {
    Json::Str(s)
}

/// Body of a legacy request carrying only the method and the password.
pub open spec fn bare_request(method: Seq<char>, userpass: Seq<char>) -> Json {
    Json::Object(seq![("method"@, jstr(method)), ("userpass"@, jstr(userpass))])
}

/// Body of `version`.
pub fn version_request(userpass: &str) -> (r: JsonValue)
    ensures
        r@ == bare_request("version"@, userpass@),
{
    let mut m = Vec::new();
    push_member(&mut m, "method", json_string("version"));
    push_member(&mut m, "userpass", json_string(userpass));
    assert(members_model(m@) =~= seq![("method"@, jstr("version"@)), ("userpass"@, jstr(userpass@))]);
    JsonValue::Object(m)
}

/// Body of `stop`.
pub fn stop_request(userpass: &str) -> (r: JsonValue)
    ensures
        r@ == bare_request("stop"@, userpass@),
{
    let mut m = Vec::new();
    push_member(&mut m, "method", json_string("stop"));
    push_member(&mut m, "userpass", json_string(userpass));
    assert(members_model(m@) =~= seq![("method"@, jstr("stop"@)), ("userpass"@, jstr(userpass@))]);
    JsonValue::Object(m)
}

/// Body of `my_orders`.
pub fn my_orders_request(userpass: &str) -> (r: JsonValue)
    ensures
        r@ == bare_request("my_orders"@, userpass@),
{
    let mut m = Vec::new();
    push_member(&mut m, "method", json_string("my_orders"));
    push_member(&mut m, "userpass", json_string(userpass));
    assert(members_model(m@) =~= seq![("method"@, jstr("my_orders"@)), ("userpass"@, jstr(userpass@))]);
    JsonValue::Object(m)
}

/// Body of `my_balance` for `coin`.
pub fn my_balance_request(userpass: &str, coin: &str) -> (r: JsonValue)
    ensures
        r@ == Json::Object(
            seq![("method"@, jstr("my_balance"@)), ("coin"@, jstr(coin@)), ("userpass"@, jstr(userpass@))],
        ),
{
    let mut m = Vec::new();
    push_member(&mut m, "method", json_string("my_balance"));
    push_member(&mut m, "coin", json_string(coin));
    push_member(&mut m, "userpass", json_string(userpass));
    assert(members_model(m@) =~= seq![
        ("method"@, jstr("my_balance"@)),
        ("coin"@, jstr(coin@)),
        ("userpass"@, jstr(userpass@)),
    ]);
    JsonValue::Object(m)
}

/// Body of `withdraw`: prepares sending `amount` of `coin` to `to`.
pub fn withdraw_request(userpass: &str, coin: &str, to: &str, amount: &str) -> (r: JsonValue)
    ensures
        r@ == Json::Object(
            seq![
                ("method"@, jstr("withdraw"@)),
                ("coin"@, jstr(coin@)),
                ("to"@, jstr(to@)),
                ("amount"@, jstr(amount@)),
                ("userpass"@, jstr(userpass@)),
            ],
        ),
{
    let mut m = Vec::new();
    push_member(&mut m, "method", json_string("withdraw"));
    push_member(&mut m, "coin", json_string(coin));
    push_member(&mut m, "to", json_string(to));
    push_member(&mut m, "amount", json_string(amount));
    push_member(&mut m, "userpass", json_string(userpass));
    assert(members_model(m@) =~= seq![
        ("method"@, jstr("withdraw"@)),
        ("coin"@, jstr(coin@)),
        ("to"@, jstr(to@)),
        ("amount"@, jstr(amount@)),
        ("userpass"@, jstr(userpass@)),
    ]);
    JsonValue::Object(m)
}

/// Body of `send_raw_transaction`: broadcasts `tx_hex` on `coin`.
pub fn send_raw_transaction_request(userpass: &str, coin: &str, tx_hex: &str) -> (r: JsonValue)
    ensures
        r@ == Json::Object(
            seq![
                ("method"@, jstr("send_raw_transaction"@)),
                ("coin"@, jstr(coin@)),
                ("tx_hex"@, jstr(tx_hex@)),
                ("userpass"@, jstr(userpass@)),
            ],
        ),
{
    let mut m = Vec::new();
    push_member(&mut m, "method", json_string("send_raw_transaction"));
    push_member(&mut m, "coin", json_string(coin));
    push_member(&mut m, "tx_hex", json_string(tx_hex));
    push_member(&mut m, "userpass", json_string(userpass));
    assert(members_model(m@) =~= seq![
        ("method"@, jstr("send_raw_transaction"@)),
        ("coin"@, jstr(coin@)),
        ("tx_hex"@, jstr(tx_hex@)),
        ("userpass"@, jstr(userpass@)),
    ]);
    JsonValue::Object(m)
}

/// Body of `orderbook` (mmrpc 2.0) for the pair `base`/`rel`.
pub fn orderbook_request(userpass: &str, base: &str, rel: &str) -> (r: JsonValue)
    ensures
        r@ == Json::Object(
            seq![
                ("method"@, jstr("orderbook"@)),
                ("mmrpc"@, jstr("2.0"@)),
                ("params"@, Json::Object(seq![("base"@, jstr(base@)), ("rel"@, jstr(rel@))])),
                ("userpass"@, jstr(userpass@)),
            ],
        ),
{
    let mut p = Vec::new();
    push_member(&mut p, "base", json_string(base));
    push_member(&mut p, "rel", json_string(rel));
    assert(members_model(p@) =~= seq![("base"@, jstr(base@)), ("rel"@, jstr(rel@))]);
    let mut m = Vec::new();
    push_member(&mut m, "method", json_string("orderbook"));
    push_member(&mut m, "mmrpc", json_string("2.0"));
    push_member(&mut m, "params", JsonValue::Object(p));
    push_member(&mut m, "userpass", json_string(userpass));
    assert(members_model(m@) =~= seq![
        ("method"@, jstr("orderbook"@)),
        ("mmrpc"@, jstr("2.0"@)),
        ("params"@, Json::Object(seq![("base"@, jstr(base@)), ("rel"@, jstr(rel@))])),
        ("userpass"@, jstr(userpass@)),
    ]);
    JsonValue::Object(m)
}

/// Body of `setprice`: places a maker order.
pub fn setprice_request(
    userpass: &str,
    base: &str,
    rel: &str,
    price: &str,
    volume: &str,
    base_confs: u32,
    base_nota: bool,
    rel_confs: u32,
    rel_nota: bool,
) -> (r: JsonValue)
    ensures
        r@ == Json::Object(
            seq![
                ("method"@, jstr("setprice"@)),
                ("userpass"@, jstr(userpass@)),
                ("base"@, jstr(base@)),
                ("rel"@, jstr(rel@)),
                ("price"@, jstr(price@)),
                ("volume"@, jstr(volume@)),
                ("base_confs"@, uint(base_confs as nat)),
                ("base_nota"@, Json::Bool(base_nota)),
                ("rel_confs"@, uint(rel_confs as nat)),
                ("rel_nota"@, Json::Bool(rel_nota)),
            ],
        ),
{
    let mut m = Vec::new();
    push_member(&mut m, "method", json_string("setprice"));
    push_member(&mut m, "userpass", json_string(userpass));
    push_member(&mut m, "base", json_string(base));
    push_member(&mut m, "rel", json_string(rel));
    push_member(&mut m, "price", json_string(price));
    push_member(&mut m, "volume", json_string(volume));
    push_member(&mut m, "base_confs", uint_value(base_confs as u64));
    push_member(&mut m, "base_nota", JsonValue::Bool(base_nota));
    push_member(&mut m, "rel_confs", uint_value(rel_confs as u64));
    push_member(&mut m, "rel_nota", JsonValue::Bool(rel_nota));
    assert(members_model(m@) =~= seq![
        ("method"@, jstr("setprice"@)),
        ("userpass"@, jstr(userpass@)),
        ("base"@, jstr(base@)),
        ("rel"@, jstr(rel@)),
        ("price"@, jstr(price@)),
        ("volume"@, jstr(volume@)),
        ("base_confs"@, uint(base_confs as nat)),
        ("base_nota"@, Json::Bool(base_nota)),
        ("rel_confs"@, uint(rel_confs as nat)),
        ("rel_nota"@, Json::Bool(rel_nota)),
    ]);
    JsonValue::Object(m)
}

/// Body of `order_status` for the order `uuid`.
pub fn order_status_request(userpass: &str, uuid: &str) -> (r: JsonValue)
    ensures
        r@ == Json::Object(
            seq![("method"@, jstr("order_status"@)), ("userpass"@, jstr(userpass@)), ("uuid"@, jstr(uuid@))],
        ),
{
    let mut m = Vec::new();
    push_member(&mut m, "method", json_string("order_status"));
    push_member(&mut m, "userpass", json_string(userpass));
    push_member(&mut m, "uuid", json_string(uuid));
    assert(members_model(m@) =~= seq![
        ("method"@, jstr("order_status"@)),
        ("userpass"@, jstr(userpass@)),
        ("uuid"@, jstr(uuid@)),
    ]);
    JsonValue::Object(m)
}

/// The `error` member of a response, which KDF sends instead of a result on failure.
pub fn response_error(response: &JsonValue) -> (r: Option<&JsonValue>)
    ensures
        r is Some <==> json_get(response@, "error"@) is Some,
        r matches Some(e) ==> json_get(response@, "error"@) == Some(e@),
{
    response.get("error")
}

impl GetWalletNamesRequest {
    /// The `get_wallet_names` request with identifier `id`.
    pub fn new(userpass: &str, id: u64) -> (r: Self)
        ensures
            r.method@ == "get_wallet_names"@,
            r.mmrpc@ == "2.0"@,
            r.params is None,
            r.userpass@ == userpass@,
            r.id == id,
    {
        GetWalletNamesRequest {
            method: String::from_str("get_wallet_names"),
            mmrpc: String::from_str("2.0"),
            params: None,
            userpass: String::from_str(userpass),
            id,
        }
    }

    /// The JSON body of this request; `params` is sent as `null`.
    pub fn to_json(&self) -> (r: JsonValue)
        ensures
            r@ == Json::Object(
                seq![
                    ("method"@, jstr(self.method@)),
                    ("mmrpc"@, jstr(self.mmrpc@)),
                    ("params"@, Json::Null),
                    ("userpass"@, jstr(self.userpass@)),
                    ("id"@, uint(self.id as nat)),
                ],
            ),
    {
        let mut m = Vec::new();
        push_member(&mut m, "method", json_string(self.method.as_str()));
        push_member(&mut m, "mmrpc", json_string(self.mmrpc.as_str()));
        push_member(&mut m, "params", JsonValue::Null);
        push_member(&mut m, "userpass", json_string(self.userpass.as_str()));
        push_member(&mut m, "id", uint_value(self.id));
        assert(members_model(m@) =~= seq![
            ("method"@, jstr(self.method@)),
            ("mmrpc"@, jstr(self.mmrpc@)),
            ("params"@, Json::Null),
            ("userpass"@, jstr(self.userpass@)),
            ("id"@, uint(self.id as nat)),
        ]);
        JsonValue::Object(m)
    }
}

impl TaskEnableUtxoInitRequest {
    /// The request that starts activating `ticker` with `activation_params`.
    pub fn new(userpass: &str, ticker: &str, activation_params: JsonValue) -> (r: Self)
        ensures
            r.method@ == "task::enable_utxo::init"@,
            r.mmrpc@ == "2.0"@,
            r.params@ == Json::Object(
                seq![("ticker"@, jstr(ticker@)), ("activation_params"@, activation_params@)],
            ),
            r.userpass@ == userpass@,
    {
        let ghost ap = activation_params@;
        let mut p = Vec::new();
        push_member(&mut p, "ticker", json_string(ticker));
        push_member(&mut p, "activation_params", activation_params);
        assert(members_model(p@) =~= seq![("ticker"@, jstr(ticker@)), ("activation_params"@, ap)]);
        TaskEnableUtxoInitRequest {
            method: String::from_str("task::enable_utxo::init"),
            mmrpc: String::from_str("2.0"),
            params: JsonValue::Object(p),
            userpass: String::from_str(userpass),
        }
    }

    /// The JSON body of this request (consumes the request).
    pub fn into_json(self) -> (r: JsonValue)
        ensures
            r@ == Json::Object(
                seq![
                    ("method"@, jstr(self.method@)),
                    ("mmrpc"@, jstr(self.mmrpc@)),
                    ("params"@, self.params@),
                    ("userpass"@, jstr(self.userpass@)),
                ],
            ),
    {
        let ghost s = self;
        let TaskEnableUtxoInitRequest { method, mmrpc, params, userpass } = self;
        let mut m = Vec::new();
        push_member(&mut m, "method", JsonValue::Str(method));
        push_member(&mut m, "mmrpc", JsonValue::Str(mmrpc));
        push_member(&mut m, "params", params);
        push_member(&mut m, "userpass", JsonValue::Str(userpass));
        assert(members_model(m@) =~= seq![
            ("method"@, jstr(s.method@)),
            ("mmrpc"@, jstr(s.mmrpc@)),
            ("params"@, s.params@),
            ("userpass"@, jstr(s.userpass@)),
        ]);
        JsonValue::Object(m)
    }
}

impl TaskEnableUtxoStatusRequest {
    /// The request polling the activation task `task_id`.
    pub fn new(userpass: &str, task_id: u64, forget_if_finished: bool) -> (r: Self)
        ensures
            r.method@ == "task::enable_utxo::status"@,
            r.mmrpc@ == "2.0"@,
            r.params == (TaskEnableUtxoStatusParams { task_id, forget_if_finished }),
            r.userpass@ == userpass@,
    {
        TaskEnableUtxoStatusRequest {
            method: String::from_str("task::enable_utxo::status"),
            mmrpc: String::from_str("2.0"),
            params: TaskEnableUtxoStatusParams { task_id, forget_if_finished },
            userpass: String::from_str(userpass),
        }
    }

    /// The JSON body of this request.
    pub fn to_json(&self) -> (r: JsonValue)
        ensures
            r@ == Json::Object(
                seq![
                    ("method"@, jstr(self.method@)),
                    ("mmrpc"@, jstr(self.mmrpc@)),
                    ("params"@, Json::Object(
                        seq![
                            ("task_id"@, uint(self.params.task_id as nat)),
                            ("forget_if_finished"@, Json::Bool(self.params.forget_if_finished)),
                        ],
                    )),
                    ("userpass"@, jstr(self.userpass@)),
                ],
            ),
    {
        let mut p = Vec::new();
        push_member(&mut p, "task_id", uint_value(self.params.task_id));
        push_member(&mut p, "forget_if_finished", JsonValue::Bool(self.params.forget_if_finished));
        assert(members_model(p@) =~= seq![
            ("task_id"@, uint(self.params.task_id as nat)),
            ("forget_if_finished"@, Json::Bool(self.params.forget_if_finished)),
        ]);
        let ghost pm = members_model(p@);
        let mut m = Vec::new();
        push_member(&mut m, "method", json_string(self.method.as_str()));
        push_member(&mut m, "mmrpc", json_string(self.mmrpc.as_str()));
        push_member(&mut m, "params", JsonValue::Object(p));
        push_member(&mut m, "userpass", json_string(self.userpass.as_str()));
        assert(members_model(m@) =~= seq![
            ("method"@, jstr(self.method@)),
            ("mmrpc"@, jstr(self.mmrpc@)),
            ("params"@, Json::Object(pm)),
            ("userpass"@, jstr(self.userpass@)),
        ]);
        JsonValue::Object(m)
    }
}

/// The `params` of `my_tx_history`: `paging_options` is left out when no page is given.
pub open spec fn history_params_json(p: MyTxHistoryParams) -> Json {
    match p.paging_options {
        Some(po) => Json::Object(
            seq![
                ("coin"@, jstr(p.coin@)),
                ("limit"@, uint(p.limit as nat)),
                ("paging_options"@, Json::Object(seq![("PageNumber"@, uint(po.page_number as nat))])),
            ],
        ),
        None => Json::Object(seq![("coin"@, jstr(p.coin@)), ("limit"@, uint(p.limit as nat))]),
    }
}

impl MyTxHistoryRequest {
    /// The request for `limit` transactions of `coin`, on page `page_number` if given.
    pub fn new(userpass: &str, coin: &str, limit: u32, page_number: Option<u32>) -> (r: Self)
        ensures
            r.method@ == "my_tx_history"@,
            r.mmrpc@ == "2.0"@,
            r.params.coin@ == coin@,
            r.params.limit == limit,
            r.params.paging_options == match page_number {
                Some(n) => Some(PagingOptions { page_number: n }),
                None => None::<PagingOptions>,
            },
            r.userpass@ == userpass@,
    {
        let paging_options = match page_number {
            Some(n) => Some(PagingOptions { page_number: n }),
            None => None,
        };
        MyTxHistoryRequest {
            method: String::from_str("my_tx_history"),
            mmrpc: String::from_str("2.0"),
            params: MyTxHistoryParams { coin: String::from_str(coin), limit, paging_options },
            userpass: String::from_str(userpass),
        }
    }

    /// The JSON body of this request.
    pub fn to_json(&self) -> (r: JsonValue)
        ensures
            r@ == Json::Object(
                seq![
                    ("method"@, jstr(self.method@)),
                    ("mmrpc"@, jstr(self.mmrpc@)),
                    ("params"@, history_params_json(self.params)),
                    ("userpass"@, jstr(self.userpass@)),
                ],
            ),
    {
        let mut p = Vec::new();
        push_member(&mut p, "coin", json_string(self.params.coin.as_str()));
        push_member(&mut p, "limit", uint_value(self.params.limit as u64));
        match &self.params.paging_options {
            Some(po) => {
                let mut q = Vec::new();
                push_member(&mut q, "PageNumber", uint_value(po.page_number as u64));
                assert(members_model(q@) =~= seq![("PageNumber"@, uint(po.page_number as nat))]);
                push_member(&mut p, "paging_options", JsonValue::Object(q));
                assert(members_model(p@) =~= seq![
                    ("coin"@, jstr(self.params.coin@)),
                    ("limit"@, uint(self.params.limit as nat)),
                    ("paging_options"@, Json::Object(seq![("PageNumber"@, uint(po.page_number as nat))])),
                ]);
            },
            None => {
                assert(members_model(p@) =~= seq![
                    ("coin"@, jstr(self.params.coin@)),
                    ("limit"@, uint(self.params.limit as nat)),
                ]);
            },
        }
        let ghost pm = members_model(p@);
        let mut m = Vec::new();
        push_member(&mut m, "method", json_string(self.method.as_str()));
        push_member(&mut m, "mmrpc", json_string(self.mmrpc.as_str()));
        push_member(&mut m, "params", JsonValue::Object(p));
        push_member(&mut m, "userpass", json_string(self.userpass.as_str()));
        assert(members_model(m@) =~= seq![
            ("method"@, jstr(self.method@)),
            ("mmrpc"@, jstr(self.mmrpc@)),
            ("params"@, Json::Object(pm)),
            ("userpass"@, jstr(self.userpass@)),
        ]);
        JsonValue::Object(m)
    }
}

} // verus!
