//! The KDF configuration document (`MM2.json`): its RPC password, its
//! initial content and the wallet fields written when a wallet is chosen.

use crate::json::{
    json_as_str, json_get, json_string, lemma_members_model, members_model, push_element,
    push_member, seq_model, uint, uint_value, Json, JsonValue,
};
use crate::text::{owned, str_eq, texts};
use rand::Rng;
use vstd::prelude::*;

verus! {

/// The characters a generated RPC password is drawn from.
pub const PASSWORD_CHARSET: &'static str = "ABCDEFGHIJKLMNOPQRSTUVWXYZabcdefghijklmnopqrstuvwxyz0123456789!@#$%^&*";

/// The length of a generated RPC password.
pub const PASSWORD_LENGTH: usize = 16;

/// `rand::thread_rng().gen_range(0..bound)`: a random index below `bound`
/// (the range must not be empty, else the crate panics). Which index comes
/// out is chance.
#[verifier::external_body]
fn random_below(bound: usize) -> (r: usize)
    requires
        bound > 0,
    ensures
        r < bound,
{
    rand::thread_rng().gen_range(0..bound)
}

/// The password spelled by `indices`: each index picks a character of
/// `PASSWORD_CHARSET`, in order.
pub fn password_from_indices(indices: &Vec<usize>) -> (pw: String)
    requires
        forall|i: int| 0 <= i < indices@.len() ==> (#[trigger] indices@[i] as int) < PASSWORD_CHARSET@.len(),
    ensures
        pw@.len() == indices@.len(),
        forall|i: int| 0 <= i < indices@.len() ==> #[trigger] pw@[i] == PASSWORD_CHARSET@[indices@[i] as int],
{
    let mut pw = String::new();
    let mut i: usize = 0;
    while i < indices.len()
        invariant
            i <= indices@.len(),
            forall|j: int| 0 <= j < indices@.len() ==> (#[trigger] indices@[j] as int) < PASSWORD_CHARSET@.len(),
            pw@.len() == i,
            forall|j: int| 0 <= j < i ==> #[trigger] pw@[j] == PASSWORD_CHARSET@[indices@[j] as int],
        decreases indices@.len() - i,
    {
        let c = PASSWORD_CHARSET.get_char(indices[i]);
        let ghost before = pw@;
        crate::text::push_char(&mut pw, c);
        assert forall|j: int| 0 <= j < i + 1 implies #[trigger] pw@[j] == PASSWORD_CHARSET@[indices@[j] as int] by {
            if j < i {
                assert(pw@[j] == before[j]);
            }
        }
        i = i + 1;
    }
    pw
}

/// A new random RPC password: sixteen characters of `PASSWORD_CHARSET`, each
/// drawn at random. Which ones is chance.
pub fn generate_secure_password() -> (pw: String)
    ensures
        pw@.len() == PASSWORD_LENGTH,
        forall|i: int| 0 <= i < pw@.len() ==> PASSWORD_CHARSET@.contains(#[trigger] pw@[i]),
{
    proof {
        reveal_strlit("ABCDEFGHIJKLMNOPQRSTUVWXYZabcdefghijklmnopqrstuvwxyz0123456789!@#$%^&*");
    }
    let n = PASSWORD_CHARSET.unicode_len();
    let mut indices: Vec<usize> = Vec::new();
    while indices.len() < PASSWORD_LENGTH
        invariant
            n == PASSWORD_CHARSET@.len(),
            n == 70,
            indices@.len() <= PASSWORD_LENGTH,
            forall|j: int| 0 <= j < indices@.len() ==> (#[trigger] indices@[j] as int) < PASSWORD_CHARSET@.len(),
        decreases PASSWORD_LENGTH - indices@.len(),
    {
        indices.push(random_below(n));
    }
    let pw = password_from_indices(&indices);
    assert forall|i: int| 0 <= i < pw@.len() implies PASSWORD_CHARSET@.contains(#[trigger] pw@[i]) by {
        assert(pw@[i] == PASSWORD_CHARSET@[indices@[i] as int]);
    }
    pw
}

/// What was found of an existing `MM2.json`.
#[derive(Debug)]
pub enum ExistingConfig {
    /// There is no such file.
    Missing,
    /// The file could not be read.
    Unreadable,
    /// The file is not JSON.
    Unparsable,
    /// The parsed document.
    Parsed(JsonValue),
}

/// Where the RPC password came from.
#[derive(Debug, Clone, Copy, PartialEq, Eq, Structural)]
pub enum PasswordOrigin {
    /// Reused from the existing configuration.
    Existing,
    /// Generated: the existing password was empty.
    EmptyInConfig,
    /// Generated: the existing configuration had no password.
    MissingInConfig,
    /// Generated: the existing configuration was not JSON.
    UnparsableConfig,
    /// Generated: the existing configuration could not be read.
    UnreadableConfig,
    /// Generated: there was no configuration.
    NoConfig,
}

/// A password as `generate_secure_password` makes them.
pub open spec fn is_generated_password(pw: Seq<char>) -> bool {
    &&& pw.len() == PASSWORD_LENGTH
    &&& forall|i: int| 0 <= i < pw.len() ==> PASSWORD_CHARSET@.contains(#[trigger] pw[i])
}

/// The `rpc_password` string of a configuration document, if it has one.
pub open spec fn configured_password(j: Json) -> Option<Seq<char>> {
    json_as_str(json_get(j, "rpc_password"@))
}

/// The RPC password to use: a non-empty `rpc_password` string of the
/// existing configuration is kept; otherwise a new one is generated, and the
/// origin tells why.
pub fn choose_rpc_password(existing: &ExistingConfig) -> (r: (String, PasswordOrigin))
    ensures
        match existing {
            ExistingConfig::Parsed(j) => match configured_password(j@) {
                Some(pw) => if pw.len() > 0 {
                    r.0@ == pw && r.1 == PasswordOrigin::Existing
                } else {
                    is_generated_password(r.0@) && r.1 == PasswordOrigin::EmptyInConfig
                },
                None => is_generated_password(r.0@) && r.1 == PasswordOrigin::MissingInConfig,
            },
            ExistingConfig::Unparsable => is_generated_password(r.0@) && r.1
                == PasswordOrigin::UnparsableConfig,
            ExistingConfig::Unreadable => is_generated_password(r.0@) && r.1
                == PasswordOrigin::UnreadableConfig,
            ExistingConfig::Missing => is_generated_password(r.0@) && r.1 == PasswordOrigin::NoConfig,
        },
{
    match existing {
        ExistingConfig::Parsed(j) => match crate::json::member_str(j, "rpc_password") {
            Some(pw) => if pw.unicode_len() > 0 {
                (owned(pw), PasswordOrigin::Existing)
            } else {
                (generate_secure_password(), PasswordOrigin::EmptyInConfig)
            },
            None => (generate_secure_password(), PasswordOrigin::MissingInConfig),
        },
        ExistingConfig::Unparsable => (generate_secure_password(), PasswordOrigin::UnparsableConfig),
        ExistingConfig::Unreadable => (generate_secure_password(), PasswordOrigin::UnreadableConfig),
        ExistingConfig::Missing => (generate_secure_password(), PasswordOrigin::NoConfig),
    }
}

/// An entry of `seed-nodes.json`.
#[derive(Debug)]
pub struct SeedNode {
    pub name: String,
    pub host: String,
    pub node_type: String,
    pub wss: bool,
    pub netid: u64,
    pub contact: Vec<JsonValue>,
}

/// The hosts of the seed nodes, in order.
pub open spec fn seed_hosts(nodes: Seq<SeedNode>) -> Seq<Seq<char>> {
    nodes.map_values(|n: SeedNode| n.host@)
}

/// The hosts of the seed nodes, in order.
pub fn seed_node_hosts(nodes: &Vec<SeedNode>) -> (r: Vec<String>)
    ensures
        texts(r@) == seed_hosts(nodes@),
{
    let mut out: Vec<String> = Vec::new();
    let mut i: usize = 0;
    while i < nodes.len()
        invariant
            i <= nodes@.len(),
            texts(out@) == seed_hosts(nodes@.take(i as int)),
        decreases nodes@.len() - i,
    {
        let ghost before = out@;
        out.push(nodes[i].host.clone());
        assert(texts(out@) =~= texts(before).push(nodes@[i as int].host@));
        assert(seed_hosts(nodes@.take(i + 1)) =~= seed_hosts(nodes@.take(i as int)).push(nodes@[i as int].host@));
        i = i + 1;
    }
    assert(nodes@.take(nodes@.len() as int) =~= nodes@);
    out
}

/// The JSON strings of `hosts`.
pub open spec fn host_strings(hosts: Seq<Seq<char>>) -> Seq<Json> {
    hosts.map_values(|h: Seq<char>| Json::Str(h))
}

/// The initial `MM2.json`: no wallet yet, RPC on the local port 7783 with
/// `rpc_password`, network 8762, the given seed nodes and directories.
pub open spec fn mm2_config(rpc_password: Seq<char>, hosts: Seq<Seq<char>>, userhome: Seq<char>, dbdir: Seq<char>) -> Json {
    Json::Object(
        seq![
            ("mm2"@, uint(1)),
            ("gui"@, Json::Str("mm2-rtui"@)),
            ("rpcport"@, uint(7783)),
            ("netid"@, uint(8762)),
            ("https"@, Json::Bool(false)),
            ("wallet_name"@, Json::Null),
            ("wallet_password"@, Json::Null),
            ("seed"@, Json::Null),
            ("allowRegistrations"@, Json::Bool(false)),
            ("enable_hd"@, Json::Bool(false)),
            ("rpcLocalOnly"@, Json::Bool(true)),
            ("rpc_password"@, Json::Str(rpc_password)),
            ("seednodes"@, Json::Array(host_strings(hosts))),
            ("userhome"@, Json::Str(userhome)),
            ("dbdir"@, Json::Str(dbdir)),
        ],
    )
}

/// Builds the initial `MM2.json` document.
pub fn build_mm2_config(rpc_password: &str, seed_hosts: &Vec<String>, userhome: &str, dbdir: &str) -> (r: JsonValue)
    ensures
        r@ == mm2_config(rpc_password@, texts(seed_hosts@), userhome@, dbdir@),
{
    let mut hosts: Vec<JsonValue> = Vec::new();
    let mut i: usize = 0;
    while i < seed_hosts.len()
        invariant
            i <= seed_hosts@.len(),
            seq_model(hosts@) == host_strings(texts(seed_hosts@.take(i as int))),
        decreases seed_hosts@.len() - i,
    {
        push_element(&mut hosts, json_string(seed_hosts[i].as_str()));
        assert(host_strings(texts(seed_hosts@.take(i + 1))) =~= host_strings(texts(seed_hosts@.take(i as int))).push(Json::Str(seed_hosts@[i as int]@)));
        i = i + 1;
    }
    assert(seed_hosts@.take(seed_hosts@.len() as int) =~= seed_hosts@);
    let mut m: Vec<(String, JsonValue)> = Vec::new();
    push_member(&mut m, "mm2", uint_value(1));
    push_member(&mut m, "gui", json_string("mm2-rtui"));
    push_member(&mut m, "rpcport", uint_value(7783));
    push_member(&mut m, "netid", uint_value(8762));
    push_member(&mut m, "https", JsonValue::Bool(false));
    push_member(&mut m, "wallet_name", JsonValue::Null);
    push_member(&mut m, "wallet_password", JsonValue::Null);
    push_member(&mut m, "seed", JsonValue::Null);
    push_member(&mut m, "allowRegistrations", JsonValue::Bool(false));
    push_member(&mut m, "enable_hd", JsonValue::Bool(false));
    push_member(&mut m, "rpcLocalOnly", JsonValue::Bool(true));
    push_member(&mut m, "rpc_password", json_string(rpc_password));
    push_member(&mut m, "seednodes", JsonValue::Array(hosts));
    push_member(&mut m, "userhome", json_string(userhome));
    push_member(&mut m, "dbdir", json_string(dbdir));
    let r = JsonValue::Object(m);
    assert(members_model(m@) =~= seq![
        ("mm2"@, uint(1)),
        ("gui"@, Json::Str("mm2-rtui"@)),
        ("rpcport"@, uint(7783)),
        ("netid"@, uint(8762)),
        ("https"@, Json::Bool(false)),
        ("wallet_name"@, Json::Null),
        ("wallet_password"@, Json::Null),
        ("seed"@, Json::Null),
        ("allowRegistrations"@, Json::Bool(false)),
        ("enable_hd"@, Json::Bool(false)),
        ("rpcLocalOnly"@, Json::Bool(true)),
        ("rpc_password"@, Json::Str(rpc_password@)),
        ("seednodes"@, Json::Array(host_strings(texts(seed_hosts@)))),
        ("userhome"@, Json::Str(userhome@)),
        ("dbdir"@, Json::Str(dbdir@)),
    ]);
    r
}

} // verus!

verus! {

/// `members` with `key` set to `value`: the first member with that key gets
/// the value in place, or the member is appended when the key is absent.
pub open spec fn member_set(members: Seq<(Seq<char>, Json)>, key: Seq<char>, value: Json) -> Seq<(Seq<char>, Json)>
    decreases members.len(),
{
    if members.len() == 0 {
        seq![(key, value)]
    } else if members[0].0 == key {
        members.update(0, (key, value))
    } else {
        seq![members[0]] + member_set(members.drop_first(), key, value)
    }
}

/// The configuration with the chosen wallet written in: `wallet_name`,
/// `wallet_password` and `enable_hd` set; `None` when the root is no object.
pub open spec fn with_wallet(config: Json, name: Seq<char>, password: Seq<char>, enable_hd: bool) -> Option<Json> {
    match config {
        Json::Object(ms) => Some(
            Json::Object(
                member_set(
                    member_set(member_set(ms, "wallet_name"@, Json::Str(name)), "wallet_password"@, Json::Str(password)),
                    "enable_hd"@,
                    Json::Bool(enable_hd),
                ),
            ),
        ),
        _ => None,
    }
}

proof fn lemma_member_set_at(ms: Seq<(Seq<char>, Json)>, key: Seq<char>, value: Json, i: int)
    requires
        0 <= i < ms.len(),
        ms[i].0 == key,
        forall|j: int| 0 <= j < i ==> ms[j].0 != key,
    ensures
        member_set(ms, key, value) == ms.update(i, (key, value)),
    decreases i,
{
    if i > 0 {
        lemma_member_set_at(ms.drop_first(), key, value, i - 1);
        assert(seq![ms[0]] + ms.drop_first().update(i - 1, (key, value)) =~= ms.update(i, (key, value)));
    }
}

proof fn lemma_member_set_absent(ms: Seq<(Seq<char>, Json)>, key: Seq<char>, value: Json)
    requires
        forall|j: int| 0 <= j < ms.len() ==> ms[j].0 != key,
    ensures
        member_set(ms, key, value) == ms.push((key, value)),
    decreases ms.len(),
{
    if ms.len() > 0 {
        lemma_member_set_absent(ms.drop_first(), key, value);
        assert(seq![ms[0]] + ms.drop_first().push((key, value)) =~= ms.push((key, value)));
    }
}

/// Sets `key` to `value` among `members` (see `member_set`).
fn set_member(members: &mut Vec<(String, JsonValue)>, key: &str, value: JsonValue)
    ensures
        members_model(final(members)@) == member_set(members_model(old(members)@), key@, value@),
{
    proof {
        lemma_members_model(members@);
    }
    let ghost ms = members_model(members@);
    let mut i: usize = 0;
    while i < members.len()
        invariant
            *members == *old(members),
            ms == members_model(members@),
            i <= members@.len(),
            ms.len() == members@.len(),
            forall|k: int| 0 <= k < members@.len() ==> #[trigger] ms[k] == (members@[k].0@, crate::json::json_model(members@[k].1)),
            forall|j: int| 0 <= j < i ==> ms[j].0 != key@,
        decreases members@.len() - i,
    {
        if str_eq(members[i].0.as_str(), key) {
            proof {
                lemma_member_set_at(ms, key@, value@, i as int);
            }
            let ghost v = value;
            let k = owned(key);
            let ghost kk = k;
            members.set(i, (k, value));
            proof {
                lemma_members_model(members@);
                assert(members_model(members@) =~= ms.update(i as int, (key@, v@)));
            }
            return;
        }
        i = i + 1;
    }
    proof {
        lemma_member_set_absent(ms, key@, value@);
    }
    push_member(members, key, value);
}

/// Writes the chosen wallet into the configuration document: sets
/// `wallet_name`, `wallet_password` and `enable_hd`. Returns `None`, leaving
/// nothing to write, when the document's root is not an object.
pub fn with_wallet_fields(config: JsonValue, wallet_name: &str, wallet_password: &str, enable_hd: bool) -> (r: Option<JsonValue>)
    ensures
        match r {
            Some(j) => with_wallet(config@, wallet_name@, wallet_password@, enable_hd) == Some(j@),
            None => with_wallet(config@, wallet_name@, wallet_password@, enable_hd) is None,
        },
{
    match config {
        JsonValue::Object(mut members) => {
            set_member(&mut members, "wallet_name", json_string(wallet_name));
            set_member(&mut members, "wallet_password", json_string(wallet_password));
            set_member(&mut members, "enable_hd", JsonValue::Bool(enable_hd));
            Some(JsonValue::Object(members))
        },
        _ => None,
    }
}

/// Law: after `key` is set to `value`, reading `key` gives `value`, and every
/// other key reads as before.
pub proof fn law_member_set_then_get(ms: Seq<(Seq<char>, Json)>, key: Seq<char>, value: Json, other: Seq<char>)
    ensures
        crate::json::member_get(member_set(ms, key, value), key) == Some(value),
        other != key ==> crate::json::member_get(member_set(ms, key, value), other)
            == crate::json::member_get(ms, other),
    decreases ms.len(),
{
    let r = member_set(ms, key, value);
    if ms.len() > 0 {
        law_member_set_then_get(ms.drop_first(), key, value, other);
        if ms[0].0 == key {
            assert(r[0] == (key, value));
            assert(r.drop_first() =~= ms.drop_first());
            if other != key {
                assert(crate::json::member_get(r, other) == crate::json::member_get(r.drop_first(), other));
                assert(crate::json::member_get(ms, other) == crate::json::member_get(ms.drop_first(), other));
            }
        } else {
            assert(r[0] == ms[0]);
            assert(r.drop_first() =~= member_set(ms.drop_first(), key, value));
            if other != key && ms[0].0 != other {
                assert(crate::json::member_get(r, other) == crate::json::member_get(r.drop_first(), other));
                assert(crate::json::member_get(ms, other) == crate::json::member_get(ms.drop_first(), other));
            }
        }
    } else {
        assert(r[0] == (key, value));
        assert(r.drop_first() =~= Seq::<(Seq<char>, Json)>::empty());
        if other != key {
            assert(crate::json::member_get(r, other) == crate::json::member_get(r.drop_first(), other));
        }
    }
    assert(crate::json::member_get(r, key) == Some(value));
}

/// Law: a configuration that took the chosen wallet reads back that wallet's
/// name, password and HD flag.
pub proof fn law_wallet_fields_read_back(config: Json, name: Seq<char>, password: Seq<char>, enable_hd: bool)
    requires
        config is Object,
    ensures
        with_wallet(config, name, password, enable_hd) matches Some(j) && json_get(j, "wallet_name"@)
            == Some(Json::Str(name)) && json_get(j, "wallet_password"@) == Some(Json::Str(password))
            && json_get(j, "enable_hd"@) == Some(Json::Bool(enable_hd)),
{
    let ms = config->Object_0;
    let m1 = member_set(ms, "wallet_name"@, Json::Str(name));
    let m2 = member_set(m1, "wallet_password"@, Json::Str(password));
    reveal_strlit("wallet_name");
    reveal_strlit("wallet_password");
    reveal_strlit("enable_hd");
    assert("wallet_name"@.len() != "wallet_password"@.len());
    assert("enable_hd"@.len() != "wallet_password"@.len());
    assert("enable_hd"@.len() != "wallet_name"@.len());
    law_member_set_then_get(ms, "wallet_name"@, Json::Str(name), "wallet_password"@);
    law_member_set_then_get(m1, "wallet_password"@, Json::Str(password), "wallet_name"@);
    law_member_set_then_get(m2, "enable_hd"@, Json::Bool(enable_hd), "wallet_name"@);
    law_member_set_then_get(m2, "enable_hd"@, Json::Bool(enable_hd), "wallet_password"@);
}

} // verus!
