//! Crypto instructions: the operations the executor runs, how they are read
//! from JSON (an object whose `instruction` member names the operation),
//! and how a session result yields a list of them.

use vstd::prelude::*;
use crate::json::{assoc_index, json_as_u64, json_get, json_get_str, Json};
use crate::text::{owned, same_text};

verus! {

/// The network used when an instruction names none.
pub fn default_base() -> (r: String)
    ensures
        r@ == "base"@,
{
    owned("base")
}

/// The value sent when an instruction gives none.
pub fn default_zero() -> (r: String)
    ensures
        r@ == "0"@,
{
    owned("0")
}

/// The HTTP method used when an instruction gives none.
pub fn default_get() -> (r: String)
    ensures
        r@ == "GET"@,
{
    owned("GET")
}

/// The chain id used when an instruction gives none (Base).
pub fn default_chain_id() -> (r: u64)
    ensures
        r == 8453,
{
    8453
}

/// A crypto operation the bot can run locally.
#[derive(Debug)]
pub enum CryptoInstruction {
    SendEth { network: Option<String>, to: String, amount_raw: String },
    SwapToken { sell_token: String, buy_token: String, amount: String, network: String },
    BridgeUsdc { amount: String, from_network: String, to_network: String, recipient: Option<String> },
    Web3Call {
        abi: String,
        contract: String,
        function: String,
        params: Vec<Json>,
        value: String,
        network: Option<String>,
        call_only: bool,
    },
    Web3PresetCall { preset: String, network: Option<String> },
    BroadcastTx { uuid: String },
    SignMessage { message: String },
    X402Fetch { preset: String, network: String },
    X402Rpc { preset: String, network: String },
    X402Post { url: String, body: Json, headers: Vec<(String, String)>, network: String },
    GetBalance { network: String },
    GetAddress,
    ListQueuedTx,
    TokenLookup { symbol: String, network: String },
    Erc8128Fetch { url: String, method: String, body: Option<Json> },
    SiwaAuth { server_url: String, domain: String, uri: String, agent_id: Option<String> },
    DecodeCalldata { data: String, abi: String },
    SignRawTx { to: String, data: String, value: String, chain_id: u64, gas: Option<String>, nonce: Option<u64> },
}

/// A text.
pub type Text = Seq<char>;

/// `CryptoInstruction` with texts as character sequences.
pub enum InstrView {
    SendEth { network: Option<Text>, to: Text, amount_raw: Text },
    SwapToken { sell_token: Text, buy_token: Text, amount: Text, network: Text },
    BridgeUsdc { amount: Text, from_network: Text, to_network: Text, recipient: Option<Text> },
    Web3Call {
        abi: Text,
        contract: Text,
        function: Text,
        params: Seq<Json>,
        value: Text,
        network: Option<Text>,
        call_only: bool,
    },
    Web3PresetCall { preset: Text, network: Option<Text> },
    BroadcastTx { uuid: Text },
    SignMessage { message: Text },
    X402Fetch { preset: Text, network: Text },
    X402Rpc { preset: Text, network: Text },
    X402Post { url: Text, body: Json, headers: Seq<(Text, Text)>, network: Text },
    GetBalance { network: Text },
    GetAddress,
    ListQueuedTx,
    TokenLookup { symbol: Text, network: Text },
    Erc8128Fetch { url: Text, method: Text, body: Option<Json> },
    SiwaAuth { server_url: Text, domain: Text, uri: Text, agent_id: Option<Text> },
    DecodeCalldata { data: Text, abi: Text },
    SignRawTx { to: Text, data: Text, value: Text, chain_id: u64, gas: Option<Text>, nonce: Option<u64> },
}

/// The text of an optional string.
pub open spec fn opt_text(o: Option<String>) -> Option<Text> {
    match o {
        Some(s) => Some(s@),
        None => None,
    }
}

/// The texts of a list of string pairs.
pub open spec fn pairs_view(p: Seq<(String, String)>) -> Seq<(Text, Text)> {
    p.map_values(|x: (String, String)| (x.0@, x.1@))
}

impl View for CryptoInstruction {
    type V = InstrView;

    open spec fn view(&self) -> InstrView {
        match self {
            CryptoInstruction::SendEth { network, to, amount_raw } => InstrView::SendEth {
                network: opt_text(*network),
                to: to@,
                amount_raw: amount_raw@,
            },
            CryptoInstruction::SwapToken { sell_token, buy_token, amount, network } => InstrView::SwapToken {
                sell_token: sell_token@,
                buy_token: buy_token@,
                amount: amount@,
                network: network@,
            },
            CryptoInstruction::BridgeUsdc { amount, from_network, to_network, recipient } => InstrView::BridgeUsdc {
                amount: amount@,
                from_network: from_network@,
                to_network: to_network@,
                recipient: opt_text(*recipient),
            },
            CryptoInstruction::Web3Call { abi, contract, function, params, value, network, call_only } =>
                InstrView::Web3Call {
                abi: abi@,
                contract: contract@,
                function: function@,
                params: params@,
                value: value@,
                network: opt_text(*network),
                call_only: *call_only,
            },
            CryptoInstruction::Web3PresetCall { preset, network } => InstrView::Web3PresetCall {
                preset: preset@,
                network: opt_text(*network),
            },
            CryptoInstruction::BroadcastTx { uuid } => InstrView::BroadcastTx { uuid: uuid@ },
            CryptoInstruction::SignMessage { message } => InstrView::SignMessage { message: message@ },
            CryptoInstruction::X402Fetch { preset, network } => InstrView::X402Fetch {
                preset: preset@,
                network: network@,
            },
            CryptoInstruction::X402Rpc { preset, network } => InstrView::X402Rpc {
                preset: preset@,
                network: network@,
            },
            CryptoInstruction::X402Post { url, body, headers, network } => InstrView::X402Post {
                url: url@,
                body: *body,
                headers: pairs_view(headers@),
                network: network@,
            },
            CryptoInstruction::GetBalance { network } => InstrView::GetBalance { network: network@ },
            CryptoInstruction::GetAddress => InstrView::GetAddress,
            CryptoInstruction::ListQueuedTx => InstrView::ListQueuedTx,
            CryptoInstruction::TokenLookup { symbol, network } => InstrView::TokenLookup {
                symbol: symbol@,
                network: network@,
            },
            CryptoInstruction::Erc8128Fetch { url, method, body } => InstrView::Erc8128Fetch {
                url: url@,
                method: method@,
                body: *body,
            },
            CryptoInstruction::SiwaAuth { server_url, domain, uri, agent_id } => InstrView::SiwaAuth {
                server_url: server_url@,
                domain: domain@,
                uri: uri@,
                agent_id: opt_text(*agent_id),
            },
            CryptoInstruction::DecodeCalldata { data, abi } => InstrView::DecodeCalldata { data: data@, abi: abi@ },
            CryptoInstruction::SignRawTx { to, data, value, chain_id, gas, nonce } => InstrView::SignRawTx {
                to: to@,
                data: data@,
                value: value@,
                chain_id: *chain_id,
                gas: opt_text(*gas),
                nonce: *nonce,
            },
        }
    }
}

// ───────────── reading members (`None` means the member is unusable) ─────────────

/// A required string member.
pub open spec fn req_str(v: Json, k: Text) -> Option<Text> {
    json_get_str(v, k)
}

/// An optional string member: missing or `null` reads as `None`.
pub open spec fn opt_str(v: Json, k: Text) -> Option<Option<Text>> {
    match json_get(v, k) {
        None => Some(None),
        Some(Json::Null) => Some(None),
        Some(Json::Str(s)) => Some(Some(s@)),
        Some(_) => None,
    }
}

/// A string member with a default for when it is missing.
pub open spec fn def_str(v: Json, k: Text, d: Text) -> Option<Text> {
    match json_get(v, k) {
        None => Some(d),
        Some(Json::Str(s)) => Some(s@),
        Some(_) => None,
    }
}

/// A boolean member, `false` when missing.
pub open spec fn def_bool(v: Json, k: Text) -> Option<bool> {
    match json_get(v, k) {
        None => Some(false),
        Some(Json::Bool(b)) => Some(b),
        Some(_) => None,
    }
}

/// An unsigned integer member with a default for when it is missing.
pub open spec fn def_u64(v: Json, k: Text, d: u64) -> Option<u64> {
    match json_get(v, k) {
        None => Some(d),
        Some(x) => json_as_u64(x),
    }
}

/// An optional unsigned integer member: missing or `null` reads as `None`.
pub open spec fn opt_u64(v: Json, k: Text) -> Option<Option<u64>> {
    match json_get(v, k) {
        None => Some(None),
        Some(Json::Null) => Some(None),
        Some(x) => match json_as_u64(x) {
            Some(n) => Some(Some(n)),
            None => None,
        },
    }
}

/// An array member, empty when missing.
pub open spec fn def_array(v: Json, k: Text) -> Option<Seq<Json>> {
    match json_get(v, k) {
        None => Some(Seq::empty()),
        Some(Json::Array(a)) => Some(a@),
        Some(_) => None,
    }
}

/// Any member, `null` when missing.
pub open spec fn def_value(v: Json, k: Text) -> Json {
    match json_get(v, k) {
        None => Json::Null,
        Some(x) => x,
    }
}

/// Any member, where missing or `null` reads as `None`.
pub open spec fn opt_value(v: Json, k: Text) -> Option<Json> {
    match json_get(v, k) {
        None => None,
        Some(Json::Null) => None,
        Some(x) => Some(x),
    }
}

/// The members of an object whose values are all strings, as pairs.
pub open spec fn string_pairs(f: Seq<(String, Json)>) -> Option<Seq<(Text, Text)>>
    decreases f.len(),
{
    if f.len() == 0 {
        Some(Seq::empty())
    } else {
        match (string_pairs(f.drop_last()), f.last().1) {
            (Some(p), Json::Str(s)) => Some(p.push((f.last().0@, s@))),
            _ => None,
        }
    }
}

/// A string-to-string map member, empty when missing.
pub open spec fn def_headers(v: Json, k: Text) -> Option<Seq<(Text, Text)>> {
    match json_get(v, k) {
        None => Some(Seq::empty()),
        Some(Json::Object(f)) => string_pairs(f@),
        Some(_) => None,
    }
}

/// The instruction an object describes, by the name under `instruction`;
/// `None` when the name is unknown or a member is missing or mistyped.
pub open spec fn instruction_of(v: Json) -> Option<InstrView> {
    match json_get_str(v, "instruction"@) {
        None => None,
        Some(tag) => if tag == "SendEth"@ {
            match (opt_str(v, "network"@), req_str(v, "to"@), req_str(v, "amount_raw"@)) {
                (Some(n), Some(t), Some(a)) => Some(InstrView::SendEth { network: n, to: t, amount_raw: a }),
                _ => None,
            }
        } else if tag == "SwapToken"@ {
            match (req_str(v, "sell_token"@), req_str(v, "buy_token"@), req_str(v, "amount"@), def_str(v, "network"@, "base"@)) {
                (Some(s), Some(b), Some(a), Some(n)) => Some(InstrView::SwapToken { sell_token: s, buy_token: b, amount: a, network: n }),
                _ => None,
            }
        } else if tag == "BridgeUsdc"@ {
            match (req_str(v, "amount"@), req_str(v, "from_network"@), req_str(v, "to_network"@), opt_str(v, "recipient"@)) {
                (Some(a), Some(f), Some(t), Some(r)) => Some(InstrView::BridgeUsdc { amount: a, from_network: f, to_network: t, recipient: r }),
                _ => None,
            }
        } else if tag == "Web3Call"@ {
            match (req_str(v, "abi"@), req_str(v, "contract"@), req_str(v, "function"@), def_array(v, "params"@)) {
                (Some(a), Some(c), Some(f), Some(p)) => match (def_str(v, "value"@, "0"@), opt_str(v, "network"@), def_bool(v, "call_only"@)) {
                    (Some(x), Some(n), Some(co)) => Some(InstrView::Web3Call { abi: a, contract: c, function: f, params: p, value: x, network: n, call_only: co }),
                    _ => None,
                },
                _ => None,
            }
        } else if tag == "Web3PresetCall"@ {
            match (req_str(v, "preset"@), opt_str(v, "network"@)) {
                (Some(p), Some(n)) => Some(InstrView::Web3PresetCall { preset: p, network: n }),
                _ => None,
            }
        } else if tag == "BroadcastTx"@ {
            match req_str(v, "uuid"@) {
                Some(u) => Some(InstrView::BroadcastTx { uuid: u }),
                None => None,
            }
        } else if tag == "SignMessage"@ {
            match req_str(v, "message"@) {
                Some(m) => Some(InstrView::SignMessage { message: m }),
                None => None,
            }
        } else if tag == "X402Fetch"@ {
            match (req_str(v, "preset"@), def_str(v, "network"@, "base"@)) {
                (Some(p), Some(n)) => Some(InstrView::X402Fetch { preset: p, network: n }),
                _ => None,
            }
        } else if tag == "X402Rpc"@ {
            match (req_str(v, "preset"@), def_str(v, "network"@, "base"@)) {
                (Some(p), Some(n)) => Some(InstrView::X402Rpc { preset: p, network: n }),
                _ => None,
            }
        } else if tag == "X402Post"@ {
            match (req_str(v, "url"@), def_headers(v, "headers"@), def_str(v, "network"@, "base"@)) {
                (Some(u), Some(h), Some(n)) => Some(InstrView::X402Post { url: u, body: def_value(v, "body"@), headers: h, network: n }),
                _ => None,
            }
        } else if tag == "GetBalance"@ {
            match def_str(v, "network"@, "base"@) {
                Some(n) => Some(InstrView::GetBalance { network: n }),
                None => None,
            }
        } else if tag == "GetAddress"@ {
            Some(InstrView::GetAddress)
        } else if tag == "ListQueuedTx"@ {
            Some(InstrView::ListQueuedTx)
        } else if tag == "TokenLookup"@ {
            match (req_str(v, "symbol"@), def_str(v, "network"@, "base"@)) {
                (Some(s), Some(n)) => Some(InstrView::TokenLookup { symbol: s, network: n }),
                _ => None,
            }
        } else if tag == "Erc8128Fetch"@ {
            match (req_str(v, "url"@), def_str(v, "method"@, "GET"@)) {
                (Some(u), Some(m)) => Some(InstrView::Erc8128Fetch { url: u, method: m, body: opt_value(v, "body"@) }),
                _ => None,
            }
        } else if tag == "SiwaAuth"@ {
            match (req_str(v, "server_url"@), req_str(v, "domain"@), req_str(v, "uri"@), opt_str(v, "agent_id"@)) {
                (Some(s), Some(d), Some(u), Some(a)) => Some(InstrView::SiwaAuth { server_url: s, domain: d, uri: u, agent_id: a }),
                _ => None,
            }
        } else if tag == "DecodeCalldata"@ {
            match (req_str(v, "data"@), req_str(v, "abi"@)) {
                (Some(d), Some(a)) => Some(InstrView::DecodeCalldata { data: d, abi: a }),
                _ => None,
            }
        } else if tag == "SignRawTx"@ {
            match (req_str(v, "to"@), req_str(v, "data"@), def_str(v, "value"@, "0"@)) {
                (Some(t), Some(d), Some(x)) => match (def_u64(v, "chain_id"@, 8453), opt_str(v, "gas"@), opt_u64(v, "nonce"@)) {
                    (Some(c), Some(g), Some(n)) => Some(InstrView::SignRawTx { to: t, data: d, value: x, chain_id: c, gas: g, nonce: n }),
                    _ => None,
                },
                _ => None,
            }
        } else {
            None
        },
    }
}

// ───────────── reading members, executable ─────────────

fn req_str_exec(v: &Json, k: &str) -> (r: Option<String>)
    ensures
        opt_text(r) == req_str(*v, k@),
{
    match v.get_str(k) {
        Some(s) => Some(s.clone()),
        None => None,
    }
}

fn opt_str_exec(v: &Json, k: &str) -> (r: Option<Option<String>>)
    ensures
        match r {
            Some(o) => opt_str(*v, k@) == Some(opt_text(o)),
            None => opt_str(*v, k@) is None,
        },
{
    match v.get(k) {
        None => Some(None),
        Some(Json::Null) => Some(None),
        Some(Json::Str(s)) => Some(Some(s.clone())),
        Some(_) => None,
    }
}

fn def_str_exec(v: &Json, k: &str, d: &str) -> (r: Option<String>)
    ensures
        opt_text(r) == def_str(*v, k@, d@),
{
    match v.get(k) {
        None => Some(owned(d)),
        Some(Json::Str(s)) => Some(s.clone()),
        Some(_) => None,
    }
}

fn def_bool_exec(v: &Json, k: &str) -> (r: Option<bool>)
    ensures
        r == def_bool(*v, k@),
{
    match v.get(k) {
        None => Some(false),
        Some(Json::Bool(b)) => Some(*b),
        Some(_) => None,
    }
}

fn def_u64_exec(v: &Json, k: &str, d: u64) -> (r: Option<u64>)
    ensures
        r == def_u64(*v, k@, d),
{
    match v.get(k) {
        None => Some(d),
        Some(x) => x.as_u64(),
    }
}

fn opt_u64_exec(v: &Json, k: &str) -> (r: Option<Option<u64>>)
    ensures
        r == opt_u64(*v, k@),
{
    match v.get(k) {
        None => Some(None),
        Some(Json::Null) => Some(None),
        Some(x) => match x.as_u64() {
            Some(n) => Some(Some(n)),
            None => None,
        },
    }
}

fn array_ok(v: &Json, k: &str) -> (r: bool)
    ensures
        r == (def_array(*v, k@) is Some),
{
    match v.get(k) {
        None => true,
        Some(Json::Array(_)) => true,
        Some(_) => false,
    }
}

fn def_headers_exec(v: &Json, k: &str) -> (r: Option<Vec<(String, String)>>)
    ensures
        match r {
            Some(p) => def_headers(*v, k@) == Some(pairs_view(p@)),
            None => def_headers(*v, k@) is None,
        },
{
    match v.get(k) {
        None => {
            let p: Vec<(String, String)> = Vec::new();
            assert(pairs_view(p@) =~= Seq::<(Text, Text)>::empty());
            Some(p)
        },
        Some(Json::Object(f)) => {
            let mut p: Vec<(String, String)> = Vec::new();
            let mut i: usize = 0;
            assert(f@.take(0) =~= Seq::<(String, Json)>::empty());
            assert(pairs_view(p@) =~= Seq::<(Text, Text)>::empty());
            while i < f.len()
                invariant
                    i <= f@.len(),
                    def_headers(*v, k@) == string_pairs(f@),
                    string_pairs(f@.take(i as int)) == Some(pairs_view(p@)),
                decreases f@.len() - i,
            {
                let ghost t = f@.take(i + 1);
                assert(t.drop_last() =~= f@.take(i as int));
                assert(t.last() == f@[i as int]);
                match &f[i].1 {
                    Json::Str(s) => {
                        let ghost before = pairs_view(p@);
                        p.push((f[i].0.clone(), s.clone()));
                        assert(pairs_view(p@) =~= before.push((f@[i as int].0@, s@)));
                    },
                    _ => {
                        proof {
                            assert(string_pairs(t) is None);
                            lemma_string_pairs_prefix_none(f@, i as int + 1);
                        }
                        return None;
                    },
                }
                i = i + 1;
            }
            assert(f@.take(i as int) =~= f@);
            Some(p)
        },
        Some(_) => None,
    }
}

/// Once a prefix holds a non-string value, so does every longer prefix.
proof fn lemma_string_pairs_prefix_none(f: Seq<(String, Json)>, k: int)
    requires
        0 <= k <= f.len(),
        string_pairs(f.take(k)) is None,
    ensures
        string_pairs(f) is None,
    decreases f.len() - k,
{
    if k < f.len() {
        let t = f.take(k + 1);
        assert(t.drop_last() =~= f.take(k));
        lemma_string_pairs_prefix_none(f, k + 1);
    } else {
        assert(f.take(k) =~= f);
    }
}

/// Removes and returns the member `key` of an object.
fn take_member(v: Json, key: &str) -> (r: Option<Json>)
    ensures
        r == json_get(v, key@),
{
    match v {
        Json::Object(mut fields) => {
            match assoc_index(&fields, key) {
                Some(i) => {
                    let (_, x) = fields.remove(i);
                    Some(x)
                },
                None => None,
            }
        },
        _ => None,
    }
}

/// Reads an instruction from JSON, handing the value back when it does not
/// describe one.
pub fn decode_instruction(v: Json) -> (r: Result<CryptoInstruction, Json>)
    ensures
        match r {
            Ok(i) => instruction_of(v) == Some(i@),
            Err(w) => w == v && instruction_of(v) is None,
        },
{
    let tag = match v.get_str("instruction") {
        Some(t) => t.clone(),
        None => return Err(v),
    };
    let t = tag.as_str();
    if same_text(t, "SendEth") {
        match (opt_str_exec(&v, "network"), req_str_exec(&v, "to"), req_str_exec(&v, "amount_raw")) {
            (Some(n), Some(to), Some(a)) => Ok(CryptoInstruction::SendEth { network: n, to, amount_raw: a }),
            _ => Err(v),
        }
    } else if same_text(t, "SwapToken") {
        match (
            req_str_exec(&v, "sell_token"),
            req_str_exec(&v, "buy_token"),
            req_str_exec(&v, "amount"),
            def_str_exec(&v, "network", "base"),
        ) {
            (Some(s), Some(b), Some(a), Some(n)) => Ok(CryptoInstruction::SwapToken { sell_token: s, buy_token: b, amount: a, network: n }),
            _ => Err(v),
        }
    } else if same_text(t, "BridgeUsdc") {
        match (
            req_str_exec(&v, "amount"),
            req_str_exec(&v, "from_network"),
            req_str_exec(&v, "to_network"),
            opt_str_exec(&v, "recipient"),
        ) {
            (Some(a), Some(f), Some(to), Some(r)) => Ok(CryptoInstruction::BridgeUsdc { amount: a, from_network: f, to_network: to, recipient: r }),
            _ => Err(v),
        }
    } else if same_text(t, "Web3Call") {
        let fields = (
            req_str_exec(&v, "abi"),
            req_str_exec(&v, "contract"),
            req_str_exec(&v, "function"),
            array_ok(&v, "params"),
            def_str_exec(&v, "value", "0"),
            opt_str_exec(&v, "network"),
            def_bool_exec(&v, "call_only"),
        );
        match fields {
            (Some(a), Some(c), Some(f), true, Some(x), Some(n), Some(co)) => {
                let params = match take_member(v, "params") {
                    Some(Json::Array(p)) => p,
                    _ => Vec::new(),
                };
                Ok(CryptoInstruction::Web3Call { abi: a, contract: c, function: f, params, value: x, network: n, call_only: co })
            },
            _ => Err(v),
        }
    } else if same_text(t, "Web3PresetCall") {
        match (req_str_exec(&v, "preset"), opt_str_exec(&v, "network")) {
            (Some(p), Some(n)) => Ok(CryptoInstruction::Web3PresetCall { preset: p, network: n }),
            _ => Err(v),
        }
    } else if same_text(t, "BroadcastTx") {
        match req_str_exec(&v, "uuid") {
            Some(u) => Ok(CryptoInstruction::BroadcastTx { uuid: u }),
            None => Err(v),
        }
    } else if same_text(t, "SignMessage") {
        match req_str_exec(&v, "message") {
            Some(m) => Ok(CryptoInstruction::SignMessage { message: m }),
            None => Err(v),
        }
    } else if same_text(t, "X402Fetch") {
        match (req_str_exec(&v, "preset"), def_str_exec(&v, "network", "base")) {
            (Some(p), Some(n)) => Ok(CryptoInstruction::X402Fetch { preset: p, network: n }),
            _ => Err(v),
        }
    } else if same_text(t, "X402Rpc") {
        match (req_str_exec(&v, "preset"), def_str_exec(&v, "network", "base")) {
            (Some(p), Some(n)) => Ok(CryptoInstruction::X402Rpc { preset: p, network: n }),
            _ => Err(v),
        }
    } else if same_text(t, "X402Post") {
        match (req_str_exec(&v, "url"), def_headers_exec(&v, "headers"), def_str_exec(&v, "network", "base")) {
            (Some(u), Some(h), Some(n)) => {
                let body = match take_member(v, "body") {
                    Some(b) => b,
                    None => Json::Null,
                };
                Ok(CryptoInstruction::X402Post { url: u, body, headers: h, network: n })
            },
            _ => Err(v),
        }
    } else if same_text(t, "GetBalance") {
        match def_str_exec(&v, "network", "base") {
            Some(n) => Ok(CryptoInstruction::GetBalance { network: n }),
            None => Err(v),
        }
    } else if same_text(t, "GetAddress") {
        Ok(CryptoInstruction::GetAddress)
    } else if same_text(t, "ListQueuedTx") {
        Ok(CryptoInstruction::ListQueuedTx)
    } else if same_text(t, "TokenLookup") {
        match (req_str_exec(&v, "symbol"), def_str_exec(&v, "network", "base")) {
            (Some(s), Some(n)) => Ok(CryptoInstruction::TokenLookup { symbol: s, network: n }),
            _ => Err(v),
        }
    } else if same_text(t, "Erc8128Fetch") {
        match (req_str_exec(&v, "url"), def_str_exec(&v, "method", "GET")) {
            (Some(u), Some(m)) => {
                let body = match take_member(v, "body") {
                    Some(Json::Null) => None,
                    Some(b) => Some(b),
                    None => None,
                };
                Ok(CryptoInstruction::Erc8128Fetch { url: u, method: m, body })
            },
            _ => Err(v),
        }
    } else if same_text(t, "SiwaAuth") {
        match (
            req_str_exec(&v, "server_url"),
            req_str_exec(&v, "domain"),
            req_str_exec(&v, "uri"),
            opt_str_exec(&v, "agent_id"),
        ) {
            (Some(s), Some(d), Some(u), Some(a)) => Ok(CryptoInstruction::SiwaAuth { server_url: s, domain: d, uri: u, agent_id: a }),
            _ => Err(v),
        }
    } else if same_text(t, "DecodeCalldata") {
        match (req_str_exec(&v, "data"), req_str_exec(&v, "abi")) {
            (Some(d), Some(a)) => Ok(CryptoInstruction::DecodeCalldata { data: d, abi: a }),
            _ => Err(v),
        }
    } else if same_text(t, "SignRawTx") {
        match (
            req_str_exec(&v, "to"),
            req_str_exec(&v, "data"),
            def_str_exec(&v, "value", "0"),
            def_u64_exec(&v, "chain_id", 8453),
            opt_str_exec(&v, "gas"),
            opt_u64_exec(&v, "nonce"),
        ) {
            (Some(to), Some(d), Some(x), Some(c), Some(g), Some(n)) => Ok(CryptoInstruction::SignRawTx { to, data: d, value: x, chain_id: c, gas: g, nonce: n }),
            _ => Err(v),
        }
    } else {
        Err(v)
    }
}

/// The instructions that a list of JSON values describes, in order; values
/// that describe none are skipped.
pub open spec fn decoded_list(items: Seq<Json>) -> Seq<InstrView>
    decreases items.len(),
{
    if items.len() == 0 {
        Seq::empty()
    } else {
        let head: Seq<InstrView> = match instruction_of(items[0]) {
            Some(i) => seq![i],
            None => Seq::empty(),
        };
        head + decoded_list(items.drop_first())
    }
}

/// The views of a list of instructions.
pub open spec fn instrs_view(v: Seq<CryptoInstruction>) -> Seq<InstrView> {
    v.map_values(|i: CryptoInstruction| i@)
}

/// Reads every instruction of a list, skipping values that describe none.
pub fn decode_all(items: Vec<Json>) -> (r: Vec<CryptoInstruction>)
    ensures
        instrs_view(r@) == decoded_list(items@),
{
    let ghost orig = items@;
    let mut items = items;
    let mut out: Vec<CryptoInstruction> = Vec::new();
    assert(instrs_view(out@) + decoded_list(items@) =~= decoded_list(orig));
    while items.len() > 0
        invariant
            instrs_view(out@) + decoded_list(items@) == decoded_list(orig),
        decreases items@.len(),
    {
        let ghost before = items@;
        let ghost done = instrs_view(out@);
        let x = items.remove(0);
        assert(items@ =~= before.drop_first());
        match decode_instruction(x) {
            Ok(i) => {
                out.push(i);
                assert(instrs_view(out@) =~= done.push(i@));
                assert(done + decoded_list(before) =~= done.push(i@) + decoded_list(items@));
            },
            Err(_) => {
                assert(done + decoded_list(before) =~= done + decoded_list(items@));
            },
        }
    }
    assert(instrs_view(out@) + decoded_list(items@) =~= instrs_view(out@));
    out
}

/// The instructions of a session result: the result itself when it is one,
/// else those of the result when it is an array, else those of its
/// `instructions` array.
pub open spec fn session_instructions(result: Option<Json>) -> Seq<InstrView> {
    match result {
        None => Seq::empty(),
        Some(v) => match instruction_of(v) {
            Some(i) => seq![i],
            None => match v {
                Json::Array(items) => decoded_list(items@),
                _ => match json_get(v, "instructions"@) {
                    Some(Json::Array(items)) => decoded_list(items@),
                    _ => Seq::empty(),
                },
            },
        },
    }
}

/// Reads the crypto instructions of a session result.
pub fn parse_session_result(result: Option<Json>) -> (r: Vec<CryptoInstruction>)
    ensures
        instrs_view(r@) == session_instructions(result),
{
    let v = match result {
        Some(v) => v,
        None => {
            let r: Vec<CryptoInstruction> = Vec::new();
            assert(instrs_view(r@) =~= Seq::<InstrView>::empty());
            return r;
        },
    };
    match decode_instruction(v) {
        Ok(i) => {
            let mut r: Vec<CryptoInstruction> = Vec::new();
            r.push(i);
            assert(instrs_view(r@) =~= seq![i@]);
            r
        },
        Err(v) => match v {
            Json::Array(items) => decode_all(items),
            other => {
                let ghost o = other;
                match take_member(other, "instructions") {
                    Some(Json::Array(items)) => decode_all(items),
                    _ => {
                        let r: Vec<CryptoInstruction> = Vec::new();
                        assert(instrs_view(r@) =~= Seq::<InstrView>::empty());
                        r
                    },
                }
            },
        },
    }
}

/// The instructions of a session result: the result itself when it is one
/// instruction; the instructions decoded from it when it is an array;
/// else those decoded from its `instructions` array; none otherwise.
pub proof fn law_session_instructions(v: Json)
    ensures
        session_instructions(None) == Seq::<InstrView>::empty(),
        instruction_of(v) is Some ==> session_instructions(Some(v)) == seq![instruction_of(v)->Some_0],
        forall|items: Vec<Json>|
            instruction_of(v) is None && v == Json::Array(items) ==> #[trigger] session_instructions(Some(v))
                == decoded_list(items@),
        forall|items: Vec<Json>|
            instruction_of(v) is None && !(v is Array) && json_get(v, "instructions"@) == Some(Json::Array(items))
                ==> #[trigger] session_instructions(Some(v)) == decoded_list(items@),
        instruction_of(v) is None && !(v is Array) && !(json_get(v, "instructions"@) matches Some(Json::Array(_)))
            ==> session_instructions(Some(v)) == Seq::<InstrView>::empty(),
{
}

} // verus!
