//! Token lookup by symbol and network.

use vstd::prelude::*;
use crate::json::{assoc_get, assoc_index, json_get, lemma_assoc_get_absent, lemma_assoc_get_distinct, json_get_str, json_keys, Json};
use crate::text::{chars_of, decimal, owned, push_str, str_upper, string_from, to_uppercase};

verus! {

/// A token's contract address, decimals and display name.
#[derive(Debug)]
pub struct TokenInfo {
    pub address: String,
    pub decimals: u8,
    pub name: String,
}

impl TokenInfo {
    /// A copy of the entry.
    pub fn copy(&self) -> (r: TokenInfo)
        ensures
            r == *self,
    {
        TokenInfo { address: self.address.clone(), decimals: self.decimals, name: self.name.clone() }
    }
}

/// Tokens by network name, then by upper-case symbol.
pub struct TokenTable {
    pub networks: Vec<(String, Vec<(String, TokenInfo)>)>,
}

impl TokenTable {
    /// The table is a map of maps: no network is listed twice, and no
    /// symbol twice within a network. A table built from nested maps has
    /// this shape; lookups take the first match either way.
    pub open spec fn wf(&self) -> bool {
        &&& forall|a: int, b: int|
            0 <= a < b < self.networks@.len() ==> self.networks@[a].0@ != self.networks@[b].0@
        &&& forall|i: int, a: int, b: int|
            0 <= i < self.networks@.len() && 0 <= a < b < self.networks@[i].1@.len()
                ==> #[trigger] self.networks@[i].1@[a].0@ != #[trigger] self.networks@[i].1@[b].0@
    }
}

/// What `lookup` returns: the network's table (or, when the network is
/// unknown, the `base` table), then the entry for the upper-cased symbol.
pub open spec fn lookup_spec(
    table: Seq<(String, Vec<(String, TokenInfo)>)>,
    symbol: Seq<char>,
    network: Seq<char>,
) -> Option<TokenInfo> {
    let nt = match assoc_get(table, network) {
        Some(t) => Some(t),
        None => assoc_get(table, "base"@),
    };
    match nt {
        Some(t) => assoc_get(t@, str_upper(symbol)),
        None => None,
    }
}

/// Looks up a token by symbol (case-insensitively, via upper case) and network,
/// falling back to the `base` network when the network has no table.
pub fn lookup(table: &TokenTable, symbol: &str, network: &str) -> (r: Option<TokenInfo>)
    ensures
        r == lookup_spec(table.networks@, symbol@, network@),
{
    let upper = to_uppercase(symbol);
    let nt_index = match assoc_index(&table.networks, network) {
        Some(i) => Some(i),
        None => assoc_index(&table.networks, "base"),
    };
    match nt_index {
        Some(i) => {
            let nt = &table.networks[i].1;
            match assoc_index(nt, upper.as_str()) {
                Some(j) => Some(nt[j].1.copy()),
                None => None,
            }
        },
        None => None,
    }
}

/// In a well-formed table, looking up a listed symbol (in any case that
/// upper-cases to it) finds its entry, on its own network or, when the
/// network is not listed, on `base`.
pub proof fn law_lookup_finds_listed_entry(table: TokenTable, symbol: Seq<char>, network: Seq<char>, i: int, k: int)
    requires
        table.wf(),
        0 <= i < table.networks@.len(),
        table.networks@[i].0@ == network || (table.networks@[i].0@ == "base"@ && forall|j: int|
            0 <= j < table.networks@.len() ==> #[trigger] table.networks@[j].0@ != network),
        0 <= k < table.networks@[i].1@.len(),
        table.networks@[i].1@[k].0@ == str_upper(symbol),
    ensures
        lookup_spec(table.networks@, symbol, network) == Some(table.networks@[i].1@[k].1),
{
    let t = table.networks@;
    lemma_assoc_get_distinct(t);
    assert(assoc_get(t, t[i].0@) == Some(t[i].1));
    if t[i].0@ != network {
        lemma_assoc_get_absent(t, network);
    }
    let nt = t[i].1@;
    assert forall|a: int, b: int| 0 <= a < b < nt.len() implies nt[a].0@ != nt[b].0@ by {
        assert(table.networks@[i].1@[a].0@ != table.networks@[i].1@[b].0@);
    }
    lemma_assoc_get_distinct(nt);
    assert(assoc_get(nt, nt[k].0@) == Some(nt[k].1));
}

/// Looking a symbol up gives what looking up its upper case gives, for
/// every symbol whose upper case stays the same when upper-cased again.
pub proof fn law_lookup_ignores_case(table: TokenTable, symbol: Seq<char>, network: Seq<char>)
    requires
        str_upper(str_upper(symbol)) == str_upper(symbol),
    ensures
        lookup_spec(table.networks@, symbol, network) == lookup_spec(table.networks@, str_upper(symbol), network),
{
}

/// The message of a failed token lookup.
pub open spec fn msg_token_not_found(symbol: Seq<char>, network: Seq<char>) -> Seq<char> {
    "Token '"@ + symbol + "' not found on "@ + network
}

/// The JSON description of a token found for `symbol` on `network`: an
/// object with exactly the members `symbol` (upper case), `address`,
/// `decimals` (a number), `name` and `network`, in that order.
pub open spec fn is_token_description(j: Json, info: TokenInfo, symbol: Seq<char>, network: Seq<char>) -> bool {
    &&& json_keys(j) == seq!["symbol"@, "address"@, "decimals"@, "name"@, "network"@]
    &&& json_get_str(j, "symbol"@) == Some(str_upper(symbol))
    &&& json_get_str(j, "address"@) == Some(info.address@)
    &&& match json_get(j, "decimals"@) {
        Some(Json::Number(n)) => n.as_u64 == Some(info.decimals as u64) && n.text@ == decimal(info.decimals as nat),
        _ => false,
    }
    &&& json_get_str(j, "name"@) == Some(info.name@)
    &&& json_get_str(j, "network"@) == Some(network)
}

/// Looks up a token and describes it as a JSON object with `symbol`
/// (upper case), `address`, `decimals`, `name` and `network`.
pub fn lookup_token(table: &TokenTable, symbol: &str, network: &str) -> (r: Result<Json, String>)
    ensures
        match r {
            Ok(j) => {
                let info = lookup_spec(table.networks@, symbol@, network@);
                &&& info is Some
                &&& is_token_description(j, info->Some_0, symbol@, network@)
            },
            Err(e) => lookup_spec(table.networks@, symbol@, network@) is None && e@
                == msg_token_not_found(symbol@, network@),
        },
{
    match lookup(table, symbol, network) {
        Some(info) => {
            let mut fields: Vec<(String, Json)> = Vec::new();
            fields.push((owned("symbol"), Json::Str(to_uppercase(symbol))));
            fields.push((owned("address"), Json::Str(owned(info.address.as_str()))));
            fields.push((owned("decimals"), Json::number(info.decimals as u64)));
            fields.push((owned("name"), Json::Str(owned(info.name.as_str()))));
            fields.push((owned("network"), Json::string(network)));
            let j = Json::Object(fields);
            proof {
                broadcast use vstd::string::group_string_axioms;
                reveal_strlit("symbol");
                reveal_strlit("address");
                reveal_strlit("decimals");
                reveal_strlit("name");
                reveal_strlit("network");
                reveal_with_fuel(assoc_get, 6);
                let k = seq!["symbol"@, "address"@, "decimals"@, "name"@, "network"@];
                assert(k[0].len() == 6 && k[1].len() == 7 && k[2].len() == 8 && k[3].len() == 4
                    && k[4].len() == 7);
                assert(k[1][0] != k[4][0]);
                assert forall|a: int, b: int| 0 <= a < b < 5 implies k[a] != k[b] by {
                    if a == 1 && b == 4 {
                        assert(k[1][0] != k[4][0]);
                    }
                }
                assert forall|i: int| 0 <= i < 5 implies fields@[i].0@ == k[i] by {}
                assert(json_keys(j) =~= seq!["symbol"@, "address"@, "decimals"@, "name"@, "network"@]);
                assert(json_get_str(j, "symbol"@) == Some(str_upper(symbol@)));
                assert(json_get_str(j, "address"@) == Some(info.address@));
                assert(json_get(j, "decimals"@) == Some(fields@[2].1));
                assert(json_get_str(j, "name"@) == Some(info.name@));
                assert(json_get_str(j, "network"@) == Some(network@));
            }
            Ok(j)
        },
        None => {
            let mut v = chars_of("Token '");
            v.extend_from_slice(chars_of(symbol).as_slice());
            push_str(&mut v, "' not found on ");
            v.extend_from_slice(chars_of(network).as_slice());
            Err(string_from(v.as_slice()))
        },
    }
}

} // verus!
