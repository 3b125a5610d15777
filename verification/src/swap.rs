//! Token swaps: the local part of a swap resolves both tokens and the raw
//! amount and describes the swap; the quote and the transactions are left
//! to the orchestrating service.

use vstd::prelude::*;
use crate::amounts::{result_view, to_raw_amount, to_raw_spec};
use crate::json::{json_str_at, json_u64_at, Json};
use crate::text::{chars_of, owned, push_str, str_upper, string_from, to_uppercase};
use crate::tokens::{lookup, lookup_spec, TokenInfo, TokenTable};

verus! {

/// The message for a token that is not in the table.
pub open spec fn msg_unknown_token(side: Seq<char>, symbol: Seq<char>, network: Seq<char>) -> Seq<char> {
    "Unknown "@ + side + " token '"@ + symbol + "' on "@ + network
}

/// Why a swap cannot be described, if it cannot: the sell token, then the
/// buy token, must be known, and the amount must convert with the sell
/// token's decimals.
pub open spec fn swap_error(
    tokens: TokenTable,
    sell_token: Seq<char>,
    buy_token: Seq<char>,
    amount: Seq<char>,
    network: Seq<char>,
) -> Option<Seq<char>> {
    match lookup_spec(tokens.networks@, sell_token, network) {
        None => Some(msg_unknown_token("sell"@, sell_token, network)),
        Some(sell) => match lookup_spec(tokens.networks@, buy_token, network) {
            None => Some(msg_unknown_token("buy"@, buy_token, network)),
            Some(_) => match to_raw_spec(amount, sell.decimals as nat) {
                Err(e) => Some(e),
                Ok(_) => None,
            },
        },
    }
}

/// The description of a swap: twelve members, in this order.
pub open spec fn is_swap_description(
    j: Json,
    tokens: TokenTable,
    sell_token: Seq<char>,
    buy_token: Seq<char>,
    amount: Seq<char>,
    network: Seq<char>,
    wallet: Seq<char>,
) -> bool {
    let sell = lookup_spec(tokens.networks@, sell_token, network)->Some_0;
    let buy = lookup_spec(tokens.networks@, buy_token, network)->Some_0;
    let raw = to_raw_spec(amount, sell.decimals as nat)->Ok_0;
    &&& j is Object
    &&& j->Object_0@.len() == 12
    &&& json_str_at(j, 0, "status"@, "swap_requires_starflask"@)
    &&& json_str_at(
        j,
        1,
        "message"@,
        "Token swaps should be orchestrated via Starflask. The local executor has resolved the tokens and amounts."@,
    )
    &&& json_str_at(j, 2, "sell_token"@, sell.address@)
    &&& json_str_at(j, 3, "sell_token_symbol"@, str_upper(sell_token))
    &&& json_u64_at(j, 4, "sell_decimals"@, sell.decimals as u64)
    &&& json_str_at(j, 5, "buy_token"@, buy.address@)
    &&& json_str_at(j, 6, "buy_token_symbol"@, str_upper(buy_token))
    &&& json_u64_at(j, 7, "buy_decimals"@, buy.decimals as u64)
    &&& json_str_at(j, 8, "amount"@, amount)
    &&& json_str_at(j, 9, "raw_amount"@, raw)
    &&& json_str_at(j, 10, "network"@, network)
    &&& json_str_at(j, 11, "wallet"@, wallet)
}

fn unknown_token(side: &str, symbol: &str, network: &str) -> (r: String)
    ensures
        r@ == msg_unknown_token(side@, symbol@, network@),
{
    let mut v = chars_of("Unknown ");
    push_str(&mut v, side);
    push_str(&mut v, " token '");
    push_str(&mut v, symbol);
    push_str(&mut v, "' on ");
    push_str(&mut v, network);
    string_from(v.as_slice())
}

/// Resolves a swap of `amount` of `sell_token` for `buy_token` on `network`
/// for the wallet: both tokens are looked up and the amount converted to
/// the sell token's raw units; the result describes the swap, whose quote
/// and transactions the orchestrating service handles.
pub fn swap_token(
    tokens: &TokenTable,
    sell_token: &str,
    buy_token: &str,
    amount: &str,
    network: &str,
    wallet_address: &str,
) -> (r: Result<Json, String>)
    ensures
        match r {
            Ok(j) => swap_error(*tokens, sell_token@, buy_token@, amount@, network@) is None && is_swap_description(
                j,
                *tokens,
                sell_token@,
                buy_token@,
                amount@,
                network@,
                wallet_address@,
            ),
            Err(e) => swap_error(*tokens, sell_token@, buy_token@, amount@, network@) == Some(e@),
        },
{
    let sell: TokenInfo = match lookup(tokens, sell_token, network) {
        Some(t) => t,
        None => return Err(unknown_token("sell", sell_token, network)),
    };
    let buy: TokenInfo = match lookup(tokens, buy_token, network) {
        Some(t) => t,
        None => return Err(unknown_token("buy", buy_token, network)),
    };
    let raw = match to_raw_amount(amount, sell.decimals) {
        Ok(r) => r,
        Err(e) => {
            assert(result_view(Err(e)) == Err::<Seq<char>, Seq<char>>(e@));
            return Err(e);
        },
    };
    let mut fields: Vec<(String, Json)> = Vec::new();
    fields.push((owned("status"), Json::string("swap_requires_starflask")));
    fields.push(
        (
            owned("message"),
            Json::string(
                "Token swaps should be orchestrated via Starflask. The local executor has resolved the tokens and amounts.",
            ),
        ),
    );
    fields.push((owned("sell_token"), Json::Str(sell.address.clone())));
    fields.push((owned("sell_token_symbol"), Json::Str(to_uppercase(sell_token))));
    fields.push((owned("sell_decimals"), Json::number(sell.decimals as u64)));
    fields.push((owned("buy_token"), Json::Str(buy.address.clone())));
    fields.push((owned("buy_token_symbol"), Json::Str(to_uppercase(buy_token))));
    fields.push((owned("buy_decimals"), Json::number(buy.decimals as u64)));
    fields.push((owned("amount"), Json::string(amount)));
    fields.push((owned("raw_amount"), Json::Str(raw)));
    fields.push((owned("network"), Json::string(network)));
    fields.push((owned("wallet"), Json::string(wallet_address)));
    Ok(Json::Object(fields))
}

} // verus!
