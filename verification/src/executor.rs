//! The crypto executor's dispatch: the instructions it answers by itself
//! (the wallet address, token lookups, swap descriptions, and the operations not available
//! locally) and the ones it hands to the chain-facing operations.

use vstd::prelude::*;
use crate::instruction::{opt_text, CryptoInstruction, InstrView};
use crate::json::{json_get_str, json_keys, Json};
use crate::router::ExecutionResult;
use crate::text::{chars_of, owned, push_str, string_from};
use crate::text::str_upper;
use crate::swap::{is_swap_description, swap_error, swap_token};
use crate::tokens::{is_token_description, lookup_spec, lookup_token, msg_token_not_found, TokenTable};

verus! {

/// What `format!("{:?}", ..)` prints for an optional string.
pub uninterp spec fn debug_opt_text(o: Option<Seq<char>>) -> Seq<char>;

/// The `Debug` text of an optional string (`None`, or `Some("..")` with
/// the string escaped as `Debug` escapes it).
#[verifier::external_body]
fn debug_option_string(o: &Option<String>) -> (r: String)
    ensures
        r@ == debug_opt_text(opt_text(*o)),
{
    format!("{:?}", o)
}

/// The executor's local state: the wallet's address and the token table.
pub struct CryptoExecutor {
    pub wallet_address: String,
    pub tokens: TokenTable,
}

/// What running an instruction locally came to.
#[derive(Debug)]
pub enum LocalOutcome {
    /// Answered here.
    Done(Result<ExecutionResult, String>),
    /// Needs the chain-facing operations.
    Forward(CryptoInstruction),
}

/// The message of an operation that is not available locally.
pub open spec fn not_implemented_message(i: InstrView) -> Option<Seq<char>> {
    match i {
        InstrView::X402Fetch { preset, network } => Some(
            "X402Fetch preset '"@ + preset + "' on '"@ + network + "' not yet implemented in executor"@,
        ),
        InstrView::X402Rpc { preset, network } => Some(
            "X402Rpc preset '"@ + preset + "' on '"@ + network + "' not yet implemented in executor"@,
        ),
        InstrView::Web3PresetCall { preset, network } => Some(
            "Web3PresetCall '"@ + preset + "' on '"@ + debug_opt_text(network) + "' not yet implemented in executor"@,
        ),
        _ => None,
    }
}

/// Whether an execution result is `{"error": message}` with no success.
pub open spec fn is_error_result(r: ExecutionResult, message: Seq<char>) -> bool {
    !r.success && json_keys(r.data) == seq!["error"@] && json_get_str(r.data, "error"@) == Some(message)
}

fn message4(a: &str, b: &str, c: &str, d: &str, e: &str) -> (r: String)
    ensures
        r@ == a@ + b@ + c@ + d@ + e@,
{
    let mut v = chars_of(a);
    push_str(&mut v, b);
    push_str(&mut v, c);
    push_str(&mut v, d);
    push_str(&mut v, e);
    string_from(v.as_slice())
}

impl CryptoExecutor {
    /// Runs what can be run locally: `GetAddress` gives `{"address"}`,
    /// `TokenLookup` the token's description (or the lookup error), `SwapToken`
    /// the swap's description (or why it cannot be made), and the
    /// preset operations fail with a not-implemented message; anything else
    /// is forwarded unchanged.
    pub fn execute_local(&self, instruction: CryptoInstruction) -> (r: LocalOutcome)
        ensures
            match instruction@ {
                InstrView::GetAddress => r is Done && r->Done_0 is Ok && r->Done_0->Ok_0.success && json_keys(
                    r->Done_0->Ok_0.data,
                ) == seq!["address"@] && json_get_str(r->Done_0->Ok_0.data, "address"@) == Some(self.wallet_address@),
                InstrView::TokenLookup { symbol, network } => r is Done && match r->Done_0 {
                    Ok(x) => x.success && lookup_spec(self.tokens.networks@, symbol, network) is Some
                        && is_token_description(
                        x.data,
                        lookup_spec(self.tokens.networks@, symbol, network)->Some_0,
                        symbol,
                        network,
                    ),
                    Err(e) => lookup_spec(self.tokens.networks@, symbol, network) is None && e@ == msg_token_not_found(
                        symbol,
                        network,
                    ),
                },
                InstrView::SwapToken { sell_token, buy_token, amount, network } => r is Done && match r->Done_0 {
                    Ok(x) => x.success && swap_error(self.tokens, sell_token, buy_token, amount, network) is None
                        && is_swap_description(
                        x.data,
                        self.tokens,
                        sell_token,
                        buy_token,
                        amount,
                        network,
                        self.wallet_address@,
                    ),
                    Err(e) => swap_error(self.tokens, sell_token, buy_token, amount, network) == Some(e@),
                },
                InstrView::X402Fetch { .. } | InstrView::X402Rpc { .. } | InstrView::Web3PresetCall { .. } => r is Done
                    && r->Done_0 is Ok && is_error_result(
                    r->Done_0->Ok_0,
                    not_implemented_message(instruction@)->Some_0,
                ),
                _ => r is Forward && r->Forward_0@ == instruction@,
            },
    {
        match instruction {
            CryptoInstruction::GetAddress => {
                let mut fields: Vec<(String, Json)> = Vec::new();
                fields.push((owned("address"), Json::Str(self.wallet_address.clone())));
                let data = Json::Object(fields);
                proof {
                    reveal_with_fuel(crate::json::assoc_get, 2);
                    assert(json_keys(data) =~= seq!["address"@]);
                }
                LocalOutcome::Done(Ok(ExecutionResult { success: true, data }))
            },
            CryptoInstruction::TokenLookup { symbol, network } => {
                match lookup_token(&self.tokens, symbol.as_str(), network.as_str()) {
                    Ok(data) => LocalOutcome::Done(Ok(ExecutionResult { success: true, data })),
                    Err(e) => LocalOutcome::Done(Err(e)),
                }
            },
            CryptoInstruction::SwapToken { sell_token, buy_token, amount, network } => {
                match swap_token(
                    &self.tokens,
                    sell_token.as_str(),
                    buy_token.as_str(),
                    amount.as_str(),
                    network.as_str(),
                    self.wallet_address.as_str(),
                ) {
                    Ok(data) => LocalOutcome::Done(Ok(ExecutionResult { success: true, data })),
                    Err(e) => LocalOutcome::Done(Err(e)),
                }
            },
            CryptoInstruction::X402Fetch { preset, network } => {
                let m = message4("X402Fetch preset '", preset.as_str(), "' on '", network.as_str(), "' not yet implemented in executor");
                LocalOutcome::Done(Ok(crate::router::failed_execution(m)))
            },
            CryptoInstruction::X402Rpc { preset, network } => {
                let m = message4("X402Rpc preset '", preset.as_str(), "' on '", network.as_str(), "' not yet implemented in executor");
                LocalOutcome::Done(Ok(crate::router::failed_execution(m)))
            },
            CryptoInstruction::Web3PresetCall { preset, network } => {
                let d = debug_option_string(&network);
                let m = message4("Web3PresetCall '", preset.as_str(), "' on '", d.as_str(), "' not yet implemented in executor");
                LocalOutcome::Done(Ok(crate::router::failed_execution(m)))
            },
            other => LocalOutcome::Forward(other),
        }
    }
}

/// The network an instruction without one runs on.
pub fn network_or_base(network: &Option<String>) -> (r: String)
    ensures
        r@ == match network {
            Some(n) => n@,
            None => "base"@,
        },
{
    match network {
        Some(n) => n.clone(),
        None => owned("base"),
    }
}

} // verus!
