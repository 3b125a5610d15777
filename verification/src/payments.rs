//! Payment and transaction details that come before or after the network:
//! decoding hex payloads, reading a balance call's reply, and recording
//! what a paid request came to.

use vstd::prelude::*;
use crate::json::{json_compact, json_compact_text, json_get, json_get_str, Json};
use crate::text::{chars_of, push_str, string_from, trim_start_seq, trim_start_seq_exec};

verus! {

/// An ASCII hexadecimal digit.
pub open spec fn is_hex_digit(c: char) -> bool {
    ('0' <= c && c <= '9') || ('a' <= c && c <= 'f') || ('A' <= c && c <= 'F')
}

/// The value of a hexadecimal digit.
pub open spec fn hex_value(c: char) -> int {
    if '0' <= c && c <= '9' {
        c as int - '0' as int
    } else if 'a' <= c && c <= 'f' {
        c as int - 'a' as int + 10
    } else {
        c as int - 'A' as int + 10
    }
}

/// The bytes a hexadecimal text stands for, when it is one: an even number
/// of hex digits, each pair one byte, high digit first.
pub open spec fn hex_bytes(s: Seq<char>, b: Seq<u8>) -> bool {
    &&& s.len() % 2 == 0
    &&& forall|i: int| 0 <= i < s.len() ==> is_hex_digit(#[trigger] s[i])
    &&& b.len() * 2 == s.len()
    &&& forall|i: int| 0 <= i < b.len() ==> #[trigger] b[i] == hex_value(s[2 * i]) * 16 + hex_value(s[2 * i + 1])
}

/// Whether a text is an even number of hex digits.
pub open spec fn is_hex_text(s: Seq<char>) -> bool {
    s.len() % 2 == 0 && forall|i: int| 0 <= i < s.len() ==> is_hex_digit(#[trigger] s[i])
}

/// What `hex::decode` reports (its `Display` text) for a text that is not
/// hexadecimal.
pub uninterp spec fn hex_error_text(s: Seq<char>) -> Seq<char>;

/// `hex::decode`: succeeds exactly on an even number of ASCII hex digits
/// (either case), giving one byte per pair; otherwise its error's text.
#[verifier::external_body]
fn hex_decode(s: &str) -> (r: Result<Vec<u8>, String>)
    ensures
        match r {
            Ok(b) => is_hex_text(s@) && hex_bytes(s@, b@),
            Err(e) => !is_hex_text(s@) && e@ == hex_error_text(s@),
        },
{
    match hex::decode(s) {
        Ok(b) => Ok(b),
        Err(e) => Err(e.to_string()),
    }
}

/// The bytes of a hex payload (with any leading `0x` pieces removed); the
/// error is the decoder's, after the given prefix.
pub fn signed_tx_bytes(signed_hex: &str, error_prefix: &str) -> (r: Result<Vec<u8>, String>)
    ensures
        ({
            let h = trim_start_seq(signed_hex@, "0x"@);
            match r {
                Ok(b) => is_hex_text(h) && hex_bytes(h, b@),
                Err(e) => !is_hex_text(h) && e@ == error_prefix@ + hex_error_text(h),
            }
        }),
{
    let h = string_from(trim_start_seq_exec(chars_of(signed_hex).as_slice(), chars_of("0x").as_slice()).as_slice());
    match hex_decode(h.as_str()) {
        Ok(b) => Ok(b),
        Err(e) => {
            let mut v = chars_of(error_prefix);
            push_str(&mut v, e.as_str());
            Err(string_from(v.as_slice()))
        },
    }
}

/// The hex payload of a JSON-RPC reply: its `result` string, else an
/// error naming the reply's `error` (compact JSON, empty when missing).
pub open spec fn rpc_result(body: Json) -> Result<Seq<char>, Seq<char>> {
    match json_get_str(body, "result"@) {
        Some(r) => Ok(r),
        None => Err(
            "RPC error: "@ + match json_get(body, "error"@) {
                Some(e) => json_compact_text(e),
                None => Seq::empty(),
            },
        ),
    }
}

/// Reads the balance bytes of an `eth_call` reply.
pub fn balance_bytes(body: &Json) -> (r: Result<Vec<u8>, String>)
    ensures
        match rpc_result(*body) {
            Ok(res) => {
                let h = trim_start_seq(res, "0x"@);
                match r {
                    Ok(b) => is_hex_text(h) && hex_bytes(h, b@),
                    Err(e) => !is_hex_text(h) && e@ == "Failed to decode balance hex: "@ + hex_error_text(h),
                }
            },
            Err(m) => r is Err && r->Err_0@ == m,
        },
{
    match body.get_str("result") {
        Some(res) => signed_tx_bytes(res.as_str(), "Failed to decode balance hex: "),
        None => {
            let mut v = chars_of("RPC error: ");
            match body.get("error") {
                Some(e) => {
                    let t = json_compact(e);
                    push_str(&mut v, t.as_str());
                },
                None => {
                    assert(v@ =~= "RPC error: "@ + Seq::<char>::empty());
                },
            }
            Err(string_from(v.as_slice()))
        },
    }
}

/// The x402 protocol version assumed when a 402 reply names none.
pub fn default_x402_version() -> (r: u8)
    ensures
        r == 1,
{
    1
}

/// What a paid request's payment record becomes.
#[derive(Debug)]
pub enum PaymentRecord {
    /// The settlement transaction's hash was reported.
    WithTxHash(String),
    /// No hash, but the paid request succeeded.
    Confirmed,
    /// No hash and no success: left as it was.
    Unchanged,
}

/// The settlement hash reported by a paid response: the first of
/// `x-transaction-hash` and `x-payment-transaction` that is present, when
/// its value is text.
pub fn paid_tx_hash(transaction_hash: Option<Option<String>>, payment_transaction: Option<Option<String>>) -> (r: Option<
    String,
>)
    ensures
        r == match transaction_hash {
            Some(v) => v,
            None => match payment_transaction {
                Some(v) => v,
                None => None,
            },
        },
{
    match transaction_hash {
        Some(v) => v,
        None => match payment_transaction {
            Some(v) => v,
            None => None,
        },
    }
}

/// How a payment is recorded after the paid request.
pub fn payment_record(tx_hash: Option<String>, success: bool) -> (r: PaymentRecord)
    ensures
        match tx_hash {
            Some(h) => r == PaymentRecord::WithTxHash(h),
            None => if success {
                r is Confirmed
            } else {
                r is Unchanged
            },
        },
{
    match tx_hash {
        Some(h) => PaymentRecord::WithTxHash(h),
        None => if success {
            PaymentRecord::Confirmed
        } else {
            PaymentRecord::Unchanged
        },
    }
}

} // verus!
