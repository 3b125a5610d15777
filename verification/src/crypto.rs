//! Rules of the crypto operations that do not touch the chain: chain ids
//! and networks, input checks, transaction status checks, request bodies
//! and the choice of a payment option.

use vstd::prelude::*;
use crate::json::{json_member_is, json_parse, json_str_at, json_u64_at, parse_json, Json};
use crate::text::{
    all_digits, all_digits_exec, chars_of, contains_seq, decimal, decimal_exec, owned, push_str, same_text,
    starts_with, starts_with_exec, str_contains, str_lower, str_upper, string_from, to_lowercase, to_uppercase,
    trim_end_char, trim_end_char_exec,
};

verus! {

// ───────────────────────── chains ─────────────────────────

/// The chain id a transfer is signed for on a network (Base for any
/// network not listed).
pub open spec fn transfer_chain_id(network: Seq<char>) -> u64 {
    if network == "mainnet"@ {
        1
    } else if network == "polygon"@ {
        137
    } else if network == "arbitrum"@ {
        42161
    } else if network == "optimism"@ {
        10
    } else {
        8453
    }
}

/// The chain id of a network, for native transfers.
pub fn get_chain_id(network: &str) -> (r: u64)
    ensures
        r == transfer_chain_id(network@),
{
    if same_text(network, "mainnet") {
        1
    } else if same_text(network, "polygon") {
        137
    } else if same_text(network, "arbitrum") {
        42161
    } else if same_text(network, "optimism") {
        10
    } else {
        8453
    }
}

/// The network a raw transaction for a chain id is signed on (Base for any
/// chain not listed).
pub open spec fn signing_network(chain_id: u64) -> Seq<char> {
    if chain_id == 1 {
        "mainnet"@
    } else if chain_id == 137 {
        "polygon"@
    } else if chain_id == 42161 {
        "arbitrum"@
    } else if chain_id == 10 {
        "optimism"@
    } else {
        "base"@
    }
}

/// The network of a chain id, for raw transaction signing.
pub fn network_for_chain_id(chain_id: u64) -> (r: String)
    ensures
        r@ == signing_network(chain_id),
{
    if chain_id == 1 {
        owned("mainnet")
    } else if chain_id == 137 {
        owned("polygon")
    } else if chain_id == 42161 {
        owned("arbitrum")
    } else if chain_id == 10 {
        owned("optimism")
    } else {
        owned("base")
    }
}

/// The networks with a chain id of their own.
pub open spec fn known_network(n: Seq<char>) -> bool {
    n == "mainnet"@ || n == "polygon"@ || n == "arbitrum"@ || n == "optimism"@ || n == "base"@
}

/// The chain ids with a network of their own.
pub open spec fn known_chain_id(c: u64) -> bool {
    c == 1 || c == 137 || c == 42161 || c == 10 || c == 8453
}

proof fn lemma_network_names_distinct()
    ensures
        "mainnet"@ != "polygon"@,
        "mainnet"@ != "arbitrum"@,
        "mainnet"@ != "optimism"@,
        "mainnet"@ != "base"@,
        "polygon"@ != "arbitrum"@,
        "polygon"@ != "optimism"@,
        "polygon"@ != "base"@,
        "arbitrum"@ != "optimism"@,
        "arbitrum"@ != "base"@,
        "optimism"@ != "base"@,
{
    reveal_strlit("mainnet");
    reveal_strlit("polygon");
    reveal_strlit("arbitrum");
    reveal_strlit("optimism");
    reveal_strlit("base");
    assert("mainnet"@[0] != "polygon"@[0]);
    assert("mainnet"@.len() != "arbitrum"@.len());
    assert("mainnet"@.len() != "optimism"@.len());
    assert("mainnet"@.len() != "base"@.len());
    assert("polygon"@.len() != "arbitrum"@.len());
    assert("polygon"@.len() != "optimism"@.len());
    assert("polygon"@.len() != "base"@.len());
    assert("arbitrum"@[0] != "optimism"@[0]);
    assert("arbitrum"@.len() != "base"@.len());
    assert("optimism"@.len() != "base"@.len());
}

/// Chain ids and networks are inverse on the listed ones: the network a
/// transaction is signed on for a network's chain id is that network, and
/// the chain id of a chain's signing network is that chain.
pub proof fn law_chain_ids_round_trip(n: Seq<char>, c: u64)
    ensures
        known_network(n) ==> signing_network(transfer_chain_id(n)) == n,
        known_chain_id(c) ==> transfer_chain_id(signing_network(c)) == c,
{
    lemma_network_names_distinct();
}

// ───────────────────────── bridge chains ─────────────────────────

/// The chains the bridge supports: name, chain id and USDC contract.
pub open spec fn bridge_chains() -> Seq<(Seq<char>, u64, Seq<char>)> {
    seq![
        ("ethereum"@, 1u64, "0xA0b86991c6218b36c1d19D4a2e9Eb0cE3606eB48"@),
        ("mainnet"@, 1u64, "0xA0b86991c6218b36c1d19D4a2e9Eb0cE3606eB48"@),
        ("base"@, 8453u64, "0x833589fCD6eDb6E08f4c7C32D4f71b54bdA02913"@),
        ("polygon"@, 137u64, "0x3c499c542cEF5E3811e1192ce70d8cC03d5c3359"@),
        ("arbitrum"@, 42161u64, "0xaf88d065e77c8cC2239327C5EDb3A432268e5831"@),
        ("optimism"@, 10u64, "0x0b2C639c533813f4Aa9D7837CAf62653d097Ff85"@),
    ]
}

/// The first bridge chain whose name is `name`.
pub open spec fn bridge_chain(name: Seq<char>) -> Option<(Seq<char>, u64, Seq<char>)> {
    bridge_chain_from(bridge_chains(), name)
}

/// The first entry of `t` named `name`.
pub open spec fn bridge_chain_from(t: Seq<(Seq<char>, u64, Seq<char>)>, name: Seq<char>) -> Option<
    (Seq<char>, u64, Seq<char>),
>
    decreases t.len(),
{
    if t.len() == 0 {
        None
    } else if t[0].0 == name {
        Some(t[0])
    } else {
        bridge_chain_from(t.drop_first(), name)
    }
}

/// The message for a chain the bridge does not support.
pub open spec fn msg_unsupported_chain(chain: Seq<char>) -> Seq<char> {
    "Unsupported chain: "@ + chain
}

/// The message for a chain without a USDC contract.
pub open spec fn msg_no_usdc(chain: Seq<char>) -> Seq<char> {
    "No USDC address for chain: "@ + chain
}

fn bridge_entry(lower: &str) -> (r: Option<(u64, String)>)
    ensures
        match r {
            Some((id, addr)) => bridge_chain(lower@) is Some && bridge_chain(lower@)->Some_0.1 == id
                && bridge_chain(lower@)->Some_0.2 == addr@,
            None => bridge_chain(lower@) is None,
        },
{
    proof {
        reveal_with_fuel(bridge_chain_from, 7);
    }
    if same_text(lower, "ethereum") {
        Some((1, owned("0xA0b86991c6218b36c1d19D4a2e9Eb0cE3606eB48")))
    } else if same_text(lower, "mainnet") {
        Some((1, owned("0xA0b86991c6218b36c1d19D4a2e9Eb0cE3606eB48")))
    } else if same_text(lower, "base") {
        Some((8453, owned("0x833589fCD6eDb6E08f4c7C32D4f71b54bdA02913")))
    } else if same_text(lower, "polygon") {
        Some((137, owned("0x3c499c542cEF5E3811e1192ce70d8cC03d5c3359")))
    } else if same_text(lower, "arbitrum") {
        Some((42161, owned("0xaf88d065e77c8cC2239327C5EDb3A432268e5831")))
    } else if same_text(lower, "optimism") {
        Some((10, owned("0x0b2C639c533813f4Aa9D7837CAf62653d097Ff85")))
    } else {
        None
    }
}

/// The chain id of a bridge chain, matched by its lower-case name.
pub fn bridge_chain_id(chain: &str) -> (r: Result<u64, String>)
    ensures
        match r {
            Ok(id) => bridge_chain(str_lower(chain@)) is Some && bridge_chain(str_lower(chain@))->Some_0.1 == id,
            Err(e) => bridge_chain(str_lower(chain@)) is None && e@ == msg_unsupported_chain(chain@),
        },
{
    let lower = to_lowercase(chain);
    match bridge_entry(lower.as_str()) {
        Some((id, _)) => Ok(id),
        None => {
            let mut v = chars_of("Unsupported chain: ");
            push_str(&mut v, chain);
            Err(string_from(v.as_slice()))
        },
    }
}

/// The USDC contract of a bridge chain, matched by its lower-case name.
pub fn get_usdc_address(chain: &str) -> (r: Result<String, String>)
    ensures
        match r {
            Ok(a) => bridge_chain(str_lower(chain@)) is Some && bridge_chain(str_lower(chain@))->Some_0.2 == a@,
            Err(e) => bridge_chain(str_lower(chain@)) is None && e@ == msg_no_usdc(chain@),
        },
{
    let lower = to_lowercase(chain);
    match bridge_entry(lower.as_str()) {
        Some((_, addr)) => Ok(addr),
        None => {
            let mut v = chars_of("No USDC address for chain: ");
            push_str(&mut v, chain);
            Err(string_from(v.as_slice()))
        },
    }
}

/// The network a bridge chain's transactions are queued on: `ethereum` and
/// `mainnet` map to `mainnet`, the other listed chains to themselves (by
/// lower-case name), and any other chain name is kept as given.
pub open spec fn bridge_network(chain: Seq<char>) -> Seq<char> {
    let l = str_lower(chain);
    if l == "ethereum"@ || l == "mainnet"@ {
        "mainnet"@
    } else if l == "base"@ || l == "polygon"@ || l == "arbitrum"@ || l == "optimism"@ {
        l
    } else {
        chain
    }
}

/// The network of a bridge chain.
pub fn chain_to_network(chain: &str) -> (r: String)
    ensures
        r@ == bridge_network(chain@),
{
    let l = to_lowercase(chain);
    let ls = l.as_str();
    if same_text(ls, "ethereum") || same_text(ls, "mainnet") {
        owned("mainnet")
    } else if same_text(ls, "base") || same_text(ls, "polygon") || same_text(ls, "arbitrum") || same_text(
        ls,
        "optimism",
    ) {
        owned(ls)
    } else {
        owned(chain)
    }
}

/// The chain ids of a bridge transfer, checked: both chains supported and
/// different.
pub fn bridge_route(from_chain: &str, to_chain: &str) -> (r: Result<(u64, u64), String>)
    ensures
        match r {
            Ok((f, t)) => {
                &&& bridge_chain(str_lower(from_chain@)) is Some
                &&& bridge_chain(str_lower(to_chain@)) is Some
                &&& f == bridge_chain(str_lower(from_chain@))->Some_0.1
                &&& t == bridge_chain(str_lower(to_chain@))->Some_0.1
                &&& f != t
            },
            Err(e) => if bridge_chain(str_lower(from_chain@)) is None {
                e@ == msg_unsupported_chain(from_chain@)
            } else if bridge_chain(str_lower(to_chain@)) is None {
                e@ == msg_unsupported_chain(to_chain@)
            } else {
                bridge_chain(str_lower(from_chain@))->Some_0.1 == bridge_chain(str_lower(to_chain@))->Some_0.1
                    && e@ == "Source and destination chains must be different"@
            },
        },
{
    let f = match bridge_chain_id(from_chain) {
        Ok(f) => f,
        Err(e) => return Err(e),
    };
    let t = match bridge_chain_id(to_chain) {
        Ok(t) => t,
        Err(e) => return Err(e),
    };
    if f == t {
        return Err(owned("Source and destination chains must be different"));
    }
    Ok((f, t))
}

/// The Across quote request for bridging `amount_raw` USDC units from one
/// chain to another.
pub open spec fn across_quote_url_spec(
    amount_raw: u64,
    usdc_from: Seq<char>,
    from_chain_id: u64,
    usdc_to: Seq<char>,
    to_chain_id: u64,
    depositor: Seq<char>,
    recipient: Seq<char>,
) -> Seq<char> {
    "https://app.across.to/api/swap/approval?tradeType=exactInput&amount="@ + decimal(amount_raw as nat)
        + "&inputToken="@ + usdc_from + "&originChainId="@ + decimal(from_chain_id as nat) + "&outputToken="@
        + usdc_to + "&destinationChainId="@ + decimal(to_chain_id as nat) + "&depositor="@ + depositor
        + "&recipient="@ + recipient + "&slippage=0.005"@
}

/// Builds the Across quote request of a bridge transfer (exact input, half
/// a percent of slippage).
pub fn across_quote_url(
    amount_raw: u64,
    usdc_from: &str,
    from_chain_id: u64,
    usdc_to: &str,
    to_chain_id: u64,
    depositor: &str,
    recipient: &str,
) -> (r: String)
    ensures
        r@ == across_quote_url_spec(amount_raw, usdc_from@, from_chain_id, usdc_to@, to_chain_id, depositor@, recipient@),
{
    let mut v = chars_of("https://app.across.to/api/swap/approval?tradeType=exactInput&amount=");
    v.extend_from_slice(decimal_exec(amount_raw).as_slice());
    push_str(&mut v, "&inputToken=");
    push_str(&mut v, usdc_from);
    push_str(&mut v, "&originChainId=");
    v.extend_from_slice(decimal_exec(from_chain_id).as_slice());
    push_str(&mut v, "&outputToken=");
    push_str(&mut v, usdc_to);
    push_str(&mut v, "&destinationChainId=");
    v.extend_from_slice(decimal_exec(to_chain_id).as_slice());
    push_str(&mut v, "&depositor=");
    push_str(&mut v, depositor);
    push_str(&mut v, "&recipient=");
    push_str(&mut v, recipient);
    push_str(&mut v, "&slippage=0.005");
    string_from(v.as_slice())
}

// ───────────────────────── native transfers ─────────────────────────

/// The UTF-8 length of a character.
pub open spec fn utf8_width(c: char) -> nat {
    if (c as u32) < 0x80 {
        1
    } else if (c as u32) < 0x800 {
        2
    } else if (c as u32) < 0x10000 {
        3
    } else {
        4
    }
}

/// The UTF-8 length of a text (`str::len`).
pub open spec fn utf8_len(s: Seq<char>) -> nat
    decreases s.len(),
{
    if s.len() == 0 {
        0
    } else {
        utf8_len(s.drop_last()) + utf8_width(s.last())
    }
}

/// The UTF-8 length of a string.
pub fn str_byte_len(s: &str) -> (r: usize)
    ensures
        r == utf8_len(s@) || (utf8_len(s@) > usize::MAX && r == usize::MAX),
{
    let c = chars_of(s);
    let mut n: usize = 0;
    let mut i: usize = 0;
    while i < c.len()
        invariant
            c@ == s@,
            i <= c@.len(),
            n == utf8_len(c@.take(i as int)),
        decreases c@.len() - i,
    {
        let ghost t = c@.take(i + 1);
        assert(t.drop_last() =~= c@.take(i as int));
        assert(t.last() == c@[i as int]);
        let ch = c[i];
        let w: usize = if (ch as u32) < 0x80 {
            1
        } else if (ch as u32) < 0x800 {
            2
        } else if (ch as u32) < 0x10000 {
            3
        } else {
            4
        };
        if n > usize::MAX - w {
            proof {
                lemma_utf8_len_prefix(c@, i + 1);
            }
            return usize::MAX;
        }
        n = n + w;
        i = i + 1;
    }
    assert(c@.take(i as int) =~= c@);
    n
}

proof fn lemma_utf8_len_prefix(s: Seq<char>, k: int)
    requires
        0 <= k <= s.len(),
    ensures
        utf8_len(s.take(k)) <= utf8_len(s),
    decreases s.len(),
{
    if k == s.len() {
        assert(s.take(k) =~= s);
    } else {
        assert(s.take(k) =~= s.drop_last().take(k));
        lemma_utf8_len_prefix(s.drop_last(), k);
    }
}

/// The zero address, which nothing may be sent to.
pub open spec fn zero_address() -> Seq<char> {
    "0x0000000000000000000000000000000000000000"@
}

/// The message for a malformed recipient.
pub open spec fn msg_invalid_recipient(to: Seq<char>) -> Seq<char> {
    "Invalid recipient address: "@ + to
}

/// The message for a non-numeric raw amount.
pub open spec fn msg_invalid_amount_raw(a: Seq<char>) -> Seq<char> {
    "Invalid amount_raw (must be numeric): "@ + a
}

/// The checks on a native transfer, in order: the recipient starts with
/// `0x` and is 42 bytes long; it is not the zero address (in any case);
/// the raw amount is all ASCII digits.
pub open spec fn send_eth_check(to: Seq<char>, amount_raw: Seq<char>) -> Result<(), Seq<char>> {
    if !(starts_with(to, "0x"@) && utf8_len(to) == 42) {
        Err(msg_invalid_recipient(to))
    } else if str_lower(to) == zero_address() {
        Err("Cannot send to zero address"@)
    } else if !all_digits(amount_raw) {
        Err(msg_invalid_amount_raw(amount_raw))
    } else {
        Ok(())
    }
}

/// Checks the inputs of a native transfer before anything is signed.
pub fn validate_send_eth(to: &str, amount_raw: &str) -> (r: Result<(), String>)
    ensures
        match r {
            Ok(()) => send_eth_check(to@, amount_raw@) is Ok,
            Err(e) => send_eth_check(to@, amount_raw@) == Err::<(), Seq<char>>(e@),
        },
{
    let tc = chars_of(to);
    let prefix = chars_of("0x");
    if !(starts_with_exec(tc.as_slice(), prefix.as_slice()) && str_byte_len(to) == 42) {
        let mut v = chars_of("Invalid recipient address: ");
        push_str(&mut v, to);
        return Err(string_from(v.as_slice()));
    }
    let lower = to_lowercase(to);
    if same_text(lower.as_str(), "0x0000000000000000000000000000000000000000") {
        return Err(owned("Cannot send to zero address"));
    }
    if !all_digits_exec(chars_of(amount_raw).as_slice()) {
        let mut v = chars_of("Invalid amount_raw (must be numeric): ");
        push_str(&mut v, amount_raw);
        return Err(string_from(v.as_slice()));
    }
    Ok(())
}

// ───────────────────────── queued transactions ─────────────────────────

/// The state of a queued transaction.
#[derive(Clone, Copy, Debug, PartialEq, Eq, Structural)]
pub enum QueuedTxStatus {
    Pending,
    Broadcasting,
    Broadcast,
    Confirmed,
    Failed,
    Expired,
}

/// Why a queued transaction cannot be broadcast; only a pending one can.
pub open spec fn broadcast_refusal(
    status: QueuedTxStatus,
    uuid: Seq<char>,
    tx_hash: Option<Seq<char>>,
    error: Option<Seq<char>>,
) -> Option<Seq<char>> {
    match status {
        QueuedTxStatus::Pending => None,
        QueuedTxStatus::Broadcasting => Some("Transaction "@ + uuid + " is already being broadcast"@),
        QueuedTxStatus::Broadcast | QueuedTxStatus::Confirmed => Some(
            "Transaction "@ + uuid + " already broadcast. Hash: "@ + match tx_hash {
                Some(h) => h,
                None => "unknown"@,
            },
        ),
        QueuedTxStatus::Failed => Some(
            "Transaction "@ + uuid + " previously failed: "@ + match error {
                Some(e) => e,
                None => "unknown"@,
            },
        ),
        QueuedTxStatus::Expired => Some("Transaction "@ + uuid + " has expired"@),
    }
}

/// Checks that a queued transaction may be broadcast.
pub fn check_broadcastable(status: QueuedTxStatus, uuid: &str, tx_hash: Option<&str>, error: Option<&str>) -> (r: Result<
    (),
    String,
>)
    ensures
        match r {
            Ok(()) => status == QueuedTxStatus::Pending,
            Err(e) => broadcast_refusal(
                status,
                uuid@,
                match tx_hash {
                    Some(h) => Some(h@),
                    None => None,
                },
                match error {
                    Some(x) => Some(x@),
                    None => None,
                },
            ) == Some(e@),
        },
{
    let mut v = chars_of("Transaction ");
    push_str(&mut v, uuid);
    match status {
        QueuedTxStatus::Pending => return Ok(()),
        QueuedTxStatus::Broadcasting => {
            push_str(&mut v, " is already being broadcast");
        },
        QueuedTxStatus::Broadcast | QueuedTxStatus::Confirmed => {
            push_str(&mut v, " already broadcast. Hash: ");
            match tx_hash {
                Some(h) => push_str(&mut v, h),
                None => push_str(&mut v, "unknown"),
            }
        },
        QueuedTxStatus::Failed => {
            push_str(&mut v, " previously failed: ");
            match error {
                Some(x) => push_str(&mut v, x),
                None => push_str(&mut v, "unknown"),
            }
        },
        QueuedTxStatus::Expired => {
            push_str(&mut v, " has expired");
        },
    }
    Err(string_from(v.as_slice()))
}

// ───────────────────────── x402 posts ─────────────────────────

/// The body before the null check: a string holding JSON is replaced by
/// that JSON.
pub open spec fn parsed_body(body: Json) -> Json {
    match body {
        Json::Str(s) => match json_parse(s@) {
            Some(p) => p,
            None => body,
        },
        _ => body,
    }
}

/// Whether a JSON value is an object with no members.
pub open spec fn is_empty_object(j: Json) -> bool {
    j is Object && j->Object_0@.len() == 0
}

/// Normalizes the body of an x402 post: a string holding JSON becomes that
/// JSON, and `null` becomes an empty object.
pub fn normalize_post_body(body: Json) -> (r: Json)
    ensures
        parsed_body(body) is Null ==> is_empty_object(r),
        !(parsed_body(body) is Null) ==> r == parsed_body(body),
{
    let b = match body {
        Json::Str(s) => match parse_json(s.as_str()) {
            Some(p) => p,
            None => Json::Str(s),
        },
        other => other,
    };
    if b.is_null() {
        Json::Object(Vec::new())
    } else {
        b
    }
}

/// Whether a URL belongs to x402book, whose posts are also signed with
/// ERC-8128.
pub open spec fn is_x402book_url(url: Seq<char>) -> bool {
    contains_seq(url, "x402book.com"@) || contains_seq(url, "x402book.io"@)
}

/// Whether posts to the URL are signed with ERC-8128.
pub fn is_x402book(url: &str) -> (r: bool)
    ensures
        r == is_x402book_url(url@),
{
    str_contains(url, "x402book.com") || str_contains(url, "x402book.io")
}

/// Picks the payment option, given the network of each offered option:
/// the first on the requested network, else the first offered; the error
/// "No compatible payment option" when nothing is offered.
pub fn choose_payment_option(networks: &Vec<String>, network: &str) -> (r: Result<usize, String>)
    ensures
        match r {
            Ok(i) => i < networks@.len() && ((networks@[i as int]@ == network@ && (forall|j: int|
                0 <= j < i ==> networks@[j]@ != network@)) || ((forall|j: int|
                0 <= j < networks@.len() ==> networks@[j]@ != network@) && i == 0)),
            Err(e) => networks@.len() == 0 && e@ == "No compatible payment option"@,
        },
{
    let mut i: usize = 0;
    while i < networks.len()
        invariant
            i <= networks@.len(),
            forall|j: int| 0 <= j < i ==> networks@[j]@ != network@,
        decreases networks@.len() - i,
    {
        if same_text(networks[i].as_str(), network) {
            return Ok(i);
        }
        i = i + 1;
    }
    if networks.len() > 0 {
        Ok(0)
    } else {
        Err(owned("No compatible payment option"))
    }
}

/// What the standard base64 engine (with padding) gives for the UTF-8
/// bytes of a text.
pub uninterp spec fn base64_text(s: Seq<char>) -> Seq<char>;

/// `base64::engine::general_purpose::STANDARD.encode` of a text's UTF-8
/// bytes (the encoder panics only when the output length overflows, which
/// the bound on the input rules out).
#[verifier::external_body]
fn base64_encode(s: &str) -> (r: String)
    requires
        utf8_len(s@) <= usize::MAX / 2,
    ensures
        r@ == base64_text(s@),
{
    base64::Engine::encode(&base64::engine::general_purpose::STANDARD, s)
}

/// The ERC-8128 signature headers of a request.
#[derive(Debug)]
pub struct Erc8128Headers {
    pub signature_input: String,
    pub signature: String,
    pub content_digest: Option<String>,
}

/// A header name and value, as texts.
pub open spec fn header_view(h: (String, String)) -> (Seq<char>, Seq<char>) {
    (h.0@, h.1@)
}

/// The headers of an x402 post, in the order they are set: the JSON
/// content type, the payment (base64 of its JSON) when paying, the
/// ERC-8128 signature headers when signed, then the caller's headers.
pub open spec fn x402_headers_spec(
    payment_json: Option<Seq<char>>,
    signed: Option<(Seq<char>, Seq<char>, Option<Seq<char>>)>,
    headers: Seq<(Seq<char>, Seq<char>)>,
) -> Seq<(Seq<char>, Seq<char>)> {
    let payment = match payment_json {
        Some(p) => seq![("X-PAYMENT"@, base64_text(p))],
        None => Seq::empty(),
    };
    let signature = match signed {
        Some((input, sig, digest)) => seq![("signature-input"@, input), ("signature"@, sig)] + match digest {
            Some(d) => seq![("content-digest"@, d)],
            None => Seq::empty(),
        },
        None => Seq::empty(),
    };
    seq![("content-type"@, "application/json"@)] + payment + signature + headers
}

/// The signature headers as texts.
pub open spec fn signed_view(s: Option<&Erc8128Headers>) -> Option<(Seq<char>, Seq<char>, Option<Seq<char>>)> {
    match s {
        Some(h) => Some(
            (
                h.signature_input@,
                h.signature@,
                match h.content_digest {
                    Some(d) => Some(d@),
                    None => None,
                },
            ),
        ),
        None => None,
    }
}

fn header(name: &str, value: &str) -> (r: (String, String))
    ensures
        header_view(r) == (name@, value@),
{
    (owned(name), owned(value))
}

/// The headers of an x402 post (first try or paid retry).
pub fn x402_request_headers(
    payment_json: Option<&str>,
    signed: Option<&Erc8128Headers>,
    headers: &Vec<(String, String)>,
) -> (r: Vec<(String, String)>)
    requires
        match payment_json {
            Some(p) => utf8_len(p@) <= usize::MAX / 2,
            None => true,
        },
    ensures
        r@.map_values(|h: (String, String)| header_view(h)) == x402_headers_spec(
            match payment_json {
                Some(p) => Some(p@),
                None => None,
            },
            signed_view(signed),
            headers@.map_values(|h: (String, String)| header_view(h)),
        ),
{
    let mut out: Vec<(String, String)> = Vec::new();
    out.push(header("content-type", "application/json"));
    match payment_json {
        Some(p) => {
            let encoded = base64_encode(p);
            out.push(header("X-PAYMENT", encoded.as_str()));
        },
        None => {},
    }
    match signed {
        Some(h) => {
            out.push(header("signature-input", h.signature_input.as_str()));
            out.push(header("signature", h.signature.as_str()));
            match &h.content_digest {
                Some(d) => out.push(header("content-digest", d.as_str())),
                None => {},
            }
        },
        None => {},
    }
    let ghost start = out@.map_values(|h: (String, String)| header_view(h));
    let ghost hv = headers@.map_values(|h: (String, String)| header_view(h));
    let mut i: usize = 0;
    while i < headers.len()
        invariant
            i <= headers@.len(),
            hv == headers@.map_values(|h: (String, String)| header_view(h)),
            out@.map_values(|h: (String, String)| header_view(h)) == start + hv.take(i as int),
        decreases headers@.len() - i,
    {
        let ghost before = out@;
        out.push(header(headers[i].0.as_str(), headers[i].1.as_str()));
        assert(out@.map_values(|h: (String, String)| header_view(h)) =~= before.map_values(
            |h: (String, String)| header_view(h),
        ).push(hv[i as int]));
        assert(hv.take(i + 1) =~= hv.take(i as int).push(hv[i as int]));
        i = i + 1;
    }
    assert(hv.take(i as int) =~= hv);
    out
}

/// A 2xx status.
pub open spec fn is_success_status(status: u16) -> bool {
    200 <= status < 300
}

/// The data of a reply: its body as JSON, else the body as a string.
pub open spec fn reply_data(d: Json, body: Seq<char>) -> bool {
    match json_parse(body) {
        Some(j) => d == j,
        None => d is Str && d->Str_0@ == body,
    }
}

fn reply_value(body: &str) -> (r: Json)
    ensures
        reply_data(r, body@),
{
    match parse_json(body) {
        Some(j) => j,
        None => Json::Str(owned(body)),
    }
}

/// The answer to a post that needed no payment (any status but 402): for
/// a 2xx, `{"status", "payment_required": false, "data"}`; otherwise the
/// error `HTTP <status line>: <body>`.
pub fn x402_unpaid_reply(status: u16, status_line: &str, body: &str) -> (r: Result<Json, String>)
    requires
        status != 402,
    ensures
        match r {
            Ok(j) => {
                &&& is_success_status(status)
                &&& j->Object_0@.len() == 3
                &&& json_u64_at(j, 0, "status"@, status as u64)
                &&& json_member_is(j, 1, "payment_required"@, Json::Bool(false))
                &&& j->Object_0@[2].0@ == "data"@
                &&& reply_data(j->Object_0@[2].1, body@)
            },
            Err(e) => !is_success_status(status) && e@ == "HTTP "@ + status_line@ + ": "@ + body@,
        },
{
    if 200 <= status && status < 300 {
        let mut fields: Vec<(String, Json)> = Vec::new();
        fields.push((owned("status"), Json::number(status as u64)));
        fields.push((owned("payment_required"), Json::Bool(false)));
        fields.push((owned("data"), reply_value(body)));
        Ok(Json::Object(fields))
    } else {
        let mut v = chars_of("HTTP ");
        push_str(&mut v, status_line);
        push_str(&mut v, ": ");
        push_str(&mut v, body);
        Err(string_from(v.as_slice()))
    }
}

/// The answer to the paid retry: for a 2xx,
/// `{"status", "payment_required": true, "data", "payment": {"amount",
/// "asset", "network", "wallet"}}`; otherwise the error
/// `Payment request failed HTTP <status line>: <body>`.
pub fn x402_paid_reply(
    status: u16,
    status_line: &str,
    body: &str,
    amount: &str,
    asset: &str,
    network: &str,
    wallet: &str,
) -> (r: Result<Json, String>)
    ensures
        match r {
            Ok(j) => {
                let p = j->Object_0@[3].1;
                &&& is_success_status(status)
                &&& j->Object_0@.len() == 4
                &&& json_u64_at(j, 0, "status"@, status as u64)
                &&& json_member_is(j, 1, "payment_required"@, Json::Bool(true))
                &&& j->Object_0@[2].0@ == "data"@
                &&& reply_data(j->Object_0@[2].1, body@)
                &&& j->Object_0@[3].0@ == "payment"@
                &&& p is Object && p->Object_0@.len() == 4
                &&& json_str_at(p, 0, "amount"@, amount@)
                &&& json_str_at(p, 1, "asset"@, asset@)
                &&& json_str_at(p, 2, "network"@, network@)
                &&& json_str_at(p, 3, "wallet"@, wallet@)
            },
            Err(e) => !is_success_status(status) && e@ == "Payment request failed HTTP "@ + status_line@ + ": "@
                + body@,
        },
{
    if 200 <= status && status < 300 {
        let mut payment: Vec<(String, Json)> = Vec::new();
        payment.push((owned("amount"), Json::string(amount)));
        payment.push((owned("asset"), Json::string(asset)));
        payment.push((owned("network"), Json::string(network)));
        payment.push((owned("wallet"), Json::string(wallet)));
        let mut fields: Vec<(String, Json)> = Vec::new();
        fields.push((owned("status"), Json::number(status as u64)));
        fields.push((owned("payment_required"), Json::Bool(true)));
        fields.push((owned("data"), reply_value(body)));
        fields.push((owned("payment"), Json::Object(payment)));
        Ok(Json::Object(fields))
    } else {
        let mut v = chars_of("Payment request failed HTTP ");
        push_str(&mut v, status_line);
        push_str(&mut v, ": ");
        push_str(&mut v, body);
        Err(string_from(v.as_slice()))
    }
}

// ───────────────────────── authenticated fetches ─────────────────────────

/// The HTTP method of an authenticated fetch.
#[derive(Clone, Copy, Debug, PartialEq, Eq, Structural)]
pub enum FetchMethod {
    Get,
    Post,
    Put,
    Delete,
}

/// The method an instruction's method name selects (by upper case);
/// anything unknown is a GET.
pub open spec fn fetch_method_of(m: Seq<char>) -> FetchMethod {
    let u = str_upper(m);
    if u == "POST"@ {
        FetchMethod::Post
    } else if u == "PUT"@ {
        FetchMethod::Put
    } else if u == "DELETE"@ {
        FetchMethod::Delete
    } else {
        FetchMethod::Get
    }
}

/// Selects the method of an authenticated fetch.
pub fn fetch_method(method: &str) -> (r: FetchMethod)
    ensures
        r == fetch_method_of(method@),
{
    let u = to_uppercase(method);
    let us = u.as_str();
    if same_text(us, "POST") {
        FetchMethod::Post
    } else if same_text(us, "PUT") {
        FetchMethod::Put
    } else if same_text(us, "DELETE") {
        FetchMethod::Delete
    } else {
        FetchMethod::Get
    }
}

/// The server URL of a sign-in, without trailing slashes.
pub fn siwa_server_base(server_url: &str) -> (r: String)
    ensures
        r@ == trim_end_char(server_url@, '/'),
{
    string_from(trim_end_char_exec(chars_of(server_url).as_slice(), '/').as_slice())
}

/// The decimal text of a signed integer.
pub open spec fn signed_decimal(n: i64) -> Seq<char> {
    if n < 0 {
        "-"@ + decimal((-(n as int)) as nat)
    } else {
        decimal(n as nat)
    }
}

fn signed_decimal_exec(n: i64) -> (r: String)
    ensures
        r@ == signed_decimal(n),
{
    if n < 0 {
        let m: u64 = if n == i64::MIN {
            9223372036854775808u64
        } else {
            (-n) as u64
        };
        let mut v = chars_of("-");
        v.extend_from_slice(decimal_exec(m).as_slice());
        string_from(v.as_slice())
    } else {
        string_from(decimal_exec(n as u64).as_slice())
    }
}

/// The agent identity used to sign in: the given agent id, else the latest
/// registered identity (its id and registry, when the row has them), else
/// none.
pub open spec fn agent_identity(
    agent_id: Option<Seq<char>>,
    latest: Option<(Option<i64>, Option<Seq<char>>)>,
) -> (Option<Seq<char>>, Option<Seq<char>>) {
    match agent_id {
        Some(id) => (Some(id), None),
        None => match latest {
            Some((id, reg)) => (
                match id {
                    Some(n) => Some(signed_decimal(n)),
                    None => None,
                },
                reg,
            ),
            None => (None, None),
        },
    }
}

/// Resolves the agent identity of a sign-in from the given id and the
/// latest registered identity row.
pub fn resolve_agent_identity(agent_id: Option<&str>, latest: Option<(Option<i64>, Option<String>)>) -> (r: (
    Option<String>,
    Option<String>,
))
    ensures
        ((match r.0 {
            Some(s) => Some(s@),
            None => None,
        }), (match r.1 {
            Some(s) => Some(s@),
            None => None,
        })) == agent_identity(
            match agent_id {
                Some(a) => Some(a@),
                None => None,
            },
            match latest {
                Some((id, reg)) => Some(
                    (
                        id,
                        match reg {
                            Some(s) => Some(s@),
                            None => None,
                        },
                    ),
                ),
                None => None,
            },
        ),
{
    match agent_id {
        Some(id) => (Some(owned(id)), None),
        None => match latest {
            Some((id, reg)) => (
                match id {
                    Some(n) => Some(signed_decimal_exec(n)),
                    None => None,
                },
                reg,
            ),
            None => (None, None),
        },
    }
}

/// The sign-in mode: SIWA with an agent identity, SIWE without.
pub fn sign_in_mode(agent_id: &Option<String>) -> (r: String)
    ensures
        r@ == (if agent_id is Some { "SIWA"@ } else { "SIWE"@ }),
{
    if agent_id.is_some() {
        owned("SIWA")
    } else {
        owned("SIWE")
    }
}

} // verus!
