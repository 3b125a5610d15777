use stark_backend::amounts::{from_raw_amount, to_raw_amount};
use stark_backend::json::Json;
use stark_backend::tokens::{lookup, lookup_token, TokenInfo, TokenTable};

fn info(address: &str, decimals: u8, name: &str) -> TokenInfo {
    TokenInfo { address: address.to_string(), decimals, name: name.to_string() }
}

fn table() -> TokenTable {
    TokenTable {
        networks: vec![
            (
                "base".to_string(),
                vec![
                    ("USDC".to_string(), info("0x833589fCD6eDb6E08f4c7C32D4f71b54bdA02913", 6, "USD Coin")),
                    ("WETH".to_string(), info("0x4200000000000000000000000000000000000006", 18, "Wrapped Ether")),
                ],
            ),
            (
                "mainnet".to_string(),
                vec![("USDC".to_string(), info("0xA0b86991c6218b36c1d19D4a2e9Eb0cE3606eB48", 6, "USD Coin"))],
            ),
        ],
    }
}

#[test]
fn to_raw_scales_by_decimals() {
    assert_eq!(to_raw_amount("1.5", 6), Ok("1500000".to_string()));
    assert_eq!(to_raw_amount("100", 18), Ok("100000000000000000000".to_string()));
    assert_eq!(to_raw_amount("0.000001", 6), Ok("1".to_string()));
}

#[test]
fn to_raw_trims_and_handles_zero() {
    assert_eq!(to_raw_amount("  2.50  ", 2), Ok("250".to_string()));
    assert_eq!(to_raw_amount("0", 6), Ok("0".to_string()));
    assert_eq!(to_raw_amount(".5", 1), Ok("5".to_string()));
    assert_eq!(to_raw_amount("007", 0), Ok("7".to_string()));
}

#[test]
fn to_raw_rejects_bad_input() {
    assert_eq!(to_raw_amount("abc", 6), Err("Invalid amount: 'abc'. Must be a number.".to_string()));
    assert_eq!(to_raw_amount("1a.5", 6), Err("Invalid integer part: '1a'".to_string()));
    assert_eq!(to_raw_amount("1.5x", 6), Err("Invalid decimal part: '5x'".to_string()));
    assert_eq!(
        to_raw_amount("1.1234567", 6),
        Err("Amount '1.1234567' has 7 decimal places but token only has 6 decimals".to_string())
    );
}

#[test]
fn from_raw_formats_human_amounts() {
    assert_eq!(from_raw_amount("1500000", 6), Ok("1.5".to_string()));
    assert_eq!(from_raw_amount("1", 6), Ok("0.000001".to_string()));
    assert_eq!(from_raw_amount("1000000", 6), Ok("1".to_string()));
    assert_eq!(from_raw_amount("0", 6), Ok("0".to_string()));
    assert_eq!(from_raw_amount("000123", 0), Ok("123".to_string()));
    assert_eq!(from_raw_amount("\"42\"", 1), Ok("4.2".to_string()));
}

#[test]
fn from_raw_rejects_non_digits() {
    assert_eq!(from_raw_amount("", 6), Err("Invalid raw amount: ''".to_string()));
    assert_eq!(from_raw_amount("12x", 6), Err("Invalid raw amount: '12x'".to_string()));
}

#[test]
fn raw_amount_round_trip_examples() {
    for (raw, d) in [("1500000", 6u8), ("000420", 2), ("0", 18), ("123456789", 9)] {
        let human = from_raw_amount(raw, d).unwrap();
        let back = to_raw_amount(&human, d).unwrap();
        let canonical = raw.trim_start_matches('0');
        let canonical = if canonical.is_empty() { "0" } else { canonical };
        assert_eq!(back, canonical);
    }
}

#[test]
fn lookup_is_case_insensitive_and_falls_back_to_base() {
    let t = table();
    let usdc = lookup(&t, "usdc", "base").unwrap();
    assert_eq!(usdc.decimals, 6);
    assert_eq!(usdc.address, "0x833589fCD6eDb6E08f4c7C32D4f71b54bdA02913");
    let main = lookup(&t, "UsDc", "mainnet").unwrap();
    assert_eq!(main.address, "0xA0b86991c6218b36c1d19D4a2e9Eb0cE3606eB48");
    let fallback = lookup(&t, "weth", "unknown-net").unwrap();
    assert_eq!(fallback.decimals, 18);
    assert!(lookup(&t, "weth", "mainnet").is_none());
    assert!(lookup(&t, "doge", "base").is_none());
}

#[test]
fn lookup_token_describes_the_token() {
    let t = table();
    let j = lookup_token(&t, "usdc", "base").unwrap();
    assert_eq!(j.get_str("symbol").map(|s| s.as_str()), Some("USDC"));
    assert_eq!(j.get_str("name").map(|s| s.as_str()), Some("USD Coin"));
    assert_eq!(j.get_str("network").map(|s| s.as_str()), Some("base"));
    assert_eq!(j.get("decimals").and_then(|d| d.as_u64()), Some(6));
    match &j {
        Json::Object(fields) => {
            let keys: Vec<&str> = fields.iter().map(|(k, _)| k.as_str()).collect();
            assert_eq!(keys, vec!["symbol", "address", "decimals", "name", "network"]);
        },
        _ => panic!("not an object"),
    }
}

#[test]
fn lookup_token_reports_missing_tokens() {
    let t = table();
    assert_eq!(lookup_token(&t, "doge", "base").unwrap_err(), "Token 'doge' not found on base");
}

#[test]
fn human_forms_split_raw_units_at_the_decimals() {
    assert_eq!(from_raw_amount("1234567", 3), Ok("1234.567".to_string()));
    assert_eq!(from_raw_amount("1200", 3), Ok("1.2".to_string()));
    assert_eq!(from_raw_amount("999", 3), Ok("0.999".to_string()));
    assert_eq!(to_raw_amount("01.50", 6), Ok("1500000".to_string()));
    assert_eq!(to_raw_amount("1234.567", 3), Ok("1234567".to_string()));
}

#[test]
fn lookup_token_gives_the_listed_entry() {
    let t = table();
    let j = lookup_token(&t, "usdc", "base").unwrap();
    assert_eq!(j.get_str("address").map(|s| s.as_str()), Some("0x833589fCD6eDb6E08f4c7C32D4f71b54bdA02913"));
    let fallback = lookup_token(&t, "Usdc", "arbitrum").unwrap();
    assert_eq!(fallback.get_str("network").map(|s| s.as_str()), Some("arbitrum"));
    assert_eq!(fallback.get_str("address").map(|s| s.as_str()), Some("0x833589fCD6eDb6E08f4c7C32D4f71b54bdA02913"));
}

#[test]
fn amounts_come_back_in_canonical_form() {
    for (amount, decimals, canonical) in [("01.50", 6u8, "1.5"), ("  007.100 ", 3, "7.1"), (".5", 1, "0.5"), ("000", 2, "0"), ("12.", 4, "12")] {
        let raw = to_raw_amount(amount, decimals).unwrap();
        assert_eq!(from_raw_amount(&raw, decimals), Ok(canonical.to_string()));
    }
}
