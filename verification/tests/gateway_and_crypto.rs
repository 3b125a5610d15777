use stark_backend::crypto::{
    across_quote_url, x402_paid_reply, x402_request_headers, x402_unpaid_reply, Erc8128Headers,
    bridge_chain_id, bridge_route, chain_to_network, check_broadcastable, fetch_method, get_chain_id, get_usdc_address,
    is_x402book, network_for_chain_id, normalize_post_body, resolve_agent_identity, sign_in_mode, siwa_server_base,
    str_byte_len, validate_send_eth, choose_payment_option, FetchMethod, QueuedTxStatus,
};
use stark_backend::executor::{network_or_base, CryptoExecutor, LocalOutcome};
use stark_backend::gateway::{
    auth_timeout_response, confirm_precheck, dispatch, invalid_queue_params, queue_result, status_response, AuthEvent,
    AuthGate, AuthStep, Dispatch,
};
use stark_backend::instruction::CryptoInstruction;
use stark_backend::json::{parse_json, Json};
use stark_backend::keystore::{auto_sync_enabled, keystore_event, KeystoreAction, KeystoreEvent, KeystoreRestore, KeystoreStep};
use stark_backend::payments::{balance_bytes, paid_tx_hash, payment_record, signed_tx_bytes, PaymentRecord};
use stark_backend::protocol::{GatewayEvent, RpcError, RpcResponse};
use stark_backend::swap::swap_token;
use stark_backend::tokens::{TokenInfo, TokenTable};
use stark_backend::web3::{check_param_count, collapse_returns, network_choice, select_overload, ParamDesc};

fn j(text: &str) -> Json {
    parse_json(text).expect("test JSON")
}

#[test]
fn rpc_error_codes() {
    let e = RpcError::parse_error();
    assert_eq!((e.code, e.message.as_str()), (-32700, "Parse error"));
    let e = RpcError::method_not_found();
    assert_eq!((e.code, e.message.as_str()), (-32601, "Method not found"));
    assert_eq!(RpcError::invalid_params("bad".to_string()).code, -32602);
    assert_eq!(RpcError::internal_error("x".to_string()).code, -32603);
    assert_eq!(RpcError::new(-32000, "y".to_string()).message, "y");
    let ok = RpcResponse::success("1".to_string(), Json::Null);
    assert!(ok.result.is_some() && ok.error.is_none());
    let err = RpcResponse::error("2".to_string(), RpcError::parse_error());
    assert!(err.result.is_none() && err.error.is_some());
}

#[test]
fn transaction_events() {
    let e = GatewayEvent::tx_pending(7, "0xhash", "base", "https://basescan.org/tx/0xhash");
    assert_eq!(e.event, "tx.pending");
    assert_eq!(e.data.get_str("explorer_url").map(|s| s.as_str()), Some("https://basescan.org/tx/0xhash"));
    assert!(e.timestamp.is_some());
    let e = GatewayEvent::tx_confirmed(7, "0xhash", "base", "confirmed");
    assert_eq!(e.event, "tx.confirmed");
    assert_eq!(e.data.get_str("status").map(|s| s.as_str()), Some("confirmed"));
    assert_eq!(GatewayEvent::custom("x".to_string(), Json::Null).event, "x");
}

#[test]
fn authentication_exchange() {
    let mut g = AuthGate::new();
    match g.next(AuthEvent::Request { id: "1".to_string(), method: "ping".to_string() }) {
        AuthStep::Reply(r) => assert_eq!(r.result.and_then(|v| v.as_str().cloned()).as_deref(), Some("pong")),
        other => panic!("unexpected {:?}", other),
    }
    match g.next(AuthEvent::Request { id: "2".to_string(), method: "status".to_string() }) {
        AuthStep::Reply(r) => {
            let e = r.error.unwrap();
            assert_eq!((e.code, e.message.as_str()), (-32002, "Authentication required"));
        },
        other => panic!("unexpected {:?}", other),
    }
    match g.next(AuthEvent::BadRequest) {
        AuthStep::Reply(r) => assert_eq!(r.error.unwrap().code, -32700),
        other => panic!("unexpected {:?}", other),
    }
    assert!(matches!(g.next(AuthEvent::Request { id: "3".to_string(), method: "auth".to_string() }), AuthStep::ReadAuthParams));
    match g.next(AuthEvent::AuthParams(Err("missing field `token`".to_string()))) {
        AuthStep::Reply(r) => {
            assert_eq!(r.id, "3");
            assert_eq!(r.error.unwrap().message, "Invalid token: missing field `token`");
        },
        other => panic!("unexpected {:?}", other),
    }
    g.next(AuthEvent::Request { id: "4".to_string(), method: "auth".to_string() });
    assert!(matches!(g.next(AuthEvent::AuthParams(Ok("tok".to_string()))), AuthStep::Validate(t) if t == "tok"));
    match g.next(AuthEvent::Validated(Ok(true))) {
        AuthStep::Finish(Some(r), true) => {
            assert_eq!(r.id, "4");
            assert!(matches!(r.result.unwrap().get("authenticated"), Some(Json::Bool(true))));
        },
        other => panic!("unexpected {:?}", other),
    }
}

#[test]
fn authentication_failures() {
    let mut g = AuthGate::new();
    g.next(AuthEvent::Request { id: "9".to_string(), method: "auth".to_string() });
    g.next(AuthEvent::AuthParams(Ok("t".to_string())));
    match g.next(AuthEvent::Validated(Ok(false))) {
        AuthStep::Finish(Some(r), false) => assert_eq!(r.error.unwrap().code, -32001),
        other => panic!("unexpected {:?}", other),
    }
    let mut g = AuthGate::new();
    g.next(AuthEvent::Request { id: "9".to_string(), method: "auth".to_string() });
    g.next(AuthEvent::AuthParams(Ok("t".to_string())));
    match g.next(AuthEvent::Validated(Err("locked".to_string()))) {
        AuthStep::Finish(Some(r), false) => assert_eq!(r.error.unwrap().message, "Database error: locked"),
        other => panic!("unexpected {:?}", other),
    }
    let mut g = AuthGate::new();
    assert!(matches!(g.next(AuthEvent::Close), AuthStep::Finish(None, false)));
    let mut g = AuthGate::new();
    assert!(matches!(g.next(AuthEvent::StreamError("reset".to_string())), AuthStep::Fail(m) if m == "WebSocket error: reset"));
    let t = auth_timeout_response();
    assert_eq!(t.id, "");
    assert_eq!(t.error.unwrap().message, "Authentication timeout");
}

#[test]
fn authenticated_requests_dispatch() {
    assert!(matches!(dispatch(Some(("1".to_string(), "status".to_string()))), Dispatch::Status(id) if id == "1"));
    assert!(matches!(dispatch(Some(("1".to_string(), "tx_queue.confirm".to_string()))), Dispatch::Confirm(_)));
    assert!(matches!(dispatch(Some(("1".to_string(), "tx_queue.deny".to_string()))), Dispatch::Deny(_)));
    match dispatch(Some(("5".to_string(), "nope".to_string()))) {
        Dispatch::Respond(r) => assert_eq!(r.error.unwrap().code, -32601),
        other => panic!("unexpected {:?}", other),
    }
    match dispatch(None) {
        Dispatch::Respond(r) => assert_eq!((r.id.as_str(), r.error.unwrap().code), ("", -32700)),
        other => panic!("unexpected {:?}", other),
    }
    let s = status_response("1".to_string(), 4);
    assert_eq!(s.result.unwrap().get("connected_clients").and_then(|v| v.as_u64()), Some(4));
    assert_eq!(invalid_queue_params("1".to_string(), "x").error.unwrap().message, "Invalid params: x");
    assert_eq!(confirm_precheck(false, true, "u").unwrap_err().message, "No wallet configured");
    assert_eq!(confirm_precheck(true, false, "u").unwrap_err().message, "Transaction u not found in queue");
    assert!(confirm_precheck(true, true, "u").is_ok());
    assert_eq!(queue_result("u", None).get_str("status").map(|s| s.as_str()), Some("denied"));
    assert_eq!(queue_result("u", Some("0x1")).get_str("tx_hash").map(|s| s.as_str()), Some("0x1"));
}

#[test]
fn keystore_restore_succeeds_after_a_retry() {
    let mut k = KeystoreRestore::new();
    assert!(matches!(k.next(KeystoreEvent::Start), KeystoreStep::CheckRetrieved));
    assert!(matches!(k.next(KeystoreEvent::RetrievedChecked(Some(false))), KeystoreStep::CheckLocal));
    match k.next(KeystoreEvent::LocalChecked(false)) {
        KeystoreStep::Fetch { announce, wait_secs: 0 } => {
            assert_eq!(announce.len(), 1);
            assert!(matches!(&announce[0], KeystoreAction::Emit { status, message }
                if status == "started" && message == "Fresh instance detected, attempting cloud backup restore..."));
        },
        other => panic!("unexpected step {:?}", other),
    }
    assert!(matches!(k.next(KeystoreEvent::FetchFailed("timeout".to_string())), KeystoreStep::Fetch { wait_secs: 2, ref announce } if announce.is_empty()));
    assert!(matches!(k.next(KeystoreEvent::FetchedData), KeystoreStep::GetKey));
    assert!(matches!(k.next(KeystoreEvent::KeyObtained(true)), KeystoreStep::Decrypt));
    assert!(matches!(k.next(KeystoreEvent::Decrypted(true)), KeystoreStep::Restore));
    match k.next(KeystoreEvent::Restored { summary: "Restored: 2 API keys".to_string(), api_keys: 2 }) {
        KeystoreStep::Finish(actions) => {
            assert_eq!(actions.len(), 3);
            assert!(matches!(&actions[0], KeystoreAction::Record { status, api_keys: Some(2), .. } if status == "success"));
            assert!(matches!(&actions[1], KeystoreAction::Emit { message, .. } if message == "Cloud backup restored: Restored: 2 API keys"));
            assert!(matches!(&actions[2], KeystoreAction::Mark));
        },
        other => panic!("unexpected {:?}", other),
    }
}

#[test]
fn keystore_restore_gives_up_after_three_attempts() {
    let mut k = KeystoreRestore::new();
    k.next(KeystoreEvent::Start);
    k.next(KeystoreEvent::RetrievedChecked(Some(false)));
    k.next(KeystoreEvent::LocalChecked(false));
    assert!(matches!(k.next(KeystoreEvent::FetchRefused(Some("busy".to_string()))), KeystoreStep::Fetch { wait_secs: 2, .. }));
    assert!(matches!(k.next(KeystoreEvent::FetchRefused(None)), KeystoreStep::Fetch { wait_secs: 4, .. }));
    match k.next(KeystoreEvent::FetchFailed("down".to_string())) {
        KeystoreStep::Finish(actions) => {
            assert!(matches!(&actions[0], KeystoreAction::Mark));
            assert!(matches!(&actions[1], KeystoreAction::Record { message, .. } if message == "Auto-sync failed: down"));
            assert!(matches!(&actions[2], KeystoreAction::Emit { message, .. } if message == "Auto-sync failed after 3 attempts"));
        },
        other => panic!("unexpected {:?}", other),
    }
}

#[test]
fn keystore_restore_stops_early() {
    let mut k = KeystoreRestore::new();
    k.next(KeystoreEvent::Start);
    assert!(matches!(k.next(KeystoreEvent::RetrievedChecked(Some(true))), KeystoreStep::Finish(a) if a.is_empty()));
    let mut k = KeystoreRestore::new();
    k.next(KeystoreEvent::Start);
    k.next(KeystoreEvent::RetrievedChecked(Some(false)));
    match k.next(KeystoreEvent::LocalChecked(true)) {
        KeystoreStep::Finish(a) => assert!(matches!(&a[2], KeystoreAction::Emit { status, .. } if status == "skipped")),
        other => panic!("unexpected {:?}", other),
    }
    let mut k = KeystoreRestore::new();
    k.next(KeystoreEvent::Start);
    k.next(KeystoreEvent::RetrievedChecked(Some(false)));
    k.next(KeystoreEvent::LocalChecked(false));
    match k.next(KeystoreEvent::FetchRefused(Some("No backup found for wallet".to_string()))) {
        KeystoreStep::Finish(a) => assert!(matches!(&a[1], KeystoreAction::Record { status, .. } if status == "no_backup")),
        other => panic!("unexpected {:?}", other),
    }
    assert!(auto_sync_enabled(None));
    assert!(!auto_sync_enabled(Some("0")));
    assert!(!auto_sync_enabled(Some("false")));
    assert!(auto_sync_enabled(Some("no")));
    let e = keystore_event("error", "m", "0xw");
    assert_eq!(e.event, "system.keystore_error");
    assert_eq!(e.data.get_str("wallet").map(|s| s.as_str()), Some("0xw"));
}

#[test]
fn chain_ids_and_networks() {
    assert_eq!(get_chain_id("mainnet"), 1);
    assert_eq!(get_chain_id("optimism"), 10);
    assert_eq!(get_chain_id("somewhere"), 8453);
    assert_eq!(network_for_chain_id(42161), "arbitrum");
    assert_eq!(network_for_chain_id(5), "base");
    for n in ["mainnet", "polygon", "arbitrum", "optimism", "base"] {
        assert_eq!(network_for_chain_id(get_chain_id(n)), n);
    }
    assert_eq!(bridge_chain_id("Ethereum"), Ok(1));
    assert_eq!(bridge_chain_id("solana"), Err("Unsupported chain: solana".to_string()));
    assert_eq!(get_usdc_address("BASE"), Ok("0x833589fCD6eDb6E08f4c7C32D4f71b54bdA02913".to_string()));
    assert_eq!(get_usdc_address("x"), Err("No USDC address for chain: x".to_string()));
    assert_eq!(chain_to_network("Ethereum"), "mainnet");
    assert_eq!(chain_to_network("Polygon"), "polygon");
    assert_eq!(chain_to_network("Zora"), "Zora");
    assert_eq!(bridge_route("base", "arbitrum"), Ok((8453, 42161)));
    assert_eq!(bridge_route("mainnet", "ethereum"), Err("Source and destination chains must be different".to_string()));
}

#[test]
fn native_transfer_checks() {
    let to = "0x1111111111111111111111111111111111111111";
    assert_eq!(validate_send_eth(to, "1000"), Ok(()));
    assert_eq!(validate_send_eth("0x12", "1"), Err("Invalid recipient address: 0x12".to_string()));
    assert_eq!(
        validate_send_eth("0X0000000000000000000000000000000000000000", "1"),
        Err("Invalid recipient address: 0X0000000000000000000000000000000000000000".to_string())
    );
    assert_eq!(
        validate_send_eth("0x0000000000000000000000000000000000000000", "1"),
        Err("Cannot send to zero address".to_string())
    );
    assert_eq!(validate_send_eth(to, "1.5"), Err("Invalid amount_raw (must be numeric): 1.5".to_string()));
    assert_eq!(validate_send_eth(to, ""), Ok(()));
    assert_eq!(str_byte_len("aé€😀"), "aé€😀".len());
}

#[test]
fn queued_transaction_states() {
    assert_eq!(check_broadcastable(QueuedTxStatus::Pending, "u", None, None), Ok(()));
    assert_eq!(
        check_broadcastable(QueuedTxStatus::Confirmed, "u", Some("0xh"), None),
        Err("Transaction u already broadcast. Hash: 0xh".to_string())
    );
    assert_eq!(
        check_broadcastable(QueuedTxStatus::Failed, "u", None, None),
        Err("Transaction u previously failed: unknown".to_string())
    );
    assert_eq!(check_broadcastable(QueuedTxStatus::Expired, "u", None, None), Err("Transaction u has expired".to_string()));
    assert_eq!(
        check_broadcastable(QueuedTxStatus::Broadcasting, "u", None, None),
        Err("Transaction u is already being broadcast".to_string())
    );
}

#[test]
fn post_bodies_and_payment_options() {
    let b = normalize_post_body(Json::Str("{\"a\": 1}".to_string()));
    assert_eq!(b.get("a").and_then(|v| v.as_u64()), Some(1));
    assert!(matches!(normalize_post_body(Json::Null), Json::Object(f) if f.is_empty()));
    assert!(matches!(normalize_post_body(Json::Str("null".to_string())), Json::Object(f) if f.is_empty()));
    assert!(matches!(normalize_post_body(Json::Str("not json".to_string())), Json::Str(s) if s == "not json"));
    assert!(is_x402book("https://api.x402book.com/post"));
    assert!(!is_x402book("https://example.com"));
    let nets = vec!["base-sepolia".to_string(), "base".to_string(), "base".to_string()];
    assert_eq!(choose_payment_option(&nets, "base"), Ok(1));
    assert_eq!(choose_payment_option(&nets, "polygon"), Ok(0));
    assert_eq!(choose_payment_option(&vec![], "base"), Err("No compatible payment option".to_string()));
}

#[test]
fn authenticated_fetch_details() {
    assert_eq!(fetch_method("post"), FetchMethod::Post);
    assert_eq!(fetch_method("Delete"), FetchMethod::Delete);
    assert_eq!(fetch_method("PATCH"), FetchMethod::Get);
    assert_eq!(siwa_server_base("https://auth.example.com///"), "https://auth.example.com");
    assert_eq!(resolve_agent_identity(Some("42"), Some((Some(7), None))), (Some("42".to_string()), None));
    assert_eq!(
        resolve_agent_identity(None, Some((Some(-7), Some("0xreg".to_string())))),
        (Some("-7".to_string()), Some("0xreg".to_string()))
    );
    assert_eq!(resolve_agent_identity(None, None), (None, None));
    assert_eq!(sign_in_mode(&Some("1".to_string())), "SIWA");
    assert_eq!(sign_in_mode(&None), "SIWE");
}

#[test]
fn executor_answers_local_instructions() {
    let ex = CryptoExecutor {
        wallet_address: "0xwallet".to_string(),
        tokens: TokenTable {
            networks: vec![(
                "base".to_string(),
                vec![("USDC".to_string(), TokenInfo { address: "0xusdc".to_string(), decimals: 6, name: "USD Coin".to_string() })],
            )],
        },
    };
    match ex.execute_local(CryptoInstruction::GetAddress) {
        LocalOutcome::Done(Ok(r)) => assert_eq!(r.data.get_str("address").map(|s| s.as_str()), Some("0xwallet")),
        other => panic!("unexpected {:?}", other),
    }
    match ex.execute_local(CryptoInstruction::TokenLookup { symbol: "usdc".to_string(), network: "base".to_string() }) {
        LocalOutcome::Done(Ok(r)) => assert_eq!(r.data.get_str("address").map(|s| s.as_str()), Some("0xusdc")),
        other => panic!("unexpected {:?}", other),
    }
    match ex.execute_local(CryptoInstruction::X402Fetch { preset: "p".to_string(), network: "base".to_string() }) {
        LocalOutcome::Done(Ok(r)) => {
            assert!(!r.success);
            assert_eq!(
                r.data.get_str("error").map(|s| s.as_str()),
                Some("X402Fetch preset 'p' on 'base' not yet implemented in executor")
            );
        },
        other => panic!("unexpected {:?}", other),
    }
    match ex.execute_local(CryptoInstruction::Web3PresetCall { preset: "q".to_string(), network: Some("base".to_string()) }) {
        LocalOutcome::Done(Ok(r)) => assert_eq!(
            r.data.get_str("error").map(|s| s.as_str()),
            Some("Web3PresetCall 'q' on 'Some(\"base\")' not yet implemented in executor")
        ),
        other => panic!("unexpected {:?}", other),
    }
    assert!(matches!(ex.execute_local(CryptoInstruction::ListQueuedTx), LocalOutcome::Forward(CryptoInstruction::ListQueuedTx)));
    assert_eq!(network_or_base(&None), "base");
    match ex.execute_local(CryptoInstruction::SwapToken {
        sell_token: "usdc".to_string(),
        buy_token: "weth".to_string(),
        amount: "1".to_string(),
        network: "base".to_string(),
    }) {
        LocalOutcome::Done(Err(e)) => assert_eq!(e, "Unknown buy token 'weth' on base"),
        other => panic!("unexpected {:?}", other),
    }
}

fn swap_table() -> TokenTable {
    TokenTable {
        networks: vec![(
            "base".to_string(),
            vec![
                ("USDC".to_string(), TokenInfo { address: "0xusdc".to_string(), decimals: 6, name: "USD Coin".to_string() }),
                ("WETH".to_string(), TokenInfo { address: "0xweth".to_string(), decimals: 18, name: "Wrapped Ether".to_string() }),
            ],
        )],
    }
}

#[test]
fn swaps_resolve_tokens_and_amounts() {
    let t = swap_table();
    let d = swap_token(&t, "usdc", "weth", "12.5", "base", "0xwallet").unwrap();
    assert_eq!(d.get_str("status").map(|s| s.as_str()), Some("swap_requires_starflask"));
    assert_eq!(d.get_str("sell_token").map(|s| s.as_str()), Some("0xusdc"));
    assert_eq!(d.get_str("sell_token_symbol").map(|s| s.as_str()), Some("USDC"));
    assert_eq!(d.get("sell_decimals").and_then(|v| v.as_u64()), Some(6));
    assert_eq!(d.get_str("buy_token").map(|s| s.as_str()), Some("0xweth"));
    assert_eq!(d.get_str("buy_token_symbol").map(|s| s.as_str()), Some("WETH"));
    assert_eq!(d.get("buy_decimals").and_then(|v| v.as_u64()), Some(18));
    assert_eq!(d.get_str("amount").map(|s| s.as_str()), Some("12.5"));
    assert_eq!(d.get_str("raw_amount").map(|s| s.as_str()), Some("12500000"));
    assert_eq!(d.get_str("network").map(|s| s.as_str()), Some("base"));
    assert_eq!(d.get_str("wallet").map(|s| s.as_str()), Some("0xwallet"));
}

#[test]
fn swaps_report_unknown_tokens_and_bad_amounts() {
    let t = swap_table();
    assert_eq!(swap_token(&t, "dai", "weth", "1", "base", "0xw").unwrap_err(), "Unknown sell token 'dai' on base");
    assert_eq!(swap_token(&t, "usdc", "dai", "1", "base", "0xw").unwrap_err(), "Unknown buy token 'dai' on base");
    assert!(swap_token(&t, "usdc", "weth", "1.1234567", "base", "0xw").is_err());
    assert!(swap_token(&t, "usdc", "weth", "abc", "base", "0xw").is_err());
}

#[test]
fn contract_call_rules() {
    assert_eq!(network_choice(None, Some("polygon")), "polygon");
    assert_eq!(network_choice(Some("mainnet"), Some("polygon")), "mainnet");
    assert_eq!(network_choice(None, None), "base");
    let p = |n: &str, k: &str| ParamDesc { name: n.to_string(), kind: k.to_string() };
    let overloads = vec![vec![p("to", "address")], vec![p("to", "address"), p("amount", "uint256")]];
    assert_eq!(select_overload("transfer", 2, Some(&overloads)), Ok(1));
    assert_eq!(
        select_overload("transfer", 3, Some(&overloads)),
        Err("No 'transfer' overload with 3 params. Available: transfer(to: address), transfer(to: address, amount: uint256)".to_string())
    );
    assert_eq!(select_overload("mint", 0, None), Err("Function 'mint' not found in ABI".to_string()));
    assert_eq!(check_param_count("f", 2, 1), Err("Function 'f' expects 2 parameters, got 1".to_string()));
    assert!(check_param_count("f", 1, 1).is_ok());
    assert!(matches!(collapse_returns(vec![Json::Bool(true)]), Json::Bool(true)));
    assert!(matches!(collapse_returns(vec![]), Json::Array(v) if v.is_empty()));
}

#[test]
fn hex_payloads_and_payments() {
    assert_eq!(signed_tx_bytes("0x0aFF", "bad: "), Ok(vec![0x0a, 0xff]));
    assert_eq!(signed_tx_bytes("0x0x12", "bad: "), Ok(vec![0x12]));
    assert_eq!(signed_tx_bytes("0x123", "bad: "), Err("bad: Odd number of digits".to_string()));
    assert_eq!(balance_bytes(&j(r#"{"result": "0x0001"}"#)), Ok(vec![0, 1]));
    assert_eq!(balance_bytes(&j(r#"{"error": {"code": 1}}"#)), Err("RPC error: {\"code\":1}".to_string()));
    assert_eq!(balance_bytes(&j(r#"{}"#)), Err("RPC error: ".to_string()));
    assert_eq!(paid_tx_hash(None, Some(Some("0xp".to_string()))), Some("0xp".to_string()));
    assert_eq!(paid_tx_hash(Some(None), Some(Some("0xp".to_string()))), None);
    assert!(matches!(payment_record(Some("h".to_string()), false), PaymentRecord::WithTxHash(h) if h == "h"));
    assert!(matches!(payment_record(None, true), PaymentRecord::Confirmed));
    assert!(matches!(payment_record(None, false), PaymentRecord::Unchanged));
}

#[test]
fn across_quote_request() {
    assert_eq!(
        across_quote_url(2500000, "0xA", 8453, "0xB", 10, "0xme", "0xyou"),
        "https://app.across.to/api/swap/approval?tradeType=exactInput&amount=2500000&inputToken=0xA&originChainId=8453\
&outputToken=0xB&destinationChainId=10&depositor=0xme&recipient=0xyou&slippage=0.005"
    );
}

fn pairs(v: &[(String, String)]) -> Vec<(&str, &str)> {
    v.iter().map(|(a, b)| (a.as_str(), b.as_str())).collect()
}

#[test]
fn x402_request_headers_in_order() {
    let extra = vec![("X-App".to_string(), "stark".to_string())];
    let first = x402_request_headers(None, None, &extra);
    assert_eq!(pairs(&first), vec![("content-type", "application/json"), ("X-App", "stark")]);
    let signed = Erc8128Headers {
        signature_input: "sig1=(...)".to_string(),
        signature: "sig1=:abc:".to_string(),
        content_digest: Some("sha-256=:x:".to_string()),
    };
    let paid = x402_request_headers(Some(r#"{"x402Version":1,"payload":"sig"}"#), Some(&signed), &extra);
    assert_eq!(
        pairs(&paid),
        vec![
            ("content-type", "application/json"),
            ("X-PAYMENT", "eyJ4NDAyVmVyc2lvbiI6MSwicGF5bG9hZCI6InNpZyJ9"),
            ("signature-input", "sig1=(...)"),
            ("signature", "sig1=:abc:"),
            ("content-digest", "sha-256=:x:"),
            ("X-App", "stark"),
        ]
    );
}

#[test]
fn x402_replies() {
    let ok = x402_unpaid_reply(200, "200 OK", r#"{"id": 7}"#).unwrap();
    assert_eq!(ok.get("status").and_then(|v| v.as_u64()), Some(200));
    assert_eq!(ok.get("payment_required").and_then(|v| v.as_bool()), Some(false));
    assert_eq!(ok.get("data").and_then(|d| d.get("id")).and_then(|v| v.as_u64()), Some(7));
    let text = x402_unpaid_reply(201, "201 Created", "plain words").unwrap();
    assert_eq!(text.get("data").and_then(|v| v.as_str()).map(|s| s.as_str()), Some("plain words"));
    assert_eq!(x402_unpaid_reply(404, "404 Not Found", "nope").unwrap_err(), "HTTP 404 Not Found: nope");
    let paid = x402_paid_reply(200, "200 OK", "{}", "1000", "0xusdc", "base", "0xme").unwrap();
    assert_eq!(paid.get("payment_required").and_then(|v| v.as_bool()), Some(true));
    let p = paid.get("payment").unwrap();
    assert_eq!(p.get_str("amount").map(|s| s.as_str()), Some("1000"));
    assert_eq!(p.get_str("asset").map(|s| s.as_str()), Some("0xusdc"));
    assert_eq!(p.get_str("network").map(|s| s.as_str()), Some("base"));
    assert_eq!(p.get_str("wallet").map(|s| s.as_str()), Some("0xme"));
    assert_eq!(
        x402_paid_reply(500, "500 Internal Server Error", "boom", "1", "a", "n", "w").unwrap_err(),
        "Payment request failed HTTP 500 Internal Server Error: boom"
    );
}
