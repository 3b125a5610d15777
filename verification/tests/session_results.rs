use stark_backend::bridge::{
    extract_delegation_from_text, extract_urls_from_text, parse_delegation_result, parse_media_result,
    parse_social_result, parse_text_result, try_parse_delegation,
};
use stark_backend::instruction::{
    decode_instruction, default_base, default_chain_id, default_get, default_zero, parse_session_result,
    CryptoInstruction,
};
use stark_backend::json::{parse_json, Json};

fn j(text: &str) -> Json {
    parse_json(text).expect("test JSON")
}

#[test]
fn urls_are_found_in_prose_and_trimmed() {
    let urls = extract_urls_from_text("See https://fal.media/a.png, and http://x.io/b) or https://q.r/s'\" end");
    assert_eq!(urls, vec!["https://fal.media/a.png", "http://x.io/b", "https://q.r/s"]);
    assert!(extract_urls_from_text("(https://wrapped.io)").is_empty());
    assert!(extract_urls_from_text("no links here ftp://x").is_empty());
    assert_eq!(extract_urls_from_text("a\thttps://t.co/1>\n"), vec!["https://t.co/1"]);
}

#[test]
fn media_urls_prefer_structured_fields() {
    let r = Some(j(r#"{"urls": ["https://a/1.png", 3, "https://a/2.png"], "url": "https://ignored"}"#));
    assert_eq!(parse_media_result(&r, None), vec!["https://a/1.png", "https://a/2.png"]);
    let r = Some(j(r#"{"urls": [], "url": "https://one/x.mp4"}"#));
    assert_eq!(parse_media_result(&r, None), vec!["https://one/x.mp4"]);
    let r = Some(j(r#"{"media": [{"url": "https://m/1"}, {"nope": 1}, {"url": "https://m/2"}]}"#));
    assert_eq!(parse_media_result(&r, None), vec!["https://m/1", "https://m/2"]);
}

#[test]
fn media_urls_fall_back_to_text_and_summary() {
    let r = Some(j(r#"{"text": "nothing", "message": "here: https://img/1.jpg"}"#));
    assert_eq!(parse_media_result(&r, Some("https://summary/2")), vec!["https://img/1.jpg"]);
    let r = Some(j(r#""plain https://s/3""#));
    assert_eq!(parse_media_result(&r, None), vec!["https://s/3"]);
    let r = Some(j(r#"{"other": 1}"#));
    assert_eq!(parse_media_result(&r, Some("see https://sum/4")), vec!["https://sum/4"]);
    assert_eq!(parse_media_result(&None, Some("https://sum/5")), vec!["https://sum/5"]);
    assert!(parse_media_result(&None, None).is_empty());
}

#[test]
fn social_result_reads_post_url_and_confirmation() {
    let r = Some(j(r#"{"url": "https://x.com/p/1", "message": "Posted!"}"#));
    assert_eq!(parse_social_result(&r), (Some("https://x.com/p/1".to_string()), "Posted!".to_string()));
    let r = Some(j(r#"{"post_url": 5, "url": "https://x.com/p/2"}"#));
    assert_eq!(parse_social_result(&r), (None, "Post submitted".to_string()));
    assert_eq!(parse_social_result(&None), (None, "No result".to_string()));
}

#[test]
fn delegation_is_read_directly_or_from_prose() {
    let d = try_parse_delegation(&j(r#"{"delegate": "crypto", "message": "swap 1 ETH"}"#)).unwrap();
    assert_eq!((d.delegate.as_str(), d.message.as_str()), ("crypto", "swap 1 ETH"));
    let d = try_parse_delegation(&j(r#"{"delegate": "image_gen"}"#)).unwrap();
    assert_eq!(d.message, "");
    assert!(try_parse_delegation(&j(r#"{"delegate": 7}"#)).is_none());
    let d = extract_delegation_from_text(r#"Sure! {"delegate": "video_gen", "message": "make a clip"} done"#).unwrap();
    assert_eq!(d.delegate, "video_gen");
    assert!(extract_delegation_from_text("} then {").is_none());
    assert!(extract_delegation_from_text("{not json}").is_none());
}

#[test]
fn delegation_result_checks_nested_places() {
    let r = Some(j(r#"{"structured_data": {"delegate": "crypto", "message": "m"}}"#));
    assert_eq!(parse_delegation_result(&r).unwrap().delegate, "crypto");
    let r = Some(j(r#"{"text": "I will hand this over: {\"delegate\": \"image_gen\", \"message\": \"cat\"}"}"#));
    let d = parse_delegation_result(&r).unwrap();
    assert_eq!((d.delegate.as_str(), d.message.as_str()), ("image_gen", "cat"));
    assert!(parse_delegation_result(&Some(j(r#"{"text": "hello"}"#))).is_none());
    assert!(parse_delegation_result(&None).is_none());
}

#[test]
fn text_result_prefers_text_fields() {
    assert_eq!(parse_text_result(&Some(j(r#"{"message": "m", "response": "r"}"#))), "m");
    assert_eq!(parse_text_result(&Some(j(r#""just text""#))), "just text");
    assert_eq!(parse_text_result(&Some(j(r#"{"a": 1}"#))), "{\n  \"a\": 1\n}");
    assert_eq!(parse_text_result(&None), "");
}

#[test]
fn instruction_defaults() {
    assert_eq!(default_base(), "base");
    assert_eq!(default_zero(), "0");
    assert_eq!(default_get(), "GET");
    assert_eq!(default_chain_id(), 8453);
}

#[test]
fn instructions_decode_with_defaults() {
    match decode_instruction(j(r#"{"instruction": "SwapToken", "sell_token": "ETH", "buy_token": "USDC", "amount": "1"}"#)) {
        Ok(CryptoInstruction::SwapToken { network, sell_token, .. }) => {
            assert_eq!(network, "base");
            assert_eq!(sell_token, "ETH");
        },
        other => panic!("unexpected {:?}", other),
    }
    match decode_instruction(j(r#"{"instruction": "SignRawTx", "to": "0xabc", "data": "0x"}"#)) {
        Ok(CryptoInstruction::SignRawTx { chain_id, value, gas, nonce, .. }) => {
            assert_eq!(chain_id, 8453);
            assert_eq!(value, "0");
            assert!(gas.is_none() && nonce.is_none());
        },
        other => panic!("unexpected {:?}", other),
    }
    match decode_instruction(j(r#"{"instruction": "Erc8128Fetch", "url": "https://u", "body": null}"#)) {
        Ok(CryptoInstruction::Erc8128Fetch { method, body, .. }) => {
            assert_eq!(method, "GET");
            assert!(body.is_none());
        },
        other => panic!("unexpected {:?}", other),
    }
    match decode_instruction(j(r#"{"instruction": "Web3Call", "abi": "erc20", "contract": "0x1", "function": "balanceOf", "params": ["0x2"], "call_only": true}"#)) {
        Ok(CryptoInstruction::Web3Call { params, value, call_only, network, .. }) => {
            assert_eq!(params.len(), 1);
            assert_eq!(value, "0");
            assert!(call_only);
            assert!(network.is_none());
        },
        other => panic!("unexpected {:?}", other),
    }
    match decode_instruction(j(r#"{"instruction": "X402Post", "url": "https://p", "headers": {"a": "b"}}"#)) {
        Ok(CryptoInstruction::X402Post { headers, body, network, .. }) => {
            assert_eq!(headers, vec![("a".to_string(), "b".to_string())]);
            assert!(body.is_null());
            assert_eq!(network, "base");
        },
        other => panic!("unexpected {:?}", other),
    }
    assert!(matches!(decode_instruction(j(r#"{"instruction": "GetAddress", "extra": 1}"#)), Ok(CryptoInstruction::GetAddress)));
}

#[test]
fn malformed_instructions_are_handed_back() {
    assert!(decode_instruction(j(r#"{"instruction": "SendEth", "to": "0x1"}"#)).is_err());
    assert!(decode_instruction(j(r#"{"instruction": "Teleport"}"#)).is_err());
    assert!(decode_instruction(j(r#"{"instruction": "GetBalance", "network": null}"#)).is_err());
    assert!(decode_instruction(j(r#"{"instruction": "SignRawTx", "to": "0x1", "data": "0x", "chain_id": -1}"#)).is_err());
    assert!(decode_instruction(j(r#"{"instruction": "X402Post", "url": "u", "headers": {"a": 1}}"#)).is_err());
    match decode_instruction(j(r#"[1, 2]"#)) {
        Err(v) => assert!(v.as_array().map(|a| a.len()) == Some(2)),
        Ok(_) => panic!("arrays are not instructions"),
    }
}

#[test]
fn session_results_yield_instruction_lists() {
    let single = parse_session_result(Some(j(r#"{"instruction": "GetAddress"}"#)));
    assert_eq!(single.len(), 1);
    let list = parse_session_result(Some(j(
        r#"[{"instruction": "GetAddress"}, {"bad": true}, {"instruction": "ListQueuedTx"}]"#,
    )));
    assert!(matches!(list.as_slice(), [CryptoInstruction::GetAddress, CryptoInstruction::ListQueuedTx]));
    let nested = parse_session_result(Some(j(r#"{"instructions": [{"instruction": "BroadcastTx", "uuid": "u1"}]}"#)));
    assert!(matches!(nested.as_slice(), [CryptoInstruction::BroadcastTx { .. }]));
    assert!(parse_session_result(Some(j(r#"{"text": "hi"}"#))).is_empty());
    assert!(parse_session_result(None).is_empty());
}
