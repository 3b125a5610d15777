use stark_backend::json::{parse_json, Json};
use stark_backend::registry::{
    capability_for, find_bot_project, get_output_type, has_chat_hook, has_real_hashes, infer_capability, pack_definition_paths, provision_action,
    record_general_agent, reprovision_entry, sync_remote_agents, SyncReport, SyncStep, text_less, AgentTable, ProvisionAction, RemoteAgent, StarflaskAgent,
    RemoteProject, SyncEvent, TableOp,
};
use stark_backend::router::{
    choose_agent, default_agent_id, format_results, ExecutionResult, command_capability, extract_delegation_target, extract_session_id, extract_tool_names,
    failed_execution, log_entry_broadcast, msg_session_timed_out, plan_output, summarize_log_entry, Command,
    CommandOutput, OutputPlan, PollOutcome, SessionTracker,
};
use stark_backend::seed::AgentSeed;

fn j(text: &str) -> Json {
    parse_json(text).expect("test JSON")
}

fn row(cap: &str, id: &str, hashes: &[&str]) -> StarflaskAgent {
    StarflaskAgent {
        capability: cap.to_string(),
        agent_id: id.to_string(),
        name: format!("{} agent", cap),
        description: String::new(),
        pack_hashes: hashes.iter().map(|h| h.to_string()).collect(),
        status: "synced".to_string(),
    }
}

fn remote(id: &str, name: &str, hash: Option<&str>) -> RemoteAgent {
    RemoteAgent { id: id.to_string(), name: name.to_string(), description: None, pack_hash: hash.map(|h| h.to_string()) }
}

fn seed(cap: &str, hash: &str) -> AgentSeed {
    AgentSeed { capability: cap.to_string(), name: cap.to_string(), description: String::new(), pack_hash: hash.to_string() }
}

#[test]
fn session_ids_are_uuids() {
    let u = extract_session_id(&j(r#"{"id": "67e55044-10b1-426f-9247-bb680e5fe0c8"}"#)).unwrap();
    assert_eq!(u, 0x67e5504410b1426f9247bb680e5fe0c8u128);
    assert_eq!(extract_session_id(&j(r#"{"x": 1}"#)).unwrap_err(), "No session id in response: {\"x\":1}");
    let e = extract_session_id(&j(r#"{"id": "nope"}"#)).unwrap_err();
    assert!(e.starts_with("Invalid session UUID 'nope': "));
}

#[test]
fn tool_names_come_from_calls_name_or_first_line() {
    let e = j(r#"{"payload": {"tool_calls": [{"name": "search"}, {"name": "fetch"}]}}"#);
    assert_eq!(extract_tool_names(&e), vec!["search", "fetch"]);
    let e = j(r#"{"tool_calls": [], "name": "solo"}"#);
    assert_eq!(extract_tool_names(&e), vec!["solo"]);
    let e = j(r#""delegate\n\n{\"agent_name\": \"x\"}""#);
    assert_eq!(extract_tool_names(&e), vec!["delegate"]);
    let long = format!("\"{}\"", "a".repeat(60));
    assert!(extract_tool_names(&j(&long)).is_empty());
}

#[test]
fn delegation_target_reads_arguments() {
    let e = j(r#"{"tool_calls": [{"name": "delegate", "arguments": "{\"agent_name\": \"image_gen\"}"}]}"#);
    assert_eq!(extract_delegation_target(&e), Some("image_gen".to_string()));
    let e = j(r#"{"tool_calls": [{"name": "delegate", "arguments": {"agent_name": "crypto"}}]}"#);
    assert_eq!(extract_delegation_target(&e), Some("crypto".to_string()));
    let e = j(r#"{"tool_calls": [{"name": "search", "arguments": {"agent_name": "crypto"}}]}"#);
    assert_eq!(extract_delegation_target(&e), None);
}

#[test]
fn log_entries_are_summarized() {
    let calls = j(r#"{"tool_calls": [{"name": "search"}, {"name": "fetch"}]}"#);
    assert_eq!(summarize_log_entry("assistant_tool_calls", &calls), "Calling search, fetch...");
    assert_eq!(summarize_log_entry("tool_results", &calls), "search, fetch completed");
    let deleg = j(r#"{"tool_calls": [{"name": "delegate", "arguments": {"agent_name": "crypto"}}]}"#);
    assert_eq!(summarize_log_entry("assistant_tool_calls", &deleg), "Delegating to crypto...");
    assert_eq!(summarize_log_entry("tool_results", &deleg), "Delegation result received");
    let empty = j(r#"{}"#);
    assert_eq!(summarize_log_entry("assistant_tool_calls", &empty), "Calling tools...");
    assert_eq!(summarize_log_entry("tool_start", &empty), "Running tool...");
    assert_eq!(summarize_log_entry("report_result", &j(r#"{"payload": {"success": false}}"#)), "Task failed");
    assert_eq!(summarize_log_entry("report_result", &empty), "Task completed");
    assert_eq!(summarize_log_entry("llm_error", &empty), "AI error occurred");
    assert_eq!(summarize_log_entry("custom_thing", &empty), "custom_thing");
}

#[test]
fn heartbeats_are_not_broadcast() {
    assert!(log_entry_broadcast(&j(r#"{"event": "heartbeat"}"#)).is_none());
    assert!(log_entry_broadcast(&j(r#"{"type": "delegation_waiting"}"#)).is_none());
    let (t, i, s) = log_entry_broadcast(&j(r#"{"event": "assistant_text", "iteration": 3}"#)).unwrap();
    assert_eq!((t.as_str(), i, s.as_str()), ("assistant_text", 3, "Thinking..."));
    let (t, i, _) = log_entry_broadcast(&j(r#"{"event": 5}"#)).unwrap();
    assert_eq!((t.as_str(), i), ("unknown", 0));
}

#[test]
fn polling_reports_status_changes_and_new_logs() {
    let mut tr = SessionTracker::new();
    let r = tr.observe(j(r#"{"status": "running", "logs": [1, 2]}"#));
    assert_eq!(r.status_change.as_deref(), Some("running"));
    assert_eq!((r.new_logs_from, r.new_logs_to), (0, 2));
    assert!(matches!(r.outcome, PollOutcome::Pending));
    let r = tr.observe(j(r#"{"status": "running", "logs": [1, 2, 3]}"#));
    assert!(r.status_change.is_none());
    assert_eq!((r.new_logs_from, r.new_logs_to), (2, 3));
    let r = tr.observe(j(r#"{"status": "completed", "result": {"text": "hi"}, "result_summary": "s"}"#));
    match r.outcome {
        PollOutcome::Completed { result, result_summary } => {
            assert_eq!(result.unwrap().get_str("text").map(|s| s.as_str()), Some("hi"));
            assert_eq!(result_summary.as_deref(), Some("s"));
        },
        _ => panic!("expected completion"),
    }
    let mut tr = SessionTracker::new();
    match tr.observe(j(r#"{"status": "failed"}"#)).outcome {
        PollOutcome::Failed(m) => assert_eq!(m, "Session failed: unknown error"),
        _ => panic!("expected failure"),
    }
    assert_eq!(msg_session_timed_out(), "Session timed out after 600s");
}

#[test]
fn commands_route_to_their_capability_or_general() {
    let mut c = Command { message: "hi".to_string(), capability: None, hook: None, payload: None };
    assert_eq!(command_capability(&c), "general");
    c.capability = Some(String::new());
    assert_eq!(command_capability(&c), "general");
    c.capability = Some("crypto".to_string());
    assert_eq!(command_capability(&c), "crypto");
    assert_eq!(choose_agent(Some(1), Some(2)), Ok(1));
    assert_eq!(choose_agent(None, Some(2)), Ok(2));
    assert_eq!(choose_agent(None, None), Err("No agents available. Sync your Starflask agents first.".to_string()));
}

#[test]
fn output_plans_follow_the_output_type() {
    match plan_output(None, "media:video", Some(j(r#"{"url": "https://v/1.mp4"}"#)), None, false).unwrap() {
        OutputPlan::Ready(CommandOutput::MediaGeneration { urls, media_type }) => {
            assert_eq!(urls, vec!["https://v/1.mp4"]);
            assert_eq!(media_type, "video");
        },
        other => panic!("unexpected {:?}", other),
    }
    match plan_output(None, "crypto", Some(j(r#"{"text": "no tx"}"#)), None, false).unwrap() {
        OutputPlan::Ready(CommandOutput::TextResponse { text }) => assert_eq!(text, "no tx"),
        other => panic!("unexpected {:?}", other),
    }
    assert_eq!(
        plan_output(None, "crypto", Some(j(r#"{"instruction": "GetAddress"}"#)), None, false).unwrap_err(),
        "Crypto executor not available (no wallet configured)"
    );
    assert!(matches!(
        plan_output(None, "crypto", Some(j(r#"{"instruction": "GetAddress"}"#)), None, true).unwrap(),
        OutputPlan::Execute(v) if v.len() == 1
    ));
    match plan_output(None, "text", Some(j(r#"{"text": "look https://docs.rs/page"}"#)), None, false).unwrap() {
        OutputPlan::Ready(CommandOutput::MediaGeneration { urls, media_type }) => {
            assert_eq!(urls, vec!["https://docs.rs/page"]);
            assert_eq!(media_type, "image");
        },
        other => panic!("unexpected {:?}", other),
    }
    match plan_output(None, "text", Some(j(r#"{"data": "a https://x/y.png b"}"#)), None, false).unwrap() {
        OutputPlan::Ready(CommandOutput::MediaGeneration { urls, .. }) => assert_eq!(urls, vec!["https://x/y.png"]),
        other => panic!("unexpected {:?}", other),
    }
    match plan_output(None, "text", Some(j(r#"{"data": "see https://docs.rs/page ok"}"#)), None, false).unwrap() {
        OutputPlan::Ready(CommandOutput::TextResponse { text }) => {
            assert_eq!(text, "{\n  \"data\": \"see https://docs.rs/page ok\"\n}")
        },
        other => panic!("unexpected {:?}", other),
    }
    match plan_output(None, "text", Some(j(r#"{"text": "plain words"}"#)), None, false).unwrap() {
        OutputPlan::Ready(CommandOutput::TextResponse { text }) => assert_eq!(text, "plain words"),
        other => panic!("unexpected {:?}", other),
    }
    match plan_output(None, "text", None, None, false).unwrap() {
        OutputPlan::Ready(CommandOutput::Raw { data }) => assert!(data.is_null()),
        other => panic!("unexpected {:?}", other),
    }
}

#[test]
fn structured_data_settles_the_output_first() {
    let sd = j(r#"{"type": "media", "urls": ["https://a/1"], "media_type": "gif"}"#);
    match plan_output(Some(sd), "crypto", None, None, false).unwrap() {
        OutputPlan::Ready(CommandOutput::MediaGeneration { urls, media_type }) => {
            assert_eq!(urls, vec!["https://a/1"]);
            assert_eq!(media_type, "gif");
        },
        other => panic!("unexpected {:?}", other),
    }
    let sd = j(r#"{"type": "media", "urls": []}"#);
    assert!(matches!(
        plan_output(Some(sd), "text", Some(j(r#"{"text": "t"}"#)), None, false).unwrap(),
        OutputPlan::Ready(CommandOutput::TextResponse { .. })
    ));
}

#[test]
fn failed_executions_carry_the_error() {
    let r = failed_execution("boom".to_string());
    assert!(!r.success);
    assert_eq!(r.data.get_str("error").map(|s| s.as_str()), Some("boom"));
}

#[test]
fn capability_is_inferred_from_names() {
    assert_eq!(infer_capability("market analyst"), "stock_analyst");
    assert_eq!(infer_capability("my wallet bot"), "crypto");
    assert_eq!(infer_capability("art maker"), "image_gen");
    assert_eq!(infer_capability("clip studio"), "video_gen");
    assert_eq!(infer_capability("discord mod"), "discord_moderator");
    assert_eq!(infer_capability("telegram helper"), "telegram_moderator");
    assert_eq!(infer_capability("assistant"), "general");
}

#[test]
fn remote_agents_map_by_hash_then_name() {
    let seeds = vec![seed("crypto", "h1"), seed("image_gen", "h2"), seed("video_gen", "h1")];
    assert_eq!(capability_for(&seeds, &remote("a", "Whatever", Some("h1"))), "video_gen");
    assert_eq!(capability_for(&seeds, &remote("a", "Image Artist", Some("zz"))), "image_gen");
    assert_eq!(capability_for(&seeds, &remote("a", "Helper", None)), "general");
}

#[test]
fn text_order_is_by_character() {
    assert!(text_less("crypto", "general"));
    assert!(text_less("gen", "general"));
    assert!(!text_less("general", "general"));
    assert!(!text_less("z", "a"));
}

#[test]
fn sync_prunes_records_and_deduplicates() {
    let mut t = AgentTable::new();
    t.upsert(row("crypto", "gone", &["p"]));
    t.upsert(row("general", "a1", &[]));
    t.upsert(row("image_gen", "a2", &["x"]));
    let remotes = vec![
        remote("a1", "General Assistant", None),
        remote("a2", "Image Artist", None),
        remote("a3", "Crypto Wallet", None),
        remote("a4", "Image painter", Some("hh")),
    ];
    let seeds = vec![seed("stock_analyst", "hh")];
    let rep = synced(sync_remote_agents(&mut t, &remotes, &seeds));
    assert_eq!(rep.synced, vec!["crypto", "stock_analyst"]);
    let mut rows: Vec<(String, String)> = t.rows.iter().map(|r| (r.capability.clone(), r.agent_id.clone())).collect();
    rows.sort();
    assert_eq!(
        rows,
        vec![
            ("crypto".to_string(), "a3".to_string()),
            ("general".to_string(), "a1".to_string()),
            ("image_gen".to_string(), "a2".to_string()),
            ("stock_analyst".to_string(), "a4".to_string()),
        ]
    );
    assert!(matches!(&rep.ops[0], TableOp::Delete(c) if c == "crypto"));
}

#[test]
fn sync_moves_a_capability_to_a_new_agent_keeping_its_packs() {
    let mut t = AgentTable::new();
    t.upsert(row("crypto", "old", &["pack1"]));
    let remotes = vec![remote("old", "Crypto", None), remote("new", "Wallet two", None)];
    let rep = synced(sync_remote_agents(&mut t, &remotes, &vec![]));
    assert_eq!(rep.synced, vec!["crypto"]);
    assert_eq!(t.rows.len(), 1);
    assert_eq!(t.rows[0].agent_id, "new");
    assert_eq!(t.rows[0].pack_hashes, vec!["pack1"]);
    assert!(rep.events.is_empty());
}

#[test]
fn sync_keeps_one_capability_per_agent() {
    let mut t = AgentTable::new();
    t.upsert(row("image_gen", "same", &[]));
    t.upsert(row("crypto", "same", &[]));
    let rep = synced(sync_remote_agents(&mut t, &vec![remote("same", "x", None)], &vec![]));
    assert!(rep.synced.is_empty());
    assert_eq!(t.rows.len(), 1);
    assert_eq!(t.rows[0].capability, "crypto");
}

#[test]
fn table_first_row_is_by_capability() {
    let mut t = AgentTable::new();
    t.upsert(row("video_gen", "v", &[]));
    t.upsert(row("crypto", "c", &[]));
    t.upsert(row("general", "g", &[]));
    let k = t.first_row().unwrap();
    assert_eq!(t.rows[k].capability, "crypto");
    assert!(t.delete("crypto"));
    assert!(!t.delete("crypto"));
    assert!(t.get("crypto").is_none());
    assert_eq!(t.rows[t.first_row().unwrap()].capability, "general");
}

#[test]
fn provisioning_decisions() {
    let with_packs = row("crypto", "a", &["p"]);
    let bare = row("crypto", "a", &[]);
    assert_eq!(provision_action(None, false), ProvisionAction::Create);
    assert_eq!(provision_action(Some(&with_packs), false), ProvisionAction::ReplaceGhost);
    assert_eq!(provision_action(Some(&with_packs), true), ProvisionAction::Skip);
    assert_eq!(provision_action(Some(&bare), true), ProvisionAction::InstallOnExisting { set_description: true });
    assert!(has_real_hashes(&vec![seed("a", "sha256:..."), seed("b", "abc123")]));
    assert!(!has_real_hashes(&vec![seed("a", "...")]));
    assert!(!has_real_hashes(&vec![]));
}

#[test]
fn reprovision_finds_the_seed_entry() {
    let seeds = vec![seed("general", "g"), seed("crypto", "c")];
    assert_eq!(reprovision_entry(Some(&seeds), "crypto"), Ok(1));
    assert_eq!(
        reprovision_entry(Some(&seeds), "video_gen"),
        Err("Capability 'video_gen' not found in seed config".to_string())
    );
    assert_eq!(reprovision_entry(None, "crypto"), Err("No seed config found".to_string()));
}

#[test]
fn output_type_defaults_to_text() {
    let def = j(r#"{"pack": {"definition": {"output_type": "media:image"}}}"#);
    assert_eq!(get_output_type(Some(&def)), "media:image");
    assert_eq!(get_output_type(Some(&j(r#"{"pack": {}}"#))), "text");
    assert_eq!(get_output_type(None), "text");
    assert_eq!(
        pack_definition_paths("crypto"),
        ("seed-packs/packs/crypto.json".to_string(), "../seed-packs/packs/crypto.json".to_string())
    );
}

#[test]
fn bot_project_is_found_by_name() {
    let p = |id: &str, name: &str| RemoteProject { id: id.to_string(), name: name.to_string() };
    assert_eq!(find_bot_project(&vec![p("1", "other"), p("2", "stark-bot"), p("3", "stark-bot")]), Some("2".to_string()));
    assert_eq!(find_bot_project(&vec![p("1", "Stark-Bot")]), None);
    assert_eq!(find_bot_project(&vec![]), None);
}

#[test]
fn chat_agents_have_a_chat_hook() {
    let hooks = |t: &str| match parse_json(t) {
        Some(Json::Array(v)) => v,
        _ => panic!("test hooks"),
    };
    assert!(has_chat_hook(&hooks(r#"[{"event": "daily"}, {"event": "chat"}]"#)));
    assert!(!has_chat_hook(&hooks(r#"[{"event": "daily"}, {"name": "chat"}]"#)));
    assert!(!has_chat_hook(&hooks("[]")));
}

#[test]
fn agents_are_listed_by_capability() {
    let mut t = AgentTable::new();
    t.upsert(row("social", "a3", &[]));
    t.upsert(row("crypto", "a1", &["h"]));
    t.upsert(row("general", "a2", &[]));
    t.upsert(row("crypto", "a4", &["h2"]));
    let listed = t.list_agents();
    let caps: Vec<&str> = listed.iter().map(|r| r.capability.as_str()).collect();
    assert_eq!(caps, vec!["crypto", "general", "social"]);
    assert_eq!(listed[0].agent_id, "a4");
    assert_eq!(listed[0].pack_hashes, vec!["h2".to_string()]);
    assert!(AgentTable::new().list_agents().is_empty());
    let first = t.first_row().unwrap();
    assert_eq!(t.rows[first].capability, listed[0].capability);
    assert_eq!(t.rows[first].agent_id, listed[0].agent_id);
}

#[test]
fn table_reads_what_was_written() {
    let mut t = AgentTable::new();
    t.upsert(row("general", "a1", &[]));
    t.upsert(row("crypto", "a2", &["h"]));
    t.upsert(row("general", "a3", &[]));
    assert_eq!(t.get("general").map(|r| r.agent_id.as_str()), Some("a3"));
    assert_eq!(t.get("crypto").map(|r| r.agent_id.as_str()), Some("a2"));
    assert!(t.delete("general"));
    assert!(t.get("general").is_none());
    assert_eq!(t.get("crypto").map(|r| r.agent_id.as_str()), Some("a2"));
    assert_eq!(t.rows.len(), 1);
}

#[test]
fn default_agent_is_a_configured_uuid() {
    assert_eq!(
        default_agent_id(Some("550e8400-e29b-41d4-a716-446655440000")),
        Some(0x550e8400_e29b_41d4_a716_446655440000u128)
    );
    assert_eq!(default_agent_id(Some("not-a-uuid")), None);
    assert_eq!(default_agent_id(None), None);
}

#[test]
fn results_are_reported_in_order() {
    let report = format_results(vec![
        ExecutionResult { success: true, data: parse_json(r#"{"address": "0x1"}"#).unwrap() },
        failed_execution("boom".to_string()),
    ]);
    let items = match report.get("results") {
        Some(Json::Array(v)) => v,
        other => panic!("unexpected {:?}", other),
    };
    assert_eq!(items.len(), 2);
    assert_eq!(items[0].get("success").and_then(|v| v.as_bool()), Some(true));
    assert_eq!(items[0].get("data").and_then(|d| d.get_str("address")).map(|s| s.as_str()), Some("0x1"));
    assert_eq!(items[1].get("success").and_then(|v| v.as_bool()), Some(false));
    assert_eq!(items[1].get("data").and_then(|d| d.get_str("error")).map(|s| s.as_str()), Some("boom"));
    assert!(matches!(format_results(vec![]).get("results"), Some(Json::Array(v)) if v.is_empty()));
}

#[test]
fn sync_changes_replay_to_the_new_table() {
    let build = || {
        let mut t = AgentTable::new();
        t.upsert(row("crypto", "gone", &["p"]));
        t.upsert(row("general", "a1", &[]));
        t.upsert(row("image_gen", "a2", &["x"]));
        t.upsert(row("social", "a2", &[]));
        t
    };
    let mut table_a = build();
    let remotes = vec![
        remote("a1", "General Assistant", None),
        remote("a2", "Image Artist", None),
        remote("a3", "Crypto Wallet", None),
        remote("a5", "Discord helper", None),
    ];
    let rep = synced(sync_remote_agents(&mut table_a, &remotes, &vec![]));
    let events: Vec<String> = rep
        .events
        .iter()
        .map(|e| match e {
            SyncEvent::Removed { capability, agent_id } => format!("removed {} {}", capability, agent_id),
            SyncEvent::Synced { capability, agent_id, name } => format!("synced {} {} {}", capability, agent_id, name),
        })
        .collect();
    assert_eq!(
        events,
        vec![
            "removed crypto gone".to_string(),
            "synced crypto a3 Crypto Wallet".to_string(),
            "synced discord_moderator a5 Discord helper".to_string(),
        ]
    );
    let mut replayed = build();
    for op in rep.ops {
        match op {
            TableOp::Delete(c) => {
                replayed.delete(&c);
            },
            TableOp::Upsert(r) => replayed.upsert(r),
        }
    }
    let key = |t: &AgentTable| {
        let mut v: Vec<(String, String)> = t.rows.iter().map(|r| (r.capability.clone(), r.agent_id.clone())).collect();
        v.sort();
        v
    };
    assert_eq!(key(&table_a), key(&replayed));
    assert_eq!(
        key(&table_a),
        vec![
            ("crypto".to_string(), "a3".to_string()),
            ("discord_moderator".to_string(), "a5".to_string()),
            ("general".to_string(), "a1".to_string()),
            ("image_gen".to_string(), "a2".to_string()),
        ]
    );
}

#[test]
fn agent_ids_are_read_as_uuids() {
    let mut t = AgentTable::new();
    t.upsert(row("general", "550e8400-e29b-41d4-a716-446655440000", &[]));
    t.upsert(row("crypto", "not-a-uuid", &[]));
    assert_eq!(t.get_agent_id("general"), Some(0x550e8400_e29b_41d4_a716_446655440000u128));
    assert_eq!(t.get_agent_id("crypto"), None);
    assert_eq!(t.get_agent_id("video_gen"), None);
    assert_eq!(t.get_any_agent_id(), None);
    assert!(t.delete("crypto"));
    assert_eq!(t.get_any_agent_id(), Some(0x550e8400_e29b_41d4_a716_446655440000u128));
    assert_eq!(AgentTable::new().get_any_agent_id(), None);
}

fn synced(step: SyncStep) -> SyncReport {
    match step {
        SyncStep::Synced(r) => r,
        other => panic!("unexpected {:?}", other),
    }
}

#[test]
fn an_empty_account_gets_a_general_agent() {
    let mut t = AgentTable::new();
    t.upsert(row("crypto", "a1", &["p"]));
    assert!(matches!(sync_remote_agents(&mut t, &vec![], &vec![]), SyncStep::CreateGeneralAgent));
    assert_eq!(t.rows.len(), 1);
    let rep = record_general_agent(&mut t, "g1");
    assert_eq!(rep.synced, vec!["general"]);
    let g = t.get("general").unwrap();
    assert_eq!((g.agent_id.as_str(), g.name.as_str(), g.status.as_str()), ("g1", "General Assistant", "synced"));
    assert_eq!(g.description, "General-purpose AI assistant");
    assert!(t.get("crypto").is_some());
    assert_eq!(rep.events.len(), 1);
    assert!(matches!(&rep.events[0], SyncEvent::Synced { capability, agent_id, name }
        if capability == "general" && agent_id == "g1" && name == "General Assistant"));
    assert!(matches!(&rep.ops[0], TableOp::Upsert(r) if r.capability == "general"));
}
