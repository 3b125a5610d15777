use stark_backend::abi::{abi_file_path, abi_source, AbiIndex, AbiSource};
use stark_backend::backup::{restorable_api_keys, restorable_limits, ApiKeyEntry, BackupData, RestoreResult, X402PaymentLimitEntry, BACKUP_VERSION};
use stark_backend::bot_config::{
    apply_preset, default_max_context_tokens, default_max_graph_render_nodes, default_max_response_tokens,
    default_max_tool_iterations, default_safe_mode_max_queries, default_true, merge_hyperpacks, AgentPreset,
    AgentPresetHyperpack, HeartbeatFileConfig, HyperPack, HyperPackPath, OperatingMode, ServicesConfig,
};
use stark_backend::config::{
    config_status_json, starflask_api_key_set, ConfigStatus,
    agent_preset_path, bot_config_dir, bot_config_path, bot_config_seed_path, default_abis_dir, repo_root, self_url, Config,
};
use stark_backend::seed::{
    capability_from_filename, extract_field, find_config_path, find_packs_dir, load_existing_entries, pack_action,
    parse_args, preserve_unseen, seed_config_text, AgentSeed, ArgsOutcome, PackAction,
};
use stark_backend::text::{lines, parse_u16, split_whitespace};

fn preset_pack(slug: &str, version: Option<&str>) -> AgentPresetHyperpack {
    AgentPresetHyperpack {
        id: format!("id-{}", slug),
        name: slug.to_uppercase(),
        slug: slug.to_string(),
        tags: vec![],
        version: version.map(|v| v.to_string()),
    }
}

fn registry_name(p: &HyperPack) -> Option<&str> {
    match &p.path {
        HyperPackPath::WebServer { hyperpack_name, .. } => Some(hyperpack_name.as_str()),
        HyperPackPath::Git { .. } => None,
    }
}

fn entry(cap: &str, name: &str, desc: &str, hash: &str) -> AgentSeed {
    AgentSeed { capability: cap.to_string(), name: name.to_string(), description: desc.to_string(), pack_hash: hash.to_string() }
}

#[test]
fn bot_defaults() {
    assert!(OperatingMode::Rogue.is_rogue());
    assert!(!OperatingMode::Partner.is_rogue());
    assert_eq!(default_max_tool_iterations(), 100);
    assert_eq!(default_max_response_tokens(), 40000);
    assert_eq!(default_max_context_tokens(), 100000);
    assert_eq!(default_safe_mode_max_queries(), 5);
    assert!(default_true());
    assert_eq!(default_max_graph_render_nodes(), 100);
    let hb = HeartbeatFileConfig::default();
    assert!(hb.enabled && hb.interval_minutes == 60 && hb.active_days.is_none());
    assert!(ServicesConfig::default().keystore_server_url.is_none());
}

#[test]
fn preset_hyperpacks_use_the_default_registry() {
    let preset = AgentPreset { name: None, hyperpacks: vec![preset_pack("alpha", Some("^1.0")), preset_pack("beta", None)], api_key: None };
    let packs = preset.to_hyperpacks();
    assert_eq!(packs.len(), 2);
    match &packs[0].path {
        HyperPackPath::WebServer { host, hyperpack_name, version } => {
            assert_eq!(host, "https://hyperpacks.org");
            assert_eq!(hyperpack_name, "alpha");
            assert_eq!(version.as_deref(), Some("^1.0"));
        },
        _ => panic!("registry pack expected"),
    }
}

#[test]
fn preset_merge_skips_known_names_and_is_idempotent() {
    let mut name = "StarkBot".to_string();
    let mut packs = vec![
        HyperPack { path: HyperPackPath::Git { url: "https://git/x".to_string(), commit: None } },
        HyperPack {
            path: HyperPackPath::WebServer {
                host: "https://hyperpacks.org".to_string(),
                hyperpack_name: "alpha".to_string(),
                version: None,
            },
        },
    ];
    let preset = AgentPreset {
        name: Some("Jarvis".to_string()),
        hyperpacks: vec![preset_pack("alpha", None), preset_pack("gamma", Some("2.0"))],
        api_key: None,
    };
    apply_preset(&mut name, &mut packs, &preset);
    assert_eq!(name, "Jarvis");
    let names: Vec<Option<&str>> = packs.iter().map(registry_name).collect();
    assert_eq!(names, vec![None, Some("alpha"), Some("gamma")]);
    apply_preset(&mut name, &mut packs, &preset);
    assert_eq!(packs.len(), 3);
    let empty_name = AgentPreset { name: Some(String::new()), hyperpacks: vec![], api_key: None };
    apply_preset(&mut name, &mut packs, &empty_name);
    assert_eq!(name, "Jarvis");
}

#[test]
fn merge_drops_duplicates_within_the_incoming_list() {
    let mut packs: Vec<HyperPack> = vec![];
    let incoming = AgentPreset {
        name: None,
        hyperpacks: vec![preset_pack("x", None), preset_pack("y", None), preset_pack("x", Some("2.0"))],
        api_key: None,
    }
    .to_hyperpacks();
    merge_hyperpacks(&mut packs, incoming);
    let names: Vec<Option<&str>> = packs.iter().map(registry_name).collect();
    assert_eq!(names, vec![Some("x"), Some("y")]);
    let git = HyperPack { path: HyperPackPath::Git { url: "https://git/x".to_string(), commit: None } };
    let git2 = HyperPack { path: HyperPackPath::Git { url: "https://git/x".to_string(), commit: None } };
    merge_hyperpacks(&mut packs, vec![git, git2]);
    assert_eq!(packs.len(), 4);
}

#[test]
fn backup_counts_items() {
    let mut b = BackupData::new("0xabc".to_string());
    assert_eq!(b.version, BACKUP_VERSION);
    assert!(b.is_empty());
    assert_eq!(b.item_count(), 0);
    b.api_keys.push(ApiKeyEntry { service_name: "openai".to_string(), api_key: "k".to_string() });
    b.bot_config = Some("BotConfig()".to_string());
    assert!(!b.is_empty());
    assert_eq!(b.item_count(), 2);
    assert_eq!(BackupData::default().version, 0);
}

#[test]
fn restore_skips_incomplete_entries() {
    let keys = vec![
        ApiKeyEntry { service_name: "a".to_string(), api_key: "1".to_string() },
        ApiKeyEntry { service_name: String::new(), api_key: "2".to_string() },
        ApiKeyEntry { service_name: "c".to_string(), api_key: String::new() },
        ApiKeyEntry { service_name: "d".to_string(), api_key: "4".to_string() },
    ];
    assert_eq!(restorable_api_keys(&keys), vec![0, 3]);
    let limits = vec![
        X402PaymentLimitEntry { asset: String::new(), max_amount: "1".to_string(), decimals: 6, display_name: "x".to_string(), address: None },
        X402PaymentLimitEntry { asset: "USDC".to_string(), max_amount: "1".to_string(), decimals: 6, display_name: "USDC".to_string(), address: None },
    ];
    assert_eq!(restorable_limits(&limits), vec![1]);
}

#[test]
fn restore_summary_text() {
    let r = RestoreResult { api_keys: 3, bot_settings: true, x402_payment_limits: 0, bot_config: false };
    assert_eq!(r.summary(), "Restored: 3 API keys, bot_settings=true, 0 x402 limits, bot_config=false");
}

#[test]
fn config_paths_under_the_backend() {
    let dir = "/srv/stark-bot/stark-backend";
    assert_eq!(repo_root(dir), "/srv/stark-bot");
    assert_eq!(repo_root("/top"), "/");
    assert_eq!(bot_config_dir(dir), "/srv/stark-bot/stark-backend/config");
    assert_eq!(bot_config_path(dir), "/srv/stark-bot/stark-backend/config/bot_config.ron");
    assert_eq!(bot_config_seed_path(dir), "/srv/stark-bot/config/bot_config.ron");
    assert_eq!(agent_preset_path(dir), "/srv/stark-bot/stark-backend/config/agent_preset.ron");
    assert_eq!(default_abis_dir(dir), "/srv/stark-bot/abis");
}

#[test]
fn self_url_prefers_the_public_url() {
    assert_eq!(self_url(Some("https://bot.example.com//"), Some("9000")), "https://bot.example.com");
    assert_eq!(self_url(None, Some("9000")), "http://localhost:9000");
    assert_eq!(self_url(None, None), "http://localhost:8080");
}

#[test]
fn config_from_environment_values() {
    let c = Config::from_env_values(None, Some("pk".to_string()), Some("0xderived".to_string()), None, None);
    assert_eq!(c.login_admin_public_address.as_deref(), Some("0xderived"));
    assert_eq!(c.port, 8080);
    assert_eq!(c.database_url, "./.db/stark.db");
    let c = Config::from_env_values(Some("0xadmin".to_string()), None, None, Some("+3000".to_string()), Some("db.sqlite".to_string()));
    assert_eq!(c.login_admin_public_address.as_deref(), Some("0xadmin"));
    assert_eq!(c.port, 3000);
    assert_eq!(c.database_url, "db.sqlite");
    let c = Config::from_env_values(None, None, Some("0xignored".to_string()), None, None);
    assert!(c.login_admin_public_address.is_none());
}

#[test]
fn port_numbers_parse_like_u16() {
    assert_eq!(parse_u16("8080"), Some(8080));
    assert_eq!(parse_u16("+1"), Some(1));
    assert_eq!(parse_u16("065535"), Some(65535));
    assert_eq!(parse_u16("65536"), None);
    assert_eq!(parse_u16("-1"), None);
    assert_eq!(parse_u16(""), None);
    assert_eq!(parse_u16("+"), None);
    assert_eq!(parse_u16(" 80"), None);
    for s in ["0", "1", "443", "65535", "99999", "12a"] {
        assert_eq!(parse_u16(s), s.parse::<u16>().ok());
    }
}

#[test]
fn lines_and_words_match_std() {
    for s in ["a\nb", "a\r\nb\r\n", "\n\n", "x\r", "", "one"] {
        let ours = lines(s);
        let std: Vec<String> = s.lines().map(|l| l.to_string()).collect();
        assert_eq!(ours, std);
    }
    for s in ["  a  b\tc\n", "", "   ", "x\u{a0}y"] {
        let ours = split_whitespace(s);
        let std: Vec<String> = s.split_whitespace().map(|w| w.to_string()).collect();
        assert_eq!(ours, std);
    }
}

#[test]
fn seed_fields_are_extracted_from_lines() {
    let line = r#"AgentSeed(capability: "crypto", name: "Crypto", description: "Swaps", pack_hash: "abc"),"#;
    assert_eq!(extract_field(line, "capability"), "crypto");
    assert_eq!(extract_field(line, "pack_hash"), "abc");
    assert_eq!(extract_field(line, "missing"), "");
    assert_eq!(extract_field(r#"name: "unterminated"#, "name"), "");
    assert_eq!(capability_from_filename("image_gen"), "image_gen");
    assert_eq!(capability_from_filename("custom"), "custom");
}

#[test]
fn existing_entries_are_loaded_from_a_seed_file() {
    let text = "StarflaskSeed(\n    agents: [\n        AgentSeed(capability: \"general\", name: \"General\", description: \"Chat\", pack_hash: \"h1\"),\n        AgentSeed(capability: \"crypto\", name: \"Crypto\", description: \"Tx\", pack_hash: \"sha256:...\"),\n        AgentSeed(capability: \"\", name: \"x\", description: \"y\", pack_hash: \"z\"),\n    ],\n)\n";
    let e = load_existing_entries(text);
    assert_eq!(e.len(), 2);
    assert_eq!((e[0].capability.as_str(), e[0].pack_hash.as_str()), ("general", "h1"));
    assert_eq!((e[1].capability.as_str(), e[1].pack_hash.as_str()), ("crypto", ""));
}

#[test]
fn seed_file_round_trips() {
    let agents = vec![
        entry("general", "General Assistant", "Chats", "h1"),
        entry("crypto", "Say \"hi\"", "Swaps", "h2"),
    ];
    let text = seed_config_text(&agents);
    assert!(text.starts_with("StarflaskSeed(\n    agents: [\n"));
    assert!(text.contains(r#"name: "Say \"hi\"""#));
    assert!(text.ends_with("    ],\n)\n"));
    let back = load_existing_entries(&text);
    assert_eq!(back.len(), 2);
    assert_eq!((back[0].name.as_str(), back[0].pack_hash.as_str()), ("General Assistant", "h1"));
}

#[test]
fn plain_seed_entries_read_back_unchanged() {
    let agents = vec![
        entry("general", "General Assistant", "Chats with users", "h1"),
        entry("crypto", "Crypto Agent: wallet", "Swaps: and sends tokens, name: x", "0xabc"),
        entry("video_gen", "Video", "", ""),
    ];
    let back = load_existing_entries(&seed_config_text(&agents));
    assert_eq!(back.len(), agents.len());
    for (a, b) in agents.iter().zip(back.iter()) {
        assert_eq!(a.capability, b.capability);
        assert_eq!(a.name, b.name);
        assert_eq!(a.description, b.description);
        assert_eq!(a.pack_hash, b.pack_hash);
    }
    assert!(matches!(pack_action("crypto", None, false, &back), PackAction::UseExisting(h) if h == "0xabc"));
    assert!(matches!(pack_action("video_gen", None, false, &back), PackAction::Provision));
}

#[test]
fn seeding_command_line() {
    let args = |v: &[&str]| v.iter().map(|s| s.to_string()).collect::<Vec<String>>();
    match parse_args(&args(&["seed-packs", "--force", "-o", "crypto"])) {
        ArgsOutcome::Run(a) => {
            assert!(a.force);
            assert_eq!(a.only.as_deref(), Some("crypto"));
        },
        other => panic!("unexpected {:?}", other),
    }
    assert!(matches!(parse_args(&args(&["seed-packs"])), ArgsOutcome::Run(a) if !a.force && a.only.is_none()));
    assert!(matches!(parse_args(&args(&["seed-packs", "--only"])), ArgsOutcome::MissingOnlyValue));
    assert!(matches!(parse_args(&args(&["seed-packs", "-h", "--bogus"])), ArgsOutcome::Help));
    assert!(matches!(parse_args(&args(&["seed-packs", "--bogus"])), ArgsOutcome::Unknown(a) if a == "--bogus"));
}

#[test]
fn seeding_skips_packs_with_hashes() {
    let existing = vec![entry("general", "G", "", "h1"), entry("crypto", "C", "", ""), entry("general", "G", "", "h9")];
    assert!(matches!(pack_action("general", None, false, &existing), PackAction::UseExisting(h) if h == "h9"));
    assert!(matches!(pack_action("general", None, true, &existing), PackAction::Provision));
    assert!(matches!(pack_action("crypto", None, false, &existing), PackAction::Provision));
    assert!(matches!(pack_action("general", Some("crypto"), false, &existing), PackAction::KeepExisting(h) if h == "h9"));
    assert!(matches!(pack_action("video_gen", Some("crypto"), false, &existing), PackAction::Skip));
    assert!(matches!(pack_action("crypto", Some("crypto"), true, &existing), PackAction::Provision));
}

#[test]
fn seeding_keeps_externally_provisioned_entries() {
    let mut results = vec![entry("general", "G", "", "h1")];
    let existing = vec![entry("general", "G", "", "old"), entry("social", "S", "", "s1"), entry("empty", "E", "", "")];
    preserve_unseen(&mut results, &existing);
    let caps: Vec<&str> = results.iter().map(|r| r.capability.as_str()).collect();
    assert_eq!(caps, vec!["general", "social"]);
}

#[test]
fn seeding_locations() {
    assert_eq!(find_packs_dir(&vec![false, true, true]), Some("packs".to_string()));
    assert_eq!(find_packs_dir(&vec![false, false, false]), None);
    assert_eq!(find_config_path(&vec![false, true]), "../config/starflask_seed.ron");
    assert_eq!(find_config_path(&vec![false, false]), "config/starflask_seed.ron");
}

#[test]
fn abi_index_reads_what_was_registered() {
    let mut index = AbiIndex::new();
    assert_eq!(index.get("erc20"), None);
    index.register_abi_content("erc20", "{\"abi\": []}");
    index.register_abi_content("router", "{}");
    index.register_abi_content("erc20", "{\"abi\": [1]}");
    assert_eq!(index.get("erc20").as_deref(), Some("{\"abi\": [1]}"));
    assert_eq!(index.get("router").as_deref(), Some("{}"));
    index.clear_abi_index();
    assert_eq!(index.get("router"), None);
}

#[test]
fn abis_come_from_files_then_the_index() {
    let mut index = AbiIndex::new();
    index.register_abi_content("erc20", "{}");
    assert_eq!(abi_file_path("/srv/stark-bot/abis", "erc20"), "/srv/stark-bot/abis/erc20.json");
    assert!(matches!(abi_source("/srv/abis", "erc20", true, &index), AbiSource::File(p) if p == "/srv/abis/erc20.json"));
    assert!(matches!(abi_source("/srv/abis", "erc20", false, &index), AbiSource::Content(c) if c == "{}"));
    assert!(matches!(
        abi_source("/srv/abis", "weth", false, &index),
        AbiSource::Missing(m) if m == "ABI 'weth' not found in /srv/abis or content index"
    ));
}

#[test]
fn setup_status_for_the_pages() {
    assert!(starflask_api_key_set(true, None));
    assert!(starflask_api_key_set(false, Some("sk_1")));
    assert!(!starflask_api_key_set(false, Some("")));
    assert!(!starflask_api_key_set(false, None));
    let j = config_status_json(ConfigStatus {
        login_configured: true,
        burner_wallet_configured: false,
        wallet_configured: true,
        guest_dashboard_enabled: false,
        wallet_address: Some("0xabc".to_string()),
        wallet_mode: None,
        starflask_configured: true,
        starflask_api_key_set: true,
        starflask_agents_provisioned: 3,
    });
    assert_eq!(j.get("login_configured").and_then(|v| v.as_bool()), Some(true));
    assert_eq!(j.get("burner_wallet_configured").and_then(|v| v.as_bool()), Some(false));
    assert_eq!(j.get_str("wallet_address").map(|s| s.as_str()), Some("0xabc"));
    assert!(j.get("wallet_mode").map(|v| v.is_null()).unwrap_or(false));
    assert_eq!(j.get("starflask_agents_provisioned").and_then(|v| v.as_u64()), Some(3));
}
