use stark_backend::provisioning::{ProvisionEvent, ProvisionStep, SeedProvisioning};
use stark_backend::registry::StarflaskAgent;
use stark_backend::seed::AgentSeed;

fn entry(cap: &str, hash: &str) -> AgentSeed {
    AgentSeed {
        capability: cap.to_string(),
        name: format!("{} agent", cap),
        description: format!("Does {}", cap),
        pack_hash: hash.to_string(),
    }
}

fn stored(cap: &str, id: &str, hashes: &[&str], description: &str) -> StarflaskAgent {
    StarflaskAgent {
        capability: cap.to_string(),
        agent_id: id.to_string(),
        name: format!("{} agent", cap),
        description: description.to_string(),
        pack_hashes: hashes.iter().map(|h| h.to_string()).collect(),
        status: "synced".to_string(),
    }
}

fn lookup_of(step: &ProvisionStep) -> &str {
    match step {
        ProvisionStep::Lookup { capability } => capability.as_str(),
        other => panic!("expected a lookup, got {:?}", other),
    }
}

#[test]
fn provisioning_skips_installs_and_creates() {
    let seed = vec![entry("swap", "h1"), entry("bridge", "h2"), entry("news", "h3")];
    let mut run = SeedProvisioning::new(seed, Some("proj-1".to_string()));

    let step = run.next(ProvisionEvent::Next);
    assert_eq!(lookup_of(&step), "swap");
    let step = run.next(ProvisionEvent::RowLooked(Some(stored("swap", "id-swap", &["h1"], "x"))));
    assert!(matches!(step, ProvisionStep::CheckRemote { ref agent_id } if agent_id == "id-swap"));
    // Already provisioned: skipped.
    let step = run.next(ProvisionEvent::RemoteChecked(true));
    assert_eq!(lookup_of(&step), "bridge");

    let step = run.next(ProvisionEvent::RowLooked(Some(stored("bridge", "id-bridge", &[], ""))));
    assert!(matches!(step, ProvisionStep::CheckRemote { .. }));
    match run.next(ProvisionEvent::RemoteChecked(true)) {
        ProvisionStep::InstallOnExisting { agent_id, capability, pack_hash, new_description, row } => {
            assert_eq!(agent_id, "id-bridge");
            assert_eq!(capability, "bridge");
            assert_eq!(pack_hash, "h2");
            assert_eq!(new_description, Some("Does bridge".to_string()));
            assert_eq!(row.pack_hashes, vec!["h2".to_string()]);
            assert_eq!(row.status, "provisioned");
            assert_eq!(row.agent_id, "id-bridge");
        },
        other => panic!("unexpected {:?}", other),
    }
    let step = run.next(ProvisionEvent::Next);
    assert_eq!(lookup_of(&step), "news");

    let step = run.next(ProvisionEvent::RowLooked(None));
    assert!(matches!(step, ProvisionStep::Create { delete_row: None, ref name } if name == "news agent"));
    match run.next(ProvisionEvent::Created(Some("id-news".to_string()))) {
        ProvisionStep::SetUpNew { agent_id, project, capability, description, pack_hash, row } => {
            assert_eq!(agent_id, "id-news");
            assert_eq!(project, Some("proj-1".to_string()));
            assert_eq!(capability, "news");
            assert_eq!(description, "Does news");
            assert_eq!(pack_hash, "h3");
            assert_eq!(row.capability, "news");
        },
        other => panic!("unexpected {:?}", other),
    }
    let step = run.next(ProvisionEvent::Stored(true));
    assert!(matches!(step, ProvisionStep::Announce { ref capability, ref agent_id, .. }
        if capability == "news" && agent_id == "id-news"));
    match run.next(ProvisionEvent::Next) {
        ProvisionStep::Finish(caps) => assert_eq!(caps, vec!["bridge".to_string(), "news".to_string()]),
        other => panic!("unexpected {:?}", other),
    }
}

#[test]
fn provisioning_replaces_ghosts_and_passes_over_failures() {
    let seed = vec![entry("ghost", "h1"), entry("broken", "h2"), entry("unsaved", "h3")];
    let mut run = SeedProvisioning::new(seed, None);
    run.next(ProvisionEvent::Next);
    run.next(ProvisionEvent::RowLooked(Some(stored("ghost", "gone", &["h1"], "x"))));
    let step = run.next(ProvisionEvent::RemoteChecked(false));
    assert!(matches!(step, ProvisionStep::Create { delete_row: Some(ref c), .. } if c == "ghost"));
    match run.next(ProvisionEvent::Created(Some("id-new".to_string()))) {
        ProvisionStep::SetUpNew { project, .. } => assert_eq!(project, None),
        other => panic!("unexpected {:?}", other),
    }
    run.next(ProvisionEvent::Stored(true));
    let step = run.next(ProvisionEvent::Next);
    assert_eq!(lookup_of(&step), "broken");
    run.next(ProvisionEvent::RowLooked(None));
    // Creation failed: on to the next entry.
    let step = run.next(ProvisionEvent::Created(None));
    assert_eq!(lookup_of(&step), "unsaved");
    run.next(ProvisionEvent::RowLooked(None));
    run.next(ProvisionEvent::Created(Some("id-u".to_string())));
    // The row could not be stored: not provisioned, not announced.
    match run.next(ProvisionEvent::Stored(false)) {
        ProvisionStep::Finish(caps) => assert_eq!(caps, vec!["ghost".to_string()]),
        other => panic!("unexpected {:?}", other),
    }
}

#[test]
fn provisioning_stops_on_placeholder_hashes() {
    let seed = vec![entry("swap", "sha256:..."), entry("news", "...")];
    let mut run = SeedProvisioning::new(seed, None);
    match run.next(ProvisionEvent::Next) {
        ProvisionStep::Finish(caps) => assert!(caps.is_empty()),
        other => panic!("unexpected {:?}", other),
    }
    let mut empty = SeedProvisioning::new(vec![], None);
    assert!(matches!(empty.next(ProvisionEvent::Next), ProvisionStep::Finish(ref caps) if caps.is_empty()));
}
