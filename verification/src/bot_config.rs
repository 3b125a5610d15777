//! Bot configuration values: operating mode, defaults, hyperpack sources and
//! the merge of an agent preset into the configuration.

use vstd::prelude::*;
use crate::text::{owned, same_text};

verus! {

/// Operating mode for the bot.
#[derive(Clone, Copy, Debug, PartialEq, Eq, Structural)]
pub enum OperatingMode {
    /// Autonomous actions without user confirmation.
    Rogue,
    /// Requires user confirmation for sensitive operations.
    Partner,
}

impl OperatingMode {
    /// Whether the bot acts without asking.
    pub fn is_rogue(self) -> (r: bool)
        ensures
            r == (self == OperatingMode::Rogue),
    {
        match self {
            OperatingMode::Rogue => true,
            OperatingMode::Partner => false,
        }
    }
}

/// Default cap on tool iterations per request.
pub fn default_max_tool_iterations() -> (r: i32)
    ensures
        r == 100,
{
    100
}

/// Default cap on response tokens.
pub fn default_max_response_tokens() -> (r: i32)
    ensures
        r == 40000,
{
    40000
}

/// Default cap on context tokens.
pub fn default_max_context_tokens() -> (r: i32)
    ensures
        r == 100000,
{
    100000
}

/// Default number of safe-mode queries allowed per ten minutes.
pub fn default_safe_mode_max_queries() -> (r: i32)
    ensures
        r == 5,
{
    5
}

/// Default for flags that are on unless configured off.
pub fn default_true() -> (r: bool)
    ensures
        r,
{
    true
}

/// Default cap on nodes drawn in a graph render.
pub fn default_max_graph_render_nodes() -> (r: i32)
    ensures
        r == 100,
{
    100
}

/// External service URLs; all unset by default.
#[derive(Clone, Debug)]
pub struct ServicesConfig {
    pub whisper_server_url: Option<String>,
    pub embeddings_server_url: Option<String>,
    pub http_proxy_url: Option<String>,
    pub keystore_server_url: Option<String>,
}

impl Default for ServicesConfig {
    fn default() -> (r: ServicesConfig)
        ensures
            r.whisper_server_url is None,
            r.embeddings_server_url is None,
            r.http_proxy_url is None,
            r.keystore_server_url is None,
    {
        ServicesConfig {
            whisper_server_url: None,
            embeddings_server_url: None,
            http_proxy_url: None,
            keystore_server_url: None,
        }
    }
}

/// Heartbeat scheduling settings.
#[derive(Clone, Debug)]
pub struct HeartbeatFileConfig {
    pub enabled: bool,
    pub interval_minutes: i32,
    pub active_hours_start: Option<String>,
    pub active_hours_end: Option<String>,
    pub active_days: Option<String>,
}

impl Default for HeartbeatFileConfig {
    fn default() -> (r: HeartbeatFileConfig)
        ensures
            r.enabled,
            r.interval_minutes == 60,
            r.active_hours_start is None,
            r.active_hours_end is None,
            r.active_days is None,
    {
        HeartbeatFileConfig {
            enabled: true,
            interval_minutes: 60,
            active_hours_start: None,
            active_hours_end: None,
            active_days: None,
        }
    }
}

/// Where a hyperpack is fetched from.
#[derive(Clone, Debug)]
pub enum HyperPackPath {
    /// A git repository, optionally pinned to a commit.
    Git { url: String, commit: Option<String> },
    /// A hyperpack registry, optionally with a version constraint.
    WebServer { host: String, hyperpack_name: String, version: Option<String> },
}

/// A hyperpack dependency.
#[derive(Clone, Debug)]
pub struct HyperPack {
    pub path: HyperPackPath,
}

/// Agent preset pushed from the control plane.
#[derive(Clone, Debug)]
pub struct AgentPreset {
    pub name: Option<String>,
    pub hyperpacks: Vec<AgentPresetHyperpack>,
    pub api_key: Option<String>,
}

/// A hyperpack entry inside an agent preset.
#[derive(Clone, Debug)]
pub struct AgentPresetHyperpack {
    pub id: String,
    pub name: String,
    pub slug: String,
    pub tags: Vec<String>,
    pub version: Option<String>,
}

/// The registry that preset hyperpacks are fetched from.
pub open spec fn default_hyperpack_registry() -> Seq<char> {
    "https://hyperpacks.org"@
}

/// The registry name of a hyperpack, when it comes from a registry.
pub open spec fn registry_name(p: HyperPack) -> Option<Seq<char>> {
    match p.path {
        HyperPackPath::WebServer { hyperpack_name, .. } => Some(hyperpack_name@),
        HyperPackPath::Git { .. } => None,
    }
}

/// The hyperpack that a preset entry stands for: the default registry, the
/// entry's slug and its version.
pub open spec fn is_preset_pack(p: HyperPack, hp: AgentPresetHyperpack) -> bool {
    match p.path {
        HyperPackPath::WebServer { host, hyperpack_name, version } => {
            &&& host@ == default_hyperpack_registry()
            &&& hyperpack_name == hp.slug
            &&& version == hp.version
        },
        HyperPackPath::Git { .. } => false,
    }
}

fn clone_opt(o: &Option<String>) -> (r: Option<String>)
    ensures
        r == *o,
{
    match o {
        Some(s) => Some(s.clone()),
        None => None,
    }
}

/// An identical hyperpack.
pub fn copy_pack(p: &HyperPack) -> (r: HyperPack)
    ensures
        r == *p,
{
    match &p.path {
        HyperPackPath::Git { url, commit } => HyperPack {
            path: HyperPackPath::Git { url: url.clone(), commit: clone_opt(commit) },
        },
        HyperPackPath::WebServer { host, hyperpack_name, version } => HyperPack {
            path: HyperPackPath::WebServer {
                host: host.clone(),
                hyperpack_name: hyperpack_name.clone(),
                version: clone_opt(version),
            },
        },
    }
}

impl AgentPreset {
    /// The preset's hyperpacks as registry hyperpacks, in order.
    pub fn to_hyperpacks(&self) -> (r: Vec<HyperPack>)
        ensures
            r@.len() == self.hyperpacks@.len(),
            forall|i: int| 0 <= i < r@.len() ==> is_preset_pack(#[trigger] r@[i], self.hyperpacks@[i]),
    {
        let mut r: Vec<HyperPack> = Vec::new();
        let mut i: usize = 0;
        while i < self.hyperpacks.len()
            invariant
                i <= self.hyperpacks@.len(),
                r@.len() == i,
                forall|k: int| 0 <= k < i ==> is_preset_pack(#[trigger] r@[k], self.hyperpacks@[k]),
            decreases self.hyperpacks@.len() - i,
        {
            let hp = &self.hyperpacks[i];
            let host = owned("https://hyperpacks.org");
            let p = HyperPack {
                path: HyperPackPath::WebServer {
                    host,
                    hyperpack_name: hp.slug.clone(),
                    version: clone_opt(&hp.version),
                },
            };
            r.push(p);
            i = i + 1;
        }
        r
    }
}

/// Whether some hyperpack of `s` comes from a registry under `name`.
pub open spec fn has_registry_name(s: Seq<HyperPack>, name: Seq<char>) -> bool {
    exists|i: int| 0 <= i < s.len() && #[trigger] registry_name(s[i]) == Some(name)
}

/// The hyperpacks after merging `incoming` into `existing`, one at a time:
/// a registry pack is dropped when a pack of its name is already there,
/// whether it was there before or came earlier in `incoming`.
pub open spec fn merged_packs(existing: Seq<HyperPack>, incoming: Seq<HyperPack>) -> Seq<HyperPack>
    decreases incoming.len(),
{
    if incoming.len() == 0 {
        existing
    } else {
        let prev = merged_packs(existing, incoming.drop_last());
        let p = incoming.last();
        match registry_name(p) {
            Some(n) => if has_registry_name(prev, n) { prev } else { prev.push(p) },
            None => prev.push(p),
        }
    }
}

/// The bot name after applying a preset: its name when set and non-empty.
pub open spec fn preset_bot_name(current: Seq<char>, preset_name: Option<String>) -> Seq<char> {
    match preset_name {
        Some(n) => if n@.len() > 0 { n@ } else { current },
        None => current,
    }
}

/// Whether some hyperpack of `packs` comes from a registry under `name`.
fn has_registry_pack(packs: &Vec<HyperPack>, name: &str) -> (r: bool)
    ensures
        r == has_registry_name(packs@, name@),
{
    let mut j: usize = 0;
    while j < packs.len()
        invariant
            j <= packs@.len(),
            forall|k: int| 0 <= k < j ==> #[trigger] registry_name(packs@[k]) != Some(name@),
        decreases packs@.len() - j,
    {
        match &packs[j].path {
            HyperPackPath::WebServer { hyperpack_name, .. } => {
                if same_text(hyperpack_name.as_str(), name) {
                    assert(registry_name(packs@[j as int]) == Some(name@));
                    return true;
                }
            },
            HyperPackPath::Git { .. } => {},
        }
        j = j + 1;
    }
    false
}

/// Appends the incoming hyperpacks in order, skipping each registry pack
/// whose name is already present.
pub fn merge_hyperpacks(packs: &mut Vec<HyperPack>, incoming: Vec<HyperPack>)
    ensures
        final(packs)@ == merged_packs(old(packs)@, incoming@),
{
    let ghost old_packs = packs@;
    let mut i: usize = 0;
    assert(incoming@.take(0) =~= Seq::<HyperPack>::empty());
    while i < incoming.len()
        invariant
            i <= incoming@.len(),
            packs@ == merged_packs(old_packs, incoming@.take(i as int)),
        decreases incoming@.len() - i,
    {
        let p = &incoming[i];
        let skip = match &p.path {
            HyperPackPath::WebServer { hyperpack_name, .. } => has_registry_pack(packs, hyperpack_name.as_str()),
            HyperPackPath::Git { .. } => false,
        };
        proof {
            let t = incoming@.take(i + 1);
            assert(t.drop_last() =~= incoming@.take(i as int));
            assert(t.last() == incoming@[i as int]);
        }
        if !skip {
            packs.push(copy_pack(p));
        }
        i = i + 1;
    }
    assert(incoming@.take(incoming@.len() as int) =~= incoming@);
}

/// Applies an agent preset: its non-empty name replaces the bot name, and
/// its hyperpacks are merged in as registry hyperpacks.
pub fn apply_preset(bot_name: &mut String, packs: &mut Vec<HyperPack>, preset: &AgentPreset)
    ensures
        final(bot_name)@ == preset_bot_name(old(bot_name)@, preset.name),
        exists|incoming: Seq<HyperPack>|
            {
                &&& incoming.len() == preset.hyperpacks@.len()
                &&& forall|i: int| 0 <= i < incoming.len() ==> is_preset_pack(#[trigger] incoming[i], preset.hyperpacks@[i])
                &&& final(packs)@ == merged_packs(old(packs)@, incoming)
            },
{
    match &preset.name {
        Some(name) => {
            if !name.as_str().is_empty() {
                *bot_name = name.clone();
            }
        },
        None => {},
    }
    let incoming = preset.to_hyperpacks();
    let ghost inc = incoming@;
    merge_hyperpacks(packs, incoming);
    assert(forall|i: int| 0 <= i < inc.len() ==> is_preset_pack(#[trigger] inc[i], preset.hyperpacks@[i]));
}

/// Every registry name among the incoming hyperpacks is present after the merge.
proof fn lemma_merge_has_incoming_names(existing: Seq<HyperPack>, incoming: Seq<HyperPack>, i: int)
    requires
        0 <= i < incoming.len(),
        registry_name(incoming[i]) is Some,
    ensures
        has_registry_name(merged_packs(existing, incoming), registry_name(incoming[i])->Some_0),
    decreases incoming.len(),
{
    let n = registry_name(incoming[i])->Some_0;
    let prev = merged_packs(existing, incoming.drop_last());
    let m = merged_packs(existing, incoming);
    if i < incoming.len() - 1 {
        assert(incoming.drop_last()[i] == incoming[i]);
        lemma_merge_has_incoming_names(existing, incoming.drop_last(), i);
        let j = choose|j: int| 0 <= j < prev.len() && #[trigger] registry_name(prev[j]) == Some(n);
        assert(m[j] == prev[j]);
    } else if !has_registry_name(prev, n) {
        assert(m[prev.len() as int] == incoming[i]);
    }
}

/// Merging into packs that already hold every incoming registry name changes nothing.
proof fn lemma_merge_of_known_names(existing: Seq<HyperPack>, incoming: Seq<HyperPack>)
    requires
        forall|i: int| 0 <= i < incoming.len() ==> match #[trigger] registry_name(incoming[i]) {
            Some(n) => has_registry_name(existing, n),
            None => false,
        },
    ensures
        merged_packs(existing, incoming) == existing,
    decreases incoming.len(),
{
    if incoming.len() > 0 {
        let d = incoming.drop_last();
        assert forall|i: int| 0 <= i < d.len() implies match #[trigger] registry_name(d[i]) {
            Some(n) => has_registry_name(existing, n),
            None => false,
        } by {
            assert(d[i] == incoming[i]);
        }
        lemma_merge_of_known_names(existing, d);
        let k = incoming.len() - 1;
        assert(registry_name(incoming[k]) is Some);
    }
}

/// Merging the same registry hyperpacks a second time changes nothing:
/// every one of them is present by name after the first merge.
pub proof fn law_merge_idempotent(existing: Seq<HyperPack>, incoming: Seq<HyperPack>)
    requires
        forall|i: int| 0 <= i < incoming.len() ==> (#[trigger] registry_name(incoming[i])) is Some,
    ensures
        merged_packs(merged_packs(existing, incoming), incoming) == merged_packs(existing, incoming),
{
    let m = merged_packs(existing, incoming);
    assert forall|i: int| 0 <= i < incoming.len() implies match #[trigger] registry_name(incoming[i]) {
        Some(n) => has_registry_name(m, n),
        None => false,
    } by {
        lemma_merge_has_incoming_names(existing, incoming, i);
    }
    lemma_merge_of_known_names(m, incoming);
}

/// A merge keeps the existing hyperpacks in front, and every registry pack
/// that it appends bears a name that no hyperpack before it has.
pub proof fn law_merge_appends_new_names_only(existing: Seq<HyperPack>, incoming: Seq<HyperPack>)
    ensures
        merged_packs(existing, incoming).len() >= existing.len(),
        merged_packs(existing, incoming).take(existing.len() as int) == existing,
        forall|i: int|
            existing.len() <= i < merged_packs(existing, incoming).len() ==> match registry_name(
                #[trigger] merged_packs(existing, incoming)[i],
            ) {
                Some(n) => !has_registry_name(merged_packs(existing, incoming).take(i), n),
                None => true,
            },
    decreases incoming.len(),
{
    let m = merged_packs(existing, incoming);
    if incoming.len() == 0 {
        assert(m.take(existing.len() as int) =~= existing);
    } else {
        let prev = merged_packs(existing, incoming.drop_last());
        law_merge_appends_new_names_only(existing, incoming.drop_last());
        if m != prev {
            assert(m.take(existing.len() as int) =~= prev.take(existing.len() as int));
            assert forall|i: int| existing.len() <= i < m.len() implies match registry_name(#[trigger] m[i]) {
                Some(n) => !has_registry_name(m.take(i), n),
                None => true,
            } by {
                if i < prev.len() {
                    assert(m[i] == prev[i]);
                    assert(m.take(i) =~= prev.take(i));
                } else {
                    assert(m.take(i) =~= prev);
                }
            }
        }
    }
}

} // verus!
