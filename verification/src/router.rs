//! Command routing decisions: which agent a command goes to, how a polled
//! session is tracked, how session log entries are summarized, and how a
//! finished session becomes a command output.

use vstd::prelude::*;
use crate::bridge::{
    extract_urls_from_text, media_urls, parse_media_result, parse_text_result, strings_of, text_result, texts,
    urls_in_text,
};
use crate::crypto::utf8_len;
use crate::instruction::{
    decode_all, decoded_list, instrs_view, parse_session_result, session_instructions, CryptoInstruction, InstrView,
};
use crate::json::{
    json_as_array, json_as_bool, json_as_str, json_as_u64, json_compact, json_compact_text, json_get, json_get_str,
    json_parse, parse_json, Json,
};
use crate::text::{
    chars_of, contains_seq, lines, lines_of, owned, push_str, same_text, slice_range, starts_with, starts_with_exec,
    str_contains, string_from,
};

verus! {

/// What `uuid::Uuid::parse_str` gives for a text: the UUID as a 128-bit
/// number, or the text of the parse error.
pub uninterp spec fn uuid_parse(s: Seq<char>) -> Result<u128, Seq<char>>;

/// `uuid::Uuid::parse_str`, the UUID taken as its 128-bit value and the
/// error as its `Display` text.
#[verifier::external_body]
pub(crate) fn parse_uuid(s: &str) -> (r: Result<u128, String>)
    ensures
        match r {
            Ok(u) => uuid_parse(s@) == Ok::<u128, Seq<char>>(u),
            Err(e) => uuid_parse(s@) == Err::<u128, Seq<char>>(e@),
        },
{
    match uuid::Uuid::parse_str(s) {
        Ok(u) => Ok(u.as_u128()),
        Err(e) => Err(e.to_string()),
    }
}

/// A text's UUID, when it is one.
pub open spec fn uuid_value(s: Seq<char>) -> Option<u128> {
    match uuid_parse(s) {
        Ok(u) => Some(u),
        Err(_) => None,
    }
}

/// The default agent: the configured agent id (`STARFLASK_AGENT_ID`), when
/// it is set and is a UUID.
pub fn default_agent_id(configured: Option<&str>) -> (r: Option<u128>)
    ensures
        r == match configured {
            Some(s) => uuid_value(s@),
            None => None::<u128>,
        },
{
    match configured {
        Some(s) => match parse_uuid(s) {
            Ok(u) => Some(u),
            Err(_) => None,
        },
        None => None,
    }
}

/// The session id of a Starflask response: its `id` string as a UUID.
pub open spec fn session_id_of(resp: Json) -> Result<u128, Seq<char>> {
    match json_get_str(resp, "id"@) {
        None => Err("No session id in response: "@ + json_compact_text(resp)),
        Some(id) => match uuid_parse(id) {
            Ok(u) => Ok(u),
            Err(e) => Err("Invalid session UUID '"@ + id + "': "@ + e),
        },
    }
}

/// Extracts the session UUID of a Starflask response.
pub fn extract_session_id(resp: &Json) -> (r: Result<u128, String>)
    ensures
        match r {
            Ok(u) => session_id_of(*resp) == Ok::<u128, Seq<char>>(u),
            Err(e) => session_id_of(*resp) == Err::<u128, Seq<char>>(e@),
        },
{
    let id = match resp.get_str("id") {
        Some(id) => id,
        None => {
            let mut v = chars_of("No session id in response: ");
            let t = json_compact(resp);
            push_str(&mut v, t.as_str());
            return Err(string_from(v.as_slice()));
        },
    };
    match parse_uuid(id.as_str()) {
        Ok(u) => Ok(u),
        Err(e) => {
            let mut v = chars_of("Invalid session UUID '");
            push_str(&mut v, id.as_str());
            push_str(&mut v, "': ");
            push_str(&mut v, e.as_str());
            Err(string_from(v.as_slice()))
        },
    }
}

// ───────────────────────── log entries ─────────────────────────

/// The places a log entry may list tool calls: `tool_calls`, then
/// `payload.tool_calls`, those present.
pub open spec fn call_candidates(entry: Json) -> Seq<Json> {
    let a: Seq<Json> = match json_get(entry, "tool_calls"@) {
        Some(x) => seq![x],
        None => Seq::empty(),
    };
    let b: Seq<Json> = match json_get(entry, "payload"@) {
        Some(p) => match json_get(p, "tool_calls"@) {
            Some(x) => seq![x],
            None => Seq::empty(),
        },
        None => Seq::empty(),
    };
    a + b
}

/// The `name` strings of a list of tool calls, in order.
pub open spec fn call_names(arr: Seq<Json>) -> Seq<Seq<char>>
    decreases arr.len(),
{
    if arr.len() == 0 {
        Seq::empty()
    } else {
        call_names(arr.drop_last()) + match json_get_str(arr.last(), "name"@) {
            Some(n) => seq![n],
            None => Seq::empty(),
        }
    }
}

/// The names of the first candidate that is an array with named calls.
pub open spec fn names_from_candidates(cands: Seq<Json>) -> Seq<Seq<char>>
    decreases cands.len(),
{
    if cands.len() == 0 {
        Seq::empty()
    } else {
        let names = match json_as_array(cands[0]) {
            Some(arr) => call_names(arr),
            None => Seq::empty(),
        };
        if names.len() > 0 {
            names
        } else {
            names_from_candidates(cands.drop_first())
        }
    }
}

/// The first line of a text (`lines().next()`, empty when there is none).
pub open spec fn first_line(s: Seq<char>) -> Seq<char> {
    if lines_of(s).len() > 0 {
        lines_of(s)[0]
    } else {
        Seq::empty()
    }
}

/// The tool names of a log entry: the names of its tool calls, else its
/// `name`, else the first line of the entry when it is a string (kept when
/// non-empty and under 50 bytes).
pub open spec fn tool_names(entry: Json) -> Seq<Seq<char>> {
    let from_calls = names_from_candidates(call_candidates(entry));
    if from_calls.len() > 0 {
        from_calls
    } else if json_get_str(entry, "name"@) is Some {
        seq![json_get_str(entry, "name"@)->Some_0]
    } else if json_as_str(entry) is Some && first_line(json_as_str(entry)->Some_0).len() > 0 && utf8_len(
        first_line(json_as_str(entry)->Some_0),
    ) < 50 {
        seq![first_line(json_as_str(entry)->Some_0)]
    } else {
        Seq::empty()
    }
}

fn call_names_exec(arr: &Vec<Json>) -> (r: Vec<String>)
    ensures
        texts(r@) == call_names(arr@),
{
    let mut out: Vec<String> = Vec::new();
    let mut i: usize = 0;
    assert(arr@.take(0) =~= Seq::<Json>::empty());
    while i < arr.len()
        invariant
            i <= arr@.len(),
            texts(out@) == call_names(arr@.take(i as int)),
        decreases arr@.len() - i,
    {
        let ghost before = texts(out@);
        let ghost t = arr@.take(i + 1);
        assert(t.drop_last() =~= arr@.take(i as int));
        assert(t.last() == arr@[i as int]);
        match arr[i].get_str("name") {
            Some(n) => {
                out.push(n.clone());
                assert(texts(out@) =~= before + seq![n@]);
            },
            None => {
                assert(before + Seq::<Seq<char>>::empty() =~= before);
            },
        }
        i = i + 1;
    }
    assert(arr@.take(i as int) =~= arr@);
    out
}

fn candidate_names(c: Option<&Json>) -> (r: Vec<String>)
    ensures
        texts(r@) == match c {
            Some(x) => match json_as_array(*x) {
                Some(arr) => call_names(arr),
                None => Seq::empty(),
            },
            None => Seq::<Seq<char>>::empty(),
        },
{
    match c {
        Some(x) => match x.as_array() {
            Some(arr) => call_names_exec(arr),
            None => {
                let r: Vec<String> = Vec::new();
                assert(texts(r@) =~= Seq::<Seq<char>>::empty());
                r
            },
        },
        None => {
            let r: Vec<String> = Vec::new();
            assert(texts(r@) =~= Seq::<Seq<char>>::empty());
            r
        },
    }
}

fn payload_calls(entry: &Json) -> (r: Option<&Json>)
    ensures
        match r {
            Some(x) => json_get(*entry, "payload"@) is Some && json_get(json_get(*entry, "payload"@)->Some_0, "tool_calls"@)
                == Some(*x),
            None => match json_get(*entry, "payload"@) {
                Some(p) => json_get(p, "tool_calls"@) is None,
                None => true,
            },
        },
{
    match entry.get("payload") {
        Some(p) => p.get("tool_calls"),
        None => None,
    }
}

/// Extracts the tool names of a log entry.
pub fn extract_tool_names(entry: &Json) -> (r: Vec<String>)
    ensures
        texts(r@) == tool_names(*entry),
{
    let ghost cands = call_candidates(*entry);
    let first = entry.get("tool_calls");
    let second = payload_calls(entry);
    proof {
        reveal_with_fuel(names_from_candidates, 3);
        if first is Some {
            assert(cands[0] == *first->Some_0);
            if second is Some {
                assert(cands.drop_first() =~= seq![*second->Some_0]);
            } else {
                assert(cands.drop_first() =~= Seq::<Json>::empty());
            }
        } else if second is Some {
            assert(cands =~= seq![*second->Some_0]);
        } else {
            assert(cands =~= Seq::<Json>::empty());
        }
    }
    let a = candidate_names(first);
    if a.len() > 0 {
        return a;
    }
    let b = candidate_names(second);
    if b.len() > 0 {
        return b;
    }
    let mut out: Vec<String> = Vec::new();
    match entry.get_str("name") {
        Some(n) => {
            out.push(n.clone());
            assert(texts(out@) =~= seq![n@]);
            return out;
        },
        None => {},
    }
    match entry.as_str() {
        Some(content) => {
            let ls = lines(content.as_str());
            let fl = if ls.len() > 0 {
                assert(ls@.map_values(|l: String| l@)[0] == ls@[0]@);
                ls[0].clone()
            } else {
                String::new()
            };
            if !fl.as_str().is_empty() && crate::crypto::str_byte_len(fl.as_str()) < 50 {
                out.push(fl);
                assert(texts(out@) =~= seq![first_line(content@)]);
                return out;
            }
        },
        None => {},
    }
    assert(texts(out@) =~= Seq::<Seq<char>>::empty());
    out
}

/// The delegation target named by one tool call: a `delegate` call whose
/// `arguments` (an object, or a string holding one) has an `agent_name`.
pub open spec fn call_target(t: Json) -> Option<Seq<char>> {
    if json_get_str(t, "name"@) == Some("delegate"@) {
        match json_get(t, "arguments"@) {
            Some(a) => {
                let obj = match json_as_str(a) {
                    Some(s) => json_parse(s),
                    None => Some(a),
                };
                match obj {
                    Some(o) => json_get_str(o, "agent_name"@),
                    None => None,
                }
            },
            None => None,
        }
    } else {
        None
    }
}

/// The first delegation target among tool calls.
pub open spec fn target_in_calls(arr: Seq<Json>) -> Option<Seq<char>>
    decreases arr.len(),
{
    if arr.len() == 0 {
        None
    } else if call_target(arr[0]) is Some {
        call_target(arr[0])
    } else {
        target_in_calls(arr.drop_first())
    }
}

/// The first delegation target among the candidates' tool calls.
pub open spec fn target_in_candidates(cands: Seq<Json>) -> Option<Seq<char>>
    decreases cands.len(),
{
    if cands.len() == 0 {
        None
    } else {
        let t = match json_as_array(cands[0]) {
            Some(arr) => target_in_calls(arr),
            None => None,
        };
        if t is Some {
            t
        } else {
            target_in_candidates(cands.drop_first())
        }
    }
}

/// The agent a log entry delegates to.
pub open spec fn delegation_target(entry: Json) -> Option<Seq<char>> {
    target_in_candidates(call_candidates(entry))
}

fn opt_text(o: &Option<String>) -> (r: Option<String>)
    ensures
        r == *o,
{
    match o {
        Some(s) => Some(s.clone()),
        None => None,
    }
}

fn call_target_exec(t: &Json) -> (r: Option<String>)
    ensures
        match r {
            Some(n) => call_target(*t) == Some(n@),
            None => call_target(*t) is None,
        },
{
    let is_delegate = match t.get_str("name") {
        Some(n) => same_text(n.as_str(), "delegate"),
        None => false,
    };
    proof {
        reveal_strlit("delegate");
    }
    if !is_delegate {
        return None;
    }
    match t.get("arguments") {
        Some(a) => match a.as_str() {
            Some(s) => match parse_json(s.as_str()) {
                Some(o) => match o.get_str("agent_name") {
                    Some(n) => Some(n.clone()),
                    None => None,
                },
                None => None,
            },
            None => match a.get_str("agent_name") {
                Some(n) => Some(n.clone()),
                None => None,
            },
        },
        None => None,
    }
}

fn target_in_calls_exec(arr: &Vec<Json>) -> (r: Option<String>)
    ensures
        match r {
            Some(n) => target_in_calls(arr@) == Some(n@),
            None => target_in_calls(arr@) is None,
        },
{
    let mut i: usize = 0;
    assert(arr@.skip(0) =~= arr@);
    while i < arr.len()
        invariant
            i <= arr@.len(),
            target_in_calls(arr@) == target_in_calls(arr@.skip(i as int)),
        decreases arr@.len() - i,
    {
        let ghost rest = arr@.skip(i as int);
        assert(rest[0] == arr@[i as int]);
        assert(rest.drop_first() =~= arr@.skip(i + 1));
        let t = call_target_exec(&arr[i]);
        if t.is_some() {
            return t;
        }
        i = i + 1;
    }
    None
}

fn candidate_target(c: Option<&Json>) -> (r: Option<String>)
    ensures
        match r {
            Some(n) => match c {
                Some(x) => match json_as_array(*x) {
                    Some(arr) => target_in_calls(arr) == Some(n@),
                    None => false,
                },
                None => false,
            },
            None => match c {
                Some(x) => match json_as_array(*x) {
                    Some(arr) => target_in_calls(arr) is None,
                    None => true,
                },
                None => true,
            },
        },
{
    match c {
        Some(x) => match x.as_array() {
            Some(arr) => target_in_calls_exec(arr),
            None => None,
        },
        None => None,
    }
}

/// Extracts the agent a `delegate` tool call hands over to.
pub fn extract_delegation_target(entry: &Json) -> (r: Option<String>)
    ensures
        match r {
            Some(n) => delegation_target(*entry) == Some(n@),
            None => delegation_target(*entry) is None,
        },
{
    let ghost cands = call_candidates(*entry);
    let first = entry.get("tool_calls");
    let second = payload_calls(entry);
    proof {
        reveal_with_fuel(target_in_candidates, 3);
        if first is Some {
            assert(cands[0] == *first->Some_0);
            if second is Some {
                assert(cands.drop_first() =~= seq![*second->Some_0]);
            } else {
                assert(cands.drop_first() =~= Seq::<Json>::empty());
            }
        } else if second is Some {
            assert(cands =~= seq![*second->Some_0]);
        } else {
            assert(cands =~= Seq::<Json>::empty());
        }
    }
    let a = candidate_target(first);
    if a.is_some() {
        return a;
    }
    candidate_target(second)
}

/// The names joined with `, `.
pub open spec fn join_names(ns: Seq<Seq<char>>) -> Seq<char>
    decreases ns.len(),
{
    if ns.len() == 0 {
        Seq::empty()
    } else if ns.len() == 1 {
        ns[0]
    } else {
        join_names(ns.drop_last()) + ", "@ + ns.last()
    }
}

fn join_names_exec(ns: &Vec<String>) -> (r: Vec<char>)
    ensures
        r@ == join_names(texts(ns@)),
{
    let ghost nv = texts(ns@);
    let mut v: Vec<char> = Vec::new();
    let mut i: usize = 0;
    assert(nv.take(0) =~= Seq::<Seq<char>>::empty());
    while i < ns.len()
        invariant
            nv == texts(ns@),
            i <= ns@.len(),
            v@ == join_names(nv.take(i as int)),
        decreases ns@.len() - i,
    {
        let ghost t = nv.take(i + 1);
        assert(t.drop_last() =~= nv.take(i as int));
        assert(t.last() == ns@[i as int]@);
        if i > 0 {
            push_str(&mut v, ", ");
        } else {
            assert(t =~= seq![ns@[0]@]);
        }
        push_str(&mut v, ns[i].as_str());
        i = i + 1;
    }
    assert(nv.take(i as int) =~= nv);
    v
}

/// Whether a name list holds `delegate`.
pub open spec fn has_delegate(ns: Seq<Seq<char>>) -> bool {
    exists|i: int| 0 <= i < ns.len() && ns[i] == "delegate"@
}

fn has_delegate_exec(ns: &Vec<String>) -> (r: bool)
    ensures
        r == has_delegate(texts(ns@)),
{
    let mut i: usize = 0;
    while i < ns.len()
        invariant
            i <= ns@.len(),
            forall|j: int| 0 <= j < i ==> texts(ns@)[j] != "delegate"@,
        decreases ns@.len() - i,
    {
        assert(texts(ns@)[i as int] == ns@[i as int]@);
        if same_text(ns[i].as_str(), "delegate") {
            return true;
        }
        i = i + 1;
    }
    false
}

/// Whether a report entry says it succeeded: its `success`, else its
/// payload's `success` (whichever is present first), `true` when neither
/// is a boolean.
pub open spec fn report_success(entry: Json) -> bool {
    let x = match json_get(entry, "success"@) {
        Some(s) => Some(s),
        None => match json_get(entry, "payload"@) {
            Some(p) => json_get(p, "success"@),
            None => None,
        },
    };
    match x {
        Some(s) => match json_as_bool(s) {
            Some(b) => b,
            None => true,
        },
        None => true,
    }
}

/// The one-line summary of a session log entry.
pub open spec fn log_summary(event_type: Seq<char>, entry: Json) -> Seq<char> {
    let names = tool_names(entry);
    if event_type == "assistant_tool_calls"@ {
        if names.len() == 0 {
            "Calling tools..."@
        } else if has_delegate(names) {
            "Delegating to "@ + match delegation_target(entry) {
                Some(t) => t,
                None => "subagent"@,
            } + "..."@
        } else {
            "Calling "@ + join_names(names) + "..."@
        }
    } else if event_type == "tool_start"@ {
        "Running tool..."@
    } else if event_type == "tool_results"@ {
        if names.len() == 0 {
            "Tool result received"@
        } else if has_delegate(names) {
            "Delegation result received"@
        } else {
            join_names(names) + " completed"@
        }
    } else if event_type == "assistant_text"@ {
        "Thinking..."@
    } else if event_type == "report_result"@ {
        if report_success(entry) {
            "Task completed"@
        } else {
            "Task failed"@
        }
    } else if event_type == "llm_error"@ {
        "AI error occurred"@
    } else {
        event_type
    }
}

/// Builds the human-readable summary of a session log entry.
pub fn summarize_log_entry(event_type: &str, entry: &Json) -> (r: String)
    ensures
        r@ == log_summary(event_type@, *entry),
{
    if same_text(event_type, "assistant_tool_calls") {
        let names = extract_tool_names(entry);
        if names.len() == 0 {
            owned("Calling tools...")
        } else if has_delegate_exec(&names) {
            let mut v = chars_of("Delegating to ");
            match extract_delegation_target(entry) {
                Some(t) => push_str(&mut v, t.as_str()),
                None => push_str(&mut v, "subagent"),
            }
            push_str(&mut v, "...");
            string_from(v.as_slice())
        } else {
            let mut v = chars_of("Calling ");
            v.extend_from_slice(join_names_exec(&names).as_slice());
            push_str(&mut v, "...");
            string_from(v.as_slice())
        }
    } else if same_text(event_type, "tool_start") {
        owned("Running tool...")
    } else if same_text(event_type, "tool_results") {
        let names = extract_tool_names(entry);
        if names.len() == 0 {
            owned("Tool result received")
        } else if has_delegate_exec(&names) {
            owned("Delegation result received")
        } else {
            let mut v = join_names_exec(&names);
            push_str(&mut v, " completed");
            string_from(v.as_slice())
        }
    } else if same_text(event_type, "assistant_text") {
        owned("Thinking...")
    } else if same_text(event_type, "report_result") {
        let x = match entry.get("success") {
            Some(s) => Some(s),
            None => match entry.get("payload") {
                Some(p) => p.get("success"),
                None => None,
            },
        };
        let ok = match x {
            Some(s) => match s.as_bool() {
                Some(b) => b,
                None => true,
            },
            None => true,
        };
        if ok {
            owned("Task completed")
        } else {
            owned("Task failed")
        }
    } else if same_text(event_type, "llm_error") {
        owned("AI error occurred")
    } else {
        owned(event_type)
    }
}

/// The event type of a log entry: its `event`, else its `type` (whichever
/// is present first), `unknown` when that is not a string.
pub open spec fn log_event_type(entry: Json) -> Seq<char> {
    let x = match json_get(entry, "event"@) {
        Some(e) => Some(e),
        None => json_get(entry, "type"@),
    };
    match x {
        Some(e) => match json_as_str(e) {
            Some(s) => s,
            None => "unknown"@,
        },
        None => "unknown"@,
    }
}

/// What is broadcast for a log entry: nothing for heartbeats and waiting
/// delegations, else its event type, iteration (0 when missing) and
/// summary.
pub open spec fn log_broadcast(entry: Json) -> Option<(Seq<char>, u64, Seq<char>)> {
    let t = log_event_type(entry);
    if t == "heartbeat"@ || t == "delegation_waiting"@ {
        None
    } else {
        Some(
            (
                t,
                match json_get(entry, "iteration"@) {
                    Some(i) => match json_as_u64(i) {
                        Some(n) => n,
                        None => 0,
                    },
                    None => 0,
                },
                log_summary(t, entry),
            ),
        )
    }
}

/// Decides what to broadcast for a session log entry.
pub fn log_entry_broadcast(entry: &Json) -> (r: Option<(String, u64, String)>)
    ensures
        match r {
            Some((t, i, s)) => log_broadcast(*entry) == Some((t@, i, s@)),
            None => log_broadcast(*entry) is None,
        },
{
    let x = match entry.get("event") {
        Some(e) => Some(e),
        None => entry.get("type"),
    };
    let t = match x {
        Some(e) => match e.as_str() {
            Some(s) => s.clone(),
            None => owned("unknown"),
        },
        None => owned("unknown"),
    };
    if same_text(t.as_str(), "heartbeat") || same_text(t.as_str(), "delegation_waiting") {
        return None;
    }
    let iteration = match entry.get("iteration") {
        Some(i) => match i.as_u64() {
            Some(n) => n,
            None => 0,
        },
        None => 0,
    };
    let summary = summarize_log_entry(t.as_str(), entry);
    Some((t, iteration, summary))
}

// ───────────────────────── session polling ─────────────────────────

/// How long a session is polled before giving up, in seconds.
pub const POLL_TIMEOUT_SECS: u64 = 600;

/// What one poll of a session tells the router.
#[derive(Debug)]
pub enum PollOutcome {
    /// Keep polling.
    Pending,
    /// The session finished: its result and result summary.
    Completed { result: Option<Json>, result_summary: Option<String> },
    /// The session failed with this message.
    Failed(String),
}

/// What to broadcast after a poll, and how the poll ends.
#[derive(Debug)]
pub struct PollReport {
    /// The new status, when it changed.
    pub status_change: Option<String>,
    /// The positions of the log entries not broadcast yet (`from..to`).
    pub new_logs_from: usize,
    pub new_logs_to: usize,
    pub outcome: PollOutcome,
}

/// The polling state of one session: how many log entries were broadcast
/// and the last status seen.
pub struct SessionTracker {
    pub seen_log_count: usize,
    pub last_status: String,
}

/// The status of a polled session (`unknown` when missing).
pub open spec fn session_status(session: Json) -> Seq<char> {
    match json_get_str(session, "status"@) {
        Some(s) => s,
        None => "unknown"@,
    }
}

/// The number of log entries a polled session has, when it lists them.
pub open spec fn session_log_count(session: Json) -> Option<nat> {
    match json_get(session, "logs"@) {
        Some(l) => match json_as_array(l) {
            Some(a) => Some(a.len()),
            None => None,
        },
        None => None,
    }
}

/// The message of a failed session.
pub open spec fn msg_session_failed(session: Json) -> Seq<char> {
    "Session failed: "@ + match json_get_str(session, "error"@) {
        Some(e) => e,
        None => "unknown error"@,
    }
}

impl SessionTracker {
    /// A tracker that has seen nothing.
    pub fn new() -> (r: SessionTracker)
        ensures
            r.seen_log_count == 0,
            r.last_status@.len() == 0,
    {
        SessionTracker { seen_log_count: 0, last_status: String::new() }
    }

    /// Takes in one polled session (taken apart for its result): reports a
    /// status change, the log entries to broadcast, and whether the session
    /// completed (`completed`) or failed (`failed`).
    pub fn observe(&mut self, session: Json) -> (r: PollReport)
        ensures
            match r.status_change {
                Some(s) => old(self).last_status@ != session_status(session) && s@ == session_status(session),
                None => old(self).last_status@ == session_status(session),
            },
            final(self).last_status@ == session_status(session),
            match session_log_count(session) {
                Some(n) => r.new_logs_from == old(self).seen_log_count && r.new_logs_to == n && final(self).seen_log_count
                    == n,
                None => r.new_logs_from == r.new_logs_to && final(self).seen_log_count == old(self).seen_log_count,
            },
            match r.outcome {
                PollOutcome::Completed { result, result_summary } => {
                    &&& session_status(session) == "completed"@
                    &&& result == json_get(session, "result"@)
                    &&& (match result_summary {
                        Some(s) => Some(s@),
                        None => None,
                    }) == json_get_str(session, "result_summary"@)
                },
                PollOutcome::Failed(m) => session_status(session) == "failed"@ && m@ == msg_session_failed(session),
                PollOutcome::Pending => session_status(session) != "completed"@ && session_status(session)
                    != "failed"@,
            },
    {
        let status = match session.get_str("status") {
            Some(s) => s.clone(),
            None => owned("unknown"),
        };
        let status_change = if !same_text(status.as_str(), self.last_status.as_str()) {
            self.last_status = status.clone();
            Some(status.clone())
        } else {
            None
        };
        let (from, to) = match session.get("logs") {
            Some(l) => match l.as_array() {
                Some(a) => {
                    let from = self.seen_log_count;
                    self.seen_log_count = a.len();
                    (from, a.len())
                },
                None => (self.seen_log_count, self.seen_log_count),
            },
            None => (self.seen_log_count, self.seen_log_count),
        };
        let outcome = if same_text(status.as_str(), "completed") {
            let result_summary = match session.get_str("result_summary") {
                Some(s) => Some(s.clone()),
                None => None,
            };
            let result = take_result(session);
            PollOutcome::Completed { result, result_summary }
        } else if same_text(status.as_str(), "failed") {
            let mut v = chars_of("Session failed: ");
            match session.get_str("error") {
                Some(e) => push_str(&mut v, e.as_str()),
                None => push_str(&mut v, "unknown error"),
            }
            PollOutcome::Failed(string_from(v.as_slice()))
        } else {
            PollOutcome::Pending
        };
        PollReport { status_change, new_logs_from: from, new_logs_to: to, outcome }
    }
}

/// Removes and returns a polled session's `result`.
fn take_result(session: Json) -> (r: Option<Json>)
    ensures
        r == json_get(session, "result"@),
{
    match session {
        Json::Object(mut fields) => match crate::json::assoc_index(&fields, "result") {
            Some(i) => {
                let (_, x) = fields.remove(i);
                Some(x)
            },
            None => None,
        },
        _ => None,
    }
}

/// The message of a session that did not finish in time.
pub fn msg_session_timed_out() -> (r: String)
    ensures
        r@ == "Session timed out after 600s"@,
{
    owned("Session timed out after 600s")
}

// ───────────────────────── routing ─────────────────────────

/// A user command.
#[derive(Debug)]
pub struct Command {
    pub message: String,
    pub capability: Option<String>,
    pub hook: Option<String>,
    pub payload: Option<Json>,
}

/// The capability a command is routed to: its own when set and non-empty,
/// else the general orchestrator.
pub open spec fn route_capability(capability: Option<String>) -> Seq<char> {
    match capability {
        Some(c) => if c@.len() > 0 { c@ } else { "general"@ },
        None => "general"@,
    }
}

/// The capability a command goes to.
pub fn command_capability(command: &Command) -> (r: String)
    ensures
        r@ == route_capability(command.capability),
{
    match &command.capability {
        Some(c) => if !c.as_str().is_empty() {
            c.clone()
        } else {
            owned("general")
        },
        None => owned("general"),
    }
}

/// The message when no agent can take a command.
pub open spec fn msg_no_agents() -> Seq<char> {
    "No agents available. Sync your Starflask agents first."@
}

/// The agent a command goes to: the capability's agent, else any agent.
pub fn choose_agent(for_capability: Option<u128>, any: Option<u128>) -> (r: Result<u128, String>)
    ensures
        match r {
            Ok(a) => (for_capability is Some && a == for_capability->Some_0) || (for_capability is None && any
                == Some(a)),
            Err(e) => for_capability is None && any is None && e@ == msg_no_agents(),
        },
{
    match for_capability {
        Some(a) => Ok(a),
        None => match any {
            Some(a) => Ok(a),
            None => Err(owned("No agents available. Sync your Starflask agents first.")),
        },
    }
}

/// The output of a routed command.
#[derive(Debug)]
pub enum CommandOutput {
    CryptoExecution { results: Vec<ExecutionResult> },
    MediaGeneration { urls: Vec<String>, media_type: String },
    TextResponse { text: String },
    Raw { data: Json },
}

/// The outcome of running one crypto instruction.
#[derive(Debug)]
pub struct ExecutionResult {
    pub success: bool,
    pub data: Json,
}

/// A failed execution: `{"error": <message>}`.
pub fn failed_execution(error: String) -> (r: ExecutionResult)
    ensures
        !r.success,
        json_get_str(r.data, "error"@) == Some(error@),
        crate::json::json_keys(r.data) == seq!["error"@],
{
    let mut fields: Vec<(String, Json)> = Vec::new();
    fields.push((owned("error"), Json::Str(error)));
    let data = Json::Object(fields);
    proof {
        reveal_with_fuel(crate::json::assoc_get, 2);
        assert(crate::json::json_keys(data) =~= seq!["error"@]);
    }
    ExecutionResult { success: false, data }
}

/// How a result is reported: `{"success", "data"}`.
pub open spec fn is_result_report(j: Json, r: ExecutionResult) -> bool {
    &&& j is Object
    &&& j->Object_0@.len() == 2
    &&& crate::json::json_member_is(j, 0, "success"@, Json::Bool(r.success))
    &&& crate::json::json_member_is(j, 1, "data"@, r.data)
}

/// The report of a run of instructions: `{"results": [...]}`, one report
/// per result, in order.
pub fn format_results(results: Vec<ExecutionResult>) -> (r: Json)
    ensures
        r is Object,
        r->Object_0@.len() == 1,
        r->Object_0@[0].0@ == "results"@,
        r->Object_0@[0].1 is Array,
        r->Object_0@[0].1->Array_0@.len() == results@.len(),
        forall|i: int| 0 <= i < results@.len() ==> is_result_report(#[trigger] r->Object_0@[0].1->Array_0@[i], results@[i]),
{
    let ghost orig = results@;
    let mut reports: Vec<Json> = Vec::new();
    let mut rest = results;
    assert(rest@ =~= orig.skip(0));
    while rest.len() > 0
        invariant
            rest@ == orig.skip(reports@.len() as int),
            reports@.len() <= orig.len(),
            forall|i: int| 0 <= i < reports@.len() ==> is_result_report(#[trigger] reports@[i], orig[i]),
        decreases rest@.len(),
    {
        let ghost k = reports@.len();
        let res = rest.remove(0);
        assert(res == orig[k as int]);
        assert(rest@ =~= orig.skip(k + 1int));
        let mut fields: Vec<(String, Json)> = Vec::new();
        fields.push((owned("success"), Json::Bool(res.success)));
        fields.push((owned("data"), res.data));
        reports.push(Json::Object(fields));
    }
    let mut top: Vec<(String, Json)> = Vec::new();
    top.push((owned("results"), Json::Array(reports)));
    Json::Object(top)
}

/// What a finished session turns into.
#[derive(Debug)]
pub enum OutputPlan {
    /// The output, complete.
    Ready(CommandOutput),
    /// Run these instructions and report their results.
    Execute(Vec<CryptoInstruction>),
}

/// `CommandOutput` with texts as character sequences (results omitted).
pub enum OutputView {
    CryptoExecution,
    MediaGeneration { urls: Seq<Seq<char>>, media_type: Seq<char> },
    TextResponse { text: Seq<char> },
    Raw { data: Json },
}

/// `OutputPlan` with texts as character sequences.
pub enum PlanView {
    Ready(OutputView),
    Execute(Seq<InstrView>),
}

impl View for OutputPlan {
    type V = PlanView;

    open spec fn view(&self) -> PlanView {
        match self {
            OutputPlan::Ready(o) => PlanView::Ready(
                match o {
                    CommandOutput::CryptoExecution { .. } => OutputView::CryptoExecution,
                    CommandOutput::MediaGeneration { urls, media_type } => OutputView::MediaGeneration {
                        urls: texts(urls@),
                        media_type: media_type@,
                    },
                    CommandOutput::TextResponse { text } => OutputView::TextResponse { text: text@ },
                    CommandOutput::Raw { data } => OutputView::Raw { data: *data },
                },
            ),
            OutputPlan::Execute(i) => PlanView::Execute(instrs_view(i@)),
        }
    }
}

/// The markers of a media URL.
pub open spec fn is_media_url(u: Seq<char>) -> bool {
    contains_seq(u, ".jpg"@) || contains_seq(u, ".jpeg"@) || contains_seq(u, ".png"@) || contains_seq(u, ".webp"@)
        || contains_seq(u, ".gif"@) || contains_seq(u, ".mp4"@) || contains_seq(u, "fal.media"@) || contains_seq(
        u,
        "replicate.delivery"@,
    )
}

/// Whether some URL of a list is a media URL.
pub open spec fn any_media_url(us: Seq<Seq<char>>) -> bool {
    exists|i: int| 0 <= i < us.len() && is_media_url(us[i])
}

fn is_media_url_exec(u: &str) -> (r: bool)
    ensures
        r == is_media_url(u@),
{
    str_contains(u, ".jpg") || str_contains(u, ".jpeg") || str_contains(u, ".png") || str_contains(u, ".webp")
        || str_contains(u, ".gif") || str_contains(u, ".mp4") || str_contains(u, "fal.media") || str_contains(
        u,
        "replicate.delivery",
    )
}

fn any_media_url_exec(us: &Vec<String>) -> (r: bool)
    ensures
        r == any_media_url(texts(us@)),
{
    let mut i: usize = 0;
    while i < us.len()
        invariant
            i <= us@.len(),
            forall|j: int| 0 <= j < i ==> !is_media_url(texts(us@)[j]),
        decreases us@.len() - i,
    {
        assert(texts(us@)[i as int] == us@[i as int]@);
        if is_media_url_exec(us[i].as_str()) {
            return true;
        }
        i = i + 1;
    }
    false
}

/// The plan for the structured data of a result, when it settles the
/// output: a `media` object with URLs, or a `crypto` object with
/// instructions.
pub open spec fn structured_plan(sd: Json) -> Option<PlanView> {
    let kind = json_get_str(sd, "type"@);
    if kind == Some("media"@) {
        let urls = strings_of(crate::bridge::array_at(sd, "urls"@));
        if urls.len() > 0 {
            Some(
                PlanView::Ready(
                    OutputView::MediaGeneration {
                        urls,
                        media_type: match json_get_str(sd, "media_type"@) {
                            Some(m) => m,
                            None => "image"@,
                        },
                    },
                ),
            )
        } else {
            None
        }
    } else if kind == Some("crypto"@) {
        let ins = match json_get(sd, "instructions"@) {
            Some(Json::Array(a)) => decoded_list(a@),
            _ => Seq::empty(),
        };
        if ins.len() > 0 {
            Some(PlanView::Execute(ins))
        } else {
            None
        }
    } else {
        None
    }
}

/// The plan by the capability's output type: `media:<type>` gives the
/// media URLs of the result; `crypto` runs the result's instructions (its
/// text when it has none); anything else gives media URLs when there are
/// any, else the raw result when it has no text, else media URLs found in
/// the text when one looks like media, else the text.
pub open spec fn typed_plan(output_type: Seq<char>, result: Option<Json>, summary: Option<Seq<char>>) -> PlanView {
    if starts_with(output_type, "media:"@) {
        PlanView::Ready(
            OutputView::MediaGeneration {
                urls: media_urls(result, summary),
                media_type: output_type.subrange(6, output_type.len() as int),
            },
        )
    } else if output_type == "crypto"@ {
        let ins = session_instructions(result);
        if ins.len() == 0 {
            PlanView::Ready(OutputView::TextResponse { text: text_result(result) })
        } else {
            PlanView::Execute(ins)
        }
    } else {
        let m = media_urls(result, summary);
        let text = text_result(result);
        if m.len() > 0 {
            PlanView::Ready(OutputView::MediaGeneration { urls: m, media_type: "image"@ })
        } else if text.len() == 0 {
            PlanView::Ready(
                OutputView::Raw {
                    data: match result {
                        Some(v) => v,
                        None => Json::Null,
                    },
                },
            )
        } else if any_media_url(urls_in_text(text)) {
            PlanView::Ready(OutputView::MediaGeneration { urls: urls_in_text(text), media_type: "image"@ })
        } else {
            PlanView::Ready(OutputView::TextResponse { text })
        }
    }
}

/// The plan for a finished session: the structured data's, when it
/// settles the output, else the one by output type.
pub open spec fn output_plan(
    structured: Option<Json>,
    output_type: Seq<char>,
    result: Option<Json>,
    summary: Option<Seq<char>>,
) -> PlanView {
    match structured {
        Some(sd) => match structured_plan(sd) {
            Some(p) => p,
            None => typed_plan(output_type, result, summary),
        },
        None => typed_plan(output_type, result, summary),
    }
}

/// The message when instructions must run but no wallet is configured.
pub open spec fn msg_no_executor() -> Seq<char> {
    "Crypto executor not available (no wallet configured)"@
}

fn structured_plan_exec(sd: Json) -> (r: Option<OutputPlan>)
    ensures
        match r {
            Some(p) => structured_plan(sd) == Some(p@),
            None => structured_plan(sd) is None,
        },
{
    let kind_media = match sd.get_str("type") {
        Some(k) => same_text(k.as_str(), "media"),
        None => false,
    };
    let kind_crypto = match sd.get_str("type") {
        Some(k) => same_text(k.as_str(), "crypto"),
        None => false,
    };
    proof {
        reveal_strlit("media");
        reveal_strlit("crypto");
        assert("media"@.len() != "crypto"@.len());
    }
    if kind_media {
        let urls = crate::bridge::array_strings_at(&sd, "urls");
        if urls.len() > 0 {
            let media_type = match sd.get_str("media_type") {
                Some(m) => m.clone(),
                None => owned("image"),
            };
            return Some(OutputPlan::Ready(CommandOutput::MediaGeneration { urls, media_type }));
        }
        None
    } else if kind_crypto {
        let ins = match take_member_of(sd, "instructions") {
            Some(Json::Array(a)) => decode_all(a),
            _ => {
                let r: Vec<CryptoInstruction> = Vec::new();
                assert(instrs_view(r@) =~= Seq::<InstrView>::empty());
                r
            },
        };
        if ins.len() > 0 {
            Some(OutputPlan::Execute(ins))
        } else {
            None
        }
    } else {
        None
    }
}

/// Removes and returns the member `key` of an object.
fn take_member_of(v: Json, key: &str) -> (r: Option<Json>)
    ensures
        r == json_get(v, key@),
{
    match v {
        Json::Object(mut fields) => match crate::json::assoc_index(&fields, key) {
            Some(i) => {
                let (_, x) = fields.remove(i);
                Some(x)
            },
            None => None,
        },
        _ => None,
    }
}

fn typed_plan_exec(output_type: &str, result: Option<Json>, summary: Option<&str>) -> (r: OutputPlan)
    ensures
        r@ == typed_plan(
            output_type@,
            result,
            match summary {
                Some(s) => Some(s@),
                None => None,
            },
        ),
{
    let oc = chars_of(output_type);
    let prefix = chars_of("media:");
    proof {
        reveal_strlit("media:");
    }
    if starts_with_exec(oc.as_slice(), prefix.as_slice()) {
        let urls = parse_media_result(&result, summary);
        let mt = slice_range(oc.as_slice(), 6, oc.len());
        return OutputPlan::Ready(CommandOutput::MediaGeneration { urls, media_type: string_from(mt.as_slice()) });
    }
    if same_text(output_type, "crypto") {
        let text = parse_text_result(&result);
        let ins = parse_session_result(result);
        if ins.len() == 0 {
            return OutputPlan::Ready(CommandOutput::TextResponse { text });
        }
        return OutputPlan::Execute(ins);
    }
    let m = parse_media_result(&result, summary);
    if m.len() > 0 {
        return OutputPlan::Ready(CommandOutput::MediaGeneration { urls: m, media_type: owned("image") });
    }
    let text = parse_text_result(&result);
    if text.as_str().is_empty() {
        let data = match result {
            Some(v) => v,
            None => Json::Null,
        };
        return OutputPlan::Ready(CommandOutput::Raw { data });
    }
    let urls = extract_urls_from_text(text.as_str());
    if any_media_url_exec(&urls) {
        OutputPlan::Ready(CommandOutput::MediaGeneration { urls, media_type: owned("image") })
    } else {
        OutputPlan::Ready(CommandOutput::TextResponse { text })
    }
}

/// Turns a finished session into a plan for the command's output, given the
/// structured data found in the result, the capability's output type, and
/// whether a crypto executor is available (instructions without one fail).
pub fn plan_output(
    structured: Option<Json>,
    output_type: &str,
    result: Option<Json>,
    result_summary: Option<&str>,
    has_executor: bool,
) -> (r: Result<OutputPlan, String>)
    ensures
        ({
            let p = output_plan(
                structured,
                output_type@,
                result,
                match result_summary {
                    Some(s) => Some(s@),
                    None => None,
                },
            );
            match r {
                Ok(plan) => plan@ == p && (p is Execute ==> has_executor),
                Err(e) => p is Execute && !has_executor && e@ == msg_no_executor(),
            }
        }),
{
    let plan = match structured {
        Some(sd) => match structured_plan_exec(sd) {
            Some(p) => p,
            None => typed_plan_exec(output_type, result, result_summary),
        },
        None => typed_plan_exec(output_type, result, result_summary),
    };
    match plan {
        OutputPlan::Execute(ins) => if has_executor {
            Ok(OutputPlan::Execute(ins))
        } else {
            Err(owned("Crypto executor not available (no wallet configured)"))
        },
        other => Ok(other),
    }
}

/// Structured data settles the plan when it can: of type `crypto`, the
/// instructions decoded from its `instructions` array are executed when
/// there are any; of type `media`, its `urls` strings are the media (of its
/// `media_type`, else images) when there are any.  Otherwise, and for any
/// other type, the plan is the one without structured data.
pub proof fn law_structured_plan(sd: Json, output_type: Seq<char>, result: Option<Json>, summary: Option<Seq<char>>)
    ensures
        forall|a: Vec<Json>|
            json_get_str(sd, "type"@) == Some("crypto"@) && json_get(sd, "instructions"@) == Some(Json::Array(a))
                && decoded_list(a@).len() > 0 ==> #[trigger] output_plan(Some(sd), output_type, result, summary)
                == PlanView::Execute(decoded_list(a@)),
        json_get_str(sd, "type"@) == Some("crypto"@) && !(json_get(sd, "instructions"@) matches Some(Json::Array(_)))
            ==> output_plan(Some(sd), output_type, result, summary) == output_plan(None, output_type, result, summary),
        json_get_str(sd, "type"@) == Some("media"@) && strings_of(crate::bridge::array_at(sd, "urls"@)).len() > 0
            ==> output_plan(Some(sd), output_type, result, summary) == PlanView::Ready(
            OutputView::MediaGeneration {
                urls: strings_of(crate::bridge::array_at(sd, "urls"@)),
                media_type: match json_get_str(sd, "media_type"@) {
                    Some(m) => m,
                    None => "image"@,
                },
            },
        ),
        json_get_str(sd, "type"@) != Some("crypto"@) && json_get_str(sd, "type"@) != Some("media"@)
            ==> output_plan(Some(sd), output_type, result, summary) == output_plan(None, output_type, result, summary),
{
    reveal_strlit("media");
    reveal_strlit("crypto");
    assert("media"@.len() != "crypto"@.len());
}

/// The plan by output type: `media:<kind>` gives the result's media URLs
/// as media of that kind; `crypto` executes the result's instructions, or
/// answers with its text when it has none; any other type gives its media
/// URLs as images when there are any, else the raw result when it has no
/// text, else the URLs in the text as images when one of them is media,
/// else the text.
pub proof fn law_typed_plan(output_type: Seq<char>, result: Option<Json>, summary: Option<Seq<char>>)
    ensures
        starts_with(output_type, "media:"@) ==> typed_plan(output_type, result, summary) == PlanView::Ready(
            OutputView::MediaGeneration {
                urls: media_urls(result, summary),
                media_type: output_type.subrange(6, output_type.len() as int),
            },
        ),
        output_type == "crypto"@ && session_instructions(result).len() > 0 ==> typed_plan(output_type, result, summary)
            == PlanView::Execute(session_instructions(result)),
        output_type == "crypto"@ && session_instructions(result).len() == 0 ==> typed_plan(output_type, result, summary)
            == PlanView::Ready(OutputView::TextResponse { text: text_result(result) }),
        !starts_with(output_type, "media:"@) && output_type != "crypto"@ ==> {
            let m = media_urls(result, summary);
            let text = text_result(result);
            &&& m.len() > 0 ==> typed_plan(output_type, result, summary) == PlanView::Ready(
                OutputView::MediaGeneration { urls: m, media_type: "image"@ },
            )
            &&& m.len() == 0 && text.len() == 0 ==> typed_plan(output_type, result, summary) == PlanView::Ready(
                OutputView::Raw {
                    data: match result {
                        Some(v) => v,
                        None => Json::Null,
                    },
                },
            )
            &&& m.len() == 0 && text.len() > 0 && any_media_url(urls_in_text(text)) ==> typed_plan(
                output_type,
                result,
                summary,
            ) == PlanView::Ready(OutputView::MediaGeneration { urls: urls_in_text(text), media_type: "image"@ })
            &&& m.len() == 0 && text.len() > 0 && !any_media_url(urls_in_text(text)) ==> typed_plan(
                output_type,
                result,
                summary,
            ) == PlanView::Ready(OutputView::TextResponse { text })
        },
{
    reveal_strlit("media:");
    reveal_strlit("crypto");
    if output_type == "crypto"@ {
        assert(output_type[5] != "media:"@[5]);
    }
}

/// A URL is media exactly when it mentions one of `.jpg`, `.jpeg`, `.png`,
/// `.webp`, `.gif`, `.mp4`, `fal.media` or `replicate.delivery`.
pub proof fn law_media_url_markers(u: Seq<char>)
    ensures
        is_media_url(u) <==> (contains_seq(u, ".jpg"@) || contains_seq(u, ".jpeg"@) || contains_seq(u, ".png"@)
            || contains_seq(u, ".webp"@) || contains_seq(u, ".gif"@) || contains_seq(u, ".mp4"@) || contains_seq(
            u,
            "fal.media"@,
        ) || contains_seq(u, "replicate.delivery"@)),
{
}

/// A command goes to its own capability when it names a non-empty one,
/// else to `general`.
pub proof fn law_route_capability(capability: Option<String>)
    ensures
        capability is Some && capability->Some_0@.len() > 0 ==> route_capability(capability) == capability->Some_0@,
        capability is None || capability->Some_0@.len() == 0 ==> route_capability(capability) == "general"@,
{
}

/// Heartbeat and waiting-delegation log entries are not broadcast; every
/// other entry is, with its event type (`event`, else `type`), its
/// iteration (0 when missing) and its summary.
pub proof fn law_log_broadcast(entry: Json)
    ensures
        log_event_type(entry) == "heartbeat"@ || log_event_type(entry) == "delegation_waiting"@ ==> log_broadcast(
            entry,
        ) is None,
        log_event_type(entry) != "heartbeat"@ && log_event_type(entry) != "delegation_waiting"@ ==> log_broadcast(entry)
            is Some && log_broadcast(entry)->Some_0.0 == log_event_type(entry) && log_broadcast(entry)->Some_0.2
            == log_summary(log_event_type(entry), entry) && log_broadcast(entry)->Some_0.1 == match json_get(
            entry,
            "iteration"@,
        ) {
            Some(i) => match json_as_u64(i) {
                Some(n) => n,
                None => 0,
            },
            None => 0,
        },
        json_get(entry, "event"@) is Some ==> log_event_type(entry) == match json_as_str(json_get(entry, "event"@)->Some_0) {
            Some(s) => s,
            None => "unknown"@,
        },
        json_get(entry, "event"@) is None && json_get(entry, "type"@) is Some ==> log_event_type(entry) == match json_as_str(
            json_get(entry, "type"@)->Some_0,
        ) {
            Some(s) => s,
            None => "unknown"@,
        },
        json_get(entry, "event"@) is None && json_get(entry, "type"@) is None ==> log_event_type(entry) == "unknown"@,
{
}

} // verus!
