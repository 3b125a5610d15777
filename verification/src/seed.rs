//! The Starflask seed configuration (capability → agent pack hash) and the
//! logic of the pack seeding tool: reading an existing seed file line by
//! line, deciding what to do with each pack, and writing the file back.

use vstd::prelude::*;
use crate::json::{json_get, json_get_str, Json};
use crate::text::{
    is_ws, lemma_find_char, lemma_find_seq, lemma_trim_end_ws_is_prefix, lemma_trim_start_ws_is_suffix, lines_acc, occurs_at, strip_cr, trim_end_ws, trim_start_ws,
    chars_of, contains_seq, contains_seq_exec, find_char, find_char_exec, find_seq, find_seq_exec, lines,
    lines_of, owned, push_str, same_text, slice_range, starts_with, starts_with_exec, string_from, trim_ws,
    trim_ws_exec,
};

verus! {

/// The seed configuration: one entry per capability.
#[derive(Clone, Debug)]
pub struct StarflaskSeed {
    pub agents: Vec<AgentSeed>,
}

/// A capability and the agent pack that provides it.
#[derive(Clone, Debug)]
pub struct AgentSeed {
    pub capability: String,
    pub name: String,
    pub description: String,
    pub pack_hash: String,
}

/// The four texts of a seed entry.
pub struct SeedView {
    pub capability: Seq<char>,
    pub name: Seq<char>,
    pub description: Seq<char>,
    pub pack_hash: Seq<char>,
}

impl View for AgentSeed {
    type V = SeedView;

    open spec fn view(&self) -> SeedView {
        SeedView {
            capability: self.capability@,
            name: self.name@,
            description: self.description@,
            pack_hash: self.pack_hash@,
        }
    }
}

/// The views of a list of entries.
pub open spec fn seeds_view(s: Seq<AgentSeed>) -> Seq<SeedView> {
    s.map_values(|a: AgentSeed| a@)
}

/// The capability a pack file provides: its file stem, unchanged.
pub fn capability_from_filename(stem: &str) -> (r: String)
    ensures
        r@ == stem@,
{
    owned(stem)
}

/// The text between `<field>: "` (its first occurrence) and the next `"`;
/// empty when either is missing.
pub open spec fn field_value(line: Seq<char>, field: Seq<char>) -> Seq<char> {
    let pat = field + ": \""@;
    match find_seq(line, pat) {
        Some(st) => {
            let rest = line.subrange(st + pat.len(), line.len() as int);
            match find_char(rest, '"') {
                Some(e) => rest.take(e),
                None => Seq::empty(),
            }
        },
        None => Seq::empty(),
    }
}

/// Extracts the quoted value of a field from a one-line RON record.
pub fn extract_field(line: &str, field: &str) -> (r: String)
    ensures
        r@ == field_value(line@, field@),
{
    let l = chars_of(line);
    let mut pat = chars_of(field);
    push_str(&mut pat, ": \"");
    let ls = l.as_slice();
    let ps = pat.as_slice();
    match find_seq_exec(ls, ps) {
        Some(st) => {
            let plen = pat.len();
            let llen = l.len();
            assert(ps@ == pat@ && ls@ == l@);
            assert(st + plen <= llen);
            let rest = slice_range(ls, st + plen, llen);
            match find_char_exec(rest.as_slice(), '"') {
                Some(e) => {
                    let v = slice_range(rest.as_slice(), 0, e);
                    assert(v@ =~= rest@.take(e as int));
                    string_from(v.as_slice())
                },
                None => String::new(),
            }
        },
        None => String::new(),
    }
}

/// The entry a line of a seed file describes: a trimmed line starting with
/// `AgentSeed(` and with a non-empty capability.  A pack hash holding
/// `...` is a placeholder and reads as empty.
pub open spec fn entry_of_line(line: Seq<char>) -> Option<SeedView> {
    let t = trim_ws(line);
    let cap = field_value(t, "capability"@);
    if starts_with(t, "AgentSeed("@) && cap.len() > 0 {
        let hash = field_value(t, "pack_hash"@);
        Some(
            SeedView {
                capability: cap,
                name: field_value(t, "name"@),
                description: field_value(t, "description"@),
                pack_hash: if contains_seq(hash, "..."@) { Seq::empty() } else { hash },
            },
        )
    } else {
        None
    }
}

/// The entries of a seed file's lines, in order.
pub open spec fn entries_of_lines(ls: Seq<Seq<char>>) -> Seq<SeedView>
    decreases ls.len(),
{
    if ls.len() == 0 {
        Seq::empty()
    } else {
        entries_of_lines(ls.drop_last()) + match entry_of_line(ls.last()) {
            Some(e) => seq![e],
            None => Seq::empty(),
        }
    }
}

fn entry_from_line(line: &str) -> (r: Option<AgentSeed>)
    ensures
        match r {
            Some(a) => entry_of_line(line@) == Some(a@),
            None => entry_of_line(line@) is None,
        },
{
    let t = string_from(trim_ws_exec(chars_of(line).as_slice()).as_slice());
    let prefix = chars_of("AgentSeed(");
    if !starts_with_exec(chars_of(t.as_str()).as_slice(), prefix.as_slice()) {
        return None;
    }
    let cap = extract_field(t.as_str(), "capability");
    if cap.as_str().is_empty() {
        return None;
    }
    let hash = extract_field(t.as_str(), "pack_hash");
    let dots = chars_of("...");
    let pack_hash = if contains_seq_exec(chars_of(hash.as_str()).as_slice(), dots.as_slice()) {
        String::new()
    } else {
        hash
    };
    Some(
        AgentSeed {
            capability: cap,
            name: extract_field(t.as_str(), "name"),
            description: extract_field(t.as_str(), "description"),
            pack_hash,
        },
    )
}

/// The entries of an existing seed file's text.
pub fn load_existing_entries(content: &str) -> (r: Vec<AgentSeed>)
    ensures
        seeds_view(r@) == entries_of_lines(lines_of(content@)),
{
    let ls = lines(content);
    let ghost lv = ls@.map_values(|l: String| l@);
    let mut out: Vec<AgentSeed> = Vec::new();
    let mut i: usize = 0;
    assert(lv.take(0) =~= Seq::<Seq<char>>::empty());
    while i < ls.len()
        invariant
            lv == ls@.map_values(|l: String| l@),
            lv == lines_of(content@),
            i <= ls@.len(),
            seeds_view(out@) == entries_of_lines(lv.take(i as int)),
        decreases ls@.len() - i,
    {
        let ghost before = seeds_view(out@);
        assert(lv.take(i + 1).drop_last() =~= lv.take(i as int));
        assert(lv.take(i + 1).last() == ls@[i as int]@);
        match entry_from_line(ls[i].as_str()) {
            Some(a) => {
                out.push(a);
                assert(seeds_view(out@) =~= before + seq![a@]);
            },
            None => {
                assert(before + Seq::<SeedView>::empty() =~= before);
            },
        }
        i = i + 1;
    }
    assert(lv.take(i as int) =~= lv);
    out
}

/// The seeding tool's command line.
#[derive(Clone, Debug)]
pub struct Args {
    pub force: bool,
    pub only: Option<String>,
}

/// What the command line asks for.
#[derive(Debug)]
pub enum ArgsOutcome {
    /// Seed the packs with these options.
    Run(Args),
    /// Print the usage text and stop successfully.
    Help,
    /// `--only` was last, without a capability.
    MissingOnlyValue,
    /// An argument that is not an option.
    Unknown(String),
}

/// `ArgsOutcome` with texts as character sequences.
pub enum ArgsOutcomeView {
    Run(bool, Option<Seq<char>>),
    Help,
    MissingOnlyValue,
    Unknown(Seq<char>),
}

impl View for ArgsOutcome {
    type V = ArgsOutcomeView;

    open spec fn view(&self) -> ArgsOutcomeView {
        match self {
            ArgsOutcome::Run(a) => ArgsOutcomeView::Run(
                a.force,
                match a.only {
                    Some(o) => Some(o@),
                    None => None,
                },
            ),
            ArgsOutcome::Help => ArgsOutcomeView::Help,
            ArgsOutcome::MissingOnlyValue => ArgsOutcomeView::MissingOnlyValue,
            ArgsOutcome::Unknown(a) => ArgsOutcomeView::Unknown(a@),
        }
    }
}

/// Reads the arguments from position `i` on, with the options seen so far:
/// `--force`/`-f` sets force, `--only`/`-o` takes the next argument (the
/// last one wins), `--help`/`-h` stops at once, anything else is refused.
pub open spec fn args_from(args: Seq<Seq<char>>, i: int, force: bool, only: Option<Seq<char>>) -> ArgsOutcomeView
    decreases args.len() - i,
{
    if i >= args.len() || i < 0 {
        ArgsOutcomeView::Run(force, only)
    } else {
        let a = args[i];
        if a == "--force"@ || a == "-f"@ {
            args_from(args, i + 1, true, only)
        } else if a == "--only"@ || a == "-o"@ {
            if i + 1 < args.len() {
                args_from(args, i + 2, force, Some(args[i + 1]))
            } else {
                ArgsOutcomeView::MissingOnlyValue
            }
        } else if a == "--help"@ || a == "-h"@ {
            ArgsOutcomeView::Help
        } else {
            ArgsOutcomeView::Unknown(a)
        }
    }
}

/// How each argument is read: `-f` and `--force` set force and reading
/// goes on; `-o` and `--only` take the next argument as the only
/// capability (missing: an error) and reading goes on after it; `-h` and
/// `--help` stop with the help; anything else stops as unknown; after the
/// last argument the options seen are run.
pub proof fn law_args_reading(args: Seq<Seq<char>>, i: int, force: bool, only: Option<Seq<char>>)
    requires
        0 <= i,
    ensures
        i >= args.len() ==> args_from(args, i, force, only) == ArgsOutcomeView::Run(force, only),
        i < args.len() && (args[i] == "-f"@ || args[i] == "--force"@) ==> args_from(args, i, force, only)
            == args_from(args, i + 1, true, only),
        i + 1 < args.len() && (args[i] == "-o"@ || args[i] == "--only"@) ==> args_from(args, i, force, only)
            == args_from(args, i + 2, force, Some(args[i + 1])),
        i + 1 == args.len() && (args[i] == "-o"@ || args[i] == "--only"@) ==> args_from(args, i, force, only)
            == ArgsOutcomeView::MissingOnlyValue,
        i < args.len() && (args[i] == "-h"@ || args[i] == "--help"@) ==> args_from(args, i, force, only)
            == ArgsOutcomeView::Help,
        i < args.len() && args[i] != "-f"@ && args[i] != "--force"@ && args[i] != "-o"@ && args[i] != "--only"@
            && args[i] != "-h"@ && args[i] != "--help"@ ==> args_from(args, i, force, only) == ArgsOutcomeView::Unknown(
            args[i],
        ),
{
    reveal_strlit("-f");
    reveal_strlit("--force");
    reveal_strlit("-o");
    reveal_strlit("--only");
    reveal_strlit("-h");
    reveal_strlit("--help");
    assert("-f"@ != "-o"@ && "-f"@ != "-h"@ && "-o"@ != "-h"@) by {
        assert("-f"@[1] != "-o"@[1] && "-f"@[1] != "-h"@[1] && "-o"@[1] != "-h"@[1]);
    }
    assert("--force"@ != "--only"@ && "--force"@ != "--help"@ && "--only"@ != "--help"@) by {
        assert("--force"@[2] != "--only"@[2] && "--force"@[2] != "--help"@[2] && "--only"@[2] != "--help"@[2]);
    }
    assert("-f"@.len() != "--only"@.len() && "-f"@.len() != "--help"@.len() && "-o"@.len() != "--force"@.len()
        && "-o"@.len() != "--help"@.len() && "-h"@.len() != "--force"@.len() && "-h"@.len() != "--only"@.len());
}

/// The views of a list of strings.
pub open spec fn strings_view(v: Seq<String>) -> Seq<Seq<char>> {
    v.map_values(|s: String| s@)
}

/// Reads the command line; the first argument is the program name.
pub fn parse_args(args: &Vec<String>) -> (r: ArgsOutcome)
    ensures
        r@ == args_from(strings_view(args@), 1, false, None),
{
    let ghost av = strings_view(args@);
    let mut force = false;
    let mut only: Option<String> = None;
    let mut i: usize = 1;
    while i < args.len()
        invariant
            av == strings_view(args@),
            1 <= i,
            args_from(av, i as int, force, match only {
                Some(o) => Some(o@),
                None => None,
            }) == args_from(av, 1, false, None),
        decreases args@.len() - i,
    {
        let a = args[i].as_str();
        assert(av[i as int] == a@);
        if same_text(a, "--force") || same_text(a, "-f") {
            force = true;
        } else if same_text(a, "--only") || same_text(a, "-o") {
            i = i + 1;
            if i < args.len() {
                assert(av[i as int] == args@[i as int]@);
                only = Some(args[i].clone());
            } else {
                return ArgsOutcome::MissingOnlyValue;
            }
        } else if same_text(a, "--help") || same_text(a, "-h") {
            return ArgsOutcome::Help;
        } else {
            return ArgsOutcome::Unknown(owned(a));
        }
        i = i + 1;
    }
    ArgsOutcome::Run(Args { force, only })
}

/// The pack hash recorded for a capability: the last entry with that
/// capability and a non-empty hash wins.
pub open spec fn existing_hash(entries: Seq<SeedView>, cap: Seq<char>) -> Option<Seq<char>>
    decreases entries.len(),
{
    if entries.len() == 0 {
        None
    } else if entries.last().capability == cap && entries.last().pack_hash.len() > 0 {
        Some(entries.last().pack_hash)
    } else {
        existing_hash(entries.drop_last(), cap)
    }
}

/// Finds the hash recorded for a capability.
pub fn find_existing_hash(entries: &Vec<AgentSeed>, cap: &str) -> (r: Option<String>)
    ensures
        match r {
            Some(h) => existing_hash(seeds_view(entries@), cap@) == Some(h@),
            None => existing_hash(seeds_view(entries@), cap@) is None,
        },
{
    let ghost ev = seeds_view(entries@);
    let mut j: usize = entries.len();
    assert(ev.take(j as int) =~= ev);
    while j > 0
        invariant
            ev == seeds_view(entries@),
            j <= entries@.len(),
            existing_hash(ev, cap@) == existing_hash(ev.take(j as int), cap@),
        decreases j,
    {
        let e = &entries[j - 1];
        let ghost t = ev.take(j as int);
        assert(t.last() == e@);
        assert(t.drop_last() =~= ev.take(j - 1));
        if same_text(e.capability.as_str(), cap) && !e.pack_hash.as_str().is_empty() {
            return Some(e.pack_hash.clone());
        }
        j = j - 1;
    }
    None
}

/// What the tool does with one pack file.
#[derive(Debug)]
pub enum PackAction {
    /// Another capability was asked for: keep the recorded hash.
    KeepExisting(String),
    /// Another capability was asked for and nothing is recorded: leave it out.
    Skip,
    /// The pack already has a hash and `--force` was not given: keep it.
    UseExisting(String),
    /// Provision the pack and record the hash that comes back.
    Provision,
}

/// `PackAction` with texts as character sequences.
pub enum PackActionView {
    KeepExisting(Seq<char>),
    Skip,
    UseExisting(Seq<char>),
    Provision,
}

impl View for PackAction {
    type V = PackActionView;

    open spec fn view(&self) -> PackActionView {
        match self {
            PackAction::KeepExisting(h) => PackActionView::KeepExisting(h@),
            PackAction::Skip => PackActionView::Skip,
            PackAction::UseExisting(h) => PackActionView::UseExisting(h@),
            PackAction::Provision => PackActionView::Provision,
        }
    }
}

/// The action for a pack of capability `cap`.
pub open spec fn pack_action_spec(cap: Seq<char>, only: Option<Seq<char>>, force: bool, entries: Seq<SeedView>) -> PackActionView {
    let known = existing_hash(entries, cap);
    if only is Some && only->Some_0 != cap {
        match known {
            Some(h) => PackActionView::KeepExisting(h),
            None => PackActionView::Skip,
        }
    } else if !force && known is Some {
        PackActionView::UseExisting(known->Some_0)
    } else {
        PackActionView::Provision
    }
}

/// Decides what to do with the pack of a capability.
pub fn pack_action(cap: &str, only: Option<&str>, force: bool, entries: &Vec<AgentSeed>) -> (r: PackAction)
    ensures
        r@ == pack_action_spec(
            cap@,
            match only {
                Some(o) => Some(o@),
                None => None,
            },
            force,
            seeds_view(entries@),
        ),
{
    let known = find_existing_hash(entries, cap);
    let other = match only {
        Some(o) => !same_text(o, cap),
        None => false,
    };
    if other {
        match known {
            Some(h) => PackAction::KeepExisting(h),
            None => PackAction::Skip,
        }
    } else if !force && known.is_some() {
        match known {
            Some(h) => PackAction::UseExisting(h),
            None => PackAction::Provision,
        }
    } else {
        PackAction::Provision
    }
}

/// Whether some entry has the capability.
pub open spec fn has_capability(entries: Seq<SeedView>, cap: Seq<char>) -> bool {
    exists|i: int| 0 <= i < entries.len() && #[trigger] entries[i].capability == cap
}

/// Whether an existing entry is carried over: its capability got no
/// result and it has a hash.
pub open spec fn carried_over(results: Seq<SeedView>) -> spec_fn(SeedView) -> bool {
    |e: SeedView| !has_capability(results, e.capability) && e.pack_hash.len() > 0
}

/// An identical entry.
pub fn copy_seed(a: &AgentSeed) -> (r: AgentSeed)
    ensures
        r == *a,
{
    AgentSeed {
        capability: a.capability.clone(),
        name: a.name.clone(),
        description: a.description.clone(),
        pack_hash: a.pack_hash.clone(),
    }
}

fn has_capability_within(results: &Vec<AgentSeed>, upto: usize, cap: &str) -> (r: bool)
    requires
        upto <= results@.len(),
    ensures
        r == has_capability(seeds_view(results@.take(upto as int)), cap@),
{
    let ghost pre = seeds_view(results@.take(upto as int));
    let mut j: usize = 0;
    while j < upto
        invariant
            upto <= results@.len(),
            pre == seeds_view(results@.take(upto as int)),
            j <= upto,
            forall|k: int| 0 <= k < j ==> (#[trigger] pre[k]).capability != cap@,
        decreases upto - j,
    {
        assert(pre[j as int] == results@[j as int]@);
        if same_text(results[j].capability.as_str(), cap) {
            assert(pre[j as int].capability == cap@);
            return true;
        }
        j = j + 1;
    }
    false
}

/// Appends the existing entries that no result covers and that have a hash
/// (packs provisioned elsewhere), in their order.
pub fn preserve_unseen(results: &mut Vec<AgentSeed>, existing: &Vec<AgentSeed>)
    ensures
        seeds_view(final(results)@) == seeds_view(old(results)@) + seeds_view(existing@).filter(
            carried_over(seeds_view(old(results)@)),
        ),
{
    let ghost old_v = seeds_view(results@);
    let ghost ev = seeds_view(existing@);
    let ghost keep = carried_over(old_v);
    let n = results.len();
    let mut i: usize = 0;
    assert(ev.take(0).filter(keep) =~= Seq::<SeedView>::empty()) by {
        reveal(Seq::filter);
    }
    assert(seeds_view(results@) + ev.take(0).filter(keep) =~= seeds_view(results@));
    while i < existing.len()
        invariant
            n == old_v.len(),
            ev == seeds_view(existing@),
            keep == carried_over(old_v),
            i <= existing@.len(),
            seeds_view(results@) == old_v + ev.take(i as int).filter(keep),
        decreases existing@.len() - i,
    {
        assert(seeds_view(results@).take(n as int) =~= old_v);
        assert(seeds_view(results@).len() == results@.len());
        assert forall|k: int| 0 <= k < n implies seeds_view(results@.take(n as int))[k] == seeds_view(results@).take(n as int)[k] by {
            assert(results@.take(n as int)[k] == results@[k]);
        }
        assert(seeds_view(results@.take(n as int)) =~= seeds_view(results@).take(n as int));
        let e = &existing[i];
        let seen = has_capability_within(results, n, e.capability.as_str());
        proof {
            let t = ev.take(i + 1);
            assert(t.drop_last() =~= ev.take(i as int));
            assert(t.last() == e@);
            reveal(Seq::filter);
        }
        if !seen && !e.pack_hash.as_str().is_empty() {
            let ghost before = seeds_view(results@);
            results.push(copy_seed(e));
            assert(seeds_view(results@) =~= before.push(e@));
        }
        i = i + 1;
    }
    assert(ev.take(existing@.len() as int) =~= ev);
}

/// A text with each `"` escaped as `\"`.
pub open spec fn escape_quotes(s: Seq<char>) -> Seq<char>
    decreases s.len(),
{
    if s.len() == 0 {
        Seq::empty()
    } else {
        escape_quotes(s.drop_last()) + if s.last() == '"' {
            seq!['\\', '"']
        } else {
            seq![s.last()]
        }
    }
}

fn escape_quotes_exec(s: &str) -> (r: Vec<char>)
    ensures
        r@ == escape_quotes(s@),
{
    let c = chars_of(s);
    let mut r: Vec<char> = Vec::new();
    let mut i: usize = 0;
    while i < c.len()
        invariant
            c@ == s@,
            i <= c@.len(),
            r@ == escape_quotes(c@.take(i as int)),
        decreases c@.len() - i,
    {
        let ghost t = c@.take(i + 1);
        assert(t.drop_last() =~= c@.take(i as int));
        assert(t.last() == c@[i as int]);
        if c[i] == '"' {
            r.push('\\');
            r.push('"');
            assert(r@ =~= escape_quotes(c@.take(i as int)) + seq!['\\', '"']);
        } else {
            r.push(c[i]);
            assert(r@ =~= escape_quotes(c@.take(i as int)) + seq![c@[i as int]]);
        }
        i = i + 1;
    }
    assert(c@.take(i as int) =~= c@);
    r
}

/// The line a seed file holds for one entry (names and descriptions have
/// their quotes escaped).
pub open spec fn seed_line(a: SeedView) -> Seq<char> {
    "        AgentSeed(capability: \""@ + a.capability + "\", name: \""@ + escape_quotes(a.name)
        + "\", description: \""@ + escape_quotes(a.description) + "\", pack_hash: \""@ + a.pack_hash
        + "\"),\n"@
}

/// The lines of a list of entries, concatenated.
pub open spec fn seed_lines(s: Seq<SeedView>) -> Seq<char>
    decreases s.len(),
{
    if s.len() == 0 {
        Seq::empty()
    } else {
        seed_lines(s.drop_last()) + seed_line(s.last())
    }
}

/// The text of a seed file.
pub open spec fn seed_config_text_spec(s: Seq<SeedView>) -> Seq<char> {
    "StarflaskSeed(\n    agents: [\n"@ + seed_lines(s) + "    ],\n)\n"@
}

/// Renders the seed file for a list of entries.
pub fn seed_config_text(agents: &Vec<AgentSeed>) -> (r: String)
    ensures
        r@ == seed_config_text_spec(seeds_view(agents@)),
{
    let ghost av = seeds_view(agents@);
    let mut v = chars_of("StarflaskSeed(\n    agents: [\n");
    let ghost head = v@;
    let mut i: usize = 0;
    while i < agents.len()
        invariant
            av == seeds_view(agents@),
            i <= agents@.len(),
            v@ == head + seed_lines(av.take(i as int)),
        decreases agents@.len() - i,
    {
        let a = &agents[i];
        let ghost t = av.take(i + 1);
        assert(t.drop_last() =~= av.take(i as int));
        assert(t.last() == a@);
        push_str(&mut v, "        AgentSeed(capability: \"");
        push_str(&mut v, a.capability.as_str());
        push_str(&mut v, "\", name: \"");
        v.extend_from_slice(escape_quotes_exec(a.name.as_str()).as_slice());
        push_str(&mut v, "\", description: \"");
        v.extend_from_slice(escape_quotes_exec(a.description.as_str()).as_slice());
        push_str(&mut v, "\", pack_hash: \"");
        push_str(&mut v, a.pack_hash.as_str());
        push_str(&mut v, "\"),\n");
        assert(v@ =~= head + seed_lines(av.take(i as int)) + seed_line(a@));
        i = i + 1;
    }
    assert(av.take(i as int) =~= av);
    push_str(&mut v, "    ],\n)\n");
    string_from(v.as_slice())
}

/// Where the pack definitions may be, in the order they are tried.
pub open spec fn packs_dir_candidates() -> Seq<Seq<char>> {
    seq!["seed-packs/packs"@, "packs"@, "../seed-packs/packs"@]
}

/// Where the seed file may be, in the order they are tried.
pub open spec fn config_path_candidates() -> Seq<Seq<char>> {
    seq!["config/starflask_seed.ron"@, "../config/starflask_seed.ron"@]
}

/// The first candidate whose flag is set.
pub open spec fn first_flagged(cands: Seq<Seq<char>>, flags: Seq<bool>) -> Option<Seq<char>>
    decreases cands.len(),
{
    if cands.len() == 0 || flags.len() == 0 {
        None
    } else if flags[0] {
        Some(cands[0])
    } else {
        first_flagged(cands.drop_first(), flags.drop_first())
    }
}

/// The packs directory: the first candidate that is a directory (`None`
/// when none is, which the tool treats as fatal).  `is_dir[i]` tells
/// whether the i-th candidate is a directory.
pub fn find_packs_dir(is_dir: &Vec<bool>) -> (r: Option<String>)
    requires
        is_dir@.len() == 3,
    ensures
        match r {
            Some(p) => first_flagged(packs_dir_candidates(), is_dir@) == Some(p@),
            None => first_flagged(packs_dir_candidates(), is_dir@) is None,
        },
{
    proof {
        reveal_with_fuel(first_flagged, 4);
        assert(is_dir@.drop_first().drop_first().drop_first().len() == 0);
    }
    if is_dir[0] {
        Some(owned("seed-packs/packs"))
    } else if is_dir[1] {
        Some(owned("packs"))
    } else if is_dir[2] {
        Some(owned("../seed-packs/packs"))
    } else {
        None
    }
}

/// The seed file path: the first candidate that exists or whose directory
/// exists, else `config/starflask_seed.ron`.  `usable[i]` tells whether
/// that holds of the i-th candidate.
pub fn find_config_path(usable: &Vec<bool>) -> (r: String)
    requires
        usable@.len() == 2,
    ensures
        r@ == match first_flagged(config_path_candidates(), usable@) {
            Some(p) => p,
            None => "config/starflask_seed.ron"@,
        },
{
    proof {
        reveal_with_fuel(first_flagged, 3);
        assert(usable@.drop_first().drop_first().len() == 0);
    }
    if usable[0] {
        owned("config/starflask_seed.ron")
    } else if usable[1] {
        owned("../config/starflask_seed.ron")
    } else {
        owned("config/starflask_seed.ron")
    }
}

/// `def["pack"][field]` when it is a string, else the fallback.
pub open spec fn pack_text_spec(def: Json, field: Seq<char>, fallback: Seq<char>) -> Seq<char> {
    match json_get(def, "pack"@) {
        Some(p) => match json_get_str(p, field) {
            Some(t) => t,
            None => fallback,
        },
        None => fallback,
    }
}

/// A text of a pack definition's `pack` object, with a fallback.
pub fn pack_text(def: &Json, field: &str, fallback: &str) -> (r: String)
    ensures
        r@ == pack_text_spec(*def, field@, fallback@),
{
    match def.get("pack") {
        Some(p) => match p.get_str(field) {
            Some(t) => t.clone(),
            None => owned(fallback),
        },
        None => owned(fallback),
    }
}

// ───────────────────────── reading back a written seed file ─────────────────────────

/// A field that a seed file line carries unchanged: no quote or line
/// break.
pub open spec fn plain_field(s: Seq<char>) -> bool {
    forall|i: int| 0 <= i < s.len() ==> s[i] != '"' && s[i] != '\n'
}

/// `s` ends with `t`.
pub open spec fn has_tail(s: Seq<char>, t: Seq<char>) -> bool {
    t.len() <= s.len() && s.subrange(s.len() - t.len(), s.len() as int) == t
}

/// An entry that reads back as written: plain fields, a capability, a pack
/// hash that is not a placeholder, and no field ending in the label of a
/// later field (`name: `, `description: `, `pack_hash: `), which would be
/// read as that field's start.
pub open spec fn plain_entry(a: SeedView) -> bool {
    &&& plain_field(a.capability)
    &&& plain_field(a.name)
    &&& plain_field(a.description)
    &&& plain_field(a.pack_hash)
    &&& a.capability.len() > 0
    &&& !contains_seq(a.pack_hash, "..."@)
    &&& !has_tail(a.capability, "name: "@)
    &&& !has_tail(a.capability, "description: "@)
    &&& !has_tail(a.capability, "pack_hash: "@)
    &&& !has_tail(a.name, "description: "@)
    &&& !has_tail(a.name, "pack_hash: "@)
    &&& !has_tail(a.description, "pack_hash: "@)
}

/// The record of an entry, as its line holds it after the indentation.
pub open spec fn seed_record(a: SeedView) -> Seq<char> {
    "AgentSeed(capability: \""@ + a.capability + "\", name: \""@ + a.name + "\", description: \""@
        + a.description + "\", pack_hash: \""@ + a.pack_hash + "\"),"@
}

/// A text without quotes is its own escape.
proof fn lemma_escape_noop(s: Seq<char>)
    requires
        plain_field(s),
    ensures
        escape_quotes(s) == s,
    decreases s.len(),
{
    if s.len() > 0 {
        lemma_escape_noop(s.drop_last());
        assert(s.drop_last() + seq![s.last()] =~= s);
    }
}

/// The line of a plain entry is its indented record and a line break.
proof fn lemma_seed_line_plain(a: SeedView)
    requires
        plain_entry(a),
    ensures
        seed_line(a) == "        "@ + seed_record(a) + "\n"@,
{
    lemma_escape_noop(a.name);
    lemma_escape_noop(a.description);
    reveal_strlit("        AgentSeed(capability: \"");
    reveal_strlit("        ");
    reveal_strlit("AgentSeed(capability: \"");
    reveal_strlit("\"),\n");
    reveal_strlit("\"),");
    reveal_strlit("\n");
    assert("        AgentSeed(capability: \""@ =~= "        "@ + "AgentSeed(capability: \""@);
    assert("\"),\n"@ =~= "\"),"@ + "\n"@);
    assert(seed_line(a) =~= "        "@ + seed_record(a) + "\n"@);
}

/// Reading a line that ends at a line break.
proof fn lemma_lines_split(l: Seq<char>, rest: Seq<char>, cur: Seq<char>)
    requires
        forall|i: int| 0 <= i < l.len() ==> l[i] != '\n',
    ensures
        lines_acc(l + "\n"@ + rest, cur) == seq![strip_cr(cur + l)] + lines_acc(rest, Seq::empty()),
    decreases l.len(),
{
    reveal_strlit("\n");
    let s = l + "\n"@ + rest;
    if l.len() == 0 {
        assert(s[0] == '\n');
        assert(s.drop_first() =~= rest);
        assert(cur + l =~= cur);
    } else {
        assert(s[0] == l[0]);
        assert(s.drop_first() =~= l.drop_first() + "\n"@ + rest);
        lemma_lines_split(l.drop_first(), rest, cur.push(l[0]));
        assert(cur.push(l[0]) + l.drop_first() =~= cur + l);
    }
}

/// Leading whitespace does not change what trimming the start leaves.
proof fn lemma_trim_start_ws_prefix(sp: Seq<char>, t: Seq<char>)
    requires
        forall|i: int| 0 <= i < sp.len() ==> is_ws(#[trigger] sp[i]),
    ensures
        trim_start_ws(sp + t) == trim_start_ws(t),
    decreases sp.len(),
{
    if sp.len() > 0 {
        let s = sp + t;
        assert(s[0] == sp[0]);
        assert(s.drop_first() =~= sp.drop_first() + t);
        lemma_trim_start_ws_prefix(sp.drop_first(), t);
    } else {
        assert(sp + t =~= t);
    }
}

/// The positions in a record where its four fields' values start.
pub open spec fn record_offsets(a: SeedView) -> (int, int, int, int) {
    let o1: int = 23int + a.capability.len();
    let o2: int = o1 + 10 + a.name.len();
    let o3: int = o2 + 17 + a.description.len();
    (o1, o2, o3, o3 + 15 + a.pack_hash.len())
}

/// The characters of a record, piece by piece.
proof fn lemma_record_chars(a: SeedView)
    ensures
        ({
            let r = seed_record(a);
            let (o1, o2, o3, o4) = record_offsets(a);
            &&& r.len() == o4 + 3
            &&& r.subrange(0, 23) == "AgentSeed(capability: \""@
            &&& forall|i: int| 0 <= i < a.capability.len() ==> r[23 + i] == a.capability[i]
            &&& r.subrange(o1, o1 + 10) == "\", name: \""@
            &&& forall|i: int| 0 <= i < a.name.len() ==> r[o1 + 10 + i] == a.name[i]
            &&& r.subrange(o2, o2 + 17) == "\", description: \""@
            &&& forall|i: int| 0 <= i < a.description.len() ==> r[o2 + 17 + i] == a.description[i]
            &&& r.subrange(o3, o3 + 15) == "\", pack_hash: \""@
            &&& forall|i: int| 0 <= i < a.pack_hash.len() ==> r[o3 + 15 + i] == a.pack_hash[i]
            &&& r.subrange(o4, o4 + 3) == "\"),"@
        }),
{
    reveal_strlit("AgentSeed(capability: \"");
    reveal_strlit("\", name: \"");
    reveal_strlit("\", description: \"");
    reveal_strlit("\", pack_hash: \"");
    reveal_strlit("\"),");
    let r = seed_record(a);
    let (o1, o2, o3, o4) = record_offsets(a);
    assert(r.subrange(0, 23) =~= "AgentSeed(capability: \""@);
    assert(r.subrange(o1, o1 + 10) =~= "\", name: \""@);
    assert(r.subrange(o2, o2 + 17) =~= "\", description: \""@);
    assert(r.subrange(o3, o3 + 15) =~= "\", pack_hash: \""@);
    assert(r.subrange(o4, o4 + 3) =~= "\"),"@);
}

/// Where the quotes of a record are, and the letter before each label's
/// colon.
proof fn lemma_record_quotes(a: SeedView)
    requires
        plain_entry(a),
    ensures
        ({
            let r = seed_record(a);
            let (o1, o2, o3, o4) = record_offsets(a);
            &&& forall|i: int|
                0 <= i < r.len() && r[i] == '"' ==> i == 22 || i == o1 || i == o1 + 9 || i == o2 || i == o2 + 16
                    || i == o3 || i == o3 + 14 || i == o4
            &&& r[22] == '"' && r[o1] == '"' && r[o1 + 9] == '"' && r[o2] == '"' && r[o2 + 16] == '"'
            &&& r[o3] == '"' && r[o3 + 14] == '"'
            &&& r[19] == 'y'
            &&& r[o1 + 6] == 'e'
            &&& r[o2 + 13] == 'n'
            &&& r[o3 + 11] == 'h'
            &&& r.subrange(23, o1) == a.capability
            &&& r.subrange(o1 + 10, o2) == a.name
            &&& r.subrange(o2 + 17, o3) == a.description
        }),
{
    lemma_record_chars(a);
    reveal_strlit("AgentSeed(capability: \"");
    reveal_strlit("\", name: \"");
    reveal_strlit("\", description: \"");
    reveal_strlit("\", pack_hash: \"");
    reveal_strlit("\"),");
    let r = seed_record(a);
    let (o1, o2, o3, o4) = record_offsets(a);
    assert(r[19] == r.subrange(0, 23)[19]);
    assert(r[22] == r.subrange(0, 23)[22]);
    assert(r[o1] == r.subrange(o1, o1 + 10)[0]);
    assert(r[o1 + 6] == r.subrange(o1, o1 + 10)[6]);
    assert(r[o1 + 9] == r.subrange(o1, o1 + 10)[9]);
    assert(r[o2] == r.subrange(o2, o2 + 17)[0]);
    assert(r[o2 + 13] == r.subrange(o2, o2 + 17)[13]);
    assert(r[o2 + 16] == r.subrange(o2, o2 + 17)[16]);
    assert(r[o3] == r.subrange(o3, o3 + 15)[0]);
    assert(r[o3 + 11] == r.subrange(o3, o3 + 15)[11]);
    assert(r[o3 + 14] == r.subrange(o3, o3 + 15)[14]);
    assert(r.subrange(23, o1) =~= a.capability);
    assert(r.subrange(o1 + 10, o2) =~= a.name);
    assert(r.subrange(o2 + 17, o3) =~= a.description);
    assert forall|i: int| 0 <= i < r.len() && r[i] == '"' implies i == 22 || i == o1 || i == o1 + 9 || i == o2 || i
        == o2 + 16 || i == o3 || i == o3 + 14 || i == o4 by {
        if i < 23 {
            assert(r[i] == r.subrange(0, 23)[i]);
        } else if i < o1 {
            assert(r[i] == a.capability[i - 23]);
        } else if i < o1 + 10 {
            assert(r[i] == r.subrange(o1, o1 + 10)[i - o1]);
        } else if i < o2 {
            assert(r[i] == a.name[i - o1 - 10]);
        } else if i < o2 + 17 {
            assert(r[i] == r.subrange(o2, o2 + 17)[i - o2]);
        } else if i < o3 {
            assert(r[i] == a.description[i - o2 - 17]);
        } else if i < o3 + 15 {
            assert(r[i] == r.subrange(o3, o3 + 15)[i - o3]);
        } else if i < o4 {
            assert(r[i] == a.pack_hash[i - o3 - 15]);
        } else {
            assert(r[i] == r.subrange(o4, o4 + 3)[i - o4]);
        }
    }
}

/// A field label (`<field>: "`) cannot end at the quote closing a field's
/// text that does not end with `<field>: `.
proof fn lemma_no_label_at_text_end(r: Seq<char>, field: Seq<char>, cs: int, q: int)
    requires
        forall|i: int| 0 <= i < field.len() ==> field[i] != '"',
        1 <= cs <= q < r.len(),
        r[cs - 1] == '"',
        !has_tail(r.subrange(cs, q), field + ": "@),
    ensures
        !occurs_at(r, field + ": \""@, q - field.len() - 2),
{
    reveal_strlit(": \"");
    reveal_strlit(": ");
    let pat = field + ": \""@;
    let j = q - field.len() - 2;
    if occurs_at(r, pat, j) {
        if j >= cs {
            let c = r.subrange(cs, q);
            assert(c.subrange(c.len() - (field.len() + 2), c.len() as int) =~= field + ": "@) by {
                assert forall|i: int| 0 <= i < field.len() + 2 implies c.subrange(
                    c.len() - (field.len() + 2),
                    c.len() as int,
                )[i] == (field + ": "@)[i] by {
                    assert(r[j + i] == r.subrange(j, j + pat.len())[i]);
                    assert(pat[i] == (field + ": "@)[i]);
                }
            }
        } else {
            let k = cs - 1 - j;
            assert(0 <= k < pat.len() - 1);
            assert(r[cs - 1] == r.subrange(j, j + pat.len())[k]);
            assert(pat[k] != '"');
        }
    }
}

/// A field's value, found after its first `<field>: "`, whose colon stands
/// at `cf`: no quote before that one closes an earlier label.
proof fn lemma_field_at(r: Seq<char>, field: Seq<char>, cf: int, v: Seq<char>)
    requires
        field.len() >= 1,
        cf >= field.len(),
        occurs_at(r, field + ": \""@, cf - field.len()),
        forall|q: int| 0 <= q < cf + 2 && #[trigger] r[q] == '"' ==> !occurs_at(r, field + ": \""@, q - field.len() - 2),
        cf + 3 + v.len() < r.len(),
        forall|i: int| 0 <= i < v.len() ==> r[cf + 3 + i] == v[i],
        r[cf + 3 + v.len()] == '"',
        forall|i: int| 0 <= i < v.len() ==> v[i] != '"',
    ensures
        field_value(r, field) == v,
{
    reveal_strlit(": \"");
    let pat = field + ": \""@;
    let k = cf - field.len();
    assert(pat.last() == '"');
    assert forall|j: int| 0 <= j < k implies !occurs_at(r, pat, j) by {
        if occurs_at(r, pat, j) {
            let q = j + field.len() + 2;
            assert(r[q] == r.subrange(j, j + pat.len())[field.len() + 2int]);
            assert(q - field.len() - 2 == j);
        }
    }
    lemma_find_seq(r, pat, k);
    let rest = r.subrange(k + pat.len(), r.len() as int);
    assert(k + pat.len() == cf + 3);
    assert forall|j: int| 0 <= j < v.len() implies rest[j] != '"' by {
        assert(rest[j] == r[cf + 3 + j]);
        assert(r[cf + 3 + j] == v[j]);
    }
    assert(rest[v.len() as int] == r[cf + 3 + v.len()]);
    lemma_find_char(rest, '"', v.len() as int);
    assert forall|j: int| 0 <= j < v.len() implies rest.take(v.len() as int)[j] == v[j] by {
        assert(rest[j] == r[cf + 3 + j]);
    }
    assert(rest.take(v.len() as int) =~= v);
}

/// A record starts with `AgentSeed(` and gives back its capability.
proof fn lemma_record_capability(a: SeedView)
    requires
        plain_entry(a),
    ensures
        starts_with(seed_record(a), "AgentSeed("@),
        field_value(seed_record(a), "capability"@) == a.capability,
{
    lemma_record_chars(a);
    lemma_record_quotes(a);
    reveal_strlit("AgentSeed(capability: \"");
    reveal_strlit("\", name: \"");
    reveal_strlit("AgentSeed(");
    reveal_strlit(": \"");
    reveal_strlit("capability");
    let r = seed_record(a);
    let (o1, o2, o3, o4) = record_offsets(a);
    assert(r.subrange(0, 10) =~= "AgentSeed("@) by {
        assert forall|i: int| 0 <= i < 10 implies r.subrange(0, 10)[i] == "AgentSeed("@[i] by {
            assert(r[i] == r.subrange(0, 23)[i]);
        }
    }
    assert(r.subrange(10, 23) =~= "capability"@ + ": \""@) by {
        assert forall|i: int| 0 <= i < 13 implies r.subrange(10, 23)[i] == ("capability"@ + ": \""@)[i] by {
            assert(r[10 + i] == r.subrange(0, 23)[10 + i]);
        }
    }
    lemma_field_at(r, "capability"@, 20, a.capability);
}

/// A record gives back its name.
proof fn lemma_record_name(a: SeedView)
    requires
        plain_entry(a),
    ensures
        field_value(seed_record(a), "name"@) == a.name,
{
    lemma_record_chars(a);
    lemma_record_quotes(a);
    reveal_strlit("\", name: \"");
    reveal_strlit(": \"");
    reveal_strlit("name");
    let r = seed_record(a);
    let (o1, o2, o3, o4) = record_offsets(a);
    let f = "name"@;
    reveal_strlit(": ");
    reveal_strlit("name: ");
    assert(f + ": "@ =~= "name: "@);
    assert(r.subrange(o1 + 3, o1 + 10) =~= f + ": \""@) by {
        assert forall|i: int| 0 <= i < 7 implies r.subrange(o1 + 3, o1 + 10)[i] == (f + ": \""@)[i] by {
            assert(r[o1 + 3 + i] == r.subrange(o1, o1 + 10)[3 + i]);
        }
    }
    lemma_no_label_at_text_end(r, f, 23, o1);
    assert forall|q: int| 0 <= q < o1 + 9 && #[trigger] r[q] == '"' implies !occurs_at(r, f + ": \""@, q - f.len() - 2) by {
        if q == 22 {
            if occurs_at(r, f + ": \""@, q - f.len() - 2) {
                assert(r[19] == r.subrange(q - 6, q + 1)[3]);
            }
        }
    }
    lemma_field_at(r, f, o1 + 7, a.name);
}

/// A record gives back its description.
proof fn lemma_record_description(a: SeedView)
    requires
        plain_entry(a),
    ensures
        field_value(seed_record(a), "description"@) == a.description,
{
    lemma_record_chars(a);
    lemma_record_quotes(a);
    reveal_strlit("\", description: \"");
    reveal_strlit(": \"");
    reveal_strlit("description");
    let r = seed_record(a);
    let (o1, o2, o3, o4) = record_offsets(a);
    let f = "description"@;
    reveal_strlit(": ");
    reveal_strlit("description: ");
    assert(f + ": "@ =~= "description: "@);
    assert(r.subrange(o2 + 3, o2 + 17) =~= f + ": \""@) by {
        assert forall|i: int| 0 <= i < 14 implies r.subrange(o2 + 3, o2 + 17)[i] == (f + ": \""@)[i] by {
            assert(r[o2 + 3 + i] == r.subrange(o2, o2 + 17)[3 + i]);
        }
    }
    lemma_no_label_at_text_end(r, f, 23, o1);
    lemma_no_label_at_text_end(r, f, o1 + 10, o2);
    assert forall|q: int| 0 <= q < o2 + 16 && #[trigger] r[q] == '"' implies !occurs_at(r, f + ": \""@, q - f.len() - 2) by {
        if occurs_at(r, f + ": \""@, q - f.len() - 2) {
            if q == 22 {
                assert(r[19] == r.subrange(q - 13, q + 1)[10]);
            } else if q == o1 + 9 {
                assert(r[o1 + 6] == r.subrange(q - 13, q + 1)[10]);
            }
        }
    }
    lemma_field_at(r, f, o2 + 14, a.description);
}

/// A record gives back its pack hash.
proof fn lemma_record_pack_hash(a: SeedView)
    requires
        plain_entry(a),
    ensures
        field_value(seed_record(a), "pack_hash"@) == a.pack_hash,
{
    lemma_record_chars(a);
    lemma_record_quotes(a);
    reveal_strlit("\", pack_hash: \"");
    reveal_strlit("\"),");
    reveal_strlit(": \"");
    reveal_strlit("pack_hash");
    let r = seed_record(a);
    let (o1, o2, o3, o4) = record_offsets(a);
    let f = "pack_hash"@;
    reveal_strlit(": ");
    reveal_strlit("pack_hash: ");
    assert(f + ": "@ =~= "pack_hash: "@);
    assert(r.subrange(o3 + 3, o3 + 15) =~= f + ": \""@) by {
        assert forall|i: int| 0 <= i < 12 implies r.subrange(o3 + 3, o3 + 15)[i] == (f + ": \""@)[i] by {
            assert(r[o3 + 3 + i] == r.subrange(o3, o3 + 15)[3 + i]);
        }
    }
    assert(r[o4] == r.subrange(o4, o4 + 3)[0]);
    lemma_no_label_at_text_end(r, f, 23, o1);
    lemma_no_label_at_text_end(r, f, o1 + 10, o2);
    lemma_no_label_at_text_end(r, f, o2 + 17, o3);
    assert forall|q: int| 0 <= q < o3 + 14 && #[trigger] r[q] == '"' implies !occurs_at(r, f + ": \""@, q - f.len() - 2) by {
        if occurs_at(r, f + ": \""@, q - f.len() - 2) {
            if q == 22 {
                assert(r[19] == r.subrange(q - 11, q + 1)[8]);
            } else if q == o1 + 9 {
                assert(r[o1 + 6] == r.subrange(q - 11, q + 1)[8]);
            } else if q == o2 + 16 {
                assert(r[o2 + 13] == r.subrange(q - 11, q + 1)[8]);
            }
        }
    }
    lemma_field_at(r, f, o3 + 12, a.pack_hash);
}

/// A record holds no line break, starts with `A` and ends with `,`.
proof fn lemma_record_shape(a: SeedView)
    requires
        plain_entry(a),
    ensures
        ({
            let r = seed_record(a);
            &&& forall|i: int| 0 <= i < r.len() ==> r[i] != '\n'
            &&& r.len() > 0
            &&& r[0] == 'A'
            &&& r.last() == ','
        }),
{
    lemma_record_chars(a);
    reveal_strlit("AgentSeed(capability: \"");
    reveal_strlit("\", name: \"");
    reveal_strlit("\", description: \"");
    reveal_strlit("\", pack_hash: \"");
    reveal_strlit("\"),");
    let r = seed_record(a);
    let (o1, o2, o3, o4) = record_offsets(a);
    assert(r[0] == r.subrange(0, 23)[0]);
    assert(r.last() == r.subrange(o4, o4 + 3)[2]);
    assert forall|i: int| 0 <= i < r.len() implies r[i] != '\n' by {
        if i < 23 {
            assert(r[i] == r.subrange(0, 23)[i]);
        } else if i < o1 {
            assert(r[i] == a.capability[i - 23]);
        } else if i < o1 + 10 {
            assert(r[i] == r.subrange(o1, o1 + 10)[i - o1]);
        } else if i < o2 {
            assert(r[i] == a.name[i - o1 - 10]);
        } else if i < o2 + 17 {
            assert(r[i] == r.subrange(o2, o2 + 17)[i - o2]);
        } else if i < o3 {
            assert(r[i] == a.description[i - o2 - 17]);
        } else if i < o3 + 15 {
            assert(r[i] == r.subrange(o3, o3 + 15)[i - o3]);
        } else if i < o4 {
            assert(r[i] == a.pack_hash[i - o3 - 15]);
        } else {
            assert(r[i] == r.subrange(o4, o4 + 3)[i - o4]);
        }
    }
}

/// The line a plain entry is written as, without its line break.
pub open spec fn record_line(a: SeedView) -> Seq<char> {
    "        "@ + seed_record(a)
}

/// A written line reads back as its entry.
proof fn lemma_record_line_entry(a: SeedView)
    requires
        plain_entry(a),
    ensures
        entry_of_line(record_line(a)) == Some(a),
{
    lemma_record_shape(a);
    lemma_record_capability(a);
    lemma_record_name(a);
    lemma_record_description(a);
    lemma_record_pack_hash(a);
    reveal_strlit("        ");
    let r = seed_record(a);
    lemma_trim_start_ws_prefix("        "@, r);
    assert(trim_start_ws(r) == r);
    assert(trim_end_ws(r) == r);
    assert(trim_ws(record_line(a)) == r);
}

/// A line without an `A` holds no entry.
proof fn lemma_line_without_a(l: Seq<char>)
    requires
        forall|i: int| 0 <= i < l.len() ==> l[i] != 'A',
    ensures
        entry_of_line(l) is None,
{
    reveal_strlit("AgentSeed(");
    let t1 = trim_start_ws(l);
    lemma_trim_start_ws_is_suffix(l);
    lemma_trim_end_ws_is_prefix(t1);
    let t = trim_end_ws(t1);
    if starts_with(t, "AgentSeed("@) {
        assert(t[0] == t.subrange(0, 10)[0]);
        assert(t[0] == t1[0]);
        assert(t1[0] == l[l.len() - t1.len()]);
    }
}

/// The entries of two runs of lines, one after the other.
proof fn lemma_entries_concat(x: Seq<Seq<char>>, y: Seq<Seq<char>>)
    ensures
        entries_of_lines(x + y) == entries_of_lines(x) + entries_of_lines(y),
    decreases y.len(),
{
    if y.len() == 0 {
        assert(x + y =~= x);
        assert(entries_of_lines(x) + entries_of_lines(y) =~= entries_of_lines(x));
    } else {
        lemma_entries_concat(x, y.drop_last());
        assert((x + y).drop_last() =~= x + y.drop_last());
        assert((x + y).last() == y.last());
    }
}

/// The entries of the written lines of plain entries are those entries.
proof fn lemma_entries_of_record_lines(s: Seq<SeedView>)
    requires
        forall|i: int| 0 <= i < s.len() ==> plain_entry(#[trigger] s[i]),
    ensures
        entries_of_lines(s.map_values(|a: SeedView| record_line(a))) == s,
    decreases s.len(),
{
    let ls = s.map_values(|a: SeedView| record_line(a));
    if s.len() > 0 {
        lemma_entries_of_record_lines(s.drop_last());
        assert(ls.drop_last() =~= s.drop_last().map_values(|a: SeedView| record_line(a)));
        lemma_record_line_entry(s.last());
        assert(s.drop_last().push(s.last()) =~= s);
    } else {
        assert(s =~= Seq::<SeedView>::empty());
    }
}

/// How the written lines of plain entries are split back into lines.
proof fn lemma_lines_of_seed_lines(s: Seq<SeedView>, tail: Seq<char>)
    requires
        forall|i: int| 0 <= i < s.len() ==> plain_entry(#[trigger] s[i]),
    ensures
        lines_acc(seed_lines(s) + tail, Seq::empty()) == s.map_values(|a: SeedView| record_line(a))
            + lines_acc(tail, Seq::empty()),
    decreases s.len(),
{
    reveal_strlit("\n");
    if s.len() == 0 {
        assert(seed_lines(s) + tail =~= tail);
        assert(s.map_values(|a: SeedView| record_line(a)) + lines_acc(tail, Seq::empty()) =~= lines_acc(
            tail,
            Seq::empty(),
        ));
    } else {
        let a = s.last();
        let l = record_line(a);
        lemma_seed_line_plain(a);
        lemma_record_shape(a);
        reveal_strlit("        ");
        assert forall|i: int| 0 <= i < l.len() implies l[i] != '\n' by {
            if i >= 8 {
                assert(l[i] == seed_record(a)[i - 8]);
            }
        }
        assert(seed_lines(s) + tail =~= seed_lines(s.drop_last()) + (l + "\n"@ + tail));
        lemma_lines_of_seed_lines(s.drop_last(), l + "\n"@ + tail);
        lemma_lines_split(l, tail, Seq::empty());
        assert(Seq::<char>::empty() + l =~= l);
        assert(l.last() == seed_record(a).last());
        assert(s.map_values(|a: SeedView| record_line(a)) =~= s.drop_last().map_values(
            |a: SeedView| record_line(a),
        ).push(l));
        assert(seq![l] + lines_acc(tail, Seq::empty()) =~= seq![strip_cr(l)] + lines_acc(tail, Seq::empty()));
    }
}

/// Written and read back, a seed file gives back the entries it was written
/// from, when each entry is plain (`plain_entry`): no quote or line break,
/// a capability, a pack hash that is not a `...` placeholder, and no text
/// ending in a later field's label.
pub proof fn law_seed_file_round_trip(agents: Seq<SeedView>)
    requires
        forall|i: int| 0 <= i < agents.len() ==> plain_entry(#[trigger] agents[i]),
    ensures
        entries_of_lines(lines_of(seed_config_text_spec(agents))) == agents,
{
    reveal_strlit("StarflaskSeed(\n    agents: [\n");
    reveal_strlit("    ],\n)\n");
    reveal_strlit("StarflaskSeed(");
    reveal_strlit("    agents: [");
    reveal_strlit("    ],");
    reveal_strlit(")");
    reveal_strlit("\n");
    let h1 = "StarflaskSeed("@;
    let h2 = "    agents: ["@;
    let f1 = "    ],"@;
    let f2 = ")"@;
    let body = seed_lines(agents);
    let text = seed_config_text_spec(agents);
    let recs = agents.map_values(|a: SeedView| record_line(a));
    assert(text =~= h1 + "\n"@ + (h2 + "\n"@ + (body + (f1 + "\n"@ + (f2 + "\n"@ + Seq::empty())))));
    lemma_lines_split(h1, h2 + "\n"@ + (body + (f1 + "\n"@ + (f2 + "\n"@ + Seq::empty()))), Seq::empty());
    lemma_lines_split(h2, body + (f1 + "\n"@ + (f2 + "\n"@ + Seq::empty())), Seq::empty());
    lemma_lines_of_seed_lines(agents, f1 + "\n"@ + (f2 + "\n"@ + Seq::empty()));
    lemma_lines_split(f1, f2 + "\n"@ + Seq::empty(), Seq::empty());
    lemma_lines_split(f2, Seq::empty(), Seq::empty());
    assert(Seq::<char>::empty() + h1 =~= h1);
    assert(Seq::<char>::empty() + h2 =~= h2);
    assert(Seq::<char>::empty() + f1 =~= f1);
    assert(Seq::<char>::empty() + f2 =~= f2);
    assert(lines_acc(Seq::<char>::empty(), Seq::<char>::empty()) =~= Seq::<Seq<char>>::empty());
    let ls = lines_of(text);
    assert(ls =~= seq![h1, h2] + recs + seq![f1, f2]);
    lemma_entries_concat(seq![h1, h2] + recs, seq![f1, f2]);
    lemma_entries_concat(seq![h1, h2], recs);
    lemma_entries_of_record_lines(agents);
    lemma_line_without_a(h1);
    lemma_line_without_a(h2);
    lemma_line_without_a(f1);
    lemma_line_without_a(f2);
    assert(seq![h1, h2].drop_last() =~= seq![h1]);
    assert(seq![h1].drop_last() =~= Seq::<Seq<char>>::empty());
    assert(seq![f1, f2].drop_last() =~= seq![f1]);
    assert(seq![f1].drop_last() =~= Seq::<Seq<char>>::empty());
    assert(entries_of_lines(Seq::<Seq<char>>::empty()) =~= Seq::<SeedView>::empty());
    assert(entries_of_lines(seq![h1]) =~= Seq::<SeedView>::empty());
    assert(entries_of_lines(seq![h1, h2]) =~= Seq::<SeedView>::empty());
    assert(entries_of_lines(seq![f1]) =~= Seq::<SeedView>::empty());
    assert(entries_of_lines(seq![f1, f2]) =~= Seq::<SeedView>::empty());
    assert(Seq::<SeedView>::empty() + agents + Seq::<SeedView>::empty() =~= agents);
}

/// Run again over the file it wrote, without `--force` or `--only`, the
/// tool keeps every recorded pack hash: a capability with a hash gets
/// `UseExisting` with it, and only capabilities without one are
/// provisioned (entries as in `law_seed_file_round_trip`).
pub proof fn law_rerun_keeps_recorded_hashes(agents: Seq<SeedView>, cap: Seq<char>)
    requires
        forall|i: int| 0 <= i < agents.len() ==> plain_entry(#[trigger] agents[i]),
    ensures
        pack_action_spec(cap, None, false, entries_of_lines(lines_of(seed_config_text_spec(agents))))
            == match existing_hash(agents, cap) {
            Some(h) => PackActionView::UseExisting(h),
            None => PackActionView::Provision,
        },
{
    law_seed_file_round_trip(agents);
}

/// `--force` provisions every selected pack, whatever hashes are recorded.
pub proof fn law_force_provisions_selected(cap: Seq<char>, only: Option<Seq<char>>, entries: Seq<SeedView>)
    requires
        only is None || only == Some(cap),
    ensures
        pack_action_spec(cap, only, true, entries) == PackActionView::Provision,
{
}

/// `--only <cap>` provisions no other capability: another one keeps its
/// recorded hash, or is left out when it has none.
pub proof fn law_only_provisions_its_capability(cap: Seq<char>, only: Seq<char>, force: bool, entries: Seq<SeedView>)
    requires
        only != cap,
    ensures
        pack_action_spec(cap, Some(only), force, entries) == match existing_hash(entries, cap) {
            Some(h) => PackActionView::KeepExisting(h),
            None => PackActionView::Skip,
        },
{
}

} // verus!
