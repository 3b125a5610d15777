//! The capability → agent table and the registry's decisions: syncing it
//! with the remote agents, provisioning agents from the seed, and reading a
//! capability's output type.

use vstd::prelude::*;
use crate::json::{json_get, json_get_str, Json};
use crate::router::{parse_uuid, uuid_value};
use crate::seed::{seeds_view, strings_view, AgentSeed, SeedView};
use crate::text::{chars_of, contains_seq, owned, push_str, same_text, str_contains, str_lower, string_from, to_lowercase};

verus! {

// ───────────────────────── text order ─────────────────────────

/// `a` sorts strictly before `b` (by character codes, which is the byte
/// order of their UTF-8 forms).
pub open spec fn text_lt(a: Seq<char>, b: Seq<char>) -> bool
    decreases a.len(),
{
    if a.len() == 0 {
        b.len() > 0
    } else if b.len() == 0 {
        false
    } else if a[0] != b[0] {
        (a[0] as int) < (b[0] as int)
    } else {
        text_lt(a.drop_first(), b.drop_first())
    }
}

/// Equal texts are not ordered.
pub proof fn lemma_text_lt_irreflexive(a: Seq<char>)
    ensures
        !text_lt(a, a),
    decreases a.len(),
{
    if a.len() > 0 {
        lemma_text_lt_irreflexive(a.drop_first());
    }
}

/// The order is asymmetric.
pub proof fn lemma_text_lt_asymmetric(a: Seq<char>, b: Seq<char>)
    ensures
        !(text_lt(a, b) && text_lt(b, a)),
    decreases a.len(),
{
    if a.len() > 0 && b.len() > 0 && a[0] == b[0] {
        lemma_text_lt_asymmetric(a.drop_first(), b.drop_first());
    }
}

/// The order is transitive.
pub proof fn lemma_text_lt_transitive(a: Seq<char>, b: Seq<char>, c: Seq<char>)
    requires
        text_lt(a, b),
        text_lt(b, c),
    ensures
        text_lt(a, c),
    decreases a.len(),
{
    if a.len() > 0 && b.len() > 0 && c.len() > 0 && a[0] == b[0] && b[0] == c[0] {
        lemma_text_lt_transitive(a.drop_first(), b.drop_first(), c.drop_first());
    }
}

/// Distinct texts are ordered one way or the other.
pub proof fn lemma_text_lt_total(a: Seq<char>, b: Seq<char>)
    requires
        a != b,
    ensures
        text_lt(a, b) || text_lt(b, a),
    decreases a.len(),
{
    if a.len() > 0 && b.len() > 0 && a[0] == b[0] {
        if a.drop_first() =~= b.drop_first() {
            assert forall|k: int| 0 <= k < a.len() implies a[k] == b[k] by {
                if k > 0 {
                    assert(a[k] == a.drop_first()[k - 1]);
                    assert(b[k] == b.drop_first()[k - 1]);
                }
            }
            assert(a =~= b);
        } else {
            lemma_text_lt_total(a.drop_first(), b.drop_first());
        }
    } else if a.len() == 0 && b.len() == 0 {
        assert(a =~= b);
    } else if a.len() > 0 && b.len() > 0 {
        assert(a[0] != b[0]);
        assert((a[0] as int) != (b[0] as int));
    }
}

/// Compares two texts in that order.
pub fn text_less(a: &str, b: &str) -> (r: bool)
    ensures
        r == text_lt(a@, b@),
{
    let x = chars_of(a);
    let y = chars_of(b);
    let mut i: usize = 0;
    assert(x@.skip(0) =~= x@ && y@.skip(0) =~= y@);
    while i < x.len() && i < y.len()
        invariant
            x@ == a@,
            y@ == b@,
            i <= x@.len(),
            i <= y@.len(),
            text_lt(a@, b@) == text_lt(x@.skip(i as int), y@.skip(i as int)),
        decreases x@.len() - i,
    {
        let ghost (xs, ys) = (x@.skip(i as int), y@.skip(i as int));
        assert(xs[0] == x@[i as int] && ys[0] == y@[i as int]);
        if x[i] != y[i] {
            return x[i] < y[i];
        }
        assert(xs.drop_first() =~= x@.skip(i + 1));
        assert(ys.drop_first() =~= y@.skip(i + 1));
        i = i + 1;
    }
    i < y.len()
}

// ───────────────────────── the agent table ─────────────────────────

/// A row of the capability → agent table.
#[derive(Debug)]
pub struct StarflaskAgent {
    pub capability: String,
    pub agent_id: String,
    pub name: String,
    pub description: String,
    pub pack_hashes: Vec<String>,
    pub status: String,
}

/// The table of agents, one row per capability.
pub struct AgentTable {
    pub rows: Vec<StarflaskAgent>,
}

/// No two rows share a capability.
pub open spec fn unique_capabilities(rows: Seq<StarflaskAgent>) -> bool {
    forall|i: int, j: int| 0 <= i < j < rows.len() ==> rows[i].capability@ != rows[j].capability@
}

/// The position of the row of a capability.
pub open spec fn row_index(rows: Seq<StarflaskAgent>, cap: Seq<char>) -> Option<int> {
    if exists|i: int| 0 <= i < rows.len() && rows[i].capability@ == cap {
        Some(choose|i: int| 0 <= i < rows.len() && rows[i].capability@ == cap)
    } else {
        None
    }
}

/// Whether some row has a capability.
pub open spec fn has_row(rows: Seq<StarflaskAgent>, cap: Seq<char>) -> bool {
    exists|i: int| 0 <= i < rows.len() && rows[i].capability@ == cap
}

/// Whether some row maps to an agent.
pub open spec fn maps_agent(rows: Seq<StarflaskAgent>, agent_id: Seq<char>) -> bool {
    exists|i: int| 0 <= i < rows.len() && rows[i].agent_id@ == agent_id
}

/// The rows after an upsert: the row of the same capability is replaced,
/// or the new row is added at the end.
pub open spec fn upserted(rows: Seq<StarflaskAgent>, row: StarflaskAgent) -> Seq<StarflaskAgent> {
    match row_index(rows, row.capability@) {
        Some(i) => rows.update(i, row),
        None => rows.push(row),
    }
}

/// The rows after deleting a capability's row.
pub open spec fn deleted(rows: Seq<StarflaskAgent>, cap: Seq<char>) -> Seq<StarflaskAgent> {
    match row_index(rows, cap) {
        Some(i) => rows.remove(i),
        None => rows,
    }
}

/// In a table with unique capabilities, the row found for a capability is
/// the only one with it.
pub proof fn lemma_row_index_unique(rows: Seq<StarflaskAgent>, k: int)
    requires
        unique_capabilities(rows),
        0 <= k < rows.len(),
    ensures
        row_index(rows, rows[k].capability@) == Some(k),
{
    let cap = rows[k].capability@;
    assert(0 <= k < rows.len() && rows[k].capability@ == cap);
    let i = choose|i: int| 0 <= i < rows.len() && rows[i].capability@ == cap;
    if i != k {
        if i < k {
            assert(rows[i].capability@ != rows[k].capability@);
        } else {
            assert(rows[k].capability@ != rows[i].capability@);
        }
    }
}

impl AgentTable {
    /// Whether the table is well formed.
    pub open spec fn wf(&self) -> bool {
        unique_capabilities(self.rows@)
    }

    /// An empty table.
    pub fn new() -> (r: AgentTable)
        ensures
            r.wf(),
            r.rows@.len() == 0,
    {
        AgentTable { rows: Vec::new() }
    }

    /// The position of a capability's row.
    pub fn find(&self, cap: &str) -> (r: Option<usize>)
        requires
            self.wf(),
        ensures
            match r {
                Some(i) => i < self.rows@.len() && self.rows@[i as int].capability@ == cap@ && row_index(
                    self.rows@,
                    cap@,
                ) == Some(i as int),
                None => row_index(self.rows@, cap@) is None && !has_row(self.rows@, cap@),
            },
    {
        let mut i: usize = 0;
        while i < self.rows.len()
            invariant
                self.wf(),
                i <= self.rows@.len(),
                forall|j: int| 0 <= j < i ==> self.rows@[j].capability@ != cap@,
            decreases self.rows@.len() - i,
        {
            if same_text(self.rows[i].capability.as_str(), cap) {
                proof {
                    lemma_row_index_unique(self.rows@, i as int);
                }
                return Some(i);
            }
            i = i + 1;
        }
        None
    }

    /// The row of a capability.
    pub fn get(&self, cap: &str) -> (r: Option<&StarflaskAgent>)
        requires
            self.wf(),
        ensures
            match r {
                Some(a) => row_index(self.rows@, cap@) is Some && *a == self.rows@[row_index(self.rows@, cap@)->Some_0],
                None => !has_row(self.rows@, cap@),
            },
    {
        match self.find(cap) {
            Some(i) => Some(&self.rows[i]),
            None => None,
        }
    }

    /// Inserts a row, or replaces the row of its capability.
    pub fn upsert(&mut self, row: StarflaskAgent)
        requires
            old(self).wf(),
        ensures
            final(self).wf(),
            final(self).rows@ == upserted(old(self).rows@, row),
    {
        let ghost before = self.rows@;
        match self.find(row.capability.as_str()) {
            Some(i) => {
                self.rows.set(i, row);
                assert forall|a: int, b: int| 0 <= a < b < self.rows@.len() implies self.rows@[a].capability@
                    != self.rows@[b].capability@ by {
                    if a != i && b != i {
                        assert(before[a].capability@ != before[b].capability@);
                    }
                }
            },
            None => {
                self.rows.push(row);
                assert forall|a: int, b: int| 0 <= a < b < self.rows@.len() implies self.rows@[a].capability@
                    != self.rows@[b].capability@ by {
                    if b < before.len() {
                        assert(before[a].capability@ != before[b].capability@);
                    } else {
                        assert(!has_row(before, row.capability@));
                        assert(before[a].capability@ != row.capability@);
                    }
                }
            },
        }
    }

    /// Deletes a capability's row; tells whether there was one.
    pub fn delete(&mut self, cap: &str) -> (r: bool)
        requires
            old(self).wf(),
        ensures
            final(self).wf(),
            final(self).rows@ == deleted(old(self).rows@, cap@),
            r == has_row(old(self).rows@, cap@),
            !has_row(final(self).rows@, cap@),
    {
        let ghost before = self.rows@;
        match self.find(cap) {
            Some(i) => {
                self.rows.remove(i);
                assert forall|a: int, b: int| 0 <= a < b < self.rows@.len() implies self.rows@[a].capability@
                    != self.rows@[b].capability@ by {
                    let a0 = if a < i { a } else { a + 1 };
                    let b0 = if b < i { b } else { b + 1 };
                    assert(self.rows@[a] == before[a0] && self.rows@[b] == before[b0]);
                    assert(before[a0].capability@ != before[b0].capability@);
                }
                assert forall|k: int| 0 <= k < self.rows@.len() implies self.rows@[k].capability@ != cap@ by {
                    let k0 = if k < i { k } else { k + 1 };
                    assert(self.rows@[k] == before[k0]);
                    assert(before[k0].capability@ != before[i as int].capability@);
                }
                true
            },
            None => false,
        }
    }
}

/// The row a lookup by capability finds.
pub open spec fn lookup_row(rows: Seq<StarflaskAgent>, cap: Seq<char>) -> Option<StarflaskAgent> {
    match row_index(rows, cap) {
        Some(i) => Some(rows[i]),
        None => None,
    }
}

/// In a table with unique capabilities, the lookup finds the row holding
/// the capability, and nothing when no row holds it.
proof fn lemma_lookup_row(rows: Seq<StarflaskAgent>, cap: Seq<char>)
    requires
        unique_capabilities(rows),
    ensures
        forall|k: int| 0 <= k < rows.len() && rows[k].capability@ == cap ==> lookup_row(rows, cap) == Some(rows[k]),
        (forall|k: int| 0 <= k < rows.len() ==> rows[k].capability@ != cap) ==> lookup_row(rows, cap) is None,
{
    assert forall|k: int| 0 <= k < rows.len() && rows[k].capability@ == cap implies lookup_row(rows, cap) == Some(
        rows[k],
    ) by {
        lemma_row_index_unique(rows, k);
    }
}

/// Reading after writing: after an upsert the row is found under its
/// capability, and every other capability finds what it found before.
pub proof fn law_upsert_then_lookup(rows: Seq<StarflaskAgent>, row: StarflaskAgent, cap: Seq<char>)
    requires
        unique_capabilities(rows),
    ensures
        lookup_row(upserted(rows, row), row.capability@) == Some(row),
        cap != row.capability@ ==> lookup_row(upserted(rows, row), cap) == lookup_row(rows, cap),
{
    let after = upserted(rows, row);
    let c = row.capability@;
    assert(unique_capabilities(after)) by {
        match row_index(rows, c) {
            Some(i) => {
                assert forall|a: int, b: int| 0 <= a < b < after.len() implies after[a].capability@ != after[b].capability@ by {
                    if a != i && b != i {
                        assert(rows[a].capability@ != rows[b].capability@);
                    } else if a == i {
                        assert(rows[a].capability@ != rows[b].capability@);
                    } else {
                        assert(rows[a].capability@ != rows[b].capability@);
                    }
                }
            },
            None => {
                assert forall|a: int, b: int| 0 <= a < b < after.len() implies after[a].capability@ != after[b].capability@ by {
                    if b < rows.len() {
                        assert(rows[a].capability@ != rows[b].capability@);
                    } else {
                        assert(!(0 <= a < rows.len() && rows[a].capability@ == c));
                    }
                }
            },
        }
    }
    lemma_lookup_row(after, c);
    lemma_lookup_row(after, cap);
    lemma_lookup_row(rows, cap);
    match row_index(rows, c) {
        Some(i) => {
            assert(after[i] == row);
            if cap != c {
                assert forall|k: int| 0 <= k < rows.len() && rows[k].capability@ == cap implies after[k] == rows[k] by {}
                assert forall|k: int| 0 <= k < after.len() && after[k].capability@ == cap implies after[k] == rows[k] by {}
            }
        },
        None => {
            assert(after[rows.len() as int] == row);
            if cap != c {
                assert forall|k: int| 0 <= k < after.len() && after[k].capability@ == cap implies k < rows.len() && after[k]
                    == rows[k] by {}
            }
        },
    }
}

/// Reading after deleting: the capability finds nothing, and every other
/// capability finds what it found before.
pub proof fn law_delete_then_lookup(rows: Seq<StarflaskAgent>, cap: Seq<char>, other: Seq<char>)
    requires
        unique_capabilities(rows),
    ensures
        lookup_row(deleted(rows, cap), cap) is None,
        other != cap ==> lookup_row(deleted(rows, cap), other) == lookup_row(rows, other),
{
    let after = deleted(rows, cap);
    match row_index(rows, cap) {
        Some(i) => {
            assert(rows[i].capability@ == cap);
            assert forall|k: int| 0 <= k < after.len() implies #[trigger] after[k] == rows[if k < i { k } else { k + 1 }] by {}
            assert(unique_capabilities(after)) by {
                assert forall|a: int, b: int| 0 <= a < b < after.len() implies after[a].capability@ != after[b].capability@ by {
                    let a0 = if a < i { a } else { a + 1 };
                    let b0 = if b < i { b } else { b + 1 };
                    assert(after[a] == rows[a0] && after[b] == rows[b0]);
                    assert(rows[a0].capability@ != rows[b0].capability@);
                }
            }
            assert forall|k: int| 0 <= k < after.len() implies after[k].capability@ != cap by {
                let k0 = if k < i { k } else { k + 1 };
                assert(after[k] == rows[k0]);
                assert(rows[k0].capability@ != rows[i].capability@);
            }
            lemma_lookup_row(after, cap);
            lemma_lookup_row(after, other);
            lemma_lookup_row(rows, other);
            if other != cap {
                if exists|k: int| 0 <= k < rows.len() && rows[k].capability@ == other {
                    let k = choose|k: int| 0 <= k < rows.len() && rows[k].capability@ == other;
                    assert(k != i);
                    let k1 = if k < i { k } else { k - 1 };
                    assert(after[k1] == rows[k]);
                } else {
                    assert forall|k: int| 0 <= k < after.len() implies after[k].capability@ != other by {
                        let k0 = if k < i { k } else { k + 1 };
                        assert(after[k] == rows[k0]);
                    }
                }
            }
        },
        None => {
            lemma_lookup_row(rows, cap);
        },
    }
}

// ───────────────────────── capability inference ─────────────────────────

/// The capability guessed from an agent's lower-case name.
pub open spec fn inferred_capability(n: Seq<char>) -> Seq<char> {
    if contains_seq(n, "stock"@) || contains_seq(n, "analyst"@) || contains_seq(n, "market"@) {
        "stock_analyst"@
    } else if contains_seq(n, "crypto"@) || contains_seq(n, "wallet"@) || contains_seq(n, "swap"@) {
        "crypto"@
    } else if contains_seq(n, "image"@) || contains_seq(n, "art"@) || contains_seq(n, "picture"@) {
        "image_gen"@
    } else if contains_seq(n, "video"@) || contains_seq(n, "clip"@) {
        "video_gen"@
    } else if contains_seq(n, "discord"@) {
        "discord_moderator"@
    } else if contains_seq(n, "telegram"@) {
        "telegram_moderator"@
    } else {
        "general"@
    }
}

/// Guesses the capability of an agent from its lower-case name.
pub fn infer_capability(name_lower: &str) -> (r: String)
    ensures
        r@ == inferred_capability(name_lower@),
{
    if str_contains(name_lower, "stock") || str_contains(name_lower, "analyst") || str_contains(name_lower, "market") {
        owned("stock_analyst")
    } else if str_contains(name_lower, "crypto") || str_contains(name_lower, "wallet") || str_contains(
        name_lower,
        "swap",
    ) {
        owned("crypto")
    } else if str_contains(name_lower, "image") || str_contains(name_lower, "art") || str_contains(
        name_lower,
        "picture",
    ) {
        owned("image_gen")
    } else if str_contains(name_lower, "video") || str_contains(name_lower, "clip") {
        owned("video_gen")
    } else if str_contains(name_lower, "discord") {
        owned("discord_moderator")
    } else if str_contains(name_lower, "telegram") {
        owned("telegram_moderator")
    } else {
        owned("general")
    }
}

/// What an agent's lower-case name says of its capability, by the words it
/// contains, the first group that matches deciding: stock/analyst/market
/// give `stock_analyst`; crypto/wallet/swap give `crypto`;
/// image/art/picture give `image_gen`; video/clip give `video_gen`;
/// discord gives `discord_moderator`; telegram gives `telegram_moderator`;
/// a name with none of these words gives `general`.
pub proof fn law_capability_from_name(n: Seq<char>)
    ensures
        contains_seq(n, "stock"@) || contains_seq(n, "analyst"@) || contains_seq(n, "market"@)
            ==> inferred_capability(n) == "stock_analyst"@,
        !(contains_seq(n, "stock"@) || contains_seq(n, "analyst"@) || contains_seq(n, "market"@)) ==> {
            &&& contains_seq(n, "crypto"@) ==> inferred_capability(n) == "crypto"@
            &&& contains_seq(n, "wallet"@) ==> inferred_capability(n) == "crypto"@
            &&& contains_seq(n, "swap"@) ==> inferred_capability(n) == "crypto"@
        },
        !(contains_seq(n, "stock"@) || contains_seq(n, "analyst"@) || contains_seq(n, "market"@) || contains_seq(
            n,
            "crypto"@,
        ) || contains_seq(n, "wallet"@) || contains_seq(n, "swap"@)) ==> {
            &&& (contains_seq(n, "image"@) || contains_seq(n, "art"@) || contains_seq(n, "picture"@))
                ==> inferred_capability(n) == "image_gen"@
            &&& !(contains_seq(n, "image"@) || contains_seq(n, "art"@) || contains_seq(n, "picture"@)) ==> {
                &&& (contains_seq(n, "video"@) || contains_seq(n, "clip"@)) ==> inferred_capability(n)
                    == "video_gen"@
                &&& !(contains_seq(n, "video"@) || contains_seq(n, "clip"@)) ==> {
                    &&& contains_seq(n, "discord"@) ==> inferred_capability(n) == "discord_moderator"@
                    &&& !contains_seq(n, "discord"@) && contains_seq(n, "telegram"@) ==> inferred_capability(n)
                        == "telegram_moderator"@
                    &&& !contains_seq(n, "discord"@) && !contains_seq(n, "telegram"@) ==> inferred_capability(n)
                        == "general"@
                }
            }
        },
{
}

/// An agent without a pack hash the seed knows is synced under the
/// capability its lower-case name says; one whose hash the seed lists
/// takes the capability of the last seed entry with that hash.
pub proof fn law_sync_capability(seed: Seq<SeedView>, a: RemoteAgent)
    ensures
        a.pack_hash is None ==> remote_capability(seed, a) == inferred_capability(str_lower(a.name@)),
        (forall|k: int| 0 <= k < seed.len() ==> a.pack_hash is Some ==> #[trigger] seed[k].pack_hash != a.pack_hash->Some_0@)
            ==> remote_capability(seed, a) == inferred_capability(str_lower(a.name@)),
        forall|k: int|
            0 <= k < seed.len() && a.pack_hash is Some && #[trigger] seed[k].pack_hash == a.pack_hash->Some_0@ && (forall|
                j: int,
            | k < j < seed.len() ==> seed[j].pack_hash != a.pack_hash->Some_0@) ==> remote_capability(seed, a)
                == seed[k].capability,
{
    match a.pack_hash {
        Some(h) => {
            lemma_seed_capability_last(seed, h@);
        },
        None => {},
    }
}

/// The seed's capability for a hash is that of the last entry with it.
proof fn lemma_seed_capability_last(seed: Seq<SeedView>, h: Seq<char>)
    ensures
        (forall|k: int| 0 <= k < seed.len() ==> #[trigger] seed[k].pack_hash != h) ==> seed_capability(seed, h) is None,
        forall|k: int|
            0 <= k < seed.len() && #[trigger] seed[k].pack_hash == h && (forall|j: int|
                k < j < seed.len() ==> seed[j].pack_hash != h) ==> seed_capability(seed, h) == Some(seed[k].capability),
    decreases seed.len(),
{
    if seed.len() > 0 {
        let d = seed.drop_last();
        lemma_seed_capability_last(d, h);
        assert forall|k: int|
            0 <= k < seed.len() && #[trigger] seed[k].pack_hash == h && (forall|j: int|
                k < j < seed.len() ==> seed[j].pack_hash != h) implies seed_capability(seed, h) == Some(
            seed[k].capability,
        ) by {
            if k < seed.len() - 1 {
                assert(seed[seed.len() - 1].pack_hash != h);
                assert(d[k] == seed[k]);
                assert forall|j: int| k < j < d.len() implies d[j].pack_hash != h by {
                    assert(d[j] == seed[j]);
                }
            }
        }
        if forall|k: int| 0 <= k < seed.len() ==> #[trigger] seed[k].pack_hash != h {
            assert(seed[seed.len() - 1].pack_hash != h);
            assert forall|k: int| 0 <= k < d.len() implies #[trigger] d[k].pack_hash != h by {
                assert(d[k] == seed[k]);
            }
        }
    }
}

// ───────────────────────── sync ─────────────────────────

/// An agent of the remote account.
#[derive(Debug)]
pub struct RemoteAgent {
    pub id: String,
    pub name: String,
    pub description: Option<String>,
    pub pack_hash: Option<String>,
}

/// The capability the seed gives a pack hash: the last seed entry with that
/// hash wins.
pub open spec fn seed_capability(seed: Seq<SeedView>, hash: Seq<char>) -> Option<Seq<char>>
    decreases seed.len(),
{
    if seed.len() == 0 {
        None
    } else if seed.last().pack_hash == hash {
        Some(seed.last().capability)
    } else {
        seed_capability(seed.drop_last(), hash)
    }
}

fn seed_capability_exec(seed: &Vec<AgentSeed>, hash: &str) -> (r: Option<String>)
    ensures
        match r {
            Some(c) => seed_capability(seeds_view(seed@), hash@) == Some(c@),
            None => seed_capability(seeds_view(seed@), hash@) is None,
        },
{
    let ghost sv = seeds_view(seed@);
    let mut j: usize = seed.len();
    assert(sv.take(j as int) =~= sv);
    while j > 0
        invariant
            sv == seeds_view(seed@),
            j <= seed@.len(),
            seed_capability(sv, hash@) == seed_capability(sv.take(j as int), hash@),
        decreases j,
    {
        let ghost t = sv.take(j as int);
        assert(t.last() == seed@[j - 1]@);
        assert(t.drop_last() =~= sv.take(j - 1));
        if same_text(seed[j - 1].pack_hash.as_str(), hash) {
            return Some(seed[j - 1].capability.clone());
        }
        j = j - 1;
    }
    None
}

/// The capability a remote agent is synced under: the seed's capability
/// for its pack hash, else the one inferred from its lower-case name.
pub open spec fn remote_capability(seed: Seq<SeedView>, a: RemoteAgent) -> Seq<char> {
    match a.pack_hash {
        Some(h) => match seed_capability(seed, h@) {
            Some(c) => c,
            None => inferred_capability(str_lower(a.name@)),
        },
        None => inferred_capability(str_lower(a.name@)),
    }
}

/// Chooses the capability of a remote agent.
pub fn capability_for(seed: &Vec<AgentSeed>, a: &RemoteAgent) -> (r: String)
    ensures
        r@ == remote_capability(seeds_view(seed@), *a),
{
    let by_hash = match &a.pack_hash {
        Some(h) => seed_capability_exec(seed, h.as_str()),
        None => None,
    };
    match by_hash {
        Some(c) => c,
        None => {
            let lower = to_lowercase(a.name.as_str());
            infer_capability(lower.as_str())
        },
    }
}

/// Whether some remote agent has an id.
pub open spec fn is_remote_id(remote: Seq<RemoteAgent>, id: Seq<char>) -> bool {
    exists|i: int| 0 <= i < remote.len() && remote[i].id@ == id
}

/// Whether no two rows map to one agent.
pub open spec fn distinct_agents(rows: Seq<StarflaskAgent>) -> bool {
    forall|i: int, j: int| 0 <= i < j < rows.len() ==> rows[i].agent_id@ != rows[j].agent_id@
}

/// Every row maps to a remote agent.
pub open spec fn all_remote(rows: Seq<StarflaskAgent>, remote: Seq<RemoteAgent>) -> bool {
    forall|i: int| 0 <= i < rows.len() ==> is_remote_id(remote, #[trigger] rows[i].agent_id@)
}

/// Whether a row is one of `rows`.
pub open spec fn row_in(rows: Seq<StarflaskAgent>, r: StarflaskAgent) -> bool {
    exists|j: int| 0 <= j < rows.len() && rows[j] == r
}

/// A change to the stored table, to be applied in order.
#[derive(Debug)]
pub enum TableOp {
    Delete(String),
    Upsert(StarflaskAgent),
}

/// Something to broadcast about the sync.
#[derive(Debug)]
pub enum SyncEvent {
    /// A local row whose agent is gone remotely was removed.
    Removed { capability: String, agent_id: String },
    /// A remote agent was recorded under a capability.
    Synced { capability: String, agent_id: String, name: String },
}

/// `SyncEvent` with texts as character sequences.
pub enum SyncEventView {
    Removed { capability: Seq<char>, agent_id: Seq<char> },
    Synced { capability: Seq<char>, agent_id: Seq<char>, name: Seq<char> },
}

/// The texts of an event.
pub open spec fn event_view(e: SyncEvent) -> SyncEventView {
    match e {
        SyncEvent::Removed { capability, agent_id } => SyncEventView::Removed {
            capability: capability@,
            agent_id: agent_id@,
        },
        SyncEvent::Synced { capability, agent_id, name } => SyncEventView::Synced {
            capability: capability@,
            agent_id: agent_id@,
            name: name@,
        },
    }
}

/// The texts of a list of events.
pub open spec fn events_view(es: Seq<SyncEvent>) -> Seq<SyncEventView> {
    es.map_values(|e: SyncEvent| event_view(e))
}

/// What a sync did.
#[derive(Debug)]
pub struct SyncReport {
    /// The capabilities recorded or moved to another agent, in order.
    pub synced: Vec<String>,
    /// The changes made, in order, for the stored table.
    pub ops: Vec<TableOp>,
    pub events: Vec<SyncEvent>,
}

fn copy_hashes(h: &Vec<String>) -> (r: Vec<String>)
    ensures
        r@ == h@,
{
    let mut r: Vec<String> = Vec::new();
    let mut i: usize = 0;
    while i < h.len()
        invariant
            i <= h@.len(),
            r@ == h@.take(i as int),
        decreases h@.len() - i,
    {
        r.push(h[i].clone());
        assert(r@ =~= h@.take(i + 1));
        i = i + 1;
    }
    assert(h@.take(i as int) =~= h@);
    r
}

fn copy_row(a: &StarflaskAgent) -> (r: StarflaskAgent)
    ensures
        r.capability == a.capability,
        r.agent_id == a.agent_id,
        r.name == a.name,
        r.description == a.description,
        r.pack_hashes@ == a.pack_hashes@,
        r.status == a.status,
{
    StarflaskAgent {
        capability: a.capability.clone(),
        agent_id: a.agent_id.clone(),
        name: a.name.clone(),
        description: a.description.clone(),
        pack_hashes: copy_hashes(&a.pack_hashes),
        status: a.status.clone(),
    }
}

fn remote_has_id(remote: &Vec<RemoteAgent>, id: &str) -> (r: bool)
    ensures
        r == is_remote_id(remote@, id@),
{
    let mut i: usize = 0;
    while i < remote.len()
        invariant
            i <= remote@.len(),
            forall|j: int| 0 <= j < i ==> remote@[j].id@ != id@,
        decreases remote@.len() - i,
    {
        if same_text(remote[i].id.as_str(), id) {
            return true;
        }
        i = i + 1;
    }
    false
}

fn has_text(v: &Vec<String>, s: &str) -> (r: bool)
    ensures
        r == exists|j: int| 0 <= j < v@.len() && (#[trigger] v@[j])@ == s@,
{
    let mut i: usize = 0;
    while i < v.len()
        invariant
            i <= v@.len(),
            forall|j: int| 0 <= j < i ==> (#[trigger] v@[j])@ != s@,
        decreases v@.len() - i,
    {
        if same_text(v[i].as_str(), s) {
            return true;
        }
        i = i + 1;
    }
    false
}

/// The capabilities a sync records, in order: one for each remote agent
/// that no row mapped to before the sync.
pub open spec fn newly_synced(rows: Seq<StarflaskAgent>, remote: Seq<RemoteAgent>, seed: Seq<SeedView>) -> Seq<Seq<char>> {
    remote.filter(|a: RemoteAgent| !maps_agent(rows, a.id@)).map_values(|a: RemoteAgent| remote_capability(seed, a))
}

/// The rows whose agent is among the remote agents, in order.
pub open spec fn pruned(rows: Seq<StarflaskAgent>, remote: Seq<RemoteAgent>) -> Seq<StarflaskAgent> {
    rows.filter(|r: StarflaskAgent| is_remote_id(remote, r.agent_id@))
}

/// Removes the rows whose agent is not among the remote agents.
fn prune(
    table: &mut AgentTable,
    remote: &Vec<RemoteAgent>,
    ops: &mut Vec<TableOp>,
    events: &mut Vec<SyncEvent>,
    Ghost(base): Ghost<Seq<RowView>>,
)
    requires
        old(table).wf(),
        replay(base, old(ops)@) == rows_view(old(table).rows@),
    ensures
        replay(base, final(ops)@) == rows_view(final(table).rows@),
        events_view(final(events)@) == events_view(old(events)@) + removed_events(old(table).rows@, remote@),
        final(table).wf(),
        all_remote(final(table).rows@, remote@),
        forall|k: int| 0 <= k < final(table).rows@.len() ==> row_in(old(table).rows@, #[trigger] final(table).rows@[k]),
        forall|k: int|
            0 <= k < old(table).rows@.len() && is_remote_id(remote@, #[trigger] old(table).rows@[k].agent_id@)
                ==> row_in(final(table).rows@, old(table).rows@[k]),
        final(table).rows@ == pruned(old(table).rows@, remote@),
{
    let ghost orig = table.rows@;
    let ghost keep = |r: StarflaskAgent| is_remote_id(remote@, r.agent_id@);
    let ghost gone = |r: StarflaskAgent| !is_remote_id(remote@, r.agent_id@);
    let ghost rm = |r: StarflaskAgent| SyncEventView::Removed { capability: r.capability@, agent_id: r.agent_id@ };
    let ghost ev0 = events_view(events@);
    let ghost mut j: int = 0;
    assert(orig.take(0).filter(gone) =~= Seq::<StarflaskAgent>::empty()) by {
        reveal(Seq::filter);
    }
    assert(events_view(events@) =~= ev0 + orig.take(0).filter(gone).map_values(rm));
    let mut i: usize = 0;
    assert(orig.take(0).filter(keep) =~= Seq::<StarflaskAgent>::empty()) by {
        reveal(Seq::filter);
    }
    assert(table.rows@.take(0) =~= orig.take(0).filter(keep));
    assert(table.rows@.skip(0) =~= orig.skip(0));
    assert forall|k: int| 0 <= k < table.rows@.len() implies row_in(orig, #[trigger] table.rows@[k]) by {
        assert(orig[k] == table.rows@[k]);
    }
    assert forall|k: int| 0 <= k < orig.len() && is_remote_id(remote@, #[trigger] orig[k].agent_id@) implies row_in(
        table.rows@,
        orig[k],
    ) by {
        assert(orig[k] == table.rows@[k]);
    }
    while i < table.rows.len()
        invariant
            table.wf(),
            i <= table.rows@.len(),
            forall|k: int| 0 <= k < i ==> is_remote_id(remote@, #[trigger] table.rows@[k].agent_id@),
            forall|k: int| 0 <= k < table.rows@.len() ==> row_in(orig, #[trigger] table.rows@[k]),
            forall|k: int|
                0 <= k < orig.len() && is_remote_id(remote@, #[trigger] orig[k].agent_id@) ==> row_in(
                    table.rows@,
                    orig[k],
                ),
            keep == (|r: StarflaskAgent| is_remote_id(remote@, r.agent_id@)),
            0 <= j <= orig.len(),
            table.rows@.take(i as int) == orig.take(j).filter(keep),
            table.rows@.skip(i as int) == orig.skip(j),
            replay(base, ops@) == rows_view(table.rows@),
            gone == (|r: StarflaskAgent| !is_remote_id(remote@, r.agent_id@)),
            rm == (|r: StarflaskAgent| SyncEventView::Removed { capability: r.capability@, agent_id: r.agent_id@ }),
            events_view(events@) == ev0 + orig.take(j).filter(gone).map_values(rm),
        decreases table.rows@.len() - i,
    {
        proof {
            assert(table.rows@.skip(i as int).len() > 0);
            assert(orig.skip(j).len() > 0);
            assert(j < orig.len());
            assert(table.rows@[i as int] == table.rows@.skip(i as int)[0]);
            assert(orig[j] == orig.skip(j)[0]);
            let t = orig.take(j + 1);
            assert(t.drop_last() =~= orig.take(j));
            assert(t.last() == orig[j]);
            reveal(Seq::filter);
        }
        if remote_has_id(remote, table.rows[i].agent_id.as_str()) {
            proof {
                assert(keep(orig[j]));
                assert(orig.take(j + 1).filter(keep) == orig.take(j).filter(keep).push(orig[j]));
                assert(orig.take(j + 1).filter(gone) == orig.take(j).filter(gone));
                assert(table.rows@.take(i + 1) =~= table.rows@.take(i as int).push(table.rows@[i as int]));
                assert(table.rows@.skip(i + 1) =~= table.rows@.skip(i as int).drop_first());
                assert(orig.skip(j + 1) =~= orig.skip(j).drop_first());
                j = j + 1;
            }
            i = i + 1;
        } else {
            let cap = table.rows[i].capability.clone();
            let id = table.rows[i].agent_id.clone();
            let ghost j0 = j;
            let ghost row_j = orig[j];
            assert(table.rows@[i as int] == row_j);
            let ghost before = table.rows@;
            proof {
                lemma_row_index_unique(before, i as int);
            }
            table.delete(cap.as_str());
            assert(table.rows@ == before.remove(i as int));
            assert forall|k: int| 0 <= k < table.rows@.len() implies row_in(orig, #[trigger] table.rows@[k]) by {
                let k0 = if k < i { k } else { k + 1 };
                assert(table.rows@[k] == before[k0]);
                assert(row_in(orig, before[k0]));
            }
            assert forall|k: int| 0 <= k < i implies is_remote_id(remote@, #[trigger] table.rows@[k].agent_id@) by {
                assert(table.rows@[k] == before[k]);
            }
            assert forall|k: int| 0 <= k < orig.len() && is_remote_id(remote@, #[trigger] orig[k].agent_id@) implies row_in(
                table.rows@,
                orig[k],
            ) by {
                let p = choose|p: int| 0 <= p < before.len() && before[p] == orig[k];
                assert(p != i);
                let p0 = if p < i { p } else { p - 1 };
                assert(table.rows@[p0] == before[p]);
            }
            proof {
                assert(!keep(orig[j]));
                assert(orig.take(j + 1).filter(keep) == orig.take(j).filter(keep));
                assert(table.rows@.take(i as int) =~= before.take(i as int));
                assert(table.rows@.skip(i as int) =~= before.skip(i as int).drop_first());
                assert(orig.skip(j + 1) =~= orig.skip(j).drop_first());
                j = j + 1;
            }
            let ghost ops_before = ops@;
            proof {
                lemma_rows_view_deleted(before, cap@);
            }
            ops.push(TableOp::Delete(cap.clone()));
            assert(ops@.drop_last() =~= ops_before);
            let ghost events_before = events@;
            events.push(SyncEvent::Removed { capability: cap, agent_id: id });
            proof {
                reveal(Seq::filter);
                let t = orig.take(j0 + 1);
                assert(t.drop_last() =~= orig.take(j0));
                assert(t.last() == row_j);
                assert(gone(row_j));
                assert(orig.take(j0).filter(gone).push(row_j) == orig.take(j0 + 1).filter(gone));
                assert(events_view(events@) =~= events_view(events_before).push(rm(row_j)));
                assert(orig.take(j0 + 1).filter(gone).map_values(rm) =~= orig.take(j0).filter(gone).map_values(
                    rm,
                ).push(rm(row_j)));
            }
        }
    }
    proof {
        assert(orig.skip(j).len() == 0);
        assert(orig.take(j) =~= orig);
        assert(table.rows@.take(i as int) =~= table.rows@);
    }
}

/// Whether another row maps to the same agent under a capability that
/// sorts before this row's.
pub open spec fn shadowed(rows: Seq<StarflaskAgent>, k: int) -> bool {
    exists|j: int| 0 <= j < rows.len() && j != k && rows[j].agent_id@ == rows[k].agent_id@ && text_lt(
        rows[j].capability@,
        rows[k].capability@,
    )
}

fn is_shadowed(rows: &Vec<StarflaskAgent>, k: usize) -> (r: bool)
    requires
        k < rows@.len(),
    ensures
        r == shadowed(rows@, k as int),
{
    let mut j: usize = 0;
    while j < rows.len()
        invariant
            k < rows@.len(),
            j <= rows@.len(),
            forall|q: int| 0 <= q < j && q != k ==> !(rows@[q].agent_id@ == rows@[k as int].agent_id@ && text_lt(
                rows@[q].capability@,
                rows@[k as int].capability@,
            )),
        decreases rows@.len() - j,
    {
        if j != k && same_text(rows[j].agent_id.as_str(), rows[k].agent_id.as_str()) && text_less(
            rows[j].capability.as_str(),
            rows[k].capability.as_str(),
        ) {
            return true;
        }
        j = j + 1;
    }
    false
}

/// Whether some row maps to the agent of `r` under a capability that sorts
/// before `r`'s.
pub open spec fn shadowed_by(rows: Seq<StarflaskAgent>, r: StarflaskAgent) -> bool {
    exists|j: int| 0 <= j < rows.len() && rows[j].agent_id@ == r.agent_id@ && text_lt(rows[j].capability@, r.capability@)
}

/// The rows that no row shadows: each agent keeps the first of its
/// capabilities.
pub open spec fn deduped(rows: Seq<StarflaskAgent>) -> Seq<StarflaskAgent> {
    rows.filter(|r: StarflaskAgent| !shadowed_by(rows, r))
}

/// Removes every row whose agent another row maps to under a capability
/// that sorts first, so that each agent keeps the first of its capabilities.
fn dedup(table: &mut AgentTable, ops: &mut Vec<TableOp>, Ghost(base): Ghost<Seq<RowView>>)
    requires
        old(table).wf(),
        replay(base, old(ops)@) == rows_view(old(table).rows@),
    ensures
        replay(base, final(ops)@) == rows_view(final(table).rows@),
        final(table).wf(),
        distinct_agents(final(table).rows@),
        forall|k: int| 0 <= k < final(table).rows@.len() ==> row_in(old(table).rows@, #[trigger] final(table).rows@[k]),
        final(table).rows@ == deduped(old(table).rows@),
{
    let ghost orig = table.rows@;
    let ghost keep = |r: StarflaskAgent| !shadowed_by(orig, r);
    let n = table.rows.len();
    let mut flags: Vec<bool> = Vec::new();
    let mut k: usize = 0;
    while k < n
        invariant
            table.rows@ == orig,
            replay(base, ops@) == rows_view(table.rows@),
            n == orig.len(),
            k <= n,
            flags@.len() == k,
            forall|q: int| 0 <= q < k ==> flags@[q] == shadowed(orig, q),
        decreases n - k,
    {
        let f = is_shadowed(&table.rows, k);
        flags.push(f);
        k = k + 1;
    }
    proof {
        assert forall|q: int| 0 <= q < orig.len() implies #[trigger] shadowed(orig, q) == shadowed_by(orig, orig[q]) by {
            if shadowed_by(orig, orig[q]) {
                let j = choose|j: int| 0 <= j < orig.len() && orig[j].agent_id@ == orig[q].agent_id@ && text_lt(
                    orig[j].capability@,
                    orig[q].capability@,
                );
                if j == q {
                    lemma_text_lt_irreflexive(orig[q].capability@);
                }
            }
        }
    }
    let ghost mut j: int = 0;
    let mut i: usize = 0;
    assert(orig.take(0).filter(keep) =~= Seq::<StarflaskAgent>::empty()) by {
        reveal(Seq::filter);
    }
    assert(table.rows@.take(0) =~= orig.take(0).filter(keep));
    assert(table.rows@.skip(0) =~= orig.skip(0));
    while i < table.rows.len()
        invariant
            table.wf(),
            n == orig.len(),
            flags@.len() == n,
            forall|q: int| 0 <= q < n ==> flags@[q] == shadowed(orig, q),
            forall|q: int| 0 <= q < orig.len() ==> #[trigger] shadowed(orig, q) == shadowed_by(orig, orig[q]),
            keep == (|r: StarflaskAgent| !shadowed_by(orig, r)),
            0 <= j <= orig.len(),
            i <= table.rows@.len(),
            table.rows@.take(i as int) == orig.take(j).filter(keep),
            table.rows@.skip(i as int) == orig.skip(j),
            replay(base, ops@) == rows_view(table.rows@),
        decreases table.rows@.len() - i,
    {
        proof {
            assert(table.rows@.skip(i as int).len() > 0);
            assert(orig.skip(j).len() > 0);
            assert(table.rows@[i as int] == table.rows@.skip(i as int)[0]);
            assert(orig[j] == orig.skip(j)[0]);
            let t = orig.take(j + 1);
            assert(t.drop_last() =~= orig.take(j));
            assert(t.last() == orig[j]);
            reveal(Seq::filter);
        }
        let ghost jj = j;
        assert(jj < flags@.len());
        let jx: usize = (n - (table.rows.len() - i)) as usize;
        assert(jx == jj) by {
            assert(table.rows@.skip(i as int).len() == orig.skip(j).len());
        }
        assert(flags@[jj] == shadowed(orig, jj));
        assert(shadowed(orig, jj) == shadowed_by(orig, orig[jj]));
        if !flags[jx] {
            proof {
                assert(keep(orig[j]));
                assert(orig.take(j + 1).filter(keep) == orig.take(j).filter(keep).push(orig[j]));
                assert(table.rows@.take(i + 1) =~= table.rows@.take(i as int).push(table.rows@[i as int]));
                assert(table.rows@.skip(i + 1) =~= table.rows@.skip(i as int).drop_first());
                assert(orig.skip(j + 1) =~= orig.skip(j).drop_first());
                j = j + 1;
            }
            i = i + 1;
        } else {
            let cap = table.rows[i].capability.clone();
            let ghost before = table.rows@;
            proof {
                lemma_row_index_unique(before, i as int);
            }
            table.delete(cap.as_str());
            assert(table.rows@ == before.remove(i as int));
            proof {
                assert(!keep(orig[j]));
                assert(orig.take(j + 1).filter(keep) == orig.take(j).filter(keep));
                assert(table.rows@.take(i as int) =~= before.take(i as int));
                assert(table.rows@.skip(i as int) =~= before.skip(i as int).drop_first());
                assert(orig.skip(j + 1) =~= orig.skip(j).drop_first());
                j = j + 1;
            }
            let ghost ops_before = ops@;
            proof {
                lemma_rows_view_deleted(before, cap@);
            }
            ops.push(TableOp::Delete(cap));
            assert(ops@.drop_last() =~= ops_before);
        }
    }
    proof {
        assert(orig.skip(j).len() == 0);
        assert(orig.take(j) =~= orig);
        assert(table.rows@.take(i as int) =~= table.rows@);
        let rows = table.rows@;
        assert(rows == orig.filter(keep));
        broadcast use vstd::seq_lib::group_filter_ensures;
        assert forall|q: int| 0 <= q < rows.len() implies row_in(orig, #[trigger] rows[q]) by {
            assert(orig.filter(keep).contains(rows[q]));
            orig.lemma_filter_contains_rev(keep, rows[q]);
        }
        assert forall|a: int, b: int| 0 <= a < b < rows.len() implies rows[a].agent_id@ != rows[b].agent_id@ by {
            if rows[a].agent_id@ == rows[b].agent_id@ {
                assert(keep(rows[a]) && keep(rows[b]));
                assert(row_in(orig, rows[a]) && row_in(orig, rows[b]));
                let pa = choose|p: int| 0 <= p < orig.len() && orig[p] == rows[a];
                let pb = choose|p: int| 0 <= p < orig.len() && orig[p] == rows[b];
                assert(rows[a].capability@ != rows[b].capability@);
                lemma_text_lt_total(rows[a].capability@, rows[b].capability@);
                if text_lt(rows[a].capability@, rows[b].capability@) {
                    assert(shadowed_by(orig, rows[b]));
                } else {
                    assert(shadowed_by(orig, rows[a]));
                }
            }
        }
    }
}

/// A row with its texts as character sequences.
pub struct RowView {
    pub capability: Seq<char>,
    pub agent_id: Seq<char>,
    pub name: Seq<char>,
    pub description: Seq<char>,
    pub pack_hashes: Seq<Seq<char>>,
    pub status: Seq<char>,
}

/// The texts of a row.
pub open spec fn row_view(r: StarflaskAgent) -> RowView {
    RowView {
        capability: r.capability@,
        agent_id: r.agent_id@,
        name: r.name@,
        description: r.description@,
        pack_hashes: strings_view(r.pack_hashes@),
        status: r.status@,
    }
}

/// The texts of a table's rows.
pub open spec fn rows_view(rows: Seq<StarflaskAgent>) -> Seq<RowView> {
    rows.map_values(|r: StarflaskAgent| row_view(r))
}

/// The position of a capability's row, on texts.
pub open spec fn vindex(vs: Seq<RowView>, cap: Seq<char>) -> Option<int> {
    if exists|i: int| 0 <= i < vs.len() && vs[i].capability == cap {
        Some(choose|i: int| 0 <= i < vs.len() && vs[i].capability == cap)
    } else {
        None
    }
}

/// An upsert, on texts.
pub open spec fn vupserted(vs: Seq<RowView>, v: RowView) -> Seq<RowView> {
    match vindex(vs, v.capability) {
        Some(i) => vs.update(i, v),
        None => vs.push(v),
    }
}

/// A delete, on texts.
pub open spec fn vdeleted(vs: Seq<RowView>, cap: Seq<char>) -> Seq<RowView> {
    match vindex(vs, cap) {
        Some(i) => vs.remove(i),
        None => vs,
    }
}

/// What a change does to a table, on texts.
pub open spec fn apply_op(vs: Seq<RowView>, op: TableOp) -> Seq<RowView> {
    match op {
        TableOp::Delete(cap) => vdeleted(vs, cap@),
        TableOp::Upsert(row) => vupserted(vs, row_view(row)),
    }
}

/// A table after a list of changes, applied in order.
pub open spec fn replay(vs: Seq<RowView>, ops: Seq<TableOp>) -> Seq<RowView>
    decreases ops.len(),
{
    if ops.len() == 0 {
        vs
    } else {
        apply_op(replay(vs, ops.drop_last()), ops.last())
    }
}

/// The pack hashes a newly synced agent takes over: those of the row its
/// capability had, when that row maps to another agent.
pub open spec fn moved_hashes(prev: Seq<RowView>, cap: Seq<char>, agent_id: Seq<char>) -> Seq<Seq<char>> {
    match vindex(prev, cap) {
        Some(i) => if prev[i].agent_id != agent_id {
            prev[i].pack_hashes
        } else {
            Seq::empty()
        },
        None => Seq::empty(),
    }
}

/// The row a sync records for a remote agent.
pub open spec fn new_row(prev: Seq<RowView>, a: RemoteAgent, seed: Seq<SeedView>) -> RowView {
    let cap = remote_capability(seed, a);
    RowView {
        capability: cap,
        agent_id: a.id@,
        name: a.name@,
        description: match a.description {
            Some(d) => d@,
            None => Seq::empty(),
        },
        pack_hashes: moved_hashes(prev, cap, a.id@),
        status: "synced"@,
    }
}

/// The rows after recording, in order, each remote agent that no row of
/// `known` maps to.
pub open spec fn after_upserts(
    start: Seq<RowView>,
    remote: Seq<RemoteAgent>,
    known: Seq<StarflaskAgent>,
    seed: Seq<SeedView>,
) -> Seq<RowView>
    decreases remote.len(),
{
    if remote.len() == 0 {
        start
    } else {
        let prev = after_upserts(start, remote.drop_last(), known, seed);
        let a = remote.last();
        if maps_agent(known, a.id@) {
            prev
        } else {
            vupserted(prev, new_row(prev, a, seed))
        }
    }
}

/// Whether some row maps to the agent of `v` under a capability that sorts
/// first, on texts.
pub open spec fn vshadowed_by(vs: Seq<RowView>, v: RowView) -> bool {
    exists|j: int| 0 <= j < vs.len() && vs[j].agent_id == v.agent_id && text_lt(vs[j].capability, v.capability)
}

/// The rows no row shadows, on texts.
pub open spec fn vdeduped(vs: Seq<RowView>) -> Seq<RowView> {
    vs.filter(|v: RowView| !vshadowed_by(vs, v))
}

/// A `Removed` event for each row whose agent is gone, in order.
pub open spec fn removed_events(rows: Seq<StarflaskAgent>, remote: Seq<RemoteAgent>) -> Seq<SyncEventView> {
    rows.filter(|r: StarflaskAgent| !is_remote_id(remote, r.agent_id@)).map_values(
        |r: StarflaskAgent| SyncEventView::Removed { capability: r.capability@, agent_id: r.agent_id@ },
    )
}

/// Whether recording a remote agent takes its capability over from another
/// agent (which is reported as a move, without an event).
pub open spec fn takes_over(prev: Seq<RowView>, a: RemoteAgent, seed: Seq<SeedView>) -> bool {
    match vindex(prev, remote_capability(seed, a)) {
        Some(i) => prev[i].agent_id != a.id@,
        None => false,
    }
}

/// A `Synced` event for each new remote agent that does not take a
/// capability over, in the remote order.
pub open spec fn synced_events(
    start: Seq<RowView>,
    remote: Seq<RemoteAgent>,
    known: Seq<StarflaskAgent>,
    seed: Seq<SeedView>,
) -> Seq<SyncEventView>
    decreases remote.len(),
{
    if remote.len() == 0 {
        Seq::empty()
    } else {
        let prev = after_upserts(start, remote.drop_last(), known, seed);
        let a = remote.last();
        synced_events(start, remote.drop_last(), known, seed) + if !maps_agent(known, a.id@) && !takes_over(
            prev,
            a,
            seed,
        ) {
            seq![SyncEventView::Synced { capability: remote_capability(seed, a), agent_id: a.id@, name: a.name@ }]
        } else {
            Seq::empty()
        }
    }
}

/// The events a sync broadcasts: the removals, then the new agents.
pub open spec fn sync_events(rows: Seq<StarflaskAgent>, remote: Seq<RemoteAgent>, seed: Seq<SeedView>) -> Seq<SyncEventView> {
    removed_events(rows, remote) + synced_events(rows_view(pruned(rows, remote)), remote, rows, seed)
}

/// The table a sync leaves: the rows of remote agents, then each new remote
/// agent recorded under its capability, then each agent kept under the
/// first of its capabilities.
pub open spec fn synced_table(rows: Seq<StarflaskAgent>, remote: Seq<RemoteAgent>, seed: Seq<SeedView>) -> Seq<RowView> {
    vdeduped(after_upserts(rows_view(pruned(rows, remote)), remote, rows, seed))
}

proof fn lemma_vindex(rows: Seq<StarflaskAgent>, cap: Seq<char>)
    requires
        unique_capabilities(rows),
    ensures
        vindex(rows_view(rows), cap) == row_index(rows, cap),
{
    let vs = rows_view(rows);
    if exists|k: int| 0 <= k < rows.len() && rows[k].capability@ == cap {
        let k = choose|k: int| 0 <= k < rows.len() && rows[k].capability@ == cap;
        lemma_row_index_unique(rows, k);
        assert(vs[k].capability == cap);
        let i = choose|i: int| 0 <= i < vs.len() && vs[i].capability == cap;
        if i != k {
            if i < k {
                assert(rows[i].capability@ != rows[k].capability@);
            } else {
                assert(rows[k].capability@ != rows[i].capability@);
            }
        }
    } else {
        assert forall|i: int| 0 <= i < vs.len() implies vs[i].capability != cap by {
            assert(vs[i].capability == rows[i].capability@);
        }
    }
}

proof fn lemma_rows_view_upserted(rows: Seq<StarflaskAgent>, row: StarflaskAgent)
    requires
        unique_capabilities(rows),
    ensures
        rows_view(upserted(rows, row)) == vupserted(rows_view(rows), row_view(row)),
{
    lemma_vindex(rows, row.capability@);
    match row_index(rows, row.capability@) {
        Some(i) => {
            assert(rows_view(rows.update(i, row)) =~= rows_view(rows).update(i, row_view(row)));
        },
        None => {
            assert(rows_view(rows.push(row)) =~= rows_view(rows).push(row_view(row)));
        },
    }
}

proof fn lemma_rows_view_deleted(rows: Seq<StarflaskAgent>, cap: Seq<char>)
    requires
        unique_capabilities(rows),
    ensures
        rows_view(deleted(rows, cap)) == vdeleted(rows_view(rows), cap),
{
    lemma_vindex(rows, cap);
    match row_index(rows, cap) {
        Some(i) => {
            assert(rows_view(rows.remove(i)) =~= rows_view(rows).remove(i));
        },
        None => {},
    }
}

proof fn lemma_rows_view_deduped(rows: Seq<StarflaskAgent>)
    ensures
        rows_view(deduped(rows)) == vdeduped(rows_view(rows)),
{
    let vs = rows_view(rows);
    let p = |r: StarflaskAgent| !shadowed_by(rows, r);
    let q = |v: RowView| !vshadowed_by(vs, v);
    assert forall|r: StarflaskAgent| #[trigger] p(r) == q(row_view(r)) by {
        if shadowed_by(rows, r) {
            let j = choose|j: int| 0 <= j < rows.len() && rows[j].agent_id@ == r.agent_id@ && text_lt(
                rows[j].capability@,
                r.capability@,
            );
            assert(vs[j] == row_view(rows[j]));
        }
        if vshadowed_by(vs, row_view(r)) {
            let j = choose|j: int| 0 <= j < vs.len() && vs[j].agent_id == row_view(r).agent_id && text_lt(
                vs[j].capability,
                row_view(r).capability,
            );
            assert(vs[j] == row_view(rows[j]));
        }
    }
    lemma_filter_map_commute(rows, |r: StarflaskAgent| row_view(r), p, q);
}

/// Filtering, then taking texts, is taking texts, then filtering.
proof fn lemma_filter_map_commute(
    s: Seq<StarflaskAgent>,
    f: spec_fn(StarflaskAgent) -> RowView,
    p: spec_fn(StarflaskAgent) -> bool,
    q: spec_fn(RowView) -> bool,
)
    requires
        forall|r: StarflaskAgent| #[trigger] p(r) == q(f(r)),
    ensures
        s.filter(p).map_values(f) == s.map_values(f).filter(q),
    decreases s.len(),
{
    reveal(Seq::filter);
    if s.len() > 0 {
        lemma_filter_map_commute(s.drop_last(), f, p, q);
        assert(s.map_values(f).drop_last() =~= s.drop_last().map_values(f));
        assert(s.map_values(f).last() == f(s.last()));
        if p(s.last()) {
            assert(s.filter(p).map_values(f) =~= s.drop_last().filter(p).map_values(f).push(f(s.last())));
        } else {
            assert(s.filter(p).map_values(f) =~= s.drop_last().filter(p).map_values(f));
        }
    } else {
        assert(s.filter(p).map_values(f) =~= Seq::<RowView>::empty());
        assert(s.map_values(f).filter(q) =~= Seq::<RowView>::empty());
    }
}

/// Syncs the table with a non-empty list of remote agents.  Rows whose
/// agent is gone are removed; each remote agent not yet in the table is
/// recorded under its capability (keeping the pack hashes when that
/// capability was mapped to another agent); rows that map to an agent
/// already mapped under a capability that sorts first are then removed.
/// The table left is exactly `synced_table`: every row maps to a remote
/// agent and no two rows map to the same one.  The report lists the
/// capabilities recorded, one per remote agent that was not in the table,
/// in the remote order, and the changes to store: applied in order to the
/// old table, they give the new one.  The events are `sync_events`: a
/// removal for each row whose agent is gone, then a `Synced` for each new
/// agent that did not take a capability over from another agent.
fn sync_agents(table: &mut AgentTable, remote: &Vec<RemoteAgent>, seed: &Vec<AgentSeed>) -> (r: SyncReport)
    requires
        old(table).wf(),
    ensures
        final(table).wf(),
        all_remote(final(table).rows@, remote@),
        distinct_agents(final(table).rows@),
        strings_view(r.synced@) == newly_synced(old(table).rows@, remote@, seeds_view(seed@)),
        rows_view(final(table).rows@) == synced_table(old(table).rows@, remote@, seeds_view(seed@)),
        rows_view(final(table).rows@) == replay(rows_view(old(table).rows@), r.ops@),
        events_view(r.events@) == sync_events(old(table).rows@, remote@, seeds_view(seed@)),
{
    let ghost orig = table.rows@;
    let ghost sv = seeds_view(seed@);
    let mut ops: Vec<TableOp> = Vec::new();
    let mut events: Vec<SyncEvent> = Vec::new();
    let mut synced: Vec<String> = Vec::new();
    let ghost base = rows_view(orig);
    prune(table, remote, &mut ops, &mut events, Ghost(base));
    let ghost p0 = table.rows@;
    let mut known_ids: Vec<String> = Vec::new();
    assert(events_view(events@) =~= removed_events(orig, remote@));
    let mut t: usize = 0;
    while t < table.rows.len()
        invariant
            table.rows@ == p0,
            replay(base, ops@) == rows_view(table.rows@),
            events_view(events@) == removed_events(orig, remote@),
            t <= p0.len(),
            known_ids@.len() == t,
            forall|j: int| 0 <= j < t ==> (#[trigger] known_ids@[j])@ == p0[j].agent_id@,
        decreases p0.len() - t,
    {
        known_ids.push(table.rows[t].agent_id.clone());
        t = t + 1;
    }
    let ghost keep = |a: RemoteAgent| !maps_agent(orig, a.id@);
    let ghost cap_of = |a: RemoteAgent| remote_capability(sv, a);
    let mut i: usize = 0;
    assert(remote@.take(0).filter(keep) =~= Seq::<RemoteAgent>::empty()) by {
        reveal(Seq::filter);
    }
    assert(strings_view(synced@) =~= remote@.take(0).filter(keep).map_values(cap_of));
    assert(remote@.take(0).len() == 0);
    while i < remote.len()
        invariant
            table.wf(),
            all_remote(table.rows@, remote@),
            i <= remote@.len(),
            sv == seeds_view(seed@),
            keep == (|a: RemoteAgent| !maps_agent(orig, a.id@)),
            cap_of == (|a: RemoteAgent| remote_capability(sv, a)),
            known_ids@.len() == p0.len(),
            forall|j: int| 0 <= j < p0.len() ==> (#[trigger] known_ids@[j])@ == p0[j].agent_id@,
            forall|k: int| 0 <= k < p0.len() ==> row_in(orig, #[trigger] p0[k]),
            forall|k: int|
                0 <= k < orig.len() && is_remote_id(remote@, #[trigger] orig[k].agent_id@) ==> row_in(p0, orig[k]),
            strings_view(synced@) == remote@.take(i as int).filter(keep).map_values(cap_of),
            p0 == pruned(orig, remote@),
            replay(base, ops@) == rows_view(table.rows@),
            events_view(events@) == removed_events(orig, remote@) + synced_events(
                rows_view(p0),
                remote@.take(i as int),
                orig,
                sv,
            ),
            rows_view(table.rows@) == after_upserts(rows_view(p0), remote@.take(i as int), orig, sv),
        decreases remote@.len() - i,
    {
        let a = &remote[i];
        let known = has_text(&known_ids, a.id.as_str());
        proof {
            assert(is_remote_id(remote@, a.id@));
            if known {
                let j = choose|j: int| 0 <= j < known_ids@.len() && known_ids@[j]@ == a.id@;
                assert(known_ids@[j]@ == p0[j].agent_id@);
                assert(row_in(orig, p0[j]));
                let q = choose|q: int| 0 <= q < orig.len() && orig[q] == p0[j];
                assert(orig[q].agent_id@ == a.id@);
            } else if maps_agent(orig, a.id@) {
                let q = choose|q: int| 0 <= q < orig.len() && orig[q].agent_id@ == a.id@;
                assert(is_remote_id(remote@, orig[q].agent_id@));
                assert(row_in(p0, orig[q]));
                let j = choose|j: int| 0 <= j < p0.len() && p0[j] == orig[q];
                assert(known_ids@[j]@ == p0[j].agent_id@);
            }
            assert(known == !keep(*a));
            let tk = remote@.take(i + 1);
            assert(tk.drop_last() =~= remote@.take(i as int));
            assert(tk.last() == *a);
            assert(synced_events(rows_view(p0), tk, orig, sv) == synced_events(rows_view(p0), remote@.take(i as int), orig, sv)
                + if !maps_agent(orig, a.id@) && !takes_over(after_upserts(rows_view(p0), remote@.take(i as int), orig, sv), *a, sv) {
                seq![SyncEventView::Synced { capability: remote_capability(sv, *a), agent_id: a.id@, name: a.name@ }]
            } else {
                Seq::empty()
            });
            assert(after_upserts(rows_view(p0), tk, orig, sv) == if maps_agent(orig, a.id@) {
                after_upserts(rows_view(p0), remote@.take(i as int), orig, sv)
            } else {
                let prev = after_upserts(rows_view(p0), remote@.take(i as int), orig, sv);
                vupserted(prev, new_row(prev, *a, sv))
            });
            reveal(Seq::filter);
            if keep(*a) {
                assert(tk.filter(keep) == remote@.take(i as int).filter(keep).push(*a));
            } else {
                assert(tk.filter(keep) == remote@.take(i as int).filter(keep));
            }
        }
        if !known {
            let ghost synced_before = strings_view(synced@);
            let cap = capability_for(seed, a);
            let description = match &a.description {
                Some(d) => d.clone(),
                None => String::new(),
            };
            let moved = match table.get(cap.as_str()) {
                Some(existing) => if !same_text(existing.agent_id.as_str(), a.id.as_str()) {
                    Some(copy_hashes(&existing.pack_hashes))
                } else {
                    None
                },
                None => None,
            };
            let is_move = moved.is_some();
            let hashes = match moved {
                Some(h) => h,
                None => Vec::new(),
            };
            let row = StarflaskAgent {
                capability: cap.clone(),
                agent_id: a.id.clone(),
                name: a.name.clone(),
                description,
                pack_hashes: hashes,
                status: owned("synced"),
            };
            let op_row = copy_row(&row);
            let ghost before = table.rows@;
            proof {
                lemma_vindex(before, cap@);
                assert(row_view(row).pack_hashes == moved_hashes(rows_view(before), cap@, a.id@));
                assert(row_view(row) == new_row(rows_view(before), *a, sv));
                lemma_rows_view_upserted(before, row);
            }
            table.upsert(row);
            proof {
                assert(is_remote_id(remote@, a.id@));
                assert forall|q: int| 0 <= q < table.rows@.len() implies is_remote_id(remote@, #[trigger] table.rows@[q].agent_id@) by {
                    match row_index(before, cap@) {
                        Some(p) => {
                            if q != p {
                                assert(table.rows@[q] == before[q]);
                            }
                        },
                        None => {
                            if q < before.len() {
                                assert(table.rows@[q] == before[q]);
                            }
                        },
                    }
                }
            }
            let ghost ops_before = ops@;
            ops.push(TableOp::Upsert(op_row));
            assert(ops@.drop_last() =~= ops_before);
            assert(row_view(op_row) == row_view(row));
            synced.push(cap.clone());
            assert(strings_view(synced@) =~= synced_before.push(cap_of(*a)));
            assert(remote@.take(i + 1).filter(keep).map_values(cap_of) =~= remote@.take(i as int).filter(
                keep,
            ).map_values(cap_of).push(cap_of(*a)));
            let ghost events_before = events@;
            let ghost prev = rows_view(before);
            assert(is_move == takes_over(prev, *a, sv));
            if !is_move {
                events.push(SyncEvent::Synced { capability: cap, agent_id: a.id.clone(), name: a.name.clone() });
                assert(events_view(events@) =~= events_view(events_before).push(
                    SyncEventView::Synced { capability: remote_capability(sv, *a), agent_id: a.id@, name: a.name@ },
                ));
            } else {
                assert(events_view(events@) =~= events_view(events_before) + Seq::<SyncEventView>::empty());
            }
        }
        i = i + 1;
    }
    assert(remote@.take(i as int) =~= remote@);
    let ghost pre = table.rows@;
    dedup(table, &mut ops, Ghost(base));
    proof {
        lemma_rows_view_deduped(pre);
        let rows = table.rows@;
        assert forall|q: int| 0 <= q < rows.len() implies is_remote_id(remote@, #[trigger] rows[q].agent_id@) by {
            assert(row_in(pre, rows[q]));
            let j = choose|j: int| 0 <= j < pre.len() && pre[j] == rows[q];
            assert(is_remote_id(remote@, pre[j].agent_id@));
        }
    }
    SyncReport { synced, ops, events }
}

/// Where a sync stands after looking at the remote account.
#[derive(Debug)]
pub enum SyncStep {
    /// The account has no agent: a "General Assistant" agent has to be
    /// created, then recorded with `record_general_agent`.  The table is
    /// left as it was.
    CreateGeneralAgent,
    /// The table was synced with the account's agents.
    Synced(SyncReport),
}

/// Syncs the table with the agents of the remote account.  With no remote
/// agent, nothing is pruned or changed: the caller creates a general agent
/// and records it (`record_general_agent`).  Otherwise the table is synced
/// as `sync_agents` describes.
pub fn sync_remote_agents(table: &mut AgentTable, remote: &Vec<RemoteAgent>, seed: &Vec<AgentSeed>) -> (r: SyncStep)
    requires
        old(table).wf(),
    ensures
        final(table).wf(),
        remote@.len() == 0 ==> r is CreateGeneralAgent && final(table).rows@ == old(table).rows@,
        remote@.len() > 0 ==> {
            &&& r is Synced
            &&& all_remote(final(table).rows@, remote@)
            &&& distinct_agents(final(table).rows@)
            &&& strings_view(r->Synced_0.synced@) == newly_synced(old(table).rows@, remote@, seeds_view(seed@))
            &&& rows_view(final(table).rows@) == synced_table(old(table).rows@, remote@, seeds_view(seed@))
            &&& rows_view(final(table).rows@) == replay(rows_view(old(table).rows@), r->Synced_0.ops@)
            &&& events_view(r->Synced_0.events@) == sync_events(old(table).rows@, remote@, seeds_view(seed@))
        },
{
    if remote.len() == 0 {
        SyncStep::CreateGeneralAgent
    } else {
        SyncStep::Synced(sync_agents(table, remote, seed))
    }
}

/// The row recorded for the general agent created for an empty account.
pub open spec fn general_row(agent_id: Seq<char>) -> RowView {
    RowView {
        capability: "general"@,
        agent_id,
        name: "General Assistant"@,
        description: "General-purpose AI assistant"@,
        pack_hashes: Seq::empty(),
        status: "synced"@,
    }
}

/// Records the general agent created for an account that had none: it is
/// upserted under `general`, the report lists `general` as synced, with
/// the one change and one `Synced` event.
pub fn record_general_agent(table: &mut AgentTable, agent_id: &str) -> (r: SyncReport)
    requires
        old(table).wf(),
    ensures
        final(table).wf(),
        rows_view(final(table).rows@) == vupserted(rows_view(old(table).rows@), general_row(agent_id@)),
        rows_view(final(table).rows@) == replay(rows_view(old(table).rows@), r.ops@),
        strings_view(r.synced@) == seq!["general"@],
        events_view(r.events@) == seq![
            SyncEventView::Synced { capability: "general"@, agent_id: agent_id@, name: "General Assistant"@ },
        ],
{
    let row = StarflaskAgent {
        capability: owned("general"),
        agent_id: owned(agent_id),
        name: owned("General Assistant"),
        description: owned("General-purpose AI assistant"),
        pack_hashes: Vec::new(),
        status: owned("synced"),
    };
    let op_row = copy_row(&row);
    let ghost before = table.rows@;
    proof {
        assert(strings_view(row.pack_hashes@) =~= Seq::<Seq<char>>::empty());
        assert(row_view(row) == general_row(agent_id@));
        lemma_rows_view_upserted(before, row);
    }
    table.upsert(row);
    let mut ops: Vec<TableOp> = Vec::new();
    ops.push(TableOp::Upsert(op_row));
    proof {
        assert(row_view(op_row) == row_view(row));
        assert(ops@.drop_last() =~= Seq::<TableOp>::empty());
        assert(replay(rows_view(before), ops@.drop_last()) == rows_view(before));
        assert(apply_op(rows_view(before), ops@.last()) == vupserted(rows_view(before), row_view(op_row)));
        assert(replay(rows_view(before), ops@) == rows_view(table.rows@));
    }
    let mut synced: Vec<String> = Vec::new();
    synced.push(owned("general"));
    let mut events: Vec<SyncEvent> = Vec::new();
    events.push(
        SyncEvent::Synced { capability: owned("general"), agent_id: owned(agent_id), name: owned("General Assistant") },
    );
    proof {
        assert(strings_view(synced@) =~= seq!["general"@]);
        assert(events_view(events@) =~= seq![
            SyncEventView::Synced { capability: "general"@, agent_id: agent_id@, name: "General Assistant"@ },
        ]);
    }
    SyncReport { synced, ops, events }
}

// ───────────────────────── project and chat agents ─────────────────────────

/// A project of the remote account.
#[derive(Debug)]
pub struct RemoteProject {
    pub id: String,
    pub name: String,
}

/// The id of the first project named `stark-bot`.
pub open spec fn bot_project_id(projects: Seq<RemoteProject>) -> Option<Seq<char>>
    decreases projects.len(),
{
    if projects.len() == 0 {
        None
    } else if projects[0].name@ == "stark-bot"@ {
        Some(projects[0].id@)
    } else {
        bot_project_id(projects.drop_first())
    }
}

/// Finds the bot's project among the account's projects (`None`: one has
/// to be created).
pub fn find_bot_project(projects: &Vec<RemoteProject>) -> (r: Option<String>)
    ensures
        match r {
            Some(id) => bot_project_id(projects@) == Some(id@),
            None => bot_project_id(projects@) is None,
        },
{
    let mut i: usize = 0;
    assert(projects@.subrange(0, projects@.len() as int) =~= projects@);
    while i < projects.len()
        invariant
            i <= projects@.len(),
            bot_project_id(projects@) == bot_project_id(projects@.subrange(i as int, projects@.len() as int)),
        decreases projects@.len() - i,
    {
        let ghost rest = projects@.subrange(i as int, projects@.len() as int);
        assert(rest[0] == projects@[i as int]);
        assert(rest.drop_first() =~= projects@.subrange(i + 1, projects@.len() as int));
        if same_text(projects[i].name.as_str(), "stark-bot") {
            return Some(projects[i].id.clone());
        }
        i = i + 1;
    }
    None
}

/// Whether one of an agent's hooks fires on the `chat` event.
pub open spec fn has_chat_hook_spec(hooks: Seq<Json>) -> bool {
    exists|i: int| 0 <= i < hooks.len() && json_get_str(#[trigger] hooks[i], "event"@) == Some("chat"@)
}

/// Whether an agent is a chat agent: some hook has `"event": "chat"`.
pub fn has_chat_hook(hooks: &Vec<Json>) -> (r: bool)
    ensures
        r == has_chat_hook_spec(hooks@),
{
    let mut i: usize = 0;
    while i < hooks.len()
        invariant
            i <= hooks@.len(),
            forall|j: int| 0 <= j < i ==> json_get_str(#[trigger] hooks@[j], "event"@) != Some("chat"@),
        decreases hooks@.len() - i,
    {
        match hooks[i].get_str("event") {
            Some(e) => {
                if same_text(e.as_str(), "chat") {
                    return true;
                }
            },
            None => {},
        }
        i = i + 1;
    }
    false
}

// ───────────────────────── provisioning ─────────────────────────

/// Whether the seed has a real pack hash (one without the `...`
/// placeholder).
pub open spec fn has_real_hashes_spec(seed: Seq<SeedView>) -> bool {
    exists|i: int| 0 <= i < seed.len() && !contains_seq(seed[i].pack_hash, "..."@)
}

/// Whether provisioning from the seed is worth doing.
pub fn has_real_hashes(seed: &Vec<AgentSeed>) -> (r: bool)
    ensures
        r == has_real_hashes_spec(seeds_view(seed@)),
{
    let mut i: usize = 0;
    while i < seed.len()
        invariant
            i <= seed@.len(),
            forall|j: int| 0 <= j < i ==> contains_seq(seeds_view(seed@)[j].pack_hash, "..."@),
        decreases seed@.len() - i,
    {
        assert(seeds_view(seed@)[i as int] == seed@[i as int]@);
        if !str_contains(seed[i].pack_hash.as_str(), "...") {
            return true;
        }
        i = i + 1;
    }
    false
}

/// What provisioning does for one seed entry.
#[derive(Clone, Copy, Debug, PartialEq, Eq, Structural)]
pub enum ProvisionAction {
    /// The capability's agent already has packs: nothing to do.
    Skip,
    /// The agent exists without packs: install the seed pack on it (and set
    /// its description when it has none).
    InstallOnExisting { set_description: bool },
    /// The recorded agent is gone remotely: delete the row, then create a
    /// new agent.
    ReplaceGhost,
    /// No agent is recorded: create one.
    Create,
}

/// The provisioning action for a seed entry, given the capability's row
/// and whether its agent still exists remotely.
pub open spec fn provision_action_spec(existing: Option<StarflaskAgent>, agent_exists: bool) -> ProvisionAction {
    match existing {
        None => ProvisionAction::Create,
        Some(row) => if !agent_exists {
            ProvisionAction::ReplaceGhost
        } else if row.pack_hashes@.len() > 0 {
            ProvisionAction::Skip
        } else {
            ProvisionAction::InstallOnExisting { set_description: row.description@.len() == 0 }
        },
    }
}

/// Decides what provisioning does for a seed entry.
pub fn provision_action(existing: Option<&StarflaskAgent>, agent_exists: bool) -> (r: ProvisionAction)
    ensures
        r == provision_action_spec(
            match existing {
                Some(a) => Some(*a),
                None => None,
            },
            agent_exists,
        ),
{
    match existing {
        None => ProvisionAction::Create,
        Some(row) => if !agent_exists {
            ProvisionAction::ReplaceGhost
        } else if row.pack_hashes.len() > 0 {
            ProvisionAction::Skip
        } else {
            ProvisionAction::InstallOnExisting { set_description: row.description.as_str().is_empty() }
        },
    }
}

/// Finds the seed entry to re-provision a capability from: the first with
/// that capability.
pub fn reprovision_entry(seed: Option<&Vec<AgentSeed>>, cap: &str) -> (r: Result<usize, String>)
    ensures
        match r {
            Ok(i) => seed is Some && i < seed->Some_0@.len() && seed->Some_0@[i as int].capability@ == cap@
                && forall|j: int| 0 <= j < i ==> seed->Some_0@[j].capability@ != cap@,
            Err(e) => match seed {
                None => e@ == "No seed config found"@,
                Some(s) => (forall|j: int| 0 <= j < s@.len() ==> s@[j].capability@ != cap@) && e@ == "Capability '"@
                    + cap@ + "' not found in seed config"@,
            },
        },
{
    let s = match seed {
        Some(s) => s,
        None => return Err(owned("No seed config found")),
    };
    let mut i: usize = 0;
    while i < s.len()
        invariant
            seed == Some(s),
            i <= s@.len(),
            forall|j: int| 0 <= j < i ==> s@[j].capability@ != cap@,
        decreases s@.len() - i,
    {
        if same_text(s[i].capability.as_str(), cap) {
            return Ok(i);
        }
        i = i + 1;
    }
    let mut v = chars_of("Capability '");
    push_str(&mut v, cap);
    push_str(&mut v, "' not found in seed config");
    Err(string_from(v.as_slice()))
}

/// The output type of a capability's pack definition:
/// `pack.definition.output_type`, `text` when unset.
pub open spec fn output_type_spec(def: Option<Json>) -> Seq<char> {
    let t = match def {
        Some(d) => match json_get(d, "pack"@) {
            Some(p) => match json_get(p, "definition"@) {
                Some(x) => json_get_str(x, "output_type"@),
                None => None,
            },
            None => None,
        },
        None => None,
    };
    match t {
        Some(t) => t,
        None => "text"@,
    }
}

/// Reads the output type from a capability's pack definition.
pub fn get_output_type(def: Option<&Json>) -> (r: String)
    ensures
        r@ == output_type_spec(
            match def {
                Some(d) => Some(*d),
                None => None,
            },
        ),
{
    let t = match def {
        Some(d) => match d.get("pack") {
            Some(p) => match p.get("definition") {
                Some(x) => x.get_str("output_type"),
                None => None,
            },
            None => None,
        },
        None => None,
    };
    match t {
        Some(t) => t.clone(),
        None => owned("text"),
    }
}

/// Where a capability's pack definition may be, in the order tried.
pub fn pack_definition_paths(cap: &str) -> (r: (String, String))
    ensures
        r.0@ == "seed-packs/packs/"@ + cap@ + ".json"@,
        r.1@ == "../seed-packs/packs/"@ + cap@ + ".json"@,
{
    let mut a = chars_of("seed-packs/packs/");
    push_str(&mut a, cap);
    push_str(&mut a, ".json");
    let mut b = chars_of("../seed-packs/packs/");
    push_str(&mut b, cap);
    push_str(&mut b, ".json");
    (string_from(a.as_slice()), string_from(b.as_slice()))
}

/// The row listed first, by capability order.
pub open spec fn is_first_row(rows: Seq<StarflaskAgent>, k: int) -> bool {
    0 <= k < rows.len() && forall|j: int| 0 <= j < rows.len() && j != k ==> text_lt(rows[k].capability@, rows[j].capability@)
}

impl AgentTable {
    /// The position of the row listed first (by capability), when there is
    /// one: the agent used when no capability matches.
    pub fn first_row(&self) -> (r: Option<usize>)
        requires
            self.wf(),
        ensures
            match r {
                Some(k) => is_first_row(self.rows@, k as int),
                None => self.rows@.len() == 0,
            },
    {
        if self.rows.len() == 0 {
            return None;
        }
        let mut best: usize = 0;
        let mut i: usize = 1;
        while i < self.rows.len()
            invariant
                self.wf(),
                1 <= i <= self.rows@.len(),
                best < i,
                forall|j: int| 0 <= j < i && j != best ==> text_lt(self.rows@[best as int].capability@, self.rows@[j].capability@),
            decreases self.rows@.len() - i,
        {
            if text_less(self.rows[i].capability.as_str(), self.rows[best].capability.as_str()) {
                proof {
                    let rows = self.rows@;
                    assert forall|j: int| 0 <= j < i + 1 && j != i implies text_lt(rows[i as int].capability@, rows[j].capability@) by {
                        if j != best {
                            lemma_text_lt_transitive(rows[i as int].capability@, rows[best as int].capability@, rows[j].capability@);
                        }
                    }
                }
                best = i;
            } else {
                proof {
                    let rows = self.rows@;
                    assert(rows[best as int].capability@ != rows[i as int].capability@);
                    lemma_text_lt_total(rows[best as int].capability@, rows[i as int].capability@);
                }
            }
            i = i + 1;
        }
        Some(best)
    }
}

/// Two rows with the same texts and pack hashes.
pub open spec fn same_row(a: StarflaskAgent, b: StarflaskAgent) -> bool {
    &&& a.capability@ == b.capability@
    &&& a.agent_id@ == b.agent_id@
    &&& a.name@ == b.name@
    &&& a.description@ == b.description@
    &&& a.pack_hashes@ == b.pack_hashes@
    &&& a.status@ == b.status@
}

/// Whether a row is a copy of one of the first `n` rows.
pub open spec fn copy_of_one(x: StarflaskAgent, rows: Seq<StarflaskAgent>, n: int) -> bool {
    exists|k: int| 0 <= k < n && same_row(x, rows[k])
}

/// Whether some row of `out` is a copy of `x`.
pub open spec fn has_copy(out: Seq<StarflaskAgent>, x: StarflaskAgent) -> bool {
    exists|a: int| 0 <= a < out.len() && same_row(out[a], x)
}

/// Rows in strictly increasing capability order.
pub open spec fn sorted_by_capability(rows: Seq<StarflaskAgent>) -> bool {
    forall|i: int, j: int| 0 <= i < j < rows.len() ==> text_lt(#[trigger] rows[i].capability@, #[trigger] rows[j].capability@)
}

/// `out` lists `rows` by capability: as many rows, each a copy of one of
/// them, every one of them copied, in increasing capability order.
pub open spec fn is_listing(rows: Seq<StarflaskAgent>, out: Seq<StarflaskAgent>) -> bool {
    &&& out.len() == rows.len()
    &&& forall|i: int| 0 <= i < out.len() ==> copy_of_one(#[trigger] out[i], rows, rows.len() as int)
    &&& forall|k: int| 0 <= k < rows.len() ==> has_copy(out, #[trigger] rows[k])
    &&& sorted_by_capability(out)
}

impl AgentTable {
    /// The rows, listed by capability (each row appears exactly once).
    #[verifier::rlimit(40)]
    pub fn list_agents(&self) -> (r: Vec<StarflaskAgent>)
        requires
            self.wf(),
        ensures
            is_listing(self.rows@, r@),
    {
        let ghost rows = self.rows@;
        let mut out: Vec<StarflaskAgent> = Vec::new();
        let mut i: usize = 0;
        while i < self.rows.len()
            invariant
                self.wf(),
                rows == self.rows@,
                i <= rows.len(),
                out@.len() == i,
                forall|a: int| 0 <= a < out@.len() ==> copy_of_one(#[trigger] out@[a], rows, i as int),
                forall|k: int| 0 <= k < i ==> has_copy(out@, #[trigger] rows[k]),
                sorted_by_capability(out@),
            decreases rows.len() - i,
        {
            let row = copy_row(&self.rows[i]);
            assert(same_row(row, rows[i as int]));
            let mut p: usize = 0;
            while p < out.len() && !text_less(row.capability.as_str(), out[p].capability.as_str())
                invariant
                    self.wf(),
                    rows == self.rows@,
                    i < rows.len(),
                    same_row(row, rows[i as int]),
                    p <= out@.len(),
                    out@.len() == i,
                    forall|a: int| 0 <= a < out@.len() ==> copy_of_one(#[trigger] out@[a], rows, i as int),
                    forall|a: int| 0 <= a < p ==> text_lt(#[trigger] out@[a].capability@, row.capability@),
                decreases out@.len() - p,
            {
                proof {
                    assert(copy_of_one(out@[p as int], rows, i as int));
                    let k = choose|k: int| 0 <= k < i && same_row(out@[p as int], rows[k]);
                    assert(rows[k].capability@ != rows[i as int].capability@);
                    lemma_text_lt_total(out@[p as int].capability@, row.capability@);
                }
                p = p + 1;
            }
            let ghost before = out@;
            proof {
                if p < before.len() {
                    assert forall|a: int| p <= a < before.len() implies text_lt(row.capability@, #[trigger] before[a].capability@) by {
                        if a > p {
                            assert(text_lt(before[p as int].capability@, before[a].capability@));
                            lemma_text_lt_transitive(row.capability@, before[p as int].capability@, before[a].capability@);
                        }
                    }
                }
            }
            out.insert(p, row);
            proof {
                let after = out@;
                assert(after == before.insert(p as int, row));
                assert forall|a: int, b: int| 0 <= a < b < after.len() implies text_lt(
                    #[trigger] after[a].capability@,
                    #[trigger] after[b].capability@,
                ) by {
                    if b < p {
                        assert(after[a] == before[a] && after[b] == before[b]);
                    } else if b == p {
                        assert(after[a] == before[a]);
                    } else if a < p {
                        assert(after[a] == before[a] && after[b] == before[b - 1]);
                        lemma_text_lt_transitive(before[a].capability@, row.capability@, before[b - 1].capability@);
                    } else if a == p {
                        assert(after[b] == before[b - 1]);
                    } else {
                        assert(after[a] == before[a - 1] && after[b] == before[b - 1]);
                    }
                }
                assert forall|a: int| 0 <= a < after.len() implies copy_of_one(#[trigger] after[a], rows, i + 1) by {
                    if a < p {
                        assert(after[a] == before[a]);
                        assert(copy_of_one(before[a], rows, i as int));
                    } else if a == p {
                        assert(same_row(after[a], rows[i as int]));
                    } else {
                        assert(after[a] == before[a - 1]);
                        assert(copy_of_one(before[a - 1], rows, i as int));
                    }
                }
                assert forall|k: int| 0 <= k < i + 1 implies has_copy(after, #[trigger] rows[k]) by {
                    if k == i {
                        assert(same_row(after[p as int], rows[k]));
                    } else {
                        assert(has_copy(before, rows[k]));
                        let a = choose|a: int| 0 <= a < before.len() && same_row(before[a], rows[k]);
                        if a < p {
                            assert(after[a] == before[a]);
                        } else {
                            assert(after[a + 1] == before[a]);
                        }
                    }
                }
            }
            i = i + 1;
        }
        out
    }
}

/// The agent used when no capability matches (the table's first row by
/// capability) is the one listed first.
pub proof fn law_fallback_agent_is_listed_first(table: AgentTable, listed: Seq<StarflaskAgent>, k: int)
    requires
        table.wf(),
        is_listing(table.rows@, listed),
        is_first_row(table.rows@, k),
    ensures
        listed.len() > 0,
        same_row(listed[0], table.rows@[k]),
{
    let rows = table.rows@;
    assert(copy_of_one(listed[0], rows, rows.len() as int));
    let j = choose|j: int| 0 <= j < rows.len() && same_row(listed[0], rows[j]);
    if j != k {
        assert(text_lt(rows[k].capability@, rows[j].capability@));
        assert(has_copy(listed, rows[k]));
        let a = choose|a: int| 0 <= a < listed.len() && same_row(listed[a], rows[k]);
        if a == 0 {
            assert(rows[j].capability@ == rows[k].capability@);
            lemma_text_lt_irreflexive(rows[k].capability@);
        } else {
            assert(text_lt(listed[0].capability@, listed[a].capability@));
            lemma_text_lt_asymmetric(rows[k].capability@, rows[j].capability@);
        }
    }
}

impl AgentTable {
    /// The agent of a capability, as a UUID (`None` when there is no row or
    /// its agent id is not a UUID).
    pub fn get_agent_id(&self, cap: &str) -> (r: Option<u128>)
        requires
            self.wf(),
        ensures
            r == match lookup_row(self.rows@, cap@) {
                Some(row) => uuid_value(row.agent_id@),
                None => None::<u128>,
            },
    {
        match self.get(cap) {
            Some(row) => match parse_uuid(row.agent_id.as_str()) {
                Ok(u) => Some(u),
                Err(_) => None,
            },
            None => None,
        }
    }

    /// The agent used when no capability matches: the first row listed, as
    /// a UUID (`None` when the table is empty or that id is not a UUID).
    pub fn get_any_agent_id(&self) -> (r: Option<u128>)
        requires
            self.wf(),
        ensures
            self.rows@.len() == 0 ==> r is None,
            forall|k: int| is_first_row(self.rows@, k) ==> r == uuid_value(#[trigger] self.rows@[k].agent_id@),
    {
        match self.first_row() {
            Some(k) => {
                proof {
                    assert forall|q: int| is_first_row(self.rows@, q) implies q == k by {
                        if q != k {
                            assert(text_lt(self.rows@[k as int].capability@, self.rows@[q].capability@));
                            assert(text_lt(self.rows@[q].capability@, self.rows@[k as int].capability@));
                            lemma_text_lt_asymmetric(self.rows@[k as int].capability@, self.rows@[q].capability@);
                        }
                    }
                }
                match parse_uuid(self.rows[k].agent_id.as_str()) {
                    Ok(u) => Some(u),
                    Err(_) => None,
                }
            },
            None => None,
        }
    }
}

/// The bot's project is the first one named `stark-bot`; without one,
/// there is none.
pub proof fn law_bot_project(projects: Seq<RemoteProject>)
    ensures
        (forall|k: int| 0 <= k < projects.len() ==> #[trigger] projects[k].name@ != "stark-bot"@)
            ==> bot_project_id(projects) is None,
        forall|k: int|
            0 <= k < projects.len() && #[trigger] projects[k].name@ == "stark-bot"@ && (forall|j: int|
                0 <= j < k ==> projects[j].name@ != "stark-bot"@) ==> bot_project_id(projects) == Some(projects[k].id@),
    decreases projects.len(),
{
    if projects.len() > 0 {
        let rest = projects.drop_first();
        law_bot_project(rest);
        assert forall|k: int| 0 <= k < rest.len() implies #[trigger] rest[k] == projects[k + 1] by {}
        assert forall|k: int|
            0 <= k < projects.len() && #[trigger] projects[k].name@ == "stark-bot"@ && (forall|j: int|
                0 <= j < k ==> projects[j].name@ != "stark-bot"@) implies bot_project_id(projects) == Some(
            projects[k].id@,
        ) by {
            if k > 0 {
                assert(projects[0].name@ != "stark-bot"@);
                assert(rest[k - 1] == projects[k]);
                assert forall|j: int| 0 <= j < k - 1 implies rest[j].name@ != "stark-bot"@ by {
                    assert(rest[j] == projects[j + 1]);
                }
            }
        }
        if forall|k: int| 0 <= k < projects.len() ==> #[trigger] projects[k].name@ != "stark-bot"@ {
            assert(projects[0].name@ != "stark-bot"@);
            assert forall|k: int| 0 <= k < rest.len() implies #[trigger] rest[k].name@ != "stark-bot"@ by {
                assert(rest[k] == projects[k + 1]);
            }
        }
    }
}

/// A capability's output type is the `output_type` string of its pack
/// definition's `pack.definition` object, `text` when there is none.
pub proof fn law_output_type(def: Json)
    ensures
        output_type_spec(None) == "text"@,
        ({
            let t = match json_get(def, "pack"@) {
                Some(p) => match json_get(p, "definition"@) {
                    Some(x) => json_get_str(x, "output_type"@),
                    None => None,
                },
                None => None,
            };
            &&& t is Some ==> output_type_spec(Some(def)) == t->Some_0
            &&& t is None ==> output_type_spec(Some(def)) == "text"@
        }),
{
}

} // verus!
