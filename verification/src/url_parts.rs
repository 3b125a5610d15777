//! URL handling for the credits-aware HTTP client: host extraction,
//! request-target splitting and the set of hosts known to accept ERC-8128
//! credits.

use vstd::prelude::*;
use crate::text::{
    decimal, decimal_exec,
    chars_of, contains_seq, find_char, find_char_exec, slice_range, starts_with, starts_with_exec,
    str_contains, string_from,
};

verus! {

/// The URL with a leading `https://` or `http://` removed.
pub open spec fn strip_scheme(u: Seq<char>) -> Seq<char> {
    if starts_with(u, "https://"@) {
        u.subrange(8, u.len() as int)
    } else if starts_with(u, "http://"@) {
        u.subrange(7, u.len() as int)
    } else {
        u
    }
}

/// Everything before the first `/` (all of it when there is none).
pub open spec fn before_slash(w: Seq<char>) -> Seq<char> {
    match find_char(w, '/') {
        Some(i) => w.subrange(0, i),
        None => w,
    }
}

/// The host (with port) of a URL.
pub open spec fn host_of(u: Seq<char>) -> Seq<char> {
    before_slash(strip_scheme(u))
}

/// The path and query of a URL (`"/"` when there is no `/`).
pub open spec fn path_and_query_of(u: Seq<char>) -> Seq<char> {
    let w = strip_scheme(u);
    match find_char(w, '/') {
        Some(i) => w.subrange(i, w.len() as int),
        None => "/"@,
    }
}

/// The path of a URL: the path-and-query up to the first `?`.
pub open spec fn path_of(u: Seq<char>) -> Seq<char> {
    let pq = path_and_query_of(u);
    match find_char(pq, '?') {
        Some(i) => pq.subrange(0, i),
        None => pq,
    }
}

/// The query of a URL: what follows the first `?` of the path-and-query.
pub open spec fn query_of(u: Seq<char>) -> Option<Seq<char>> {
    let pq = path_and_query_of(u);
    match find_char(pq, '?') {
        Some(i) => Some(pq.subrange(i + 1, pq.len() as int)),
        None => None,
    }
}

fn strip_scheme_exec(u: &[char]) -> (r: Vec<char>)
    ensures
        r@ == strip_scheme(u@),
{
    let https = chars_of("https://");
    let http = chars_of("http://");
    proof {
        reveal_strlit("https://");
        reveal_strlit("http://");
    }
    if starts_with_exec(u, https.as_slice()) {
        slice_range(u, 8, u.len())
    } else if starts_with_exec(u, http.as_slice()) {
        slice_range(u, 7, u.len())
    } else {
        slice_range(u, 0, u.len())
    }
}

/// Extracts the host (with port) from a URL, e.g.
/// `https://api.example.com:8080/path` gives `api.example.com:8080`.
pub fn extract_host(url: &str) -> (r: String)
    ensures
        r@ == host_of(url@),
{
    let u = chars_of(url);
    let w = strip_scheme_exec(u.as_slice());
    match find_char_exec(w.as_slice(), '/') {
        Some(i) => string_from(slice_range(w.as_slice(), 0, i).as_slice()),
        None => string_from(w.as_slice()),
    }
}

/// Splits a URL into `(authority, path, query)` for request signing.
pub fn parse_url_parts(url: &str) -> (r: (String, String, Option<String>))
    ensures
        r.0@ == host_of(url@),
        r.1@ == path_of(url@),
        match r.2 {
            Some(q) => query_of(url@) == Some(q@),
            None => query_of(url@) == None::<Seq<char>>,
        },
{
    let u = chars_of(url);
    let w = strip_scheme_exec(u.as_slice());
    let (authority, pq) = match find_char_exec(w.as_slice(), '/') {
        Some(i) => (slice_range(w.as_slice(), 0, i), slice_range(w.as_slice(), i, w.len())),
        None => (slice_range(w.as_slice(), 0, w.len()), chars_of("/")),
    };
    assert(w@.subrange(0, w@.len() as int) =~= w@);
    match find_char_exec(pq.as_slice(), '?') {
        Some(q) => {
            let path = slice_range(pq.as_slice(), 0, q);
            assert(q < pq.len());
            let query = slice_range(pq.as_slice(), q + 1, pq.len());
            (string_from(authority.as_slice()), string_from(path.as_slice()), Some(string_from(query.as_slice())))
        },
        None => (string_from(authority.as_slice()), string_from(pq.as_slice()), None),
    }
}

/// Whether the URL is a defirelay endpoint, which pays with credits.
pub fn is_x402_endpoint(url: &str) -> (r: bool)
    ensures
        r == (contains_seq(url@, "defirelay.com"@) || contains_seq(url@, "defirelay.io"@)),
{
    str_contains(url, "defirelay.com") || str_contains(url, "defirelay.io")
}

/// Whether an `x-erc8128-credits` header value announces credits support
/// (it must read exactly `true`).
pub fn credits_header_announces(value: Option<&str>) -> (r: bool)
    ensures
        r == (value is Some && value->Some_0@ == "true"@),
{
    match value {
        Some(v) => crate::text::same_text(v, "true"),
        None => false,
    }
}

/// The path handed to request signing always starts with `/`, for every URL.
pub proof fn law_path_starts_with_slash(url: Seq<char>)
    ensures
        path_of(url).len() > 0 && path_of(url)[0] == '/',
{
    reveal_strlit("/");
    let w = strip_scheme(url);
    let pq = path_and_query_of(url);
    if find_char(w, '/') is Some {
        crate::text::lemma_find_char_found(w, '/');
    }
    assert(pq.len() > 0 && pq[0] == '/');
    if find_char(pq, '?') is Some {
        crate::text::lemma_find_char_found(pq, '?');
        assert(find_char(pq, '?')->Some_0 != 0);
    }
}

/// Hosts known to accept ERC-8128 credits (discovered from the
/// `x-erc8128-credits` response header).
pub struct CreditsHosts {
    hosts: Vec<String>,
}

impl CreditsHosts {
    /// The set of known hosts.
    pub closed spec fn view(&self) -> Set<Seq<char>> {
        Set::new(|h: Seq<char>| exists|i: int| 0 <= i < self.hosts@.len() && self.hosts@[i]@ == h)
    }

    /// No host is recorded twice.
    pub closed spec fn wf(&self) -> bool {
        forall|i: int, j: int|
            0 <= i < j < self.hosts@.len() ==> self.hosts@[i]@ != self.hosts@[j]@
    }

    /// The number of distinct known hosts.
    pub closed spec fn count(&self) -> nat {
        self.hosts@.len()
    }

    /// No known hosts.
    pub fn new() -> (r: CreditsHosts)
        ensures
            r.wf(),
            r.view() == Set::<Seq<char>>::empty(),
            r.count() == 0,
    {
        let r = CreditsHosts { hosts: Vec::new() };
        assert(r.view() =~= Set::<Seq<char>>::empty());
        r
    }

    fn index_of(&self, host: &str) -> (r: Option<usize>)
        ensures
            match r {
                Some(i) => i < self.hosts@.len() && self.hosts@[i as int]@ == host@,
                None => forall|i: int| 0 <= i < self.hosts@.len() ==> self.hosts@[i]@ != host@,
            },
    {
        let mut i: usize = 0;
        while i < self.hosts.len()
            invariant
                i <= self.hosts@.len(),
                forall|j: int| 0 <= j < i ==> self.hosts@[j]@ != host@,
            decreases self.hosts@.len() - i,
        {
            if crate::text::same_text(self.hosts[i].as_str(), host) {
                return Some(i);
            }
            i = i + 1;
        }
        None
    }

    /// Whether the URL's host is known to accept ERC-8128 credits.
    pub fn is_credits_host(&self, url: &str) -> (r: bool)
        ensures
            r == self.view().contains(host_of(url@)),
    {
        let host = extract_host(url);
        match self.index_of(host.as_str()) {
            Some(i) => {
                assert(self.view().contains(host@));
                true
            },
            None => {
                assert(!self.view().contains(host@));
                false
            },
        }
    }

    /// Remembers that the URL's host accepts ERC-8128 credits.
    pub fn mark_credits_host(&mut self, url: &str)
        requires
            old(self).wf(),
        ensures
            final(self).wf(),
            final(self).view() == old(self).view().insert(host_of(url@)),
            final(self).count() == old(self).count() + (if old(self).view().contains(host_of(url@)) {
                0int
            } else {
                1int
            }),
    {
        let host = extract_host(url);
        match self.index_of(host.as_str()) {
            Some(_) => {
                assert(self.view().contains(host@));
                assert(self.view().insert(host@) =~= self.view());
            },
            None => {
                assert(!self.view().contains(host@));
                let ghost old_hosts = self.hosts@;
                self.hosts.push(host);
                assert(self.hosts@ =~= old_hosts.push(host));
                assert(self.view() =~= old(self).view().insert(host_of(url@))) by {
                    assert forall|h: Seq<char>| self.view().contains(h) <==> old(self).view().insert(
                        host_of(url@),
                    ).contains(h) by {
                        if self.view().contains(h) {
                            let i = choose|i: int| 0 <= i < self.hosts@.len() && self.hosts@[i]@ == h;
                            if i < old_hosts.len() {
                                assert(old(self).view().contains(h));
                            }
                        }
                        if old(self).view().contains(h) {
                            let i = choose|i: int| 0 <= i < old_hosts.len() && old_hosts[i]@ == h;
                            assert(self.hosts@[i]@ == h);
                        }
                        if h == host_of(url@) {
                            assert(self.hosts@[old_hosts.len() as int]@ == h);
                        }
                    }
                }
            },
        }
    }
}

/// Once a URL's host is marked, every URL on that host is a credits host,
/// and the hosts known before stay known.
pub proof fn law_marked_host_is_known(before: Set<Seq<char>>, marked: Seq<char>, url: Seq<char>, known: Seq<char>)
    requires
        host_of(url) == host_of(marked),
    ensures
        before.insert(host_of(marked)).contains(host_of(url)),
        before.contains(known) ==> before.insert(host_of(marked)).contains(known),
{
}

/// The parts of a URL as the `url` crate parses it: host, port (when not
/// the scheme's default), path and query; or the text of the parse error.
pub uninterp spec fn url_parse_parts(u: Seq<char>) -> Result<
    (Option<Seq<char>>, Option<u16>, Seq<char>, Option<Seq<char>>),
    Seq<char>,
>;

/// The views of parsed URL parts.
pub open spec fn parts_view(p: (Option<String>, Option<u16>, String, Option<String>)) -> (
    Option<Seq<char>>,
    Option<u16>,
    Seq<char>,
    Option<Seq<char>>,
) {
    (
        match p.0 {
            Some(h) => Some(h@),
            None => None,
        },
        p.1,
        p.2@,
        match p.3 {
            Some(q) => Some(q@),
            None => None,
        },
    )
}

/// `url::Url::parse`, read as `host_str()`, `port()`, `path()` and
/// `query()`; a parse failure gives the error's `Display` text.
#[verifier::external_body]
fn parse_url(u: &str) -> (r: Result<(Option<String>, Option<u16>, String, Option<String>), String>)
    ensures
        match r {
            Ok(p) => url_parse_parts(u@) == Ok::<
                (Option<Seq<char>>, Option<u16>, Seq<char>, Option<Seq<char>>),
                Seq<char>,
            >(parts_view(p)),
            Err(e) => url_parse_parts(u@) == Err::<
                (Option<Seq<char>>, Option<u16>, Seq<char>, Option<Seq<char>>),
                Seq<char>,
            >(e@),
        },
{
    match url::Url::parse(u) {
        Ok(parsed) => Ok((
            parsed.host_str().map(|h| h.to_string()),
            parsed.port(),
            parsed.path().to_string(),
            parsed.query().map(|q| q.to_string()),
        )),
        Err(e) => Err(e.to_string()),
    }
}

/// The authority a signature covers: the host, with `:port` when there is
/// a port; empty without a host.
pub open spec fn authority_of(host: Option<Seq<char>>, port: Option<u16>) -> Seq<char> {
    match host {
        Some(h) => match port {
            Some(p) => h + ":"@ + decimal(p as nat),
            None => h,
        },
        None => Seq::empty(),
    }
}

/// The authority, path and query that an ERC-8128 signature covers; the
/// error reads `Invalid URL: <reason>`.
pub fn erc8128_target(url: &str) -> (r: Result<(String, String, Option<String>), String>)
    ensures
        match url_parse_parts(url@) {
            Ok((h, p, path, q)) => r is Ok && r->Ok_0.0@ == authority_of(h, p) && r->Ok_0.1@ == path && (match r->Ok_0.2 {
                Some(x) => Some(x@),
                None => None,
            }) == q,
            Err(e) => r is Err && r->Err_0@ == "Invalid URL: "@ + e,
        },
{
    match parse_url(url) {
        Ok((host, port, path, query)) => {
            let authority = match host {
                Some(h) => match port {
                    Some(p) => {
                        let mut v = chars_of(h.as_str());
                        crate::text::push_str(&mut v, ":");
                        v.extend_from_slice(decimal_exec(p as u64).as_slice());
                        string_from(v.as_slice())
                    },
                    None => h,
                },
                None => String::new(),
            };
            Ok((authority, path, query))
        },
        Err(e) => {
            let mut v = chars_of("Invalid URL: ");
            crate::text::push_str(&mut v, e.as_str());
            Err(string_from(v.as_slice()))
        },
    }
}
} // verus!
