//! Reading Starflask session results: media URLs, social post results,
//! delegation instructions and plain text.

use vstd::prelude::*;
use crate::json::{
    json_as_array, json_as_str, json_get, json_get_str, json_parse, json_pretty, json_pretty_text, parse_json,
    Json,
};
use crate::text::{
    chars_of, find_char, find_char_exec, owned, rfind_char, rfind_char_exec, slice_range, split_whitespace,
    starts_with, starts_with_exec, string_from, words_of,
};

verus! {

/// The characters stripped from the end of a URL found in prose.
pub open spec fn url_tail_char(c: char) -> bool {
    c == ',' || c == ')' || c == ']' || c == '>' || c == '"' || c == '\''
}

/// A word with its trailing punctuation removed.
pub open spec fn trim_url_tail(w: Seq<char>) -> Seq<char>
    decreases w.len(),
{
    if w.len() > 0 && url_tail_char(w.last()) {
        trim_url_tail(w.drop_last())
    } else {
        w
    }
}

/// A word that starts like a web URL.
pub open spec fn is_url_word(w: Seq<char>) -> bool {
    starts_with(w, "http://"@) || starts_with(w, "https://"@)
}

/// The URL words among `ws`, trimmed, in order.
pub open spec fn urls_of_words(ws: Seq<Seq<char>>) -> Seq<Seq<char>>
    decreases ws.len(),
{
    if ws.len() == 0 {
        Seq::empty()
    } else {
        urls_of_words(ws.drop_last()) + if is_url_word(ws.last()) {
            seq![trim_url_tail(ws.last())]
        } else {
            Seq::empty()
        }
    }
}

/// The URLs found in free text.
pub open spec fn urls_in_text(t: Seq<char>) -> Seq<Seq<char>> {
    urls_of_words(words_of(t))
}

/// The views of a list of strings.
pub open spec fn texts(v: Seq<String>) -> Seq<Seq<char>> {
    v.map_values(|s: String| s@)
}

fn trim_url_tail_exec(w: &Vec<char>) -> (r: Vec<char>)
    ensures
        r@ == trim_url_tail(w@),
{
    let mut j: usize = w.len();
    assert(w@.take(j as int) =~= w@);
    while j > 0 && (w[j - 1] == ',' || w[j - 1] == ')' || w[j - 1] == ']' || w[j - 1] == '>' || w[j - 1] == '"'
        || w[j - 1] == '\'')
        invariant
            j <= w@.len(),
            trim_url_tail(w@) == trim_url_tail(w@.take(j as int)),
        decreases j,
    {
        assert(w@.take(j as int).drop_last() =~= w@.take(j - 1));
        j = j - 1;
    }
    let r = slice_range(w.as_slice(), 0, j);
    assert(r@ =~= w@.take(j as int));
    r
}

/// Extracts URLs from free text: the whitespace-separated words that start
/// with `http://` or `https://`, with trailing `,`, `)`, `]`, `>`, `"` and
/// `'` removed.
pub fn extract_urls_from_text(text: &str) -> (r: Vec<String>)
    ensures
        texts(r@) == urls_in_text(text@),
{
    let ws = split_whitespace(text);
    let ghost wv = ws@.map_values(|l: String| l@);
    let http = chars_of("http://");
    let https = chars_of("https://");
    let mut out: Vec<String> = Vec::new();
    let mut i: usize = 0;
    assert(wv.take(0) =~= Seq::<Seq<char>>::empty());
    while i < ws.len()
        invariant
            wv == ws@.map_values(|l: String| l@),
            wv == words_of(text@),
            http@ == "http://"@,
            https@ == "https://"@,
            i <= ws@.len(),
            texts(out@) == urls_of_words(wv.take(i as int)),
        decreases ws@.len() - i,
    {
        let ghost before = texts(out@);
        let ghost t = wv.take(i + 1);
        assert(t.drop_last() =~= wv.take(i as int));
        assert(t.last() == ws@[i as int]@);
        let w = chars_of(ws[i].as_str());
        if starts_with_exec(w.as_slice(), http.as_slice()) || starts_with_exec(w.as_slice(), https.as_slice()) {
            let u = trim_url_tail_exec(&w);
            out.push(string_from(u.as_slice()));
            assert(texts(out@) =~= before + seq![trim_url_tail(w@)]);
        } else {
            assert(before + Seq::<Seq<char>>::empty() =~= before);
        }
        i = i + 1;
    }
    assert(wv.take(i as int) =~= wv);
    out
}

/// The string elements of an array, in order.
pub open spec fn strings_of(arr: Seq<Json>) -> Seq<Seq<char>>
    decreases arr.len(),
{
    if arr.len() == 0 {
        Seq::empty()
    } else {
        strings_of(arr.drop_last()) + match json_as_str(arr.last()) {
            Some(s) => seq![s],
            None => Seq::empty(),
        }
    }
}

/// The string `url` members of an array's elements, in order.
pub open spec fn media_urls_of(arr: Seq<Json>) -> Seq<Seq<char>>
    decreases arr.len(),
{
    if arr.len() == 0 {
        Seq::empty()
    } else {
        media_urls_of(arr.drop_last()) + match json_get_str(arr.last(), "url"@) {
            Some(s) => seq![s],
            None => Seq::empty(),
        }
    }
}

/// The array under `key`, empty when there is none.
pub open spec fn array_at(v: Json, key: Seq<char>) -> Seq<Json> {
    match json_get(v, key) {
        Some(x) => match json_as_array(x) {
            Some(a) => a,
            None => Seq::empty(),
        },
        None => Seq::empty(),
    }
}

/// The URLs in the text under `key`, empty when there is no such text.
pub open spec fn urls_at(v: Json, key: Seq<char>) -> Seq<Seq<char>> {
    match json_get_str(v, key) {
        Some(t) => urls_in_text(t),
        None => Seq::empty(),
    }
}

/// The URLs in an optional summary.
pub open spec fn summary_urls(summary: Option<Seq<char>>) -> Seq<Seq<char>> {
    match summary {
        Some(s) => urls_in_text(s),
        None => Seq::empty(),
    }
}

/// The media URLs of a session result: the `urls` strings, else the `url`
/// string, else the `media[].url` strings, else URLs found in `text`,
/// `message`, `response` or `summary` (the first that has any), else in the
/// result when it is a string, else in the summary.
pub open spec fn media_urls(result: Option<Json>, summary: Option<Seq<char>>) -> Seq<Seq<char>> {
    match result {
        None => summary_urls(summary),
        Some(v) => {
            let listed = strings_of(array_at(v, "urls"@));
            let media = media_urls_of(array_at(v, "media"@));
            if listed.len() > 0 {
                listed
            } else if json_get_str(v, "url"@) is Some {
                seq![json_get_str(v, "url"@)->Some_0]
            } else if media.len() > 0 {
                media
            } else if urls_at(v, "text"@).len() > 0 {
                urls_at(v, "text"@)
            } else if urls_at(v, "message"@).len() > 0 {
                urls_at(v, "message"@)
            } else if urls_at(v, "response"@).len() > 0 {
                urls_at(v, "response"@)
            } else if urls_at(v, "summary"@).len() > 0 {
                urls_at(v, "summary"@)
            } else if json_as_str(v) is Some && urls_in_text(json_as_str(v)->Some_0).len() > 0 {
                urls_in_text(json_as_str(v)->Some_0)
            } else {
                summary_urls(summary)
            }
        },
    }
}

/// The string elements of the array under `key`, in order.
pub fn array_strings_at(v: &Json, key: &str) -> (r: Vec<String>)
    ensures
        texts(r@) == strings_of(array_at(*v, key@)),
{
    let mut out: Vec<String> = Vec::new();
    match v.get(key) {
        Some(x) => match x.as_array() {
            Some(arr) => {
                let mut i: usize = 0;
                assert(arr@.take(0) =~= Seq::<Json>::empty());
                while i < arr.len()
                    invariant
                        array_at(*v, key@) == arr@,
                        i <= arr@.len(),
                        texts(out@) == strings_of(arr@.take(i as int)),
                    decreases arr@.len() - i,
                {
                    let ghost before = texts(out@);
                    let ghost t = arr@.take(i + 1);
                    assert(t.drop_last() =~= arr@.take(i as int));
                    assert(t.last() == arr@[i as int]);
                    match arr[i].as_str() {
                        Some(s) => {
                            out.push(s.clone());
                            assert(texts(out@) =~= before + seq![s@]);
                        },
                        None => {
                            assert(before + Seq::<Seq<char>>::empty() =~= before);
                        },
                    }
                    i = i + 1;
                }
                assert(arr@.take(i as int) =~= arr@);
            },
            None => {},
        },
        None => {},
    }
    out
}

fn array_media_urls(v: &Json, key: &str) -> (r: Vec<String>)
    ensures
        texts(r@) == media_urls_of(array_at(*v, key@)),
{
    let mut out: Vec<String> = Vec::new();
    match v.get(key) {
        Some(x) => match x.as_array() {
            Some(arr) => {
                let mut i: usize = 0;
                assert(arr@.take(0) =~= Seq::<Json>::empty());
                while i < arr.len()
                    invariant
                        array_at(*v, key@) == arr@,
                        i <= arr@.len(),
                        texts(out@) == media_urls_of(arr@.take(i as int)),
                    decreases arr@.len() - i,
                {
                    let ghost before = texts(out@);
                    let ghost t = arr@.take(i + 1);
                    assert(t.drop_last() =~= arr@.take(i as int));
                    assert(t.last() == arr@[i as int]);
                    match arr[i].get_str("url") {
                        Some(s) => {
                            out.push(s.clone());
                            assert(texts(out@) =~= before + seq![s@]);
                        },
                        None => {
                            assert(before + Seq::<Seq<char>>::empty() =~= before);
                        },
                    }
                    i = i + 1;
                }
                assert(arr@.take(i as int) =~= arr@);
            },
            None => {},
        },
        None => {},
    }
    out
}

fn text_urls_at(v: &Json, key: &str) -> (r: Vec<String>)
    ensures
        texts(r@) == urls_at(*v, key@),
{
    match v.get_str(key) {
        Some(t) => extract_urls_from_text(t.as_str()),
        None => Vec::new(),
    }
}

fn summary_urls_exec(summary: Option<&str>) -> (r: Vec<String>)
    ensures
        texts(r@) == summary_urls(
            match summary {
                Some(s) => Some(s@),
                None => None,
            },
        ),
{
    match summary {
        Some(s) => extract_urls_from_text(s),
        None => Vec::new(),
    }
}

/// Extracts media URLs from a session result (image or video generation).
pub fn parse_media_result(result: &Option<Json>, result_summary: Option<&str>) -> (r: Vec<String>)
    ensures
        texts(r@) == media_urls(
            *result,
            match result_summary {
                Some(s) => Some(s@),
                None => None,
            },
        ),
{
    let v = match result {
        Some(v) => v,
        None => return summary_urls_exec(result_summary),
    };
    let listed = array_strings_at(v, "urls");
    if listed.len() > 0 {
        return listed;
    }
    match v.get_str("url") {
        Some(u) => {
            let mut one: Vec<String> = Vec::new();
            one.push(u.clone());
            assert(texts(one@) =~= seq![u@]);
            return one;
        },
        None => {},
    }
    let media = array_media_urls(v, "media");
    if media.len() > 0 {
        return media;
    }
    let a = text_urls_at(v, "text");
    if a.len() > 0 {
        return a;
    }
    let b = text_urls_at(v, "message");
    if b.len() > 0 {
        return b;
    }
    let c = text_urls_at(v, "response");
    if c.len() > 0 {
        return c;
    }
    let d = text_urls_at(v, "summary");
    if d.len() > 0 {
        return d;
    }
    match v.as_str() {
        Some(t) => {
            let e = extract_urls_from_text(t.as_str());
            if e.len() > 0 {
                return e;
            }
        },
        None => {},
    }
    summary_urls_exec(result_summary)
}

/// The first of the members `a`, `b`, `c` that is present, as a string
/// (`None` when the first present one is not a string).
pub open spec fn first_present_str(v: Json, keys: Seq<Seq<char>>) -> Option<Seq<char>>
    decreases keys.len(),
{
    if keys.len() == 0 {
        None
    } else {
        match json_get(v, keys[0]) {
            Some(x) => json_as_str(x),
            None => first_present_str(v, keys.drop_first()),
        }
    }
}

/// The post URL and confirmation text of a social post result.
pub open spec fn social_result(result: Option<Json>) -> (Option<Seq<char>>, Seq<char>) {
    match result {
        None => (None, "No result"@),
        Some(v) => (
            first_present_str(v, seq!["post_url"@, "url"@]),
            match first_present_str(v, seq!["confirmation"@, "message"@, "text"@]) {
                Some(t) => t,
                None => "Post submitted"@,
            },
        ),
    }
}

fn first_present_str_exec(v: &Json, a: &str, b: &str, c: Option<&str>) -> (r: Option<String>)
    ensures
        match r {
            Some(s) => first_present_str(*v, match c {
                Some(c) => seq![a@, b@, c@],
                None => seq![a@, b@],
            }) == Some(s@),
            None => first_present_str(*v, match c {
                Some(c) => seq![a@, b@, c@],
                None => seq![a@, b@],
            }) is None,
        },
{
    let ghost keys = match c {
        Some(c) => seq![a@, b@, c@],
        None => seq![a@, b@],
    };
    proof {
        reveal_with_fuel(first_present_str, 4);
        assert(keys.drop_first()[0] == b@);
        if c is Some {
            assert(keys.drop_first().drop_first()[0] == c->Some_0@);
            assert(keys.drop_first().drop_first().drop_first().len() == 0);
        } else {
            assert(keys.drop_first().drop_first().len() == 0);
        }
    }
    let x = match v.get(a) {
        Some(x) => Some(x),
        None => match v.get(b) {
            Some(x) => Some(x),
            None => match c {
                Some(c) => v.get(c),
                None => None,
            },
        },
    };
    match x {
        Some(x) => match x.as_str() {
            Some(s) => Some(s.clone()),
            None => None,
        },
        None => None,
    }
}

/// Extracts a social post result: the post URL (`post_url`, else `url`)
/// and the confirmation (`confirmation`, else `message`, else `text`;
/// `Post submitted` when none is a string).
pub fn parse_social_result(result: &Option<Json>) -> (r: (Option<String>, String))
    ensures
        (match r.0 {
            Some(u) => Some(u@),
            None => None,
        }) == social_result(*result).0,
        r.1@ == social_result(*result).1,
{
    let v = match result {
        Some(v) => v,
        None => return (None, owned("No result")),
    };
    let post_url = first_present_str_exec(v, "post_url", "url", None);
    let confirmation = match first_present_str_exec(v, "confirmation", "message", Some("text")) {
        Some(t) => t,
        None => owned("Post submitted"),
    };
    (post_url, confirmation)
}

/// A delegation from the general agent to a specialist.
#[derive(Clone, Debug)]
pub struct DelegationInstruction {
    pub delegate: String,
    pub message: String,
}

/// The delegation an object describes: a string `delegate`, and the
/// `message` string (empty when missing).
pub open spec fn delegation_of(v: Json) -> Option<(Seq<char>, Seq<char>)> {
    match json_get_str(v, "delegate"@) {
        Some(d) => Some(
            (
                d,
                match json_get_str(v, "message"@) {
                    Some(m) => m,
                    None => Seq::empty(),
                },
            ),
        ),
        None => None,
    }
}

/// The pair of texts of a delegation.
pub open spec fn delegation_view(d: Option<DelegationInstruction>) -> Option<(Seq<char>, Seq<char>)> {
    match d {
        Some(i) => Some((i.delegate@, i.message@)),
        None => None,
    }
}

/// Reads a delegation from a JSON object.
pub fn try_parse_delegation(v: &Json) -> (r: Option<DelegationInstruction>)
    ensures
        delegation_view(r) == delegation_of(*v),
{
    let delegate = match v.get_str("delegate") {
        Some(d) => d,
        None => return None,
    };
    let message = match v.get_str("message") {
        Some(m) => m.clone(),
        None => String::new(),
    };
    Some(DelegationInstruction { delegate: delegate.clone(), message })
}

/// The text from the first `{` to the last `}`, when the last comes after
/// the first.
pub open spec fn embedded_object_text(t: Seq<char>) -> Option<Seq<char>> {
    match (find_char(t, '{'), rfind_char(t, '}')) {
        (Some(s), Some(e)) => if e <= s { None } else { Some(t.subrange(s, e + 1)) },
        _ => None,
    }
}

/// The delegation embedded as JSON in prose.
pub open spec fn delegation_in_text(t: Seq<char>) -> Option<(Seq<char>, Seq<char>)> {
    match embedded_object_text(t) {
        Some(j) => match json_parse(j) {
            Some(v) => delegation_of(v),
            None => None,
        },
        None => None,
    }
}

/// Finds a JSON object embedded in text and reads a delegation from it.
pub fn extract_delegation_from_text(text: &str) -> (r: Option<DelegationInstruction>)
    ensures
        delegation_view(r) == delegation_in_text(text@),
{
    let cv = chars_of(text);
    let c = cv.as_slice();
    let start = match find_char_exec(c, '{') {
        Some(s) => s,
        None => return None,
    };
    let end = match rfind_char_exec(c, '}') {
        Some(e) => e,
        None => return None,
    };
    if end <= start {
        return None;
    }
    let n = c.len();
    assert(end < n);
    let piece = string_from(slice_range(c, start, end + 1).as_slice());
    match parse_json(piece.as_str()) {
        Some(v) => try_parse_delegation(&v),
        None => None,
    }
}

/// The delegation in a session result: the result itself, else its
/// `structured_data` object, else JSON embedded in the text of `text`,
/// `message`, `response`, `summary` or `structured_data`, else JSON
/// embedded in the result when it is a string.
pub open spec fn delegation_result(result: Option<Json>) -> Option<(Seq<char>, Seq<char>)> {
    match result {
        None => None,
        Some(v) => {
            let sd = match json_get(v, "structured_data"@) {
                Some(o) => delegation_of(o),
                None => None,
            };
            if delegation_of(v) is Some {
                delegation_of(v)
            } else if sd is Some {
                sd
            } else if text_delegation(v, "text"@) is Some {
                text_delegation(v, "text"@)
            } else if text_delegation(v, "message"@) is Some {
                text_delegation(v, "message"@)
            } else if text_delegation(v, "response"@) is Some {
                text_delegation(v, "response"@)
            } else if text_delegation(v, "summary"@) is Some {
                text_delegation(v, "summary"@)
            } else if text_delegation(v, "structured_data"@) is Some {
                text_delegation(v, "structured_data"@)
            } else {
                match json_as_str(v) {
                    Some(t) => delegation_in_text(t),
                    None => None,
                }
            }
        },
    }
}

/// The delegation embedded in the text under `key`.
pub open spec fn text_delegation(v: Json, key: Seq<char>) -> Option<(Seq<char>, Seq<char>)> {
    match json_get_str(v, key) {
        Some(t) => delegation_in_text(t),
        None => None,
    }
}

fn text_delegation_exec(v: &Json, key: &str) -> (r: Option<DelegationInstruction>)
    ensures
        delegation_view(r) == text_delegation(*v, key@),
{
    match v.get_str(key) {
        Some(t) => extract_delegation_from_text(t.as_str()),
        None => None,
    }
}

/// Checks whether a session result holds a delegation instruction.
pub fn parse_delegation_result(result: &Option<Json>) -> (r: Option<DelegationInstruction>)
    ensures
        delegation_view(r) == delegation_result(*result),
{
    let v = match result {
        Some(v) => v,
        None => return None,
    };
    let direct = try_parse_delegation(v);
    if direct.is_some() {
        return direct;
    }
    match v.get("structured_data") {
        Some(o) => {
            let sd = try_parse_delegation(o);
            if sd.is_some() {
                return sd;
            }
        },
        None => {},
    }
    let a = text_delegation_exec(v, "text");
    if a.is_some() {
        return a;
    }
    let b = text_delegation_exec(v, "message");
    if b.is_some() {
        return b;
    }
    let c = text_delegation_exec(v, "response");
    if c.is_some() {
        return c;
    }
    let d = text_delegation_exec(v, "summary");
    if d.is_some() {
        return d;
    }
    let e = text_delegation_exec(v, "structured_data");
    if e.is_some() {
        return e;
    }
    match v.as_str() {
        Some(t) => extract_delegation_from_text(t.as_str()),
        None => None,
    }
}

/// The plain text of a session result: its `text`, `message` or
/// `response` string, else the result itself when it is a string, else its
/// pretty-printed JSON; empty when there is no result.
pub open spec fn text_result(result: Option<Json>) -> Seq<char> {
    match result {
        None => Seq::empty(),
        Some(v) => if json_get_str(v, "text"@) is Some {
            json_get_str(v, "text"@)->Some_0
        } else if json_get_str(v, "message"@) is Some {
            json_get_str(v, "message"@)->Some_0
        } else if json_get_str(v, "response"@) is Some {
            json_get_str(v, "response"@)->Some_0
        } else if json_as_str(v) is Some {
            json_as_str(v)->Some_0
        } else {
            json_pretty_text(v)
        },
    }
}

/// Extracts plain text from a session result.
pub fn parse_text_result(result: &Option<Json>) -> (r: String)
    ensures
        r@ == text_result(*result),
{
    let v = match result {
        Some(v) => v,
        None => return String::new(),
    };
    match v.get_str("text") {
        Some(t) => return t.clone(),
        None => {},
    }
    match v.get_str("message") {
        Some(t) => return t.clone(),
        None => {},
    }
    match v.get_str("response") {
        Some(t) => return t.clone(),
        None => {},
    }
    match v.as_str() {
        Some(t) => return t.clone(),
        None => {},
    }
    json_pretty(v)
}

/// Whether the string under `key`, if there is one, holds no URL.
pub open spec fn no_urls_under(v: Json, key: Seq<char>) -> bool {
    json_get_str(v, key) is Some ==> urls_in_text(json_get_str(v, key)->Some_0).len() == 0
}

/// Whether the string under `key` holds URLs.
pub open spec fn has_urls_under(v: Json, key: Seq<char>) -> bool {
    json_get_str(v, key) is Some && urls_in_text(json_get_str(v, key)->Some_0).len() > 0
}

/// Where the media URLs of a result come from, in order of precedence: its
/// `urls` strings; its `url` string; its `media[].url` strings; the URLs in
/// its `text`, `message`, `response` or `summary` string, the first of
/// these that has any; the URLs in the result when it is a string; the
/// URLs in the summary.
pub proof fn law_media_urls_precedence(v: Json, summary: Option<Seq<char>>)
    ensures
        media_urls(None, summary) == summary_urls(summary),
        strings_of(array_at(v, "urls"@)).len() > 0 ==> media_urls(Some(v), summary) == strings_of(
            array_at(v, "urls"@),
        ),
        ({
            let base = strings_of(array_at(v, "urls"@)).len() == 0;
            let no_url = base && json_get_str(v, "url"@) is None;
            let no_media = no_url && media_urls_of(array_at(v, "media"@)).len() == 0;
            let no_text = no_media && no_urls_under(v, "text"@);
            let no_message = no_text && no_urls_under(v, "message"@);
            let no_response = no_message && no_urls_under(v, "response"@);
            let no_summary = no_response && no_urls_under(v, "summary"@);
            &&& base && json_get_str(v, "url"@) is Some ==> media_urls(Some(v), summary) == seq![
                json_get_str(v, "url"@)->Some_0,
            ]
            &&& no_url && media_urls_of(array_at(v, "media"@)).len() > 0 ==> media_urls(Some(v), summary)
                == media_urls_of(array_at(v, "media"@))
            &&& no_media && has_urls_under(v, "text"@) ==> media_urls(Some(v), summary) == urls_in_text(
                json_get_str(v, "text"@)->Some_0,
            )
            &&& no_text && has_urls_under(v, "message"@) ==> media_urls(Some(v), summary) == urls_in_text(
                json_get_str(v, "message"@)->Some_0,
            )
            &&& no_message && has_urls_under(v, "response"@) ==> media_urls(Some(v), summary) == urls_in_text(
                json_get_str(v, "response"@)->Some_0,
            )
            &&& no_response && has_urls_under(v, "summary"@) ==> media_urls(Some(v), summary) == urls_in_text(
                json_get_str(v, "summary"@)->Some_0,
            )
            &&& no_summary && json_as_str(v) is Some && urls_in_text(json_as_str(v)->Some_0).len() > 0 ==> media_urls(
                Some(v),
                summary,
            ) == urls_in_text(json_as_str(v)->Some_0)
            &&& no_summary && !(json_as_str(v) is Some && urls_in_text(json_as_str(v)->Some_0).len() > 0)
                ==> media_urls(Some(v), summary) == summary_urls(summary)
        }),
{
}

/// Whether the string under `key`, if there is one, embeds no delegation.
pub open spec fn no_delegation_under(v: Json, key: Seq<char>) -> bool {
    json_get_str(v, key) is Some ==> delegation_in_text(json_get_str(v, key)->Some_0) is None
}

/// Whether the string under `key` embeds a delegation.
pub open spec fn has_delegation_under(v: Json, key: Seq<char>) -> bool {
    json_get_str(v, key) is Some && delegation_in_text(json_get_str(v, key)->Some_0) is Some
}

/// Where the delegation of a result comes from, in order of precedence:
/// the result's own `delegate` (with its `message`, empty when missing);
/// that of its `structured_data` object; a delegation embedded in its
/// `text`, `message`, `response`, `summary` or `structured_data` string,
/// the first of these that has one; one embedded in the result when it is
/// a string.  No result, no delegation.
pub proof fn law_delegation_precedence(v: Json)
    ensures
        delegation_result(None) is None,
        json_get_str(v, "delegate"@) is Some ==> delegation_result(Some(v)) == Some(
            (
                json_get_str(v, "delegate"@)->Some_0,
                match json_get_str(v, "message"@) {
                    Some(m) => m,
                    None => Seq::<char>::empty(),
                },
            ),
        ),
        ({
            let sd = json_get(v, "structured_data"@);
            let base = json_get_str(v, "delegate"@) is None;
            let no_sd = base && !(sd is Some && json_get_str(sd->Some_0, "delegate"@) is Some);
            let no_text = no_sd && no_delegation_under(v, "text"@);
            let no_message = no_text && no_delegation_under(v, "message"@);
            let no_response = no_message && no_delegation_under(v, "response"@);
            let no_summary = no_response && no_delegation_under(v, "summary"@);
            let no_sd_text = no_summary && no_delegation_under(v, "structured_data"@);
            &&& base && sd is Some && json_get_str(sd->Some_0, "delegate"@) is Some ==> delegation_result(Some(v))
                == Some(
                (
                    json_get_str(sd->Some_0, "delegate"@)->Some_0,
                    match json_get_str(sd->Some_0, "message"@) {
                        Some(m) => m,
                        None => Seq::<char>::empty(),
                    },
                ),
            )
            &&& no_sd && has_delegation_under(v, "text"@) ==> delegation_result(Some(v)) == delegation_in_text(
                json_get_str(v, "text"@)->Some_0,
            )
            &&& no_text && has_delegation_under(v, "message"@) ==> delegation_result(Some(v)) == delegation_in_text(
                json_get_str(v, "message"@)->Some_0,
            )
            &&& no_message && has_delegation_under(v, "response"@) ==> delegation_result(Some(v))
                == delegation_in_text(json_get_str(v, "response"@)->Some_0)
            &&& no_response && has_delegation_under(v, "summary"@) ==> delegation_result(Some(v))
                == delegation_in_text(json_get_str(v, "summary"@)->Some_0)
            &&& no_summary && has_delegation_under(v, "structured_data"@) ==> delegation_result(Some(v))
                == delegation_in_text(json_get_str(v, "structured_data"@)->Some_0)
            &&& no_sd_text ==> delegation_result(Some(v)) == match json_as_str(v) {
                Some(t) => delegation_in_text(t),
                None => None,
            }
        }),
{
}

/// The text of a result, in order of precedence: its `text` string, its
/// `message` string, its `response` string, the result itself when it is a
/// string, else its pretty-printed JSON.  No result, no text.
pub proof fn law_text_precedence(v: Json)
    ensures
        text_result(None) == Seq::<char>::empty(),
        json_get_str(v, "text"@) is Some ==> text_result(Some(v)) == json_get_str(v, "text"@)->Some_0,
        json_get_str(v, "text"@) is None && json_get_str(v, "message"@) is Some ==> text_result(Some(v))
            == json_get_str(v, "message"@)->Some_0,
        json_get_str(v, "text"@) is None && json_get_str(v, "message"@) is None && json_get_str(v, "response"@) is Some
            ==> text_result(Some(v)) == json_get_str(v, "response"@)->Some_0,
        json_get_str(v, "text"@) is None && json_get_str(v, "message"@) is None && json_get_str(v, "response"@) is None
            ==> text_result(Some(v)) == match json_as_str(v) {
            Some(t) => t,
            None => json_pretty_text(v),
        },
{
}

/// The post URL of a social post result is its `post_url` member when it
/// has one, else its `url` member (either only when a string); the
/// confirmation is its `confirmation`, else `message`, else `text` member
/// (only when a string), "Post submitted" when none is present, and "No
/// result" without a result.
pub proof fn law_social_result(v: Json)
    ensures
        social_result(None) == (None::<Seq<char>>, "No result"@),
        json_get(v, "post_url"@) is Some ==> social_result(Some(v)).0 == json_as_str(json_get(v, "post_url"@)->Some_0),
        json_get(v, "post_url"@) is None ==> social_result(Some(v)).0 == match json_get(v, "url"@) {
            Some(x) => json_as_str(x),
            None => None,
        },
        json_get(v, "confirmation"@) is Some && json_as_str(json_get(v, "confirmation"@)->Some_0) is Some
            ==> social_result(Some(v)).1 == json_as_str(json_get(v, "confirmation"@)->Some_0)->Some_0,
        json_get(v, "confirmation"@) is None && json_get(v, "message"@) is Some && json_as_str(
            json_get(v, "message"@)->Some_0,
        ) is Some ==> social_result(Some(v)).1 == json_as_str(json_get(v, "message"@)->Some_0)->Some_0,
        json_get(v, "confirmation"@) is None && json_get(v, "message"@) is None && json_get(v, "text"@) is Some
            && json_as_str(json_get(v, "text"@)->Some_0) is Some ==> social_result(Some(v)).1 == json_as_str(
            json_get(v, "text"@)->Some_0,
        )->Some_0,
        json_get(v, "confirmation"@) is None && json_get(v, "message"@) is None && json_get(v, "text"@) is None
            ==> social_result(Some(v)).1 == "Post submitted"@,
{
    reveal_with_fuel(first_present_str, 4);
    let k2 = seq!["post_url"@, "url"@];
    let k3 = seq!["confirmation"@, "message"@, "text"@];
    assert(k2.drop_first() =~= seq!["url"@]);
    assert(seq!["url"@].drop_first() =~= Seq::<Seq<char>>::empty());
    assert(k3.drop_first() =~= seq!["message"@, "text"@]);
    assert(seq!["message"@, "text"@].drop_first() =~= seq!["text"@]);
    assert(seq!["text"@].drop_first() =~= Seq::<Seq<char>>::empty());
}

} // verus!
