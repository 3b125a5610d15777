//! Conversion between human-readable token amounts ("1.5") and raw
//! on-chain integer units ("1500000" for 6 decimals).

use vstd::prelude::*;
use crate::text::{
    is_ws, lemma_find_char, lemma_trim_end_char_is_prefix, lemma_trim_start_char_is_suffix,
    lemma_trim_ws_noop, is_digit,
    all_digits, all_digits_exec, digit_value, digits_value, chars_of, decimal, decimal_exec, find_char, find_char_exec,
    push_str, slice_range, string_from, trim_both_char, trim_both_char_exec, trim_end_char,
    trim_end_char_exec, trim_start_char, trim_start_char_exec, trim_ws, trim_ws_exec,
};

verus! {

/// `n` copies of `'0'`.
pub open spec fn zeros(n: nat) -> Seq<char> {
    Seq::new(n, |i: int| '0')
}

/// Leading zeros removed; an all-zero (or empty) input becomes `"0"`.
pub open spec fn canonical_digits(s: Seq<char>) -> Seq<char> {
    if trim_start_char(s, '0').len() == 0 {
        seq!['0']
    } else {
        trim_start_char(s, '0')
    }
}

/// A canonical raw amount: nonempty digits without a leading zero, or exactly `"0"`.
pub open spec fn is_canonical(s: Seq<char>) -> bool {
    &&& s.len() > 0
    &&& all_digits(s)
    &&& (s[0] == '0' ==> s == seq!['0'])
}

pub open spec fn msg_invalid_int(p: Seq<char>) -> Seq<char> {
    "Invalid integer part: '"@ + p + "'"@
}

pub open spec fn msg_invalid_dec(p: Seq<char>) -> Seq<char> {
    "Invalid decimal part: '"@ + p + "'"@
}

pub open spec fn msg_invalid_amount(a: Seq<char>) -> Seq<char> {
    "Invalid amount: '"@ + a + "'. Must be a number."@
}

pub open spec fn msg_too_precise(a: Seq<char>, places: nat, decimals: nat) -> Seq<char> {
    "Amount '"@ + a + "' has "@ + decimal(places) + " decimal places but token only has "@
        + decimal(decimals) + " decimals"@
}

pub open spec fn msg_invalid_raw(r: Seq<char>) -> Seq<char> {
    "Invalid raw amount: '"@ + r + "'"@
}

/// Shifts `int_part.dec_part` by `decimals` places.
pub open spec fn scale_spec(a: Seq<char>, int_part: Seq<char>, dec_part: Seq<char>, decimals: nat) -> Result<
    Seq<char>,
    Seq<char>,
> {
    if dec_part.len() > decimals {
        Err(msg_too_precise(a, dec_part.len(), decimals))
    } else {
        Ok(canonical_digits(int_part + dec_part + zeros((decimals - dec_part.len()) as nat)))
    }
}

/// What `to_raw_amount` returns.
pub open spec fn to_raw_spec(amount: Seq<char>, decimals: nat) -> Result<Seq<char>, Seq<char>> {
    let a = trim_ws(amount);
    match find_char(a, '.') {
        Some(p) => {
            let int_s = a.subrange(0, p);
            let dec_s = a.subrange(p + 1, a.len() as int);
            if int_s.len() > 0 && !all_digits(int_s) {
                Err(msg_invalid_int(int_s))
            } else if !all_digits(dec_s) {
                Err(msg_invalid_dec(dec_s))
            } else {
                scale_spec(a, if int_s.len() == 0 { seq!['0'] } else { int_s }, dec_s, decimals)
            }
        },
        None => {
            if !all_digits(a) {
                Err(msg_invalid_amount(a))
            } else {
                scale_spec(a, a, Seq::empty(), decimals)
            }
        },
    }
}

/// The human-readable form of the canonical raw amount `n` with `decimals` places.
pub open spec fn human_form(n: Seq<char>, decimals: nat) -> Seq<char> {
    if decimals == 0 {
        n
    } else if n.len() <= decimals {
        let t = trim_end_char(zeros((decimals - n.len()) as nat) + n, '0');
        if t.len() == 0 {
            seq!['0']
        } else {
            seq!['0', '.'] + t
        }
    } else {
        let ip = n.subrange(0, n.len() - decimals);
        let dp = trim_end_char(n.subrange(n.len() - decimals, n.len() as int), '0');
        if dp.len() == 0 {
            ip
        } else {
            ip + seq!['.'] + dp
        }
    }
}

/// What `from_raw_amount` returns.
pub open spec fn from_raw_spec(raw: Seq<char>, decimals: nat) -> Result<Seq<char>, Seq<char>> {
    let r = trim_both_char(trim_ws(raw), '"');
    if r.len() == 0 || !all_digits(r) {
        Err(msg_invalid_raw(r))
    } else {
        Ok(human_form(canonical_digits(r), decimals))
    }
}

/// The character view of a `Result<String, String>`.
pub open spec fn result_view(r: Result<String, String>) -> Result<Seq<char>, Seq<char>> {
    match r {
        Ok(s) => Ok(s@),
        Err(e) => Err(e@),
    }
}

fn quoted_message(head: &str, body: &[char], tail: &str) -> (r: String)
    ensures
        r@ == head@ + body@ + tail@,
{
    let mut v = chars_of(head);
    v.extend_from_slice(body);
    push_str(&mut v, tail);
    string_from(v.as_slice())
}

fn zeros_exec(n: usize) -> (r: Vec<char>)
    ensures
        r@ == zeros(n as nat),
{
    let mut v: Vec<char> = Vec::new();
    let mut i: usize = 0;
    while i < n
        invariant
            i <= n,
            v@ == zeros(i as nat),
        decreases n - i,
    {
        v.push('0');
        assert(v@ =~= zeros((i + 1) as nat));
        i = i + 1;
    }
    v
}

fn canonical_exec(s: &[char]) -> (r: Vec<char>)
    ensures
        r@ == canonical_digits(s@),
{
    let t = trim_start_char_exec(s, '0');
    if t.len() == 0 {
        let mut z: Vec<char> = Vec::new();
        z.push('0');
        assert(z@ =~= seq!['0']);
        z
    } else {
        t
    }
}

fn scale_exec(a: &[char], int_part: &[char], dec_part: &[char], decimals: u8) -> (r: Result<
    String,
    String,
>)
    ensures
        result_view(r) == scale_spec(a@, int_part@, dec_part@, decimals as nat),
{
    let d = decimals as usize;
    if dec_part.len() > d {
        let mut v = chars_of("Amount '");
        v.extend_from_slice(a);
        push_str(&mut v, "' has ");
        let places = decimal_exec(dec_part.len() as u64);
        v.extend_from_slice(places.as_slice());
        push_str(&mut v, " decimal places but token only has ");
        let dd = decimal_exec(decimals as u64);
        v.extend_from_slice(dd.as_slice());
        push_str(&mut v, " decimals");
        assert(places@ == decimal(dec_part@.len()));
        assert(dd@ == decimal(decimals as nat));
        assert(v@ == msg_too_precise(a@, dec_part@.len(), decimals as nat));
        return Err(string_from(v.as_slice()));
    }
    let mut v: Vec<char> = Vec::new();
    v.extend_from_slice(int_part);
    v.extend_from_slice(dec_part);
    let z = zeros_exec(d - dec_part.len());
    v.extend_from_slice(z.as_slice());
    assert(v@ =~= int_part@ + dec_part@ + zeros((decimals - dec_part@.len()) as nat));
    let c = canonical_exec(v.as_slice());
    Ok(string_from(c.as_slice()))
}

/// Converts a human-readable amount into raw units with `decimals` places.
///
/// Leading/trailing whitespace is ignored; the amount is digits with an
/// optional `.` fraction (an empty integer part reads as `0`).  Fails when a
/// part is not numeric or when the fraction has more places than `decimals`.
pub fn to_raw_amount(amount: &str, decimals: u8) -> (r: Result<String, String>)
    ensures
        result_view(r) == to_raw_spec(amount@, decimals as nat),
{
    let s = chars_of(amount);
    let a = trim_ws_exec(s.as_slice());
    match find_char_exec(a.as_slice(), '.') {
        Some(p) => {
            assert(p < a.len());
            let int_s = slice_range(a.as_slice(), 0, p);
            let dec_s = slice_range(a.as_slice(), p + 1, a.len());
            if int_s.len() > 0 && !all_digits_exec(int_s.as_slice()) {
                return Err(quoted_message("Invalid integer part: '", int_s.as_slice(), "'"));
            }
            if !all_digits_exec(dec_s.as_slice()) {
                return Err(quoted_message("Invalid decimal part: '", dec_s.as_slice(), "'"));
            }
            if int_s.len() == 0 {
                let mut z: Vec<char> = Vec::new();
                z.push('0');
                assert(z@ =~= seq!['0']);
                scale_exec(a.as_slice(), z.as_slice(), dec_s.as_slice(), decimals)
            } else {
                scale_exec(a.as_slice(), int_s.as_slice(), dec_s.as_slice(), decimals)
            }
        },
        None => {
            if !all_digits_exec(a.as_slice()) {
                return Err(
                    quoted_message("Invalid amount: '", a.as_slice(), "'. Must be a number."),
                );
            }
            let e: Vec<char> = Vec::new();
            assert(e@ =~= Seq::<char>::empty());
            scale_exec(a.as_slice(), a.as_slice(), e.as_slice(), decimals)
        },
    }
}

/// Converts raw units into a human-readable amount with `decimals` places.
///
/// Surrounding whitespace and double quotes are ignored; the rest must be a
/// nonempty run of digits.  Trailing fractional zeros are dropped, and the
/// `.` is omitted when no fraction remains.
pub fn from_raw_amount(raw: &str, decimals: u8) -> (r: Result<String, String>)
    ensures
        result_view(r) == from_raw_spec(raw@, decimals as nat),
{
    let s = chars_of(raw);
    let t = trim_ws_exec(s.as_slice());
    let r = trim_both_char_exec(t.as_slice(), '"');
    if r.len() == 0 || !all_digits_exec(r.as_slice()) {
        return Err(quoted_message("Invalid raw amount: '", r.as_slice(), "'"));
    }
    let n = canonical_exec(r.as_slice());
    let d = decimals as usize;
    if d == 0 {
        return Ok(string_from(n.as_slice()));
    }
    if n.len() <= d {
        let mut w = zeros_exec(d - n.len());
        w.extend_from_slice(n.as_slice());
        assert(w@ =~= zeros((decimals - n@.len()) as nat) + n@);
        let t2 = trim_end_char_exec(w.as_slice(), '0');
        if t2.len() == 0 {
            let mut z: Vec<char> = Vec::new();
            z.push('0');
            assert(z@ =~= seq!['0']);
            Ok(string_from(z.as_slice()))
        } else {
            let mut v: Vec<char> = Vec::new();
            v.push('0');
            v.push('.');
            v.extend_from_slice(t2.as_slice());
            assert(v@ =~= seq!['0', '.'] + t2@);
            Ok(string_from(v.as_slice()))
        }
    } else {
        let split = n.len() - d;
        let ip = slice_range(n.as_slice(), 0, split);
        let tail = slice_range(n.as_slice(), split, n.len());
        let dp = trim_end_char_exec(tail.as_slice(), '0');
        if dp.len() == 0 {
            Ok(string_from(ip.as_slice()))
        } else {
            let mut v = ip;
            v.push('.');
            v.extend_from_slice(dp.as_slice());
            assert(v@ =~= ip@ + seq!['.'] + dp@);
            Ok(string_from(v.as_slice()))
        }
    }
}

// ───────────────────────── laws ─────────────────────────

/// Trimming `c` from the front of a run of `c`s followed by `t` is the same
/// as trimming it from `t`.
proof fn lemma_trim_start_prefix(z: Seq<char>, t: Seq<char>, c: char)
    requires
        forall|i: int| 0 <= i < z.len() ==> z[i] == c,
    ensures
        trim_start_char(z + t, c) == trim_start_char(t, c),
    decreases z.len(),
{
    if z.len() > 0 {
        assert((z + t).drop_first() =~= z.drop_first() + t);
        lemma_trim_start_prefix(z.drop_first(), t, c);
    } else {
        assert(z + t =~= t);
    }
}

/// `canonical_digits` of a digit string is canonical.
proof fn lemma_canonical_is_canonical(x: Seq<char>)
    requires
        all_digits(x),
    ensures
        is_canonical(canonical_digits(x)),
{
    lemma_trim_start_char_is_suffix(x, '0');
    let t = trim_start_char(x, '0');
    if t.len() > 0 {
        assert forall|i: int| 0 <= i < t.len() implies is_digit(#[trigger] t[i]) by {
            assert(t[i] == x[x.len() - t.len() + i]);
        }
    }
}

/// Leading zeros in front of a canonical string are dropped by `canonical_digits`.
proof fn lemma_canonical_absorbs_zeros(z: Seq<char>, n: Seq<char>)
    requires
        is_canonical(n),
        forall|i: int| 0 <= i < z.len() ==> z[i] == '0',
    ensures
        canonical_digits(z + n) == n,
{
    lemma_trim_start_prefix(z, n, '0');
    if n[0] == '0' {
        assert(n =~= seq!['0']);
        assert(n.drop_first().len() == 0);
        assert(trim_start_char(n, '0') == trim_start_char(n.drop_first(), '0'));
    }
}

/// An all-digit string other than `"0"`-padded forms: converting it back has no fraction.
proof fn lemma_to_raw_of_digits(x: Seq<char>, d: nat)
    requires
        x.len() > 0,
        all_digits(x),
    ensures
        to_raw_spec(x, d) == Ok::<Seq<char>, Seq<char>>(canonical_digits(x + zeros(d))),
{
    assert(is_digit(x[0]) && is_digit(x.last()));
    lemma_trim_ws_noop(x);
    lemma_find_char(x, '.', x.len() as int);
    assert(x + Seq::<char>::empty() =~= x);
}

/// A number written `ip.dp` converts to its digits shifted by `d` places.
proof fn lemma_to_raw_of_fraction(ip: Seq<char>, dp: Seq<char>, d: nat)
    requires
        ip.len() > 0,
        all_digits(ip),
        dp.len() > 0,
        all_digits(dp),
        dp.len() <= d,
    ensures
        to_raw_spec(ip + seq!['.'] + dp, d) == Ok::<Seq<char>, Seq<char>>(
            canonical_digits(ip + dp + zeros((d - dp.len()) as nat)),
        ),
{
    let h = ip + seq!['.'] + dp;
    assert(h[0] == ip[0]);
    assert(h.last() == dp.last());
    assert(is_digit(ip[0]) && is_digit(dp.last()));
    lemma_trim_ws_noop(h);
    assert forall|j: int| 0 <= j < ip.len() implies h[j] != '.' by {
        assert(h[j] == ip[j]);
        assert(is_digit(ip[j]));
    }
    lemma_find_char(h, '.', ip.len() as int);
    assert(h.subrange(0, ip.len() as int) =~= ip);
    assert(h.subrange(ip.len() as int + 1, h.len() as int) =~= dp);
}

/// Trimming `c` from a run of `c`s leaves nothing.
proof fn lemma_trim_start_all(z: Seq<char>, c: char)
    requires
        forall|i: int| 0 <= i < z.len() ==> z[i] == c,
    ensures
        trim_start_char(z, c).len() == 0,
{
    lemma_trim_start_prefix(z, Seq::empty(), c);
    assert(z + Seq::<char>::empty() =~= z);
}

proof fn lemma_human_round_trip_integral(n: Seq<char>)
    requires
        is_canonical(n),
    ensures
        to_raw_spec(human_form(n, 0), 0) == Ok::<Seq<char>, Seq<char>>(n),
{
    lemma_to_raw_of_digits(n, 0);
    assert(n + zeros(0) =~= n);
    let empty = Seq::<char>::empty();
    lemma_canonical_absorbs_zeros(empty, n);
    assert(empty + n =~= n);
}

proof fn lemma_human_round_trip_small(n: Seq<char>, d: nat)
    requires
        is_canonical(n),
        d > 0,
        n.len() <= d,
    ensures
        to_raw_spec(human_form(n, d), d) == Ok::<Seq<char>, Seq<char>>(n),
{
    let w = zeros((d - n.len()) as nat) + n;
    let t = trim_end_char(w, '0');
    lemma_trim_end_char_is_prefix(w, '0');
    assert(w.len() == d);
    assert forall|i: int| 0 <= i < w.len() implies is_digit(#[trigger] w[i]) by {
        if i >= d - n.len() {
            assert(w[i] == n[i - (d - n.len())]);
        }
    }
    let o = seq!['0'];
    if t.len() == 0 {
        assert(w[d - n.len()] == n[0]);
        assert(n =~= seq!['0']);
        lemma_to_raw_of_digits(o, d);
        assert forall|i: int| 0 <= i < (o + zeros(d)).len() implies (o + zeros(d))[i]
            == '0' by {}
        lemma_trim_start_all(o + zeros(d), '0');
    } else {
        assert forall|i: int| 0 <= i < t.len() implies is_digit(#[trigger] t[i]) by {
            assert(t[i] == w[i]);
        }
        lemma_to_raw_of_fraction(o, t, d);
        assert(seq!['0', '.'] + t =~= o + seq!['.'] + t);
        let rest = zeros((d - t.len()) as nat);
        assert(t + rest =~= w);
        assert(o + t + rest =~= o + (t + rest));
        assert(o + w =~= zeros((d - n.len() + 1) as nat) + n);
        lemma_canonical_absorbs_zeros(zeros((d - n.len() + 1) as nat), n);
    }
}

proof fn lemma_large_no_fraction(n: Seq<char>, d: nat, ip: Seq<char>, tail: Seq<char>)
    requires
        is_canonical(n),
        d > 0,
        n.len() > d,
        ip == n.subrange(0, n.len() - d),
        tail == n.subrange(n.len() - d, n.len() as int),
        trim_end_char(tail, '0').len() == 0,
    ensures
        to_raw_spec(ip, d) == Ok::<Seq<char>, Seq<char>>(n),
{
    lemma_trim_end_char_is_prefix(tail, '0');
    assert(tail =~= zeros(d));
    assert(ip + tail =~= n);
    assert forall|i: int| 0 <= i < ip.len() implies is_digit(#[trigger] ip[i]) by {
        assert(ip[i] == n[i]);
    }
    lemma_to_raw_of_digits(ip, d);
    let empty = Seq::<char>::empty();
    lemma_canonical_absorbs_zeros(empty, n);
    assert(empty + n =~= n);
}

proof fn lemma_large_fraction(n: Seq<char>, d: nat, ip: Seq<char>, tail: Seq<char>, dp: Seq<char>)
    requires
        is_canonical(n),
        d > 0,
        n.len() > d,
        ip == n.subrange(0, n.len() - d),
        tail == n.subrange(n.len() - d, n.len() as int),
        dp == trim_end_char(tail, '0'),
        dp.len() > 0,
    ensures
        to_raw_spec(ip + seq!['.'] + dp, d) == Ok::<Seq<char>, Seq<char>>(n),
{
    lemma_trim_end_char_is_prefix(tail, '0');
    let split = n.len() - d;
    assert forall|i: int| 0 <= i < ip.len() implies is_digit(#[trigger] ip[i]) by {
        assert(ip[i] == n[i]);
    }
    assert forall|i: int| 0 <= i < dp.len() implies is_digit(#[trigger] dp[i]) by {
        assert(dp[i] == tail[i]);
        assert(tail[i] == n[split + i]);
    }
    lemma_to_raw_of_fraction(ip, dp, d);
    assert(dp + zeros((d - dp.len()) as nat) =~= tail);
    assert(ip + dp + zeros((d - dp.len()) as nat) =~= ip + (dp + zeros((d - dp.len()) as nat)));
    assert(ip + tail =~= n);
    let empty = Seq::<char>::empty();
    lemma_canonical_absorbs_zeros(empty, n);
    assert(empty + n =~= n);
}

proof fn lemma_human_round_trip_large(n: Seq<char>, d: nat)
    requires
        is_canonical(n),
        d > 0,
        n.len() > d,
    ensures
        to_raw_spec(human_form(n, d), d) == Ok::<Seq<char>, Seq<char>>(n),
{
    let ip = n.subrange(0, n.len() - d);
    let tail = n.subrange(n.len() - d, n.len() as int);
    let dp = trim_end_char(tail, '0');
    if dp.len() == 0 {
        lemma_large_no_fraction(n, d, ip, tail);
    } else {
        lemma_large_fraction(n, d, ip, tail, dp);
    }
}

/// The human-readable form of canonical raw units converts back to them.
pub proof fn lemma_human_round_trip(n: Seq<char>, d: nat)
    requires
        is_canonical(n),
    ensures
        to_raw_spec(human_form(n, d), d) == Ok::<Seq<char>, Seq<char>>(n),
{
    if d == 0 {
        lemma_human_round_trip_integral(n);
    } else if n.len() <= d {
        lemma_human_round_trip_small(n, d);
    } else {
        lemma_human_round_trip_large(n, d);
    }
}

/// Converting raw units to a human-readable amount and back gives the raw
/// units again, with surrounding whitespace/quotes and leading zeros dropped.
pub proof fn law_raw_amount_round_trip(raw: Seq<char>, decimals: nat)
    requires
        from_raw_spec(raw, decimals) is Ok,
    ensures
        to_raw_spec(from_raw_spec(raw, decimals)->Ok_0, decimals) == Ok::<Seq<char>, Seq<char>>(
            canonical_digits(trim_both_char(trim_ws(raw), '"')),
        ),
{
    let r = trim_both_char(trim_ws(raw), '"');
    lemma_canonical_is_canonical(r);
    lemma_human_round_trip(canonical_digits(r), decimals);
}

/// Raw amounts produced by `to_raw_amount` are canonical digit strings, and
/// they survive a trip through the human-readable form unchanged.
pub proof fn law_amount_round_trip(amount: Seq<char>, decimals: nat)
    requires
        to_raw_spec(amount, decimals) is Ok,
    ensures
        is_canonical(to_raw_spec(amount, decimals)->Ok_0),
        from_raw_spec(to_raw_spec(amount, decimals)->Ok_0, decimals) is Ok,
        to_raw_spec(
            from_raw_spec(to_raw_spec(amount, decimals)->Ok_0, decimals)->Ok_0,
            decimals,
        ) == to_raw_spec(amount, decimals),
{
    let a = trim_ws(amount);
    let r = to_raw_spec(amount, decimals)->Ok_0;
    // r is canonical_digits of a digit string
    let x = match find_char(a, '.') {
        Some(p) => {
            let int_s = a.subrange(0, p);
            let dec_s = a.subrange(p + 1, a.len() as int);
            (if int_s.len() == 0 { seq!['0'] } else { int_s }) + dec_s + zeros(
                (decimals - dec_s.len()) as nat,
            )
        },
        None => a + Seq::<char>::empty() + zeros((decimals - 0) as nat),
    };
    assert(r == canonical_digits(x));
    assert forall|i: int| 0 <= i < x.len() implies is_digit(#[trigger] x[i]) by {
        match find_char(a, '.') {
            Some(p) => {
                let int_s = a.subrange(0, p);
                let dec_s = a.subrange(p + 1, a.len() as int);
                let ip = if int_s.len() == 0 { seq!['0'] } else { int_s };
                if i < ip.len() {
                    assert(x[i] == ip[i]);
                } else if i < ip.len() + dec_s.len() {
                    assert(x[i] == dec_s[i - ip.len()]);
                } else {
                    assert(x[i] == '0');
                }
            },
            None => {
                if i < a.len() {
                    assert(x[i] == a[i]);
                } else {
                    assert(x[i] == '0');
                }
            },
        }
    }
    lemma_canonical_is_canonical(x);
    assert(!is_ws(r[0]) && !is_ws(r.last()));
    lemma_trim_ws_noop(r);
    assert(r[0] != '"' && r.last() != '"');
    crate::text::lemma_trim_both_char_noop(r, '"');
    law_raw_amount_round_trip(r, decimals);
    let e = Seq::<char>::empty();
    lemma_canonical_absorbs_zeros(e, r);
    assert(e + r =~= r);
}

/// 10 to the power `n`.
pub open spec fn pow10(n: nat) -> nat
    decreases n,
{
    if n == 0 {
        1
    } else {
        10 * pow10((n - 1) as nat)
    }
}

/// The integer and fraction digits of an amount after trimming: split at
/// the first `.`, with no fraction when there is none.
pub open spec fn amount_parts(amount: Seq<char>) -> (Seq<char>, Seq<char>) {
    let a = trim_ws(amount);
    match find_char(a, '.') {
        Some(p) => (a.subrange(0, p), a.subrange(p + 1, a.len() as int)),
        None => (a, Seq::empty()),
    }
}

/// The number that integer digits `i` and fraction digits `f` denote,
/// counted in units of 10^-`decimals`.
pub open spec fn scaled_value(i: Seq<char>, f: Seq<char>, decimals: nat) -> nat {
    digits_value(i) * pow10(decimals) + digits_value(f) * pow10((decimals - f.len()) as nat)
}

proof fn lemma_pow10_add(m: nat, n: nat)
    ensures
        pow10(m + n) == pow10(m) * pow10(n),
    decreases m,
{
    if m > 0 {
        lemma_pow10_add((m - 1) as nat, n);
        assert(pow10(m + n) == 10 * pow10((m - 1 + n) as nat));
        assert(pow10(m) == 10 * pow10((m - 1) as nat));
        let a = pow10((m - 1) as nat);
        let b = pow10(n);
        assert(pow10((m - 1 + n) as nat) == a * b);
        assert(10 * (a * b) == (10 * a) * b) by (nonlinear_arith);
        assert(pow10(m + n) == pow10(m) * pow10(n));
    } else {
        assert(pow10(0) == 1);
        assert(m + n == n);
        assert(1 * pow10(n) == pow10(n));
    }
}

proof fn lemma_pow10_positive(n: nat)
    ensures
        pow10(n) >= 1,
    decreases n,
{
    if n > 0 {
        lemma_pow10_positive((n - 1) as nat);
    }
}

/// Appending digits shifts the value left by their count.
proof fn lemma_digits_value_concat(a: Seq<char>, b: Seq<char>)
    ensures
        digits_value(a + b) == digits_value(a) * pow10(b.len()) + digits_value(b),
    decreases b.len(),
{
    if b.len() == 0 {
        assert(a + b =~= a);
        assert(pow10(0) == 1);
        assert(digits_value(b) == 0);
        assert(digits_value(a) * 1 == digits_value(a));
    } else {
        let b1 = b.drop_last();
        assert((a + b).drop_last() =~= a + b1);
        assert((a + b).last() == b.last());
        lemma_digits_value_concat(a, b1);
        let x = digits_value(a);
        let p = pow10(b1.len());
        let y = digits_value(b1);
        let z = digit_value(b.last());
        assert(digits_value(a + b) == digits_value(a + b1) * 10 + z);
        assert(digits_value(b) == y * 10 + z);
        assert(pow10(b.len()) == 10 * p);
        assert((x * p + y) * 10 + z == x * (10 * p) + (y * 10 + z)) by (nonlinear_arith);
    }
}

/// A digit string is worth less than 10 to the power of its length.
proof fn lemma_digits_value_bound(s: Seq<char>)
    requires
        all_digits(s),
    ensures
        digits_value(s) < pow10(s.len()),
    decreases s.len(),
{
    if s.len() > 0 {
        let s1 = s.drop_last();
        assert(all_digits(s1)) by {
            assert forall|i: int| 0 <= i < s1.len() implies is_digit(#[trigger] s1[i]) by {
                assert(s1[i] == s[i]);
            }
        }
        lemma_digits_value_bound(s1);
        assert(is_digit(s[s.len() - 1]));
        let y = digits_value(s1);
        let p = pow10(s1.len());
        let z = digit_value(s.last());
        assert(y * 10 + z < 10 * p) by (nonlinear_arith)
            requires
                y < p,
                z < 10,
        ;
    }
}

proof fn lemma_digits_value_zeros(n: nat)
    ensures
        digits_value(zeros(n)) == 0,
    decreases n,
{
    if n > 0 {
        assert(zeros(n).drop_last() =~= zeros((n - 1) as nat));
        lemma_digits_value_zeros((n - 1) as nat);
    }
}

/// Dropping leading zeros keeps the value.
proof fn lemma_canonical_value(s: Seq<char>)
    ensures
        digits_value(canonical_digits(s)) == digits_value(s),
{
    lemma_trim_start_char_is_suffix(s, '0');
    let t = trim_start_char(s, '0');
    let k = (s.len() - t.len()) as nat;
    assert(s =~= zeros(k) + t);
    lemma_digits_value_concat(zeros(k), t);
    lemma_digits_value_zeros(k);
    if t.len() == 0 {
        lemma_digits_value_zero_digit();
    }
}

proof fn lemma_digits_value_zero_digit()
    ensures
        digits_value(seq!['0']) == 0,
{
    let z = seq!['0'];
    assert(digits_value(Seq::<char>::empty()) == 0);
    assert(z.drop_last() =~= Seq::<char>::empty());
    assert(z.last() == '0');
    assert(digit_value('0') == 0);
}

/// The raw units that `to_raw_amount` gives are the amount counted in units
/// of 10^-decimals: integer digits I and fraction digits F (at most
/// `decimals` of them) give I·10^decimals + F·10^(decimals − |F|).
pub proof fn law_to_raw_value(amount: Seq<char>, decimals: nat)
    requires
        to_raw_spec(amount, decimals) is Ok,
    ensures
        all_digits(amount_parts(amount).0),
        all_digits(amount_parts(amount).1),
        amount_parts(amount).1.len() <= decimals,
        digits_value(to_raw_spec(amount, decimals)->Ok_0) == scaled_value(
            amount_parts(amount).0,
            amount_parts(amount).1,
            decimals,
        ),
{
    let a = trim_ws(amount);
    let ip = amount_parts(amount).0;
    let fp = amount_parts(amount).1;
    let k = (decimals - fp.len()) as nat;
    let ip2 = match find_char(a, '.') {
        Some(p) => if ip.len() == 0 { seq!['0'] } else { ip },
        None => a,
    };
    let x = ip2 + fp + zeros(k);
    match find_char(a, '.') {
        Some(p) => {
            assert(to_raw_spec(amount, decimals)->Ok_0 == canonical_digits(x));
        },
        None => {
            assert(x =~= a + Seq::<char>::empty() + zeros((decimals - 0) as nat));
        },
    }
    lemma_canonical_value(x);
    lemma_digits_value_concat(ip2 + fp, zeros(k));
    lemma_digits_value_zeros(k);
    lemma_digits_value_concat(ip2, fp);
    lemma_pow10_add(fp.len(), k);
    assert(fp.len() + k == decimals);
    if ip2 != ip {
        lemma_digits_value_zero_digit();
    }
    let xv = digits_value(ip2);
    let yv = digits_value(fp);
    let p1 = pow10(fp.len());
    let p2 = pow10(k);
    assert((xv * p1 + yv) * p2 == xv * (p1 * p2) + yv * p2) by (nonlinear_arith);
}

/// The human form that `from_raw_amount` gives denotes the raw units n
/// divided by 10^decimals: read as integer digits I and fraction digits F,
/// I is n / 10^decimals and F·10^(decimals − |F|) is n % 10^decimals.
pub proof fn law_from_raw_value(raw: Seq<char>, decimals: nat)
    requires
        from_raw_spec(raw, decimals) is Ok,
    ensures
        ({
            let n = digits_value(trim_both_char(trim_ws(raw), '"'));
            let parts = amount_parts(from_raw_spec(raw, decimals)->Ok_0);
            &&& parts.1.len() <= decimals
            &&& scaled_value(parts.0, parts.1, decimals) == n
            &&& digits_value(parts.0) == n / pow10(decimals)
            &&& digits_value(parts.1) * pow10((decimals - parts.1.len()) as nat) == n % pow10(decimals)
        }),
{
    let r = trim_both_char(trim_ws(raw), '"');
    let h = from_raw_spec(raw, decimals)->Ok_0;
    law_raw_amount_round_trip(raw, decimals);
    law_to_raw_value(h, decimals);
    lemma_canonical_value(r);
    let parts = amount_parts(h);
    let k = (decimals - parts.1.len()) as nat;
    lemma_digits_value_bound(parts.1);
    lemma_pow10_add(parts.1.len(), k);
    lemma_pow10_positive(k);
    let y = digits_value(parts.1);
    let pf = pow10(parts.1.len());
    let pk = pow10(k);
    assert(y * pk < pf * pk) by (nonlinear_arith)
        requires
            y < pf,
            pk >= 1,
    ;
    assert(parts.1.len() + k == decimals);
    vstd::arithmetic::div_mod::lemma_fundamental_div_mod_converse(
        digits_value(r) as int,
        pow10(decimals) as int,
        digits_value(parts.0) as int,
        (y * pk) as int,
    );
}

/// A number written with the integer digits `i` and, when `f` is not
/// empty, a `.` and the fraction digits `f`.
pub open spec fn written(i: Seq<char>, f: Seq<char>) -> Seq<char> {
    if f.len() == 0 {
        i
    } else {
        i + seq!['.'] + f
    }
}

/// The canonical form of an amount: its integer digits without leading
/// zeros (`0` when none are left), then its fraction digits without
/// trailing zeros, with no `.` when none are left.
pub open spec fn canonical_amount(amount: Seq<char>) -> Seq<char> {
    written(canonical_digits(amount_parts(amount).0), trim_end_char(amount_parts(amount).1, '0'))
}

/// Integer and fraction digits in canonical shape for `d` places.
pub open spec fn canonical_parts(i: Seq<char>, f: Seq<char>, d: nat) -> bool {
    &&& is_canonical(i)
    &&& all_digits(f)
    &&& f.len() <= d
    &&& f.len() > 0 ==> f.last() != '0'
}

/// The raw units of the number with digits `i` and fraction `f` at `d` places.
pub open spec fn shifted(i: Seq<char>, f: Seq<char>, d: nat) -> Seq<char> {
    canonical_digits(i + f + zeros((d - f.len()) as nat))
}

proof fn lemma_to_raw_of_written(i: Seq<char>, f: Seq<char>, d: nat)
    requires
        canonical_parts(i, f, d),
    ensures
        to_raw_spec(written(i, f), d) == Ok::<Seq<char>, Seq<char>>(shifted(i, f, d)),
{
    if f.len() == 0 {
        lemma_to_raw_of_digits(i, d);
        assert(i + f =~= i);
    } else {
        lemma_to_raw_of_fraction(i, f, d);
    }
}

/// The human form of canonical raw units is a number in canonical shape.
proof fn lemma_human_form_parts(n: Seq<char>, d: nat) -> (r: (Seq<char>, Seq<char>))
    requires
        is_canonical(n),
    ensures
        canonical_parts(r.0, r.1, d),
        human_form(n, d) == written(r.0, r.1),
{
    let o = seq!['0'];
    if d == 0 {
        (n, Seq::empty())
    } else if n.len() <= d {
        let w = zeros((d - n.len()) as nat) + n;
        let t = trim_end_char(w, '0');
        lemma_trim_end_char_is_prefix(w, '0');
        if t.len() == 0 {
            (o, Seq::empty())
        } else {
            assert forall|k: int| 0 <= k < t.len() implies is_digit(#[trigger] t[k]) by {
                assert(t[k] == w[k]);
                if k >= d - n.len() {
                    assert(w[k] == n[k - (d - n.len())]);
                }
            }
            assert(seq!['0', '.'] + t =~= o + seq!['.'] + t);
            (o, t)
        }
    } else {
        let ip = n.subrange(0, n.len() - d);
        let tail = n.subrange(n.len() - d, n.len() as int);
        let dp = trim_end_char(tail, '0');
        lemma_trim_end_char_is_prefix(tail, '0');
        assert(ip[0] == n[0]);
        if n[0] == '0' {
            assert(n.len() == 1);
        }
        assert forall|k: int| 0 <= k < ip.len() implies is_digit(#[trigger] ip[k]) by {
            assert(ip[k] == n[k]);
        }
        assert forall|k: int| 0 <= k < dp.len() implies is_digit(#[trigger] dp[k]) by {
            assert(dp[k] == tail[k]);
            assert(tail[k] == n[n.len() - d + k]);
        }
        (ip, dp)
    }
}

/// Leading zeros are dropped the same way before and after canonicalising
/// the leading digits.
proof fn lemma_canonical_of_prefix(x: Seq<char>, p: Seq<char>)
    ensures
        canonical_digits(x + p) == canonical_digits(canonical_digits(x) + p),
{
    lemma_trim_start_char_is_suffix(x, '0');
    let t = trim_start_char(x, '0');
    let j = (x.len() - t.len()) as nat;
    assert(x =~= zeros(j) + t);
    assert(x + p =~= zeros(j) + (t + p));
    lemma_trim_start_prefix(zeros(j), t + p, '0');
    if t.len() == 0 {
        assert(t + p =~= p);
        lemma_trim_start_prefix(seq!['0'], p, '0');
    } else {
        assert((t + p)[0] == t[0]);
        assert(trim_start_char(t + p, '0') == t + p);
    }
}

/// Trailing zeros after a fraction that does not end in zero trim back to it.
proof fn lemma_trim_end_padded(f: Seq<char>, m: nat)
    requires
        f.len() > 0 ==> f.last() != '0',
    ensures
        trim_end_char(f + zeros(m), '0') == f,
{
    let s = f + zeros(m);
    let t = trim_end_char(s, '0');
    lemma_trim_end_char_is_prefix(s, '0');
    if t.len() > f.len() {
        assert(t.last() == s[t.len() - 1]);
    } else if t.len() < f.len() {
        assert(s[f.len() - 1] == f.last());
    }
    assert(t =~= f);
}

/// What canonical digits of a string of `d` digits tell about it.
proof fn lemma_canonical_of_padded(p: Seq<char>)
    requires
        all_digits(p),
    ensures
        p == zeros((p.len() - trim_start_char(p, '0').len()) as nat) + trim_start_char(p, '0'),
        trim_start_char(p, '0').len() == 0 ==> canonical_digits(p) == seq!['0'],
        trim_start_char(p, '0').len() > 0 ==> canonical_digits(p) == trim_start_char(p, '0') && canonical_digits(
            p,
        )[0] != '0',
{
    lemma_trim_start_char_is_suffix(p, '0');
    let t = trim_start_char(p, '0');
    assert(p =~= zeros((p.len() - t.len()) as nat) + t);
}

/// A number in canonical shape is the only one with its raw units.
proof fn lemma_shifted_injective(i1: Seq<char>, f1: Seq<char>, i2: Seq<char>, f2: Seq<char>, d: nat)
    requires
        canonical_parts(i1, f1, d),
        canonical_parts(i2, f2, d),
        shifted(i1, f1, d) == shifted(i2, f2, d),
    ensures
        i1 == i2,
        f1 == f2,
{
    let p1 = f1 + zeros((d - f1.len()) as nat);
    let p2 = f2 + zeros((d - f2.len()) as nat);
    assert(i1 + f1 + zeros((d - f1.len()) as nat) =~= i1 + p1);
    assert(i2 + f2 + zeros((d - f2.len()) as nat) =~= i2 + p2);
    assert(all_digits(p1)) by {
        assert forall|k: int| 0 <= k < p1.len() implies is_digit(#[trigger] p1[k]) by {
            if k < f1.len() {
                assert(p1[k] == f1[k]);
            }
        }
    }
    assert(all_digits(p2)) by {
        assert forall|k: int| 0 <= k < p2.len() implies is_digit(#[trigger] p2[k]) by {
            if k < f2.len() {
                assert(p2[k] == f2[k]);
            }
        }
    }
    let r = shifted(i1, f1, d);
    let o = seq!['0'];
    lemma_canonical_of_padded(p1);
    lemma_canonical_of_padded(p2);
    // A leading digit other than zero stays; a leading zero goes.
    if i1 != o {
        assert(i1[0] != '0');
        assert((i1 + p1)[0] == i1[0]);
        assert(trim_start_char(i1 + p1, '0') == i1 + p1);
    } else {
        lemma_trim_start_prefix(o, p1, '0');
    }
    if i2 != o {
        assert(i2[0] != '0');
        assert((i2 + p2)[0] == i2[0]);
        assert(trim_start_char(i2 + p2, '0') == i2 + p2);
    } else {
        lemma_trim_start_prefix(o, p2, '0');
    }
    if i1 != o && i2 != o {
        assert(i1 + p1 == i2 + p2);
        assert(i1 =~= (i1 + p1).subrange(0, i1.len() as int));
        assert(i2 =~= (i2 + p2).subrange(0, i2.len() as int));
        assert(p1 =~= (i1 + p1).subrange(i1.len() as int, (i1 + p1).len() as int));
        assert(p2 =~= (i2 + p2).subrange(i2.len() as int, (i2 + p2).len() as int));
    } else if i1 == o && i2 == o {
        let t1 = trim_start_char(p1, '0');
        let t2 = trim_start_char(p2, '0');
        if t1.len() > 0 && t2.len() > 0 {
            assert(p1 =~= p2);
        } else if t1.len() == 0 && t2.len() == 0 {
            assert(p1 =~= p2);
        }
    } else if i1 != o {
        let t2 = trim_start_char(p2, '0');
        assert(r.len() > d);
        assert(r[0] != '0');
    } else {
        let t1 = trim_start_char(p1, '0');
        assert(r.len() > d);
        assert(r[0] != '0');
    }
    lemma_trim_end_padded(f1, (d - f1.len()) as nat);
    lemma_trim_end_padded(f2, (d - f2.len()) as nat);
}

/// Converting an amount to raw units and back gives its canonical form:
/// the integer digits without leading zeros, the fraction without trailing
/// zeros (with 6 decimals, "01.50" gives "1500000" and then "1.5").
#[verifier::rlimit(30)]
pub proof fn law_amount_canonical_round_trip(amount: Seq<char>, decimals: nat)
    requires
        to_raw_spec(amount, decimals) is Ok,
    ensures
        from_raw_spec(to_raw_spec(amount, decimals)->Ok_0, decimals) == Ok::<Seq<char>, Seq<char>>(
            canonical_amount(amount),
        ),
{
    let d = decimals;
    let r = to_raw_spec(amount, d)->Ok_0;
    law_amount_round_trip(amount, d);
    assert(!is_ws(r[0]) && !is_ws(r.last()));
    lemma_trim_ws_noop(r);
    assert(r[0] != '"' && r.last() != '"');
    crate::text::lemma_trim_both_char_noop(r, '"');
    let e = Seq::<char>::empty();
    lemma_canonical_absorbs_zeros(e, r);
    assert(e + r =~= r);
    assert(from_raw_spec(r, d) == Ok::<Seq<char>, Seq<char>>(human_form(r, d)));
    let (i1, f1) = lemma_human_form_parts(r, d);
    lemma_human_round_trip(r, d);
    lemma_to_raw_of_written(i1, f1, d);
    // The amount's own parts, canonicalised.
    law_to_raw_value(amount, d);
    let a = trim_ws(amount);
    let ip = amount_parts(amount).0;
    let fp = amount_parts(amount).1;
    let i2 = canonical_digits(ip);
    let f2 = trim_end_char(fp, '0');
    lemma_canonical_is_canonical(ip);
    lemma_trim_end_char_is_prefix(fp, '0');
    assert forall|k: int| 0 <= k < f2.len() implies is_digit(#[trigger] f2[k]) by {
        assert(f2[k] == fp[k]);
    }
    let k = (d - fp.len()) as nat;
    let ip2 = match find_char(a, '.') {
        Some(p) => if ip.len() == 0 { seq!['0'] } else { ip },
        None => a,
    };
    match find_char(a, '.') {
        Some(p) => {
            assert(r == canonical_digits(ip2 + fp + zeros(k)));
        },
        None => {
            assert(ip2 + fp + zeros(k) =~= a + Seq::<char>::empty() + zeros((d - 0) as nat));
        },
    }
    assert(fp =~= f2 + zeros((fp.len() - f2.len()) as nat));
    let pad = fp + zeros(k);
    assert(pad =~= f2 + zeros((d - f2.len()) as nat));
    assert(ip2 + fp + zeros(k) =~= ip2 + pad);
    assert(i2 + f2 + zeros((d - f2.len()) as nat) =~= i2 + pad);
    lemma_canonical_of_prefix(ip2, pad);
    if ip.len() == 0 {
        assert(trim_start_char(ip, '0').len() == 0);
        assert(trim_start_char(seq!['0'], '0') == trim_start_char(seq!['0'].drop_first(), '0'));
        assert(seq!['0'].drop_first().len() == 0);
    }
    assert(canonical_digits(ip2) == i2);
    assert(shifted(i2, f2, d) == r);
    lemma_shifted_injective(i1, f1, i2, f2, d);
}

} // verus!
