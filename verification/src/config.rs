//! Start-up configuration from command-line flags.
//!
//! Flags come as `--name value` pairs; a repeated flag takes its last value,
//! but every earlier value must still parse. Nothing given is silently
//! dropped: a boolean that is neither `true` nor `false`, a flag this command
//! does not read, and a flag the chosen lane would not apply are refused at
//! start-up.
use vstd::prelude::*;

use crate::session::{LegacyRenewal, SessionOptions};
use crate::text::{contains_text, copy_string, occurs_at, push_str, refuse, starts_with, str_eq};

verus! {

/// The flag values given under `key` among the first `n` pairs, in order.
pub open spec fn values_of(args: Seq<String>, key: Seq<char>, n: int) -> Seq<Seq<char>>
    decreases n,
{
    if n <= 0 {
        Seq::empty()
    } else {
        let prev = values_of(args, key, n - 1);
        if args[2 * (n - 1)]@ == key {
            prev.push(args[2 * (n - 1) + 1]@)
        } else {
            prev
        }
    }
}

/// Every value given under `key`, in order.
pub open spec fn all_values(args: Seq<String>, key: Seq<char>) -> Seq<Seq<char>> {
    values_of(args, key, (args.len() / 2) as int)
}

/// The flag was given.
pub open spec fn present(args: Seq<String>, key: Seq<char>) -> bool {
    all_values(args, key).len() > 0
}

/// The value a flag takes: the last one given.
pub open spec fn text_of(args: Seq<String>, key: Seq<char>) -> Option<Seq<char>> {
    let v = all_values(args, key);
    if v.len() == 0 {
        None
    } else {
        Some(v.last())
    }
}

/// The arguments are `--name value` pairs.
pub open spec fn pairs_ok(args: Seq<String>) -> bool {
    &&& args.len() % 2 == 0
    &&& forall|i: int| 0 <= i < args.len() && i % 2 == 0 ==> starts_with((#[trigger] args[i])@, "--"@)
}

pub open spec fn is_digit(c: char) -> bool {
    '0' <= c && c <= '9'
}

/// The number a run of decimal digits spells.
pub open spec fn digits_value(s: Seq<char>) -> nat
    decreases s.len(),
{
    if s.len() == 0 {
        0
    } else {
        digits_value(s.drop_last()) * 10 + ((s.last() as nat) - ('0' as nat)) as nat
    }
}

pub open spec fn all_digits(s: Seq<char>) -> bool {
    forall|i: int| 0 <= i < s.len() ==> is_digit(#[trigger] s[i])
}

/// An unsigned decimal as Rust's integer parsing reads it: an optional `+`,
/// at least one digit, nothing else, and at most `max`.
pub open spec fn parse_unsigned(s: Seq<char>, max: nat) -> Option<nat> {
    let d = if s.len() > 0 && s[0] == '+' {
        s.drop_first()
    } else {
        s
    };
    if d.len() > 0 && all_digits(d) && digits_value(d) <= max {
        Some(digits_value(d))
    } else {
        None
    }
}

/// A signed 32-bit decimal: an optional sign, at least one digit, and in
/// range.
pub open spec fn parse_i32(s: Seq<char>) -> Option<int> {
    if s.len() > 0 && s[0] == '-' {
        let d = s.drop_first();
        if d.len() > 0 && all_digits(d) && digits_value(d) <= 0x8000_0000 {
            Some(-(digits_value(d) as int))
        } else {
            None
        }
    } else {
        match parse_unsigned(s, 0x7fff_ffff) {
            Some(v) => Some(v as int),
            None => None,
        }
    }
}

fn digits_from(s: &str, start: usize, max: u64) -> (r: Option<u64>)
    requires
        start <= s@.len(),
    ensures
        ({
            let d = s@.skip(start as int);
            match r {
                Some(v) => d.len() > 0 && all_digits(d) && digits_value(d) <= max && v == digits_value(d),
                None => !(d.len() > 0 && all_digits(d) && digits_value(d) <= max),
            }
        }),
{
    let n = s.unicode_len();
    if start >= n {
        return None;
    }
    let ghost d = s@.skip(start as int);
    let mut acc: u64 = 0;
    let mut i: usize = start;
    while i < n
        invariant
            n == s@.len(),
            start < n,
            start <= i <= n,
            d == s@.skip(start as int),
            all_digits(d.take(i - start)),
            acc == digits_value(d.take(i - start)),
            acc <= max,
        decreases n - i,
    {
        let c = s.get_char(i);
        proof {
            assert(d[i - start] == c);
            assert(d.take(i - start + 1).drop_last() =~= d.take(i - start));
            assert(d.take(i - start + 1).last() == c);
        }
        if !('0' <= c && c <= '9') {
            proof {
                assert(!is_digit(d[i - start]));
            }
            return None;
        }
        let digit = (c as u32 - '0' as u32) as u64;
        if digit > max || acc > (max - digit) / 10 {
            proof {
                assert(acc * 10 + digit > max) by (nonlinear_arith)
                    requires
                        digit > max || acc > (max - digit) / 10,
                        digit <= 9,
                ;
                lemma_digits_prefix_grows(d, i - start + 1);
            }
            return None;
        }
        proof {
            assert(acc * 10 + digit <= max) by (nonlinear_arith)
                requires
                    acc <= (max - digit) / 10,
                    digit <= max,
            ;
        }
        acc = acc * 10 + digit;
        i = i + 1;
        proof {
            assert(all_digits(d.take(i - start)));
        }
    }
    proof {
        assert(d.take(n - start) =~= d);
    }
    Some(acc)
}

/// Once the digits read so far exceed a bound, every longer run of digits
/// does too.
proof fn lemma_digits_prefix_grows(d: Seq<char>, k: int)
    requires
        0 < k <= d.len(),
    ensures
        all_digits(d) ==> digits_value(d) >= digits_value(d.take(k)),
    decreases d.len() - k,
{
    if k < d.len() {
        lemma_digits_prefix_grows(d, k + 1);
        assert(d.take(k + 1).drop_last() =~= d.take(k));
    } else {
        assert(d.take(k) =~= d);
    }
}

/// Reads an unsigned decimal (see `parse_unsigned`).
pub fn parse_u64_text(s: &str, max: u64) -> (r: Option<u64>)
    ensures
        match parse_unsigned(s@, max as nat) {
            Some(v) => r == Some(v as u64),
            None => r is None,
        },
{
    let n = s.unicode_len();
    if n > 0 && s.get_char(0) == '+' {
        proof {
            assert(s@.skip(1) =~= s@.drop_first());
        }
        digits_from(s, 1, max)
    } else {
        proof {
            assert(s@.skip(0) =~= s@);
        }
        digits_from(s, 0, max)
    }
}

/// Reads a signed 32-bit decimal (see `parse_i32`).
pub fn parse_i32_text(s: &str) -> (r: Option<i32>)
    ensures
        match parse_i32(s@) {
            Some(v) => r == Some(v as i32),
            None => r is None,
        },
{
    let n = s.unicode_len();
    if n > 0 && s.get_char(0) == '-' {
        proof {
            assert(s@.skip(1) =~= s@.drop_first());
        }
        match digits_from(s, 1, 0x8000_0000) {
            None => None,
            Some(v) => Some((0 - (v as i64)) as i32),
        }
    } else {
        match parse_u64_text(s, 0x7fff_ffff) {
            None => None,
            Some(v) => Some(v as i32),
        }
    }
}

/// The value of a hexadecimal digit of either case.
pub open spec fn hex_digit(c: char) -> Option<u8> {
    if '0' <= c && c <= '9' {
        Some(((c as u32) - 48) as u8)
    } else if 'a' <= c && c <= 'f' {
        Some(((c as u32) - 87) as u8)
    } else if 'A' <= c && c <= 'F' {
        Some(((c as u32) - 55) as u8)
    } else {
        None
    }
}

/// The bytes an even run of hexadecimal digits spells, two digits a byte.
pub open spec fn hex_decode(s: Seq<char>) -> Option<Seq<u8>>
    decreases s.len(),
{
    if s.len() == 0 {
        Some(Seq::empty())
    } else if s.len() == 1 {
        None
    } else {
        let n = s.len() as int;
        match (hex_decode(s.take(n - 2)), hex_digit(s[n - 2]), hex_digit(s[n - 1])) {
            (Some(b), Some(hi), Some(lo)) => Some(b.push((hi * 16 + lo) as u8)),
            _ => None,
        }
    }
}

/// The lowercase hexadecimal digit of a value below 16.
pub open spec fn hex_char(d: nat) -> char {
    if d < 10 {
        (48 + d) as char
    } else {
        (87 + d) as char
    }
}

/// The lowercase hexadecimal text of bytes, two digits a byte.
pub open spec fn hex_encode(b: Seq<u8>) -> Seq<char>
    decreases b.len(),
{
    if b.len() == 0 {
        Seq::empty()
    } else {
        hex_encode(b.drop_last()).push(hex_char((b.last() / 16) as nat)).push(hex_char((b.last() % 16) as nat))
    }
}

/// Writes bytes as lowercase hexadecimal text (see `hex_encode`).
pub fn encode_hex(bytes: &[u8]) -> (r: String)
    ensures
        r@ == hex_encode(bytes@),
{
    let mut r = String::new();
    let mut i: usize = 0;
    while i < bytes.len()
        invariant
            i <= bytes@.len(),
            r@ == hex_encode(bytes@.take(i as int)),
        decreases bytes@.len() - i,
    {
        let b = bytes[i];
        let hi = b / 16;
        let lo = b % 16;
        let hc = if hi < 10 { (48u8 + hi) as char } else { (87u8 + hi) as char };
        let lc = if lo < 10 { (48u8 + lo) as char } else { (87u8 + lo) as char };
        crate::text::push_char(&mut r, hc);
        crate::text::push_char(&mut r, lc);
        proof {
            assert(bytes@.take(i + 1).drop_last() =~= bytes@.take(i as int));
            assert(bytes@.take(i + 1).last() == b);
        }
        i = i + 1;
    }
    proof {
        assert(bytes@.take(bytes@.len() as int) =~= bytes@);
    }
    r
}

/// Hexadecimal text decodes back to the bytes it was written from.
pub proof fn law_hex_round_trips(b: Seq<u8>)
    ensures
        hex_decode(hex_encode(b)) == Some(b),
        hex_encode(b).len() == 2 * b.len(),
    decreases b.len(),
{
    if b.len() > 0 {
        let p = b.drop_last();
        law_hex_round_trips(p);
        let e = hex_encode(b);
        let n = e.len() as int;
        let x = b.last();
        assert(e.take(n - 2) =~= hex_encode(p));
        assert(hex_digit(hex_char((x / 16) as nat)) == Some((x / 16) as u8));
        assert(hex_digit(hex_char((x % 16) as nat)) == Some((x % 16) as u8));
        assert((x / 16) * 16 + x % 16 == x);
        assert(p.push(x) =~= b);
    }
}

fn hex_digit_of(c: char) -> (r: Option<u8>)
    ensures
        r == hex_digit(c),
{
    if '0' <= c && c <= '9' {
        Some((c as u32 - 48) as u8)
    } else if 'a' <= c && c <= 'f' {
        Some((c as u32 - 87) as u8)
    } else if 'A' <= c && c <= 'F' {
        Some((c as u32 - 55) as u8)
    } else {
        None
    }
}

proof fn lemma_hex_fails_later(s: Seq<char>, k: int)
    requires
        0 <= k <= s.len(),
        k % 2 == 0,
        hex_decode(s.take(k)) is None,
    ensures
        hex_decode(s) is None,
    decreases s.len() - k,
{
    if k == s.len() {
        assert(s.take(k) =~= s);
    } else if k + 1 == s.len() {
        assert(s.len() % 2 == 1);
        lemma_odd_fails(s);
    } else {
        let t = s.take(k + 2);
        assert(t.take(k) =~= s.take(k));
        assert(hex_decode(t) is None);
        lemma_hex_fails_later(s, k + 2);
    }
}

proof fn lemma_odd_fails(s: Seq<char>)
    requires
        s.len() % 2 == 1,
    ensures
        hex_decode(s) is None,
    decreases s.len(),
{
    if s.len() > 1 {
        lemma_odd_fails(s.take(s.len() - 2));
    }
}

/// Decodes a hexadecimal text (see `hex_decode`).
pub fn decode_hex(s: &str) -> (r: Option<Vec<u8>>)
    ensures
        match hex_decode(s@) {
            Some(b) => r matches Some(v) && v@ == b,
            None => r is None,
        },
{
    let n = s.unicode_len();
    if n % 2 == 1 {
        proof {
            lemma_odd_fails(s@);
        }
        return None;
    }
    let mut out: Vec<u8> = Vec::new();
    let mut i: usize = 0;
    assert(s@.take(0) =~= Seq::<char>::empty());
    while i < n
        invariant
            n == s@.len(),
            n % 2 == 0,
            i <= n,
            i % 2 == 0,
            hex_decode(s@.take(i as int)) == Some(out@),
        decreases n - i,
    {
        let hi = hex_digit_of(s.get_char(i));
        let lo = hex_digit_of(s.get_char(i + 1));
        let ghost t = s@.take(i + 2);
        proof {
            assert(t.take(i as int) =~= s@.take(i as int));
            assert(t[i as int] == s@[i as int]);
            assert(t[i + 1] == s@[i + 1]);
        }
        match (hi, lo) {
            (Some(h), Some(l)) => {
                out.push(h * 16 + l);
            },
            _ => {
                proof {
                    assert(hex_decode(t) is None);
                    lemma_hex_fails_later(s@, i + 2);
                }
                return None;
            },
        }
        i = i + 2;
    }
    proof {
        assert(s@.take(n as int) =~= s@);
    }
    Some(out)
}

/// A 32-byte key or seed written as 64 hexadecimal digits.
pub open spec fn key_bytes_of(s: Seq<char>) -> Option<Seq<u8>> {
    match hex_decode(s) {
        Some(b) => if b.len() == 32 {
            Some(b)
        } else {
            None
        },
        None => None,
    }
}

/// Reads a 32-byte key or seed from hexadecimal.
pub fn hex_to_seed(hex: &str) -> (r: Result<[u8; 32], String>)
    ensures
        match key_bytes_of(hex@) {
            Some(b) => r matches Ok(a) && a@ == b,
            None => r is Err,
        },
{
    let bytes = match decode_hex(hex) {
        None => {
            return Err(String::from_str("not hexadecimal of even length"));
        },
        Some(b) => b,
    };
    if bytes.len() != 32 {
        return Err(String::from_str("a seed is exactly 32 bytes"));
    }
    let mut out = [0u8; 32];
    let mut i: usize = 0;
    while i < 32
        invariant
            bytes@.len() == 32,
            i <= 32,
            out@.len() == 32,
            forall|k: int| 0 <= k < i ==> out@[k] == bytes@[k],
        decreases 32 - i,
    {
        out[i] = bytes[i];
        i = i + 1;
    }
    assert(out@ =~= bytes@);
    Ok(out)
}

pub open spec fn views(v: Seq<String>) -> Seq<Seq<char>> {
    Seq::new(v.len(), |i: int| v[i]@)
}

/// The values given under `key`, in order.
fn values(args: &[String], key: &str) -> (r: Vec<String>)
    requires
        args@.len() % 2 == 0,
    ensures
        views(r@) == all_values(args@, key@),
{
    let mut out: Vec<String> = Vec::new();
    let len = args.len();
    let n = len / 2;
    let mut p: usize = 0;
    assert(views(out@) =~= values_of(args@, key@, 0));
    while p < n
        invariant
            len == args@.len(),
            n == args@.len() / 2,
            args@.len() % 2 == 0,
            p <= n,
            views(out@) == values_of(args@, key@, p as int),
        decreases n - p,
    {
        let ghost before = out@;
        assert(2 * p + 1 < len) by (nonlinear_arith)
            requires
                p < n,
                n == len / 2,
                len % 2 == 0,
        ;
        if str_eq(args[2 * p].as_str(), key) {
            out.push(copy_string(&args[2 * p + 1]));
            proof {
                assert(views(out@) =~= views(before).push(args@[2 * p + 1]@));
            }
        }
        p = p + 1;
    }
    out
}

/// The flag was given.
fn present_flag(args: &[String], key: &str) -> (r: bool)
    requires
        args@.len() % 2 == 0,
    ensures
        r == present(args@, key@),
{
    values(args, key).len() > 0
}

/// The value a flag takes, if given.
fn last_text(args: &[String], key: &str) -> (r: Option<String>)
    requires
        args@.len() % 2 == 0,
    ensures
        crate::inventory::opt_text(r) == text_of(args@, key@),
{
    let vs = values(args, key);
    let n = vs.len();
    if n == 0 {
        None
    } else {
        assert(views(vs@)[n - 1] == vs@[n - 1]@);
        Some(copy_string(&vs[n - 1]))
    }
}

fn require_text(args: &[String], key: &str) -> (r: Result<String, String>)
    requires
        args@.len() % 2 == 0,
    ensures
        match text_of(args@, key@) {
            Some(t) => r matches Ok(v) && v@ == t,
            None => r is Err,
        },
{
    match last_text(args, key) {
        Some(v) => Ok(v),
        None => {
            let mut e = String::from_str("missing required flag: ");
            push_str(&mut e, key);
            Err(e)
        },
    }
}

fn seed_value(args: &[String], key: &str) -> (r: Result<[u8; 32], String>)
    requires
        args@.len() % 2 == 0,
    ensures
        match text_of(args@, key@) {
            Some(t) => match key_bytes_of(t) {
                Some(b) => r matches Ok(a) && a@ == b,
                None => r is Err,
            },
            None => r is Err,
        },
{
    let text = require_text(args, key)?;
    match hex_to_seed(text.as_str()) {
        Ok(a) => Ok(a),
        Err(why) => {
            let mut e = String::from_str(key);
            push_str(&mut e, ": ");
            push_str(&mut e, why.as_str());
            Err(e)
        },
    }
}

pub open spec fn is_bool_text(v: Seq<char>) -> bool {
    v == "true"@ || v == "false"@
}

/// Every value given under a boolean flag is `true` or `false`.
pub open spec fn bools_ok_for(a: Seq<String>, key: Seq<char>) -> bool {
    forall|i: int| 0 <= i < all_values(a, key).len() ==> is_bool_text(#[trigger] all_values(a, key)[i])
}

/// A boolean flag: `true` only when its value is `true`. Every value given
/// that is neither `true` nor `false`, earlier ones too, is noted in `bad`.
fn bool_value(args: &[String], key: &str, bad: &mut Vec<String>) -> (r: bool)
    requires
        args@.len() % 2 == 0,
    ensures
        r == (text_of(args@, key@) == Some("true"@)),
        final(bad)@.len() >= old(bad)@.len(),
        (final(bad)@.len() == old(bad)@.len()) <==> bools_ok_for(args@, key@),
{
    let vs = values(args, key);
    let ghost start = bad@.len();
    let ghost all = all_values(args@, key@);
    let mut i: usize = 0;
    while i < vs.len()
        invariant
            views(vs@) == all,
            all == all_values(args@, key@),
            i <= vs@.len(),
            bad@.len() >= start,
            (bad@.len() == start) <==> (forall|k: int| 0 <= k < i ==> is_bool_text(#[trigger] all[k])),
        decreases vs@.len() - i,
    {
        let v = vs[i].as_str();
        assert(all[i as int] == vs@[i as int]@);
        if !(str_eq(v, "true") || str_eq(v, "false")) {
            let mut e = String::from_str(key);
            push_str(&mut e, "=");
            push_str(&mut e, v);
            bad.push(e);
        }
        i = i + 1;
    }
    let n = vs.len();
    if n == 0 {
        false
    } else {
        assert(all[n - 1] == vs@[n - 1]@);
        str_eq(vs[n - 1].as_str(), "true")
    }
}

pub open spec fn all_parse(vs: Seq<Seq<char>>, max: nat) -> bool {
    forall|i: int| 0 <= i < vs.len() ==> parse_unsigned(#[trigger] vs[i], max) is Some
}

/// An unsigned flag: `None` when a value given (an earlier one too) does not
/// parse within `max`; `Some(None)` when not given; else its last value.
pub open spec fn num_of(a: Seq<String>, key: Seq<char>, max: nat) -> Option<Option<nat>> {
    let vs = all_values(a, key);
    if !all_parse(vs, max) {
        None
    } else if vs.len() == 0 {
        Some(None)
    } else {
        Some(parse_unsigned(vs.last(), max))
    }
}

pub open spec fn num_or(o: Option<Option<nat>>, d: nat) -> nat {
    match o {
        Some(Some(v)) => v,
        _ => d,
    }
}

pub open spec fn text_or_empty(a: Seq<String>, key: Seq<char>) -> Seq<char> {
    match text_of(a, key) {
        Some(t) => t,
        None => Seq::empty(),
    }
}

fn number(args: &[String], key: &str, max: u64) -> (r: Result<Option<u64>, String>)
    requires
        args@.len() % 2 == 0,
    ensures
        match num_of(args@, key@, max as nat) {
            None => r is Err,
            Some(None) => r == Ok::<Option<u64>, String>(None),
            Some(Some(v)) => r == Ok::<Option<u64>, String>(Some(v as u64)),
        },
{
    let vs = values(args, key);
    let ghost all = all_values(args@, key@);
    let mut i: usize = 0;
    let mut last: Option<u64> = None;
    while i < vs.len()
        invariant
            views(vs@) == all,
            all == all_values(args@, key@),
            i <= vs@.len(),
            forall|k: int| 0 <= k < i ==> parse_unsigned(#[trigger] all[k], max as nat) is Some,
            i == 0 ==> last is None,
            i > 0 ==> last == Some(parse_unsigned(all[i - 1], max as nat)->0 as u64),
        decreases vs@.len() - i,
    {
        assert(all[i as int] == vs@[i as int]@);
        match parse_u64_text(vs[i].as_str(), max) {
            None => {
                let mut e = String::from_str(key);
                push_str(&mut e, ": not an unsigned number in range: ");
                push_str(&mut e, vs[i].as_str());
                return Err(e);
            },
            Some(v) => {
                last = Some(v);
            },
        }
        i = i + 1;
    }
    Ok(last)
}

pub open spec fn all_parse_i32(vs: Seq<Seq<char>>) -> bool {
    forall|i: int| 0 <= i < vs.len() ==> parse_i32(#[trigger] vs[i]) is Some
}

/// A signed 32-bit flag, read as `num_of` reads unsigned ones.
pub open spec fn int_of(a: Seq<String>, key: Seq<char>) -> Option<Option<int>> {
    let vs = all_values(a, key);
    if !all_parse_i32(vs) {
        None
    } else if vs.len() == 0 {
        Some(None)
    } else {
        Some(parse_i32(vs.last()))
    }
}

fn signed(args: &[String], key: &str) -> (r: Result<Option<i32>, String>)
    requires
        args@.len() % 2 == 0,
    ensures
        match int_of(args@, key@) {
            None => r is Err,
            Some(None) => r == Ok::<Option<i32>, String>(None),
            Some(Some(v)) => r == Ok::<Option<i32>, String>(Some(v as i32)),
        },
{
    let vs = values(args, key);
    let ghost all = all_values(args@, key@);
    let mut i: usize = 0;
    let mut last: Option<i32> = None;
    while i < vs.len()
        invariant
            views(vs@) == all,
            all == all_values(args@, key@),
            i <= vs@.len(),
            forall|k: int| 0 <= k < i ==> parse_i32(#[trigger] all[k]) is Some,
            i == 0 ==> last is None,
            i > 0 ==> last == Some(parse_i32(all[i - 1])->0 as i32),
        decreases vs@.len() - i,
    {
        assert(all[i as int] == vs@[i as int]@);
        match parse_i32_text(vs[i].as_str()) {
            None => {
                let mut e = String::from_str(key);
                push_str(&mut e, ": not a signed 32-bit number: ");
                push_str(&mut e, vs[i].as_str());
                return Err(e);
            },
            Some(v) => {
                last = Some(v);
            },
        }
        i = i + 1;
    }
    Ok(last)
}

/// The start-up configuration. Paths are kept as given; keys and seeds as
/// their 32 bytes.
#[derive(Debug, Clone, PartialEq, Eq)]
pub struct CoordinatorConfig {
    pub listen: String,
    pub own_seed: [u8; 32],
    pub agent_verifying_key: [u8; 32],
    pub coordinator_device_id: String,
    pub agent_device_id: String,
    pub grant_id: String,
    pub attempt_id: String,
    pub corrupt_own_signature: bool,
    pub send_grant_twice: bool,
    pub disconnect_after_ack: bool,
    pub drop_connection_after_ack_once: bool,
    pub max_connections: u32,
    pub accept_timeout_ms: u64,
    pub revoke_before_drop: bool,
    pub pause_before_next_accept_ms: u64,
    pub lease_id: String,
    pub job_id: String,
    pub fence_epoch: u64,
    pub manifest_file: Option<String>,
    pub corrupt_manifest_signature: bool,
    pub corrupt_manifest_hash: bool,
    pub corrupt_lease_signature: bool,
    pub expire_lease: bool,
    pub do_renew: bool,
    pub renewed_fence_epoch: u64,
    pub renew_outcome_override: Option<i32>,
    pub corrupt_renew_result_signature: bool,
    pub corrupt_renewed_lease_signature: bool,
    pub corrupt_renew_result_nonce: bool,
    pub drop_after_renew_commit_before_result_once: bool,
    pub renew_extension_ms: u64,
    pub renew_rounds: u32,
    pub lease_db_path: Option<String>,
    pub grant_from_control_db: Option<String>,
    pub stored_grant_submitter_keyring: Option<String>,
    pub stored_grant_allow_plaintext_keyring: bool,
    pub stored_grant_job_id: String,
    pub stored_grant_attempt_id: String,
    pub stored_grant_lease_id: String,
    pub stored_grant_ttl_ms: u64,
    pub allow_unsafe_legacy_mode: bool,
    pub max_total_duration_seconds: u64,
    pub revoke_after_round: Option<u32>,
    pub revoke_before_renew: bool,
    pub expect_heartbeats: u32,
    pub liveness_db_path: Option<String>,
    pub expect_neighbor_reports: u32,
    pub neighbor_report_db_path: Option<String>,
    pub expect_attempt_reports: u32,
    pub extra_agents: Option<String>,
    pub require_concurrent_sessions: u32,
    pub multi_agent: bool,
    pub revoke_lease_id_override: Option<String>,
    pub revoke_fence_epoch_override: Option<u64>,
    pub corrupt_revoke_signature: bool,
    pub lease_ttl_ms: u64,
    pub revoke_delay_ms: u64,
    pub renew_delay_ms: u64,
    pub resume_protocol: bool,
}

/// The options of a configuration that decide which receiving stages a
/// session reaches.
pub open spec fn options_of(c: CoordinatorConfig) -> SessionOptions {
    SessionOptions {
        expect_neighbor_reports: c.expect_neighbor_reports,
        expect_heartbeats: c.expect_heartbeats,
        expect_attempt_reports: c.expect_attempt_reports,
        liveness_db_configured: c.liveness_db_path is Some,
        grant_from_control_db_configured: c.grant_from_control_db is Some,
        resume_protocol: c.resume_protocol,
        send_grant_twice: c.send_grant_twice,
        disconnect_after_ack: c.disconnect_after_ack,
        drop_connection_after_ack_once: c.drop_connection_after_ack_once,
    }
}

impl CoordinatorConfig {
    /// The options that decide which receiving stages a session reaches.
    pub fn session_options(&self) -> (o: SessionOptions)
        ensures
            o == options_of(*self),
    {
        SessionOptions {
            expect_neighbor_reports: self.expect_neighbor_reports,
            expect_heartbeats: self.expect_heartbeats,
            expect_attempt_reports: self.expect_attempt_reports,
            liveness_db_configured: self.liveness_db_path.is_some(),
            grant_from_control_db_configured: self.grant_from_control_db.is_some(),
            resume_protocol: self.resume_protocol,
            send_grant_twice: self.send_grant_twice,
            disconnect_after_ack: self.disconnect_after_ack,
            drop_connection_after_ack_once: self.drop_connection_after_ack_once,
        }
    }

    /// The lease a renewal without a lease store is built from: the
    /// identities and limits the coordinator was started with.
    pub fn legacy_renewal(&self) -> (l: LegacyRenewal)
        ensures
            l.lease_id == self.lease_id,
            l.job_id == self.job_id,
            l.attempt_id == self.attempt_id,
            l.agent_device_id == self.agent_device_id,
            l.coordinator_device_id == self.coordinator_device_id,
            l.renewed_fence_epoch == self.renewed_fence_epoch,
            l.max_total_duration_seconds == self.max_total_duration_seconds,
    {
        LegacyRenewal {
            lease_id: copy_string(&self.lease_id),
            job_id: copy_string(&self.job_id),
            attempt_id: copy_string(&self.attempt_id),
            agent_device_id: copy_string(&self.agent_device_id),
            coordinator_device_id: copy_string(&self.coordinator_device_id),
            renewed_fence_epoch: self.renewed_fence_epoch,
            max_total_duration_seconds: self.max_total_duration_seconds,
        }
    }
}

/// A flag this command reads.
pub open spec fn known_flag(s: Seq<char>) -> bool {
    s == "--listen"@
        || s == "--own-seed"@
        || s == "--peer-pubkey"@
        || s == "--coordinator-device-id"@
        || s == "--agent-device-id"@
        || s == "--grant-id"@
        || s == "--attempt-id"@
        || s == "--corrupt-own-signature"@
        || s == "--send-grant-twice"@
        || s == "--disconnect-after-ack"@
        || s == "--drop-connection-after-ack-once"@
        || s == "--max-connections"@
        || s == "--accept-timeout-ms"@
        || s == "--revoke-before-drop"@
        || s == "--pause-before-next-accept-ms"@
        || s == "--lease-id"@
        || s == "--job-id"@
        || s == "--fence-epoch"@
        || s == "--manifest-file"@
        || s == "--corrupt-manifest-signature"@
        || s == "--corrupt-manifest-hash"@
        || s == "--corrupt-lease-signature"@
        || s == "--expire-lease"@
        || s == "--do-renew"@
        || s == "--renewed-fence-epoch"@
        || s == "--renew-outcome-override"@
        || s == "--corrupt-renew-result-signature"@
        || s == "--corrupt-renewed-lease-signature"@
        || s == "--corrupt-renew-result-nonce"@
        || s == "--drop-after-renew-commit-before-result-once"@
        || s == "--renew-extension-ms"@
        || s == "--renew-rounds"@
        || s == "--lease-db"@
        || s == "--grant-from-control-db"@
        || s == "--submitter-keyring"@
        || s == "--i-understand-plaintext-keyring-is-unsafe"@
        || s == "--stored-grant-job-id"@
        || s == "--stored-grant-attempt-id"@
        || s == "--stored-grant-lease-id"@
        || s == "--stored-grant-ttl-ms"@
        || s == "--i-understand-legacy-mode-is-unsafe"@
        || s == "--max-total-duration-seconds"@
        || s == "--revoke-after-round"@
        || s == "--revoke-before-renew"@
        || s == "--expect-heartbeats"@
        || s == "--liveness-db"@
        || s == "--expect-neighbor-reports"@
        || s == "--neighbor-report-db"@
        || s == "--expect-attempt-reports"@
        || s == "--extra-agents"@
        || s == "--require-concurrent-sessions"@
        || s == "--multi-agent"@
        || s == "--revoke-lease-id"@
        || s == "--revoke-fence-epoch"@
        || s == "--corrupt-revoke-signature"@
        || s == "--lease-ttl-ms"@
        || s == "--revoke-delay-ms"@
        || s == "--renew-delay-ms"@
        || s == "--resume-protocol"@
}

fn is_known_flag(k: &str) -> (r: bool)
    ensures
        r == known_flag(k@),
{
    str_eq(k, "--listen")
        || str_eq(k, "--own-seed")
        || str_eq(k, "--peer-pubkey")
        || str_eq(k, "--coordinator-device-id")
        || str_eq(k, "--agent-device-id")
        || str_eq(k, "--grant-id")
        || str_eq(k, "--attempt-id")
        || str_eq(k, "--corrupt-own-signature")
        || str_eq(k, "--send-grant-twice")
        || str_eq(k, "--disconnect-after-ack")
        || str_eq(k, "--drop-connection-after-ack-once")
        || str_eq(k, "--max-connections")
        || str_eq(k, "--accept-timeout-ms")
        || str_eq(k, "--revoke-before-drop")
        || str_eq(k, "--pause-before-next-accept-ms")
        || str_eq(k, "--lease-id")
        || str_eq(k, "--job-id")
        || str_eq(k, "--fence-epoch")
        || str_eq(k, "--manifest-file")
        || str_eq(k, "--corrupt-manifest-signature")
        || str_eq(k, "--corrupt-manifest-hash")
        || str_eq(k, "--corrupt-lease-signature")
        || str_eq(k, "--expire-lease")
        || str_eq(k, "--do-renew")
        || str_eq(k, "--renewed-fence-epoch")
        || str_eq(k, "--renew-outcome-override")
        || str_eq(k, "--corrupt-renew-result-signature")
        || str_eq(k, "--corrupt-renewed-lease-signature")
        || str_eq(k, "--corrupt-renew-result-nonce")
        || str_eq(k, "--drop-after-renew-commit-before-result-once")
        || str_eq(k, "--renew-extension-ms")
        || str_eq(k, "--renew-rounds")
        || str_eq(k, "--lease-db")
        || str_eq(k, "--grant-from-control-db")
        || str_eq(k, "--submitter-keyring")
        || str_eq(k, "--i-understand-plaintext-keyring-is-unsafe")
        || str_eq(k, "--stored-grant-job-id")
        || str_eq(k, "--stored-grant-attempt-id")
        || str_eq(k, "--stored-grant-lease-id")
        || str_eq(k, "--stored-grant-ttl-ms")
        || str_eq(k, "--i-understand-legacy-mode-is-unsafe")
        || str_eq(k, "--max-total-duration-seconds")
        || str_eq(k, "--revoke-after-round")
        || str_eq(k, "--revoke-before-renew")
        || str_eq(k, "--expect-heartbeats")
        || str_eq(k, "--liveness-db")
        || str_eq(k, "--expect-neighbor-reports")
        || str_eq(k, "--neighbor-report-db")
        || str_eq(k, "--expect-attempt-reports")
        || str_eq(k, "--extra-agents")
        || str_eq(k, "--require-concurrent-sessions")
        || str_eq(k, "--multi-agent")
        || str_eq(k, "--revoke-lease-id")
        || str_eq(k, "--revoke-fence-epoch")
        || str_eq(k, "--corrupt-revoke-signature")
        || str_eq(k, "--lease-ttl-ms")
        || str_eq(k, "--revoke-delay-ms")
        || str_eq(k, "--renew-delay-ms")
        || str_eq(k, "--resume-protocol")
}

/// Every flag that must be given is given, and every value given parses.
pub open spec fn fields_ok(a: Seq<String>) -> bool {
    &&& text_of(a, "--listen"@) is Some
    &&& (text_of(a, "--own-seed"@) is Some && key_bytes_of(text_of(a, "--own-seed"@)->0) is Some)
    &&& (text_of(a, "--peer-pubkey"@) is Some && key_bytes_of(text_of(a, "--peer-pubkey"@)->0) is Some)
    &&& text_of(a, "--coordinator-device-id"@) is Some
    &&& text_of(a, "--agent-device-id"@) is Some
    &&& text_of(a, "--grant-id"@) is Some
    &&& text_of(a, "--attempt-id"@) is Some
    &&& num_of(a, "--max-connections"@, 0xffff_ffff) is Some
    &&& num_of(a, "--accept-timeout-ms"@, 0xffff_ffff_ffff_ffff) is Some
    &&& num_of(a, "--pause-before-next-accept-ms"@, 0xffff_ffff_ffff_ffff) is Some
    &&& text_of(a, "--lease-id"@) is Some
    &&& text_of(a, "--job-id"@) is Some
    &&& num_of(a, "--fence-epoch"@, 0xffff_ffff_ffff_ffff) is Some
    &&& num_of(a, "--renewed-fence-epoch"@, 0xffff_ffff_ffff_ffff) is Some
    &&& int_of(a, "--renew-outcome-override"@) is Some
    &&& num_of(a, "--renew-extension-ms"@, 0xffff_ffff_ffff_ffff) is Some
    &&& num_of(a, "--renew-rounds"@, 0xffff_ffff) is Some
    &&& num_of(a, "--stored-grant-ttl-ms"@, 0xffff_ffff_ffff_ffff) is Some
    &&& num_of(a, "--max-total-duration-seconds"@, 0xffff_ffff_ffff_ffff) is Some
    &&& num_of(a, "--revoke-after-round"@, 0xffff_ffff) is Some
    &&& num_of(a, "--expect-heartbeats"@, 0xffff_ffff) is Some
    &&& num_of(a, "--expect-neighbor-reports"@, 0xffff_ffff) is Some
    &&& num_of(a, "--expect-attempt-reports"@, 0xffff_ffff) is Some
    &&& num_of(a, "--require-concurrent-sessions"@, 0xffff_ffff) is Some
    &&& num_of(a, "--revoke-fence-epoch"@, 0xffff_ffff_ffff_ffff) is Some
    &&& num_of(a, "--lease-ttl-ms"@, 0xffff_ffff_ffff_ffff) is Some
    &&& num_of(a, "--revoke-delay-ms"@, 0xffff_ffff_ffff_ffff) is Some
    &&& num_of(a, "--renew-delay-ms"@, 0xffff_ffff_ffff_ffff) is Some
}

/// Every boolean flag given is `true` or `false`.
pub open spec fn bools_ok(a: Seq<String>) -> bool {
    &&& bools_ok_for(a, "--corrupt-own-signature"@)
    &&& bools_ok_for(a, "--send-grant-twice"@)
    &&& bools_ok_for(a, "--disconnect-after-ack"@)
    &&& bools_ok_for(a, "--drop-connection-after-ack-once"@)
    &&& bools_ok_for(a, "--revoke-before-drop"@)
    &&& bools_ok_for(a, "--corrupt-manifest-signature"@)
    &&& bools_ok_for(a, "--corrupt-manifest-hash"@)
    &&& bools_ok_for(a, "--corrupt-lease-signature"@)
    &&& bools_ok_for(a, "--expire-lease"@)
    &&& bools_ok_for(a, "--do-renew"@)
    &&& bools_ok_for(a, "--corrupt-renew-result-signature"@)
    &&& bools_ok_for(a, "--corrupt-renewed-lease-signature"@)
    &&& bools_ok_for(a, "--corrupt-renew-result-nonce"@)
    &&& bools_ok_for(a, "--drop-after-renew-commit-before-result-once"@)
    &&& bools_ok_for(a, "--i-understand-plaintext-keyring-is-unsafe"@)
    &&& bools_ok_for(a, "--i-understand-legacy-mode-is-unsafe"@)
    &&& bools_ok_for(a, "--revoke-before-renew"@)
    &&& bools_ok_for(a, "--multi-agent"@)
    &&& bools_ok_for(a, "--corrupt-revoke-signature"@)
    &&& bools_ok_for(a, "--resume-protocol"@)
}

/// The configuration holds what the flags say, defaults where they are absent.
pub open spec fn config_matches(c: CoordinatorConfig, a: Seq<String>) -> bool {
    &&& c.listen@ == text_of(a, "--listen"@)->0
    &&& c.own_seed@ == key_bytes_of(text_of(a, "--own-seed"@)->0)->0
    &&& c.agent_verifying_key@ == key_bytes_of(text_of(a, "--peer-pubkey"@)->0)->0
    &&& c.coordinator_device_id@ == text_of(a, "--coordinator-device-id"@)->0
    &&& c.agent_device_id@ == text_of(a, "--agent-device-id"@)->0
    &&& c.grant_id@ == text_of(a, "--grant-id"@)->0
    &&& c.attempt_id@ == text_of(a, "--attempt-id"@)->0
    &&& c.corrupt_own_signature == (text_of(a, "--corrupt-own-signature"@) == Some("true"@))
    &&& c.send_grant_twice == (text_of(a, "--send-grant-twice"@) == Some("true"@))
    &&& c.disconnect_after_ack == (text_of(a, "--disconnect-after-ack"@) == Some("true"@))
    &&& c.drop_connection_after_ack_once == (text_of(a, "--drop-connection-after-ack-once"@) == Some("true"@))
    &&& c.max_connections == num_or(num_of(a, "--max-connections"@, 0xffff_ffff), 1)
    &&& c.accept_timeout_ms == num_or(num_of(a, "--accept-timeout-ms"@, 0xffff_ffff_ffff_ffff), 30_000)
    &&& c.revoke_before_drop == (text_of(a, "--revoke-before-drop"@) == Some("true"@))
    &&& c.pause_before_next_accept_ms == num_or(num_of(a, "--pause-before-next-accept-ms"@, 0xffff_ffff_ffff_ffff), 0)
    &&& c.lease_id@ == text_of(a, "--lease-id"@)->0
    &&& c.job_id@ == text_of(a, "--job-id"@)->0
    &&& c.fence_epoch == num_or(num_of(a, "--fence-epoch"@, 0xffff_ffff_ffff_ffff), 0)
    &&& crate::inventory::opt_text(c.manifest_file) == text_of(a, "--manifest-file"@)
    &&& c.corrupt_manifest_signature == (text_of(a, "--corrupt-manifest-signature"@) == Some("true"@))
    &&& c.corrupt_manifest_hash == (text_of(a, "--corrupt-manifest-hash"@) == Some("true"@))
    &&& c.corrupt_lease_signature == (text_of(a, "--corrupt-lease-signature"@) == Some("true"@))
    &&& c.expire_lease == (text_of(a, "--expire-lease"@) == Some("true"@))
    &&& c.do_renew == (text_of(a, "--do-renew"@) == Some("true"@))
    &&& c.renewed_fence_epoch == num_or(num_of(a, "--renewed-fence-epoch"@, 0xffff_ffff_ffff_ffff), 0)
    &&& int_of(a, "--renew-outcome-override"@) == Some(match c.renew_outcome_override {
        Some(v) => Some(v as int),
        None => None,
    })
    &&& c.corrupt_renew_result_signature == (text_of(a, "--corrupt-renew-result-signature"@) == Some("true"@))
    &&& c.corrupt_renewed_lease_signature == (text_of(a, "--corrupt-renewed-lease-signature"@) == Some("true"@))
    &&& c.corrupt_renew_result_nonce == (text_of(a, "--corrupt-renew-result-nonce"@) == Some("true"@))
    &&& c.drop_after_renew_commit_before_result_once == (text_of(a, "--drop-after-renew-commit-before-result-once"@) == Some("true"@))
    &&& c.renew_extension_ms == num_or(num_of(a, "--renew-extension-ms"@, 0xffff_ffff_ffff_ffff), 60_000)
    &&& c.renew_rounds == num_or(num_of(a, "--renew-rounds"@, 0xffff_ffff), 1)
    &&& crate::inventory::opt_text(c.lease_db_path) == text_of(a, "--lease-db"@)
    &&& crate::inventory::opt_text(c.grant_from_control_db) == text_of(a, "--grant-from-control-db"@)
    &&& crate::inventory::opt_text(c.stored_grant_submitter_keyring) == text_of(a, "--submitter-keyring"@)
    &&& c.stored_grant_allow_plaintext_keyring == (text_of(a, "--i-understand-plaintext-keyring-is-unsafe"@) == Some("true"@))
    &&& c.stored_grant_job_id@ == text_or_empty(a, "--stored-grant-job-id"@)
    &&& c.stored_grant_attempt_id@ == text_or_empty(a, "--stored-grant-attempt-id"@)
    &&& c.stored_grant_lease_id@ == text_or_empty(a, "--stored-grant-lease-id"@)
    &&& c.stored_grant_ttl_ms == num_or(num_of(a, "--stored-grant-ttl-ms"@, 0xffff_ffff_ffff_ffff), 60_000)
    &&& c.allow_unsafe_legacy_mode == (text_of(a, "--i-understand-legacy-mode-is-unsafe"@) == Some("true"@))
    &&& c.max_total_duration_seconds == num_or(num_of(a, "--max-total-duration-seconds"@, 0xffff_ffff_ffff_ffff), 86_400)
    &&& num_of(a, "--revoke-after-round"@, 0xffff_ffff) == Some(match c.revoke_after_round {
        Some(v) => Some(v as nat),
        None => None,
    })
    &&& c.revoke_before_renew == (text_of(a, "--revoke-before-renew"@) == Some("true"@))
    &&& c.expect_heartbeats == num_or(num_of(a, "--expect-heartbeats"@, 0xffff_ffff), 0)
    &&& crate::inventory::opt_text(c.liveness_db_path) == text_of(a, "--liveness-db"@)
    &&& c.expect_neighbor_reports == num_or(num_of(a, "--expect-neighbor-reports"@, 0xffff_ffff), 0)
    &&& crate::inventory::opt_text(c.neighbor_report_db_path) == text_of(a, "--neighbor-report-db"@)
    &&& c.expect_attempt_reports == num_or(num_of(a, "--expect-attempt-reports"@, 0xffff_ffff), 0)
    &&& crate::inventory::opt_text(c.extra_agents) == text_of(a, "--extra-agents"@)
    &&& c.require_concurrent_sessions == num_or(num_of(a, "--require-concurrent-sessions"@, 0xffff_ffff), 0)
    &&& c.multi_agent == (text_of(a, "--multi-agent"@) == Some("true"@))
    &&& crate::inventory::opt_text(c.revoke_lease_id_override) == text_of(a, "--revoke-lease-id"@)
    &&& num_of(a, "--revoke-fence-epoch"@, 0xffff_ffff_ffff_ffff) == Some(match c.revoke_fence_epoch_override {
        Some(v) => Some(v as nat),
        None => None,
    })
    &&& c.corrupt_revoke_signature == (text_of(a, "--corrupt-revoke-signature"@) == Some("true"@))
    &&& c.lease_ttl_ms == num_or(num_of(a, "--lease-ttl-ms"@, 0xffff_ffff_ffff_ffff), 60_000)
    &&& c.revoke_delay_ms == num_or(num_of(a, "--revoke-delay-ms"@, 0xffff_ffff_ffff_ffff), 0)
    &&& c.renew_delay_ms == num_or(num_of(a, "--renew-delay-ms"@, 0xffff_ffff_ffff_ffff), 0)
    &&& c.resume_protocol == (text_of(a, "--resume-protocol"@) == Some("true"@))
}

/// Reads every flag into the configuration, in the order the fields are
/// listed; a missing required flag or a value that does not parse stops the
/// reading. Boolean values that are neither `true` nor `false` are noted in
/// `bad` and read as `false`.
#[verifier::rlimit(60)]
fn read_fields(args: &[String], bad: &mut Vec<String>) -> (r: Result<CoordinatorConfig, String>)
    requires
        args@.len() % 2 == 0,
        old(bad)@.len() == 0,
    ensures
        fields_ok(args@) ==> (r matches Ok(c) && config_matches(c, args@) && ((final(bad)@.len() == 0)
            <==> bools_ok(args@))),
        !fields_ok(args@) ==> r is Err,
{
    let listen = require_text(args, "--listen")?;
    let own_seed = seed_value(args, "--own-seed")?;
    let agent_verifying_key = seed_value(args, "--peer-pubkey")?;
    let coordinator_device_id = require_text(args, "--coordinator-device-id")?;
    let agent_device_id = require_text(args, "--agent-device-id")?;
    let grant_id = require_text(args, "--grant-id")?;
    let attempt_id = require_text(args, "--attempt-id")?;
    let corrupt_own_signature = bool_value(args, "--corrupt-own-signature", bad);
    let send_grant_twice = bool_value(args, "--send-grant-twice", bad);
    let disconnect_after_ack = bool_value(args, "--disconnect-after-ack", bad);
    let drop_connection_after_ack_once = bool_value(args, "--drop-connection-after-ack-once", bad);
    let max_connections: u32 = match number(args, "--max-connections", 0xffff_ffffu64)? {
        Some(v) => v as u32,
        None => 1,
    };
    let accept_timeout_ms: u64 = match number(args, "--accept-timeout-ms", 0xffff_ffff_ffff_ffffu64)? {
        Some(v) => v,
        None => 30_000,
    };
    let revoke_before_drop = bool_value(args, "--revoke-before-drop", bad);
    let pause_before_next_accept_ms: u64 = match number(args, "--pause-before-next-accept-ms", 0xffff_ffff_ffff_ffffu64)? {
        Some(v) => v,
        None => 0,
    };
    let lease_id = require_text(args, "--lease-id")?;
    let job_id = require_text(args, "--job-id")?;
    let fence_epoch: u64 = match number(args, "--fence-epoch", 0xffff_ffff_ffff_ffffu64)? {
        Some(v) => v,
        None => 0,
    };
    let manifest_file = last_text(args, "--manifest-file");
    let corrupt_manifest_signature = bool_value(args, "--corrupt-manifest-signature", bad);
    let corrupt_manifest_hash = bool_value(args, "--corrupt-manifest-hash", bad);
    let corrupt_lease_signature = bool_value(args, "--corrupt-lease-signature", bad);
    let expire_lease = bool_value(args, "--expire-lease", bad);
    let do_renew = bool_value(args, "--do-renew", bad);
    let renewed_fence_epoch: u64 = match number(args, "--renewed-fence-epoch", 0xffff_ffff_ffff_ffffu64)? {
        Some(v) => v,
        None => 0,
    };
    let renew_outcome_override = signed(args, "--renew-outcome-override")?;
    let corrupt_renew_result_signature = bool_value(args, "--corrupt-renew-result-signature", bad);
    let corrupt_renewed_lease_signature = bool_value(args, "--corrupt-renewed-lease-signature", bad);
    let corrupt_renew_result_nonce = bool_value(args, "--corrupt-renew-result-nonce", bad);
    let drop_after_renew_commit_before_result_once = bool_value(args, "--drop-after-renew-commit-before-result-once", bad);
    let renew_extension_ms: u64 = match number(args, "--renew-extension-ms", 0xffff_ffff_ffff_ffffu64)? {
        Some(v) => v,
        None => 60_000,
    };
    let renew_rounds: u32 = match number(args, "--renew-rounds", 0xffff_ffffu64)? {
        Some(v) => v as u32,
        None => 1,
    };
    let lease_db_path = last_text(args, "--lease-db");
    let grant_from_control_db = last_text(args, "--grant-from-control-db");
    let stored_grant_submitter_keyring = last_text(args, "--submitter-keyring");
    let stored_grant_allow_plaintext_keyring = bool_value(args, "--i-understand-plaintext-keyring-is-unsafe", bad);
    let stored_grant_job_id = match last_text(args, "--stored-grant-job-id") {
        Some(t) => t,
        None => String::new(),
    };
    let stored_grant_attempt_id = match last_text(args, "--stored-grant-attempt-id") {
        Some(t) => t,
        None => String::new(),
    };
    let stored_grant_lease_id = match last_text(args, "--stored-grant-lease-id") {
        Some(t) => t,
        None => String::new(),
    };
    let stored_grant_ttl_ms: u64 = match number(args, "--stored-grant-ttl-ms", 0xffff_ffff_ffff_ffffu64)? {
        Some(v) => v,
        None => 60_000,
    };
    let allow_unsafe_legacy_mode = bool_value(args, "--i-understand-legacy-mode-is-unsafe", bad);
    let max_total_duration_seconds: u64 = match number(args, "--max-total-duration-seconds", 0xffff_ffff_ffff_ffffu64)? {
        Some(v) => v,
        None => 86_400,
    };
    let revoke_after_round: Option<u32> = match number(args, "--revoke-after-round", 0xffff_ffffu64)? {
        Some(v) => Some(v as u32),
        None => None,
    };
    let revoke_before_renew = bool_value(args, "--revoke-before-renew", bad);
    let expect_heartbeats: u32 = match number(args, "--expect-heartbeats", 0xffff_ffffu64)? {
        Some(v) => v as u32,
        None => 0,
    };
    let liveness_db_path = last_text(args, "--liveness-db");
    let expect_neighbor_reports: u32 = match number(args, "--expect-neighbor-reports", 0xffff_ffffu64)? {
        Some(v) => v as u32,
        None => 0,
    };
    let neighbor_report_db_path = last_text(args, "--neighbor-report-db");
    let expect_attempt_reports: u32 = match number(args, "--expect-attempt-reports", 0xffff_ffffu64)? {
        Some(v) => v as u32,
        None => 0,
    };
    let extra_agents = last_text(args, "--extra-agents");
    let require_concurrent_sessions: u32 = match number(args, "--require-concurrent-sessions", 0xffff_ffffu64)? {
        Some(v) => v as u32,
        None => 0,
    };
    let multi_agent = bool_value(args, "--multi-agent", bad);
    let revoke_lease_id_override = last_text(args, "--revoke-lease-id");
    let revoke_fence_epoch_override: Option<u64> = number(args, "--revoke-fence-epoch", 0xffff_ffff_ffff_ffffu64)?;
    let corrupt_revoke_signature = bool_value(args, "--corrupt-revoke-signature", bad);
    let lease_ttl_ms: u64 = match number(args, "--lease-ttl-ms", 0xffff_ffff_ffff_ffffu64)? {
        Some(v) => v,
        None => 60_000,
    };
    let revoke_delay_ms: u64 = match number(args, "--revoke-delay-ms", 0xffff_ffff_ffff_ffffu64)? {
        Some(v) => v,
        None => 0,
    };
    let renew_delay_ms: u64 = match number(args, "--renew-delay-ms", 0xffff_ffff_ffff_ffffu64)? {
        Some(v) => v,
        None => 0,
    };
    let resume_protocol = bool_value(args, "--resume-protocol", bad);
    Ok(CoordinatorConfig {
        listen,
        own_seed,
        agent_verifying_key,
        coordinator_device_id,
        agent_device_id,
        grant_id,
        attempt_id,
        corrupt_own_signature,
        send_grant_twice,
        disconnect_after_ack,
        drop_connection_after_ack_once,
        max_connections,
        accept_timeout_ms,
        revoke_before_drop,
        pause_before_next_accept_ms,
        lease_id,
        job_id,
        fence_epoch,
        manifest_file,
        corrupt_manifest_signature,
        corrupt_manifest_hash,
        corrupt_lease_signature,
        expire_lease,
        do_renew,
        renewed_fence_epoch,
        renew_outcome_override,
        corrupt_renew_result_signature,
        corrupt_renewed_lease_signature,
        corrupt_renew_result_nonce,
        drop_after_renew_commit_before_result_once,
        renew_extension_ms,
        renew_rounds,
        lease_db_path,
        grant_from_control_db,
        stored_grant_submitter_keyring,
        stored_grant_allow_plaintext_keyring,
        stored_grant_job_id,
        stored_grant_attempt_id,
        stored_grant_lease_id,
        stored_grant_ttl_ms,
        allow_unsafe_legacy_mode,
        max_total_duration_seconds,
        revoke_after_round,
        revoke_before_renew,
        expect_heartbeats,
        liveness_db_path,
        expect_neighbor_reports,
        neighbor_report_db_path,
        expect_attempt_reports,
        extra_agents,
        require_concurrent_sessions,
        multi_agent,
        revoke_lease_id_override,
        revoke_fence_epoch_override,
        corrupt_revoke_signature,
        lease_ttl_ms,
        revoke_delay_ms,
        renew_delay_ms,
        resume_protocol,
    })
}


/// The arguments are `--name value` pairs; the first one out of shape is
/// named.
fn pairs_valid(args: &[String]) -> (r: Result<(), String>)
    ensures
        r is Ok <==> pairs_ok(args@),
{
    let n = args.len();
    let mut i: usize = 0;
    while i < n
        invariant
            n == args@.len(),
            i % 2 == 0,
            i <= n,
            forall|k: int| 0 <= k < i && k % 2 == 0 ==> starts_with((#[trigger] args@[k])@, "--"@),
        decreases n - i,
    {
        proof {
            reveal_strlit("--");
        }
        let key = args[i].as_str();
        let m = key.unicode_len();
        if !(m >= 2 && key.get_char(0) == '-' && key.get_char(1) == '-') {
            proof {
                assert(!starts_with(args@[i as int]@, "--"@)) by {
                    if starts_with(args@[i as int]@, "--"@) {
                        assert(key@.take(2)[0] == key@[0]);
                        assert(key@.take(2)[1] == key@[1]);
                    }
                }
            }
            let mut e = String::from_str("not a flag: ");
            push_str(&mut e, key);
            return Err(e);
        }
        proof {
            assert(key@.take(2) =~= "--"@);
        }
        if i + 1 >= n {
            let mut e = String::from_str(key);
            push_str(&mut e, " has no value");
            return Err(e);
        }
        i = i + 2;
    }
    Ok(())
}

/// A flag outside this command's set was given.
pub open spec fn unknown_given(a: Seq<String>) -> bool {
    exists|i: int| 0 <= i < a.len() && i % 2 == 0 && !known_flag((#[trigger] a[i])@)
}

/// The flags given that this command does not read, over the first `n`
/// arguments, in the order given and separated by `, `; and whether there
/// was any.
pub open spec fn unknown_listing(a: Seq<String>, n: int) -> (Seq<char>, bool)
    decreases n,
{
    if n < 2 {
        (Seq::empty(), false)
    } else {
        let prev = unknown_listing(a, n - 2);
        let key = a[n - 2]@;
        if known_flag(key) {
            prev
        } else if prev.1 {
            (prev.0 + ", "@ + key, true)
        } else {
            (prev.0 + key, true)
        }
    }
}

/// Text that occurs in `s` still occurs once more is appended.
proof fn lemma_occurs_in_prefix(s: Seq<char>, x: Seq<char>, t: Seq<char>, i: int)
    requires
        occurs_at(s, t, i),
    ensures
        occurs_at(s + x, t, i),
{
    assert((s + x).subrange(i, i + t.len()) =~= s.subrange(i, i + t.len()));
}

/// Every flag given that this command does not read is named in the list.
proof fn lemma_unknown_listing_names(a: Seq<String>, n: int, k: int)
    requires
        0 <= k,
        k + 2 <= n <= a.len(),
        n % 2 == 0,
        k % 2 == 0,
        !known_flag(a[k]@),
    ensures
        contains_text(unknown_listing(a, n).0, a[k]@),
    decreases n,
{
    let prev = unknown_listing(a, n - 2);
    let key = a[n - 2]@;
    if k == n - 2 {
        let s = unknown_listing(a, n).0;
        let at = s.len() - key.len();
        assert(s.subrange(at, at + key.len()) =~= key);
        assert(occurs_at(s, key, at));
    } else {
        lemma_unknown_listing_names(a, n - 2, k);
        let i = choose|i: int| occurs_at(prev.0, a[k]@, i);
        if !known_flag(key) {
            if prev.1 {
                lemma_occurs_in_prefix(prev.0, ", "@ + key, a[k]@, i);
                assert(prev.0 + (", "@ + key) =~= prev.0 + ", "@ + key);
            } else {
                lemma_occurs_in_prefix(prev.0, key, a[k]@, i);
            }
        }
    }
}

/// Lists the flags given that this command does not read.
fn unknown_flags(args: &[String]) -> (r: (String, bool))
    requires
        args@.len() % 2 == 0,
    ensures
        r.1 == unknown_given(args@),
        (r.0@, r.1) == unknown_listing(args@, args@.len() as int),
{
    let n = args.len();
    let mut list = String::new();
    let mut any = false;
    let mut i: usize = 0;
    while i < n
        invariant
            n == args@.len(),
            n % 2 == 0,
            i % 2 == 0,
            i <= n,
            any == exists|k: int| 0 <= k < i && k % 2 == 0 && !known_flag((#[trigger] args@[k])@),
            (list@, any) == unknown_listing(args@, i as int),
        decreases n - i,
    {
        if !is_known_flag(args[i].as_str()) {
            if any {
                push_str(&mut list, ", ");
            }
            push_str(&mut list, args[i].as_str());
            any = true;
        }
        proof {
            assert forall|k: int| 0 <= k < i + 2 && k % 2 == 0 && !known_flag((#[trigger] args@[k])@) implies k < i
                || k == i by {}
        }
        i = i + 2;
    }
    (list, any)
}

pub open spec fn flag_on(a: Seq<String>, key: Seq<char>) -> bool {
    text_of(a, key) == Some("true"@)
}

/// Flags the stored-reservation lane never applies, given to it.
pub open spec fn stored_lane_ignores(a: Seq<String>) -> bool {
    present(a, "--manifest-file"@) || present(a, "--corrupt-manifest-signature"@) || present(
        a,
        "--corrupt-manifest-hash"@,
    ) || present(a, "--corrupt-lease-signature"@) || present(a, "--expire-lease"@) || present(
        a,
        "--lease-ttl-ms"@,
    ) || (present(a, "--lease-db"@) && (present(a, "--fence-epoch"@) || present(
        a,
        "--max-total-duration-seconds"@,
    ) || present(a, "--renewed-fence-epoch"@)))
}

/// A stored identifier must be given and agree with the one on the command
/// line.
pub open spec fn id_refusal(a: Seq<String>, cli: Seq<char>, stored: Seq<char>) -> Option<Seq<char>> {
    let s = text_or_empty(a, stored);
    if s.len() == 0 {
        Some("STARTUP_REFUSED: STORED_LANE_ID_MISSING"@)
    } else if text_of(a, cli) != Some(s) {
        Some("STARTUP_REFUSED: STORED_LANE_ID_CONFLICT"@)
    } else {
        None
    }
}

pub open spec fn stored_lane_refusal(a: Seq<String>) -> Option<Seq<char>> {
    if stored_lane_ignores(a) {
        Some("STARTUP_REFUSED: STORED_LANE_IGNORES"@)
    } else if id_refusal(a, "--job-id"@, "--stored-grant-job-id"@) is Some {
        id_refusal(a, "--job-id"@, "--stored-grant-job-id"@)
    } else if id_refusal(a, "--attempt-id"@, "--stored-grant-attempt-id"@) is Some {
        id_refusal(a, "--attempt-id"@, "--stored-grant-attempt-id"@)
    } else if id_refusal(a, "--lease-id"@, "--stored-grant-lease-id"@) is Some {
        id_refusal(a, "--lease-id"@, "--stored-grant-lease-id"@)
    } else if !present(a, "--submitter-keyring"@) {
        Some("STARTUP_REFUSED: STORED_LANE_KEYRING_MISSING"@)
    } else {
        None
    }
}

/// Flags only the stored-reservation lane reads.
pub open spec fn stored_only_given(a: Seq<String>) -> bool {
    present(a, "--stored-grant-job-id"@) || present(a, "--stored-grant-attempt-id"@) || present(
        a,
        "--stored-grant-lease-id"@,
    ) || present(a, "--stored-grant-ttl-ms"@) || present(a, "--submitter-keyring"@) || present(
        a,
        "--i-understand-plaintext-keyring-is-unsafe"@,
    )
}

pub open spec fn common_refusal(a: Seq<String>) -> Option<Seq<char>> {
    if num_or(num_of(a, "--expect-neighbor-reports"@, 0xffff_ffff), 0) == 0 && present(a, "--neighbor-report-db"@) {
        Some("STARTUP_REFUSED: NEEDS_EXPECT"@)
    } else if num_or(num_of(a, "--expect-heartbeats"@, 0xffff_ffff), 0) == 0 && present(a, "--liveness-db"@) {
        Some("STARTUP_REFUSED: NEEDS_EXPECT"@)
    } else if !flag_on(a, "--multi-agent"@) && (present(a, "--extra-agents"@) || present(
        a,
        "--require-concurrent-sessions"@,
    )) {
        Some("STARTUP_REFUSED: MULTI_AGENT_ONLY"@)
    } else {
        None
    }
}

/// The lane rules: what the chosen lane would not apply is refused.
pub open spec fn lane_refusal(a: Seq<String>) -> Option<Seq<char>> {
    if present(a, "--grant-from-control-db"@) && !flag_on(a, "--resume-protocol"@) {
        match stored_lane_refusal(a) {
            Some(p) => Some(p),
            None => common_refusal(a),
        }
    } else if !present(a, "--grant-from-control-db"@) && stored_only_given(a) {
        Some("STARTUP_REFUSED: STORED_LANE_ONLY"@)
    } else {
        common_refusal(a)
    }
}

/// The first start-up refusal, as its code.
pub open spec fn refusal(a: Seq<String>) -> Option<Seq<char>> {
    if !bools_ok(a) {
        Some("STARTUP_REFUSED: INVALID_BOOL"@)
    } else if unknown_given(a) {
        Some("STARTUP_REFUSED: UNKNOWN_FLAGS"@)
    } else {
        lane_refusal(a)
    }
}

/// Nothing given is dropped silently: a configuration that is accepted
/// names only flags this command reads, every boolean in it is `true` or
/// `false`, and on the stored-reservation lane (without Resume) the stored
/// identifiers were given and agree with the command line.
pub proof fn law_accepted_configurations_read_everything_given(a: Seq<String>)
    requires
        refusal(a) is None,
    ensures
        forall|i: int| 0 <= i < a.len() && i % 2 == 0 ==> known_flag((#[trigger] a[i])@),
        bools_ok(a),
        present(a, "--grant-from-control-db"@) && !flag_on(a, "--resume-protocol"@) ==> {
            &&& text_or_empty(a, "--stored-grant-job-id"@).len() > 0
            &&& text_of(a, "--job-id"@) == Some(text_or_empty(a, "--stored-grant-job-id"@))
            &&& text_of(a, "--attempt-id"@) == Some(text_or_empty(a, "--stored-grant-attempt-id"@))
            &&& text_of(a, "--lease-id"@) == Some(text_or_empty(a, "--stored-grant-lease-id"@))
            &&& present(a, "--submitter-keyring"@)
        },
{
}

/// Appends `key` to the list when it was given.
fn note_if_present(args: &[String], key: &str, list: &mut String) -> (r: bool)
    requires
        args@.len() % 2 == 0,
    ensures
        r == present(args@, key@),
{
    let given = present_flag(args, key);
    if given {
        if list.unicode_len() > 0 {
            push_str(list, ", ");
        }
        push_str(list, key);
    }
    given
}

fn check_id(cli: &String, stored: &String, stored_key: &str) -> (r: Result<(), String>)
    ensures
        stored@.len() == 0 ==> (r matches Err(m) && starts_with(m@, "STARTUP_REFUSED: STORED_LANE_ID_MISSING"@)),
        stored@.len() != 0 && cli@ != stored@ ==> (r matches Err(m) && starts_with(
            m@,
            "STARTUP_REFUSED: STORED_LANE_ID_CONFLICT"@,
        )),
        stored@.len() != 0 && cli@ == stored@ ==> r is Ok,
{
    if stored.unicode_len() == 0 {
        let mut d = String::from_str(" ");
        push_str(&mut d, stored_key);
        push_str(&mut d, " is missing");
        return Err(refuse("STARTUP_REFUSED: STORED_LANE_ID_MISSING", d.as_str()));
    }
    if !str_eq(cli.as_str(), stored.as_str()) {
        let mut d = String::from_str(" ");
        push_str(&mut d, stored_key);
        push_str(&mut d, " ");
        push_str(&mut d, stored.as_str());
        push_str(&mut d, " differs from ");
        push_str(&mut d, cli.as_str());
        return Err(refuse("STARTUP_REFUSED: STORED_LANE_ID_CONFLICT", d.as_str()));
    }
    Ok(())
}

fn check_common(args: &[String], c: &CoordinatorConfig) -> (r: Result<(), String>)
    requires
        args@.len() % 2 == 0,
        fields_ok(args@),
        config_matches(*c, args@),
    ensures
        match common_refusal(args@) {
            Some(p) => r matches Err(m) && starts_with(m@, p),
            None => r is Ok,
        },
{
    if c.expect_neighbor_reports == 0 && present_flag(args, "--neighbor-report-db") {
        return Err(
            refuse(
                "STARTUP_REFUSED: NEEDS_EXPECT",
                " --neighbor-report-db is opened only when --expect-neighbor-reports is above 0",
            ),
        );
    }
    if c.expect_heartbeats == 0 && present_flag(args, "--liveness-db") {
        return Err(
            refuse("STARTUP_REFUSED: NEEDS_EXPECT", " --liveness-db is opened only when --expect-heartbeats is above 0"),
        );
    }
    if !c.multi_agent {
        let mut list = String::new();
        let a = note_if_present(args, "--extra-agents", &mut list);
        let b = note_if_present(args, "--require-concurrent-sessions", &mut list);
        if a || b {
            let mut d = String::from_str(" ");
            push_str(&mut d, list.as_str());
            push_str(&mut d, " are read only on the multi-agent lane");
            return Err(refuse("STARTUP_REFUSED: MULTI_AGENT_ONLY", d.as_str()));
        }
    }
    Ok(())
}

fn check_stored_lane(args: &[String], c: &CoordinatorConfig) -> (r: Result<(), String>)
    requires
        args@.len() % 2 == 0,
        fields_ok(args@),
        config_matches(*c, args@),
    ensures
        match stored_lane_refusal(args@) {
            Some(p) => r matches Err(m) && starts_with(m@, p),
            None => r is Ok,
        },
{
    let mut list = String::new();
    let g1 = note_if_present(args, "--manifest-file", &mut list);
    let g2 = note_if_present(args, "--corrupt-manifest-signature", &mut list);
    let g3 = note_if_present(args, "--corrupt-manifest-hash", &mut list);
    let g4 = note_if_present(args, "--corrupt-lease-signature", &mut list);
    let g5 = note_if_present(args, "--expire-lease", &mut list);
    let g6 = note_if_present(args, "--lease-ttl-ms", &mut list);
    let mut g7 = false;
    if c.lease_db_path.is_some() {
        let h1 = note_if_present(args, "--fence-epoch", &mut list);
        let h2 = note_if_present(args, "--max-total-duration-seconds", &mut list);
        let h3 = note_if_present(args, "--renewed-fence-epoch", &mut list);
        g7 = h1 || h2 || h3;
    }
    if g1 || g2 || g3 || g4 || g5 || g6 || g7 {
        let mut d = String::from_str(" ");
        push_str(&mut d, list.as_str());
        push_str(&mut d, " are not applied on the stored-reservation lane");
        return Err(refuse("STARTUP_REFUSED: STORED_LANE_IGNORES", d.as_str()));
    }
    check_id(&c.job_id, &c.stored_grant_job_id, "--stored-grant-job-id")?;
    check_id(&c.attempt_id, &c.stored_grant_attempt_id, "--stored-grant-attempt-id")?;
    check_id(&c.lease_id, &c.stored_grant_lease_id, "--stored-grant-lease-id")?;
    if c.stored_grant_submitter_keyring.is_none() {
        return Err(
            refuse(
                "STARTUP_REFUSED: STORED_LANE_KEYRING_MISSING",
                " --submitter-keyring is needed to verify stored manifests again",
            ),
        );
    }
    Ok(())
}

fn check_lane(args: &[String], c: &CoordinatorConfig) -> (r: Result<(), String>)
    requires
        args@.len() % 2 == 0,
        fields_ok(args@),
        config_matches(*c, args@),
    ensures
        match lane_refusal(args@) {
            Some(p) => r matches Err(m) && starts_with(m@, p),
            None => r is Ok,
        },
{
    if c.grant_from_control_db.is_some() && !c.resume_protocol {
        check_stored_lane(args, c)?;
    }
    if c.grant_from_control_db.is_none() {
        let mut list = String::new();
        let g1 = note_if_present(args, "--stored-grant-job-id", &mut list);
        let g2 = note_if_present(args, "--stored-grant-attempt-id", &mut list);
        let g3 = note_if_present(args, "--stored-grant-lease-id", &mut list);
        let g4 = note_if_present(args, "--stored-grant-ttl-ms", &mut list);
        let g5 = note_if_present(args, "--submitter-keyring", &mut list);
        let g6 = note_if_present(args, "--i-understand-plaintext-keyring-is-unsafe", &mut list);
        if g1 || g2 || g3 || g4 || g5 || g6 {
            let mut d = String::from_str(" ");
            push_str(&mut d, list.as_str());
            push_str(&mut d, " are read only with --grant-from-control-db");
            return Err(refuse("STARTUP_REFUSED: STORED_LANE_ONLY", d.as_str()));
        }
    }
    check_common(args, c)
}

/// Reads the start-up configuration from `--name value` pairs (see
/// `config_matches`). Refused, in this order: arguments that are not pairs;
/// a missing required flag or a value that does not parse; a boolean that is
/// neither `true` nor `false`; a flag this command does not read; and a flag
/// the chosen lane would not apply (see `lane_refusal`). Refusals of the last
/// three kinds start with `STARTUP_REFUSED:` and their code.
pub fn parse_config_from_args(args: &[String]) -> (r: Result<CoordinatorConfig, String>)
    ensures
        !pairs_ok(args@) ==> r is Err,
        pairs_ok(args@) && !fields_ok(args@) ==> r is Err,
        pairs_ok(args@) && fields_ok(args@) ==> match refusal(args@) {
            Some(p) => r matches Err(m) && starts_with(m@, p),
            None => r matches Ok(c) && config_matches(c, args@),
        },
        pairs_ok(args@) && fields_ok(args@) && bools_ok(args@) && unknown_given(args@) ==> (r matches Err(m)
            && m@ == "STARTUP_REFUSED: UNKNOWN_FLAGS"@ + " flags this command does not read: "@ + unknown_listing(
            args@,
            args@.len() as int,
        ).0 && forall|i: int|
            0 <= i < args@.len() && i % 2 == 0 && !known_flag((#[trigger] args@[i])@) ==> contains_text(
                m@,
                args@[i]@,
            )),
{
    pairs_valid(args)?;
    let mut bad: Vec<String> = Vec::new();
    let config = read_fields(args, &mut bad)?;
    if bad.len() > 0 {
        let mut d = String::from_str(" ");
        let mut i: usize = 0;
        while i < bad.len()
            invariant
                i <= bad@.len(),
            decreases bad@.len() - i,
        {
            if i > 0 {
                push_str(&mut d, ", ");
            }
            push_str(&mut d, bad[i].as_str());
            i = i + 1;
        }
        push_str(&mut d, " is neither true nor false");
        return Err(refuse("STARTUP_REFUSED: INVALID_BOOL", d.as_str()));
    }
    let (list, any) = unknown_flags(args);
    if any {
        let mut d = String::from_str(" flags this command does not read: ");
        push_str(&mut d, list.as_str());
        let e = refuse("STARTUP_REFUSED: UNKNOWN_FLAGS", d.as_str());
        proof {
            let head = "STARTUP_REFUSED: UNKNOWN_FLAGS"@ + " flags this command does not read: "@;
            assert(e@ =~= head + list@);
            assert forall|i: int|
                0 <= i < args@.len() && i % 2 == 0 && !known_flag((#[trigger] args@[i])@) implies contains_text(
                e@,
                args@[i]@,
            ) by {
                lemma_unknown_listing_names(args@, args@.len() as int, i);
                let j = choose|j: int| occurs_at(list@, args@[i]@, j);
                let w = head.len() + j;
                assert(e@.subrange(w, w + args@[i]@.len()) =~= list@.subrange(j, j + args@[i]@.len()));
                assert(occurs_at(e@, args@[i]@, w));
            }
        }
        return Err(e);
    }
    check_lane(args, &config)?;
    Ok(config)
}

} // verus!
