//! Verified building blocks for the canonical input-string grammar: decimal
//! and hexadecimal rendering, ASCII case folding, substring search and
//! whitespace trimming, all specified over `Seq<char>` views.

use vstd::prelude::*;

verus! {

// ---------------------------------------------------------------------------
// Decimal rendering
// ---------------------------------------------------------------------------

/// The character for one decimal digit value.
pub open spec fn dec_digit(d: nat) -> char {
    if d == 0 {
        '0'
    } else if d == 1 {
        '1'
    } else if d == 2 {
        '2'
    } else if d == 3 {
        '3'
    } else if d == 4 {
        '4'
    } else if d == 5 {
        '5'
    } else if d == 6 {
        '6'
    } else if d == 7 {
        '7'
    } else if d == 8 {
        '8'
    } else {
        '9'
    }
}

/// The usual base-ten rendering of `n`, most significant digit first,
/// without leading zeroes (`0` renders as "0").
pub open spec fn spec_dec(n: nat) -> Seq<char>
    decreases n,
{
    if n < 10 {
        seq![dec_digit(n)]
    } else {
        spec_dec(n / 10).push(dec_digit(n % 10))
    }
}

fn digit_str(d: u64) -> (r: &'static str)
    requires
        d < 10,
    ensures
        r@ =~= seq![dec_digit(d as nat)],
{
    proof {
        reveal_strlit("0");
        reveal_strlit("1");
        reveal_strlit("2");
        reveal_strlit("3");
        reveal_strlit("4");
        reveal_strlit("5");
        reveal_strlit("6");
        reveal_strlit("7");
        reveal_strlit("8");
        reveal_strlit("9");
    }
    match d {
        0 => "0",
        1 => "1",
        2 => "2",
        3 => "3",
        4 => "4",
        5 => "5",
        6 => "6",
        7 => "7",
        8 => "8",
        _ => "9",
    }
}

/// Renders `n` in base ten.
pub fn dec_string(n: u64) -> (r: String)
    ensures
        r@ == spec_dec(n as nat),
    decreases n,
{
    if n < 10 {
        let r = digit_str(n).to_owned();
        assert(r@ =~= spec_dec(n as nat));
        r
    } else {
        let mut r = dec_string(n / 10);
        r.append(digit_str(n % 10));
        assert(r@ =~= spec_dec(n as nat));
        r
    }
}

// ---------------------------------------------------------------------------
// Hexadecimal rendering
// ---------------------------------------------------------------------------

/// The lowercase character for one hexadecimal digit value.
pub open spec fn hex_digit(d: nat) -> char {
    if d < 10 {
        dec_digit(d)
    } else if d == 10 {
        'a'
    } else if d == 11 {
        'b'
    } else if d == 12 {
        'c'
    } else if d == 13 {
        'd'
    } else if d == 14 {
        'e'
    } else {
        'f'
    }
}

/// Two lowercase hex characters for one byte, high nibble first.
pub open spec fn spec_hex_byte(b: nat) -> Seq<char> {
    seq![hex_digit(b / 16 % 16), hex_digit(b % 16)]
}

/// Four lowercase hex characters for a 16-bit value, high nibble first.
pub open spec fn spec_hex4(n: nat) -> Seq<char> {
    seq![
        hex_digit(n / 4096 % 16),
        hex_digit(n / 256 % 16),
        hex_digit(n / 16 % 16),
        hex_digit(n % 16),
    ]
}

fn hex_digit_str(d: u64) -> (r: &'static str)
    requires
        d < 16,
    ensures
        r@ =~= seq![hex_digit(d as nat)],
{
    if d < 10 {
        digit_str(d)
    } else {
        proof {
            reveal_strlit("a");
            reveal_strlit("b");
            reveal_strlit("c");
            reveal_strlit("d");
            reveal_strlit("e");
            reveal_strlit("f");
        }
        match d {
            10 => "a",
            11 => "b",
            12 => "c",
            13 => "d",
            14 => "e",
            _ => "f",
        }
    }
}

/// Appends the two-character lowercase hex rendering of `b` to `out`.
pub fn append_hex_byte(out: &mut String, b: u8)
    ensures
        final(out)@ == old(out)@ + spec_hex_byte(b as nat),
{
    let d = (b as u64) / 16;
    out.append(hex_digit_str(d));
    out.append(hex_digit_str((b as u64) % 16));
    assert(final(out)@ =~= old(out)@ + spec_hex_byte(b as nat));
}

/// Renders a 16-bit value as exactly four lowercase hex characters.
pub fn hex4_string(n: u16) -> (r: String)
    ensures
        r@ == spec_hex4(n as nat),
{
    let mut r = String::new();
    r.append(hex_digit_str((n as u64) / 4096 % 16));
    r.append(hex_digit_str((n as u64) / 256 % 16));
    r.append(hex_digit_str((n as u64) / 16 % 16));
    r.append(hex_digit_str((n as u64) % 16));
    assert(r@ =~= spec_hex4(n as nat));
    r
}

} // verus!

verus! {

// ---------------------------------------------------------------------------
// Character classes and ASCII case folding
// ---------------------------------------------------------------------------

/// ASCII whitespace, the only whitespace that occurs in binding strings.
pub open spec fn is_space_char(c: char) -> bool {
    c == ' ' || c == '\t' || c == '\n' || c == '\r'
}

/// Whether `c` is an ASCII decimal digit.
pub open spec fn is_dec_digit(c: char) -> bool {
    '0' <= c && c <= '9'
}

/// ASCII lowercase mapping; other characters are unchanged.
pub open spec fn lower_char(c: char) -> char {
    if 'A' <= c && c <= 'Z' {
        ((c as u8) + 32) as char
    } else {
        c
    }
}

/// ASCII uppercase mapping; other characters are unchanged.
pub open spec fn upper_char(c: char) -> char {
    if 'a' <= c && c <= 'z' {
        ((c as u8) - 32) as char
    } else {
        c
    }
}

/// Pointwise ASCII lowercase of a character sequence.
pub open spec fn lower_seq(s: Seq<char>) -> Seq<char> {
    s.map_values(|c: char| lower_char(c))
}

/// Pointwise ASCII uppercase of a character sequence.
pub open spec fn upper_seq(s: Seq<char>) -> Seq<char> {
    s.map_values(|c: char| upper_char(c))
}

/// Relies on `String::push`: appends exactly the given character.
#[verifier::external_body]
pub fn push_char(s: &mut String, c: char)
    ensures
        final(s)@ == old(s)@.push(c),
{
    s.push(c);
}

pub fn to_lower_char(c: char) -> (r: char)
    ensures
        r == lower_char(c),
{
    if 'A' <= c && c <= 'Z' {
        ((c as u8) + 32) as char
    } else {
        c
    }
}

pub fn to_upper_char(c: char) -> (r: char)
    ensures
        r == upper_char(c),
{
    if 'a' <= c && c <= 'z' {
        ((c as u8) - 32) as char
    } else {
        c
    }
}

/// ASCII-lowercases a string.
pub fn lower_string(s: &str) -> (r: String)
    ensures
        r@ == lower_seq(s@),
{
    let len = s.unicode_len();
    let mut r = String::new();
    let mut i: usize = 0;
    while i < len
        invariant
            len == s@.len(),
            i <= len,
            r@ =~= lower_seq(s@.take(i as int)),
        decreases len - i,
    {
        push_char(&mut r, to_lower_char(s.get_char(i)));
        i = i + 1;
        assert(r@ =~= lower_seq(s@.take(i as int)));
    }
    assert(s@.take(len as int) =~= s@);
    r
}

/// ASCII-uppercases a string.
pub fn upper_string(s: &str) -> (r: String)
    ensures
        r@ == upper_seq(s@),
{
    let len = s.unicode_len();
    let mut r = String::new();
    let mut i: usize = 0;
    while i < len
        invariant
            len == s@.len(),
            i <= len,
            r@ =~= upper_seq(s@.take(i as int)),
        decreases len - i,
    {
        push_char(&mut r, to_upper_char(s.get_char(i)));
        i = i + 1;
        assert(r@ =~= upper_seq(s@.take(i as int)));
    }
    assert(s@.take(len as int) =~= s@);
    r
}

} // verus!

verus! {

// ---------------------------------------------------------------------------
// Substring search, prefixes, trimming
// ---------------------------------------------------------------------------

/// `n` occurs as a contiguous subsequence of `h`.
pub open spec fn spec_contains(h: Seq<char>, n: Seq<char>) -> bool {
    exists|i: int| 0 <= i <= h.len() - n.len() && #[trigger] h.subrange(i, i + n.len()) == n
}

/// `p` is a prefix of `s`.
pub open spec fn spec_starts_with(s: Seq<char>, p: Seq<char>) -> bool {
    s.len() >= p.len() && s.subrange(0, p.len() as int) == p
}

/// `p` is a suffix of `s`.
pub open spec fn spec_ends_with(s: Seq<char>, p: Seq<char>) -> bool {
    s.len() >= p.len() && s.subrange(s.len() - p.len(), s.len() as int) == p
}

pub fn matches_at(h: &str, n: &str, at: usize) -> (r: bool)
    requires
        at + n@.len() <= h@.len(),
    ensures
        r == (h@.subrange(at as int, at + n@.len()) == n@),
{
    let h_len = h.unicode_len();
    let n_len = n.unicode_len();
    let mut j: usize = 0;
    while j < n_len
        invariant
            n_len == n@.len(),
            h_len == h@.len(),
            at + n_len <= h_len,
            j <= n_len,
            forall|k: int| 0 <= k < j ==> h@[at + k] == n@[k],
        decreases n_len - j,
    {
        if h.get_char(at + j) != n.get_char(j) {
            assert(h@.subrange(at as int, at + n@.len())[j as int] != n@[j as int]);
            return false;
        }
        j = j + 1;
    }
    assert(h@.subrange(at as int, at + n@.len()) =~= n@);
    true
}

/// Substring search: whether `n` occurs anywhere in `h`.
pub fn contains_str(h: &str, n: &str) -> (r: bool)
    ensures
        r == spec_contains(h@, n@),
{
    let h_len = h.unicode_len();
    let n_len = n.unicode_len();
    if n_len > h_len {
        assert(!spec_contains(h@, n@));
        return false;
    }
    if n_len == 0 {
        assert(spec_contains(h@, n@)) by {
            assert(h@.subrange(0, 0 + n@.len() as int) =~= n@);
        }
        return true;
    }
    let mut i: usize = 0;
    while i <= h_len - n_len
        invariant
            h_len == h@.len(),
            n_len == n@.len(),
            1 <= n_len <= h_len,
            i <= h_len - n_len + 1,
            forall|k: int| 0 <= k < i ==> #[trigger] h@.subrange(k, k + n@.len()) != n@,
        decreases h_len - n_len + 1 - i,
    {
        if matches_at(h, n, i) {
            return true;
        }
        i = i + 1;
    }
    false
}

/// Whether `s` starts with `p`.
pub fn starts_with_str(s: &str, p: &str) -> (r: bool)
    ensures
        r == spec_starts_with(s@, p@),
{
    let s_len = s.unicode_len();
    let p_len = p.unicode_len();
    if p_len > s_len {
        return false;
    }
    matches_at(s, p, 0)
}

/// Whether `s` ends with `p`.
pub fn ends_with_str(s: &str, p: &str) -> (r: bool)
    ensures
        r == spec_ends_with(s@, p@),
{
    let s_len = s.unicode_len();
    let p_len = p.unicode_len();
    if p_len > s_len {
        return false;
    }
    matches_at(s, p, s_len - p_len)
}

/// Whether every character of `s` is ASCII whitespace; true for the empty
/// string.  This is exactly "`s` trims to the empty string".
pub open spec fn spec_all_spaces(s: Seq<char>) -> bool {
    forall|i: int| 0 <= i < s.len() ==> is_space_char(s[i])
}

pub fn all_spaces(s: &str) -> (r: bool)
    ensures
        r == spec_all_spaces(s@),
{
    let len = s.unicode_len();
    let mut i: usize = 0;
    while i < len
        invariant
            len == s@.len(),
            i <= len,
            forall|k: int| 0 <= k < i ==> is_space_char(s@[k]),
        decreases len - i,
    {
        let c = s.get_char(i);
        if !(c == ' ' || c == '\t' || c == '\n' || c == '\r') {
            return false;
        }
        i = i + 1;
    }
    true
}

/// `s` without its leading ASCII whitespace.
pub open spec fn spec_trim_front(s: Seq<char>) -> Seq<char>
    decreases s.len(),
{
    if s.len() > 0 && is_space_char(s[0]) {
        spec_trim_front(s.drop_first())
    } else {
        s
    }
}

/// `s` without its trailing ASCII whitespace.
pub open spec fn spec_trim_back(s: Seq<char>) -> Seq<char>
    decreases s.len(),
{
    if s.len() > 0 && is_space_char(s.last()) {
        spec_trim_back(s.drop_last())
    } else {
        s
    }
}

/// `s` with leading and trailing ASCII whitespace removed.  All-space input
/// trims to the empty sequence.
pub open spec fn spec_trim(s: Seq<char>) -> Seq<char> {
    spec_trim_back(spec_trim_front(s))
}

/// A trimmed sequence trims to itself.
pub proof fn lemma_trim_idempotent(s: Seq<char>)
    ensures
        spec_trim(spec_trim(s)) == spec_trim(s),
{
    lemma_trim_front_no_leading(s);
    let f = spec_trim_front(s);
    lemma_trim_back_no_trailing(f);
    let t = spec_trim_back(f);
    lemma_trim_back_keeps_first(f);
    if t.len() > 0 {
        assert(!is_space_char(t[0]));
    }
    assert(spec_trim_front(t) == t);
    assert(spec_trim_back(t) == t);
}

/// Front-trimming leaves no leading space.
proof fn lemma_trim_front_no_leading(s: Seq<char>)
    ensures
        spec_trim_front(s).len() > 0 ==> !is_space_char(spec_trim_front(s)[0]),
    decreases s.len(),
{
    if s.len() > 0 && is_space_char(s[0]) {
        lemma_trim_front_no_leading(s.drop_first());
    }
}

/// Back-trimming leaves no trailing space.
proof fn lemma_trim_back_no_trailing(s: Seq<char>)
    ensures
        spec_trim_back(s).len() > 0 ==> !is_space_char(spec_trim_back(s).last()),
    decreases s.len(),
{
    if s.len() > 0 && is_space_char(s.last()) {
        lemma_trim_back_no_trailing(s.drop_last());
    }
}

/// Back-trimming keeps the first character of a nonempty result.
proof fn lemma_trim_back_keeps_first(s: Seq<char>)
    ensures
        spec_trim_back(s).len() > 0 ==> spec_trim_back(s)[0] == s[0],
    decreases s.len(),
{
    if s.len() > 0 && is_space_char(s.last()) {
        lemma_trim_back_keeps_first(s.drop_last());
    }
}

/// Dropping `a` leading spaces front-trims to the remainder.
proof fn lemma_trim_front_skip(s: Seq<char>, a: int)
    requires
        0 <= a <= s.len(),
        forall|k: int| 0 <= k < a ==> is_space_char(s[k]),
        a < s.len() ==> !is_space_char(s[a]),
    ensures
        spec_trim_front(s) == s.skip(a),
    decreases a,
{
    if a == 0 {
        assert(s.skip(0) =~= s);
    } else {
        assert(s.drop_first() =~= s.skip(1));
        assert(forall|k: int| 0 <= k < a - 1 ==> is_space_char(#[trigger] s.skip(1)[k]));
        lemma_trim_front_skip(s.skip(1), a - 1);
        assert(s.skip(1).skip(a - 1) =~= s.skip(a));
    }
}

/// With the last non-space at `b`, back-trimming keeps the first `b + 1`
/// characters.
proof fn lemma_trim_back_take(s: Seq<char>, b: int)
    requires
        0 <= b < s.len(),
        !is_space_char(s[b]),
        forall|k: int| b < k < s.len() ==> is_space_char(s[k]),
    ensures
        spec_trim_back(s) == s.take(b + 1),
    decreases s.len(),
{
    if b + 1 == s.len() {
        assert(s.take(b + 1) =~= s);
    } else {
        assert(is_space_char(s.last()));
        assert(s.drop_last() =~= s.take(s.len() - 1));
        assert(forall|k: int| b < k < s.len() - 1 ==> is_space_char(#[trigger] s.take(s.len() - 1)[k]));
        lemma_trim_back_take(s.take(s.len() - 1), b);
        assert(s.take(s.len() - 1).take(b + 1) =~= s.take(b + 1));
    }
}

/// All-space input trims to the empty sequence.
proof fn lemma_trim_front_all_spaces(s: Seq<char>)
    requires
        spec_all_spaces(s),
    ensures
        spec_trim_front(s) == Seq::<char>::empty(),
    decreases s.len(),
{
    if s.len() > 0 {
        assert(s.drop_first() =~= s.skip(1));
        assert(forall|k: int| 0 <= k < s.skip(1).len() ==> is_space_char(#[trigger] s.skip(1)[k]));
        lemma_trim_front_all_spaces(s.skip(1));
    } else {
        assert(s =~= Seq::<char>::empty());
    }
}

fn first_non_space(s: &str) -> (r: usize)
    ensures
        r <= s@.len(),
        forall|k: int| 0 <= k < r ==> is_space_char(s@[k]),
        r < s@.len() ==> !is_space_char(s@[r as int]),
{
    let len = s.unicode_len();
    let mut a: usize = 0;
    while a < len
        invariant
            len == s@.len(),
            a <= len,
            forall|k: int| 0 <= k < a ==> is_space_char(s@[k]),
        decreases len - a,
    {
        let c = s.get_char(a);
        if !(c == ' ' || c == '\t' || c == '\n' || c == '\r') {
            return a;
        }
        a = a + 1;
    }
    a
}

fn last_non_space(s: &str, lo: usize) -> (r: usize)
    requires
        lo < s@.len(),
        !is_space_char(s@[lo as int]),
    ensures
        lo <= r < s@.len(),
        !is_space_char(s@[r as int]),
        forall|k: int| r < k < s@.len() ==> is_space_char(s@[k]),
{
    let len = s.unicode_len();
    let mut b: usize = len - 1;
    while b > lo
        invariant
            len == s@.len(),
            lo <= b < len,
            !is_space_char(s@[lo as int]),
            forall|k: int| b < k < len ==> is_space_char(s@[k]),
        decreases b,
    {
        let c = s.get_char(b);
        if !(c == ' ' || c == '\t' || c == '\n' || c == '\r') {
            return b;
        }
        b = b - 1;
    }
    b
}

/// Trims leading and trailing ASCII whitespace.
pub fn trim_str<'a>(s: &'a str) -> (r: &'a str)
    ensures
        r@ == spec_trim(s@),
{
    let len = s.unicode_len();
    let a = first_non_space(s);
    if a == len {
        assert(spec_all_spaces(s@));
        let r = s.substring_char(0, 0);
        proof {
            lemma_trim_front_all_spaces(s@);
            assert(spec_trim_back(Seq::<char>::empty()) == Seq::<char>::empty());
            assert(r@ =~= spec_trim(s@));
        }
        return r;
    }
    assert(!is_space_char(s@[a as int]));
    let b = last_non_space(s, a);
    let r = s.substring_char(a, b + 1);
    proof {
        lemma_trim_front_skip(s@, a as int);
        let t = s@.skip(a as int);
        assert(!is_space_char(t[b - a]));
        assert(forall|k: int| b - a < k < t.len() ==> is_space_char(t[k]));
        lemma_trim_back_take(t, b - a);
        assert(t.take(b - a + 1) =~= s@.subrange(a as int, b + 1));
        assert(r@ =~= spec_trim(s@));
    }
    r
}

/// The index of the first occurrence of `c` in `s`, if any.
pub fn find_char(s: &str, c: char) -> (r: Option<usize>)
    ensures
        match r {
            Some(i) => i < s@.len() && s@[i as int] == c
                && forall|k: int| 0 <= k < i ==> s@[k] != c,
            None => forall|k: int| 0 <= k < s@.len() ==> s@[k] != c,
        },
{
    let len = s.unicode_len();
    let mut i: usize = 0;
    while i < len
        invariant
            len == s@.len(),
            i <= len,
            forall|k: int| 0 <= k < i ==> s@[k] != c,
        decreases len - i,
    {
        if s.get_char(i) == c {
            return Some(i);
        }
        i = i + 1;
    }
    None
}

} // verus!

verus! {

// ---------------------------------------------------------------------------
// Decimal and hexadecimal parsing
// ---------------------------------------------------------------------------

/// Whether every character of `s` is an ASCII decimal digit.
pub open spec fn all_dec_digits(s: Seq<char>) -> bool {
    forall|i: int| 0 <= i < s.len() ==> is_dec_digit(s[i])
}

/// The numeric value of one ASCII decimal digit.
pub open spec fn dec_val(c: char) -> nat {
    ((c as int) - ('0' as int)) as nat
}

/// The base-ten value of a digit sequence (0 for the empty sequence).
pub open spec fn spec_dec_value(s: Seq<char>) -> nat
    decreases s.len(),
{
    if s.len() == 0 {
        0
    } else {
        spec_dec_value(s.drop_last()) * 10 + dec_val(s.last())
    }
}

/// A digit string's value only grows as more digits are read.
proof fn lemma_dec_value_prefix(s: Seq<char>, i: int)
    requires
        0 <= i <= s.len(),
    ensures
        spec_dec_value(s.take(i)) <= spec_dec_value(s),
    decreases s.len() - i,
{
    if i < s.len() {
        assert(s.take(i + 1).drop_last() =~= s.take(i));
        assert(spec_dec_value(s.take(i)) <= spec_dec_value(s.take(i + 1)));
        lemma_dec_value_prefix(s, i + 1);
        assert(s.take(s.len() as int) =~= s);
    } else {
        assert(s.take(i) =~= s);
    }
}

/// Parses a non-empty all-digit string as a `u32`; `None` on any other
/// character, on the empty string, and on values above `u32::MAX`.
pub fn parse_dec_u32(s: &str) -> (r: Option<u32>)
    ensures
        match r {
            Some(v) => s@.len() > 0 && all_dec_digits(s@) && v as nat == spec_dec_value(s@),
            None => s@.len() == 0 || !all_dec_digits(s@) || spec_dec_value(s@) > u32::MAX,
        },
{
    let len = s.unicode_len();
    if len == 0 {
        return None;
    }
    let mut acc: u64 = 0;
    let mut i: usize = 0;
    while i < len
        invariant
            len == s@.len(),
            i <= len,
            forall|k: int| 0 <= k < i ==> is_dec_digit(s@[k]),
            acc as nat == spec_dec_value(s@.take(i as int)),
            acc <= u32::MAX,
        decreases len - i,
    {
        let c = s.get_char(i);
        if !('0' <= c && c <= '9') {
            return None;
        }
        let d = (c as u32) - ('0' as u32);
        acc = acc * 10 + (d as u64);
        i = i + 1;
        assert(s@.take(i as int).drop_last() =~= s@.take(i as int - 1));
        if acc > u32::MAX as u64 {
            proof {
                lemma_dec_value_prefix(s@, i as int);
            }
            return None;
        }
    }
    assert(s@.take(len as int) =~= s@);
    Some(acc as u32)
}

/// Whether `c` is an ASCII hexadecimal digit (either case).
pub open spec fn is_hex_digit_char(c: char) -> bool {
    is_dec_digit(c) || ('a' <= c && c <= 'f') || ('A' <= c && c <= 'F')
}

/// The numeric value of one hexadecimal digit (either case).
pub open spec fn hex_val(c: char) -> nat {
    if is_dec_digit(c) {
        dec_val(c)
    } else if 'a' <= c && c <= 'f' {
        ((c as int) - ('a' as int) + 10) as nat
    } else {
        ((c as int) - ('A' as int) + 10) as nat
    }
}

/// Whether every character of `s` is a hexadecimal digit.
pub open spec fn all_hex_digits(s: Seq<char>) -> bool {
    forall|i: int| 0 <= i < s.len() ==> is_hex_digit_char(s[i])
}

/// The base-sixteen value of a hex digit sequence (0 for the empty sequence).
pub open spec fn spec_hex_value(s: Seq<char>) -> nat
    decreases s.len(),
{
    if s.len() == 0 {
        0
    } else {
        spec_hex_value(s.drop_last()) * 16 + hex_val(s.last())
    }
}

proof fn lemma_hex_value_prefix(s: Seq<char>, i: int)
    requires
        0 <= i <= s.len(),
    ensures
        spec_hex_value(s.take(i)) <= spec_hex_value(s),
    decreases s.len() - i,
{
    if i < s.len() {
        assert(s.take(i + 1).drop_last() =~= s.take(i));
        assert(spec_hex_value(s.take(i)) <= spec_hex_value(s.take(i + 1)));
        lemma_hex_value_prefix(s, i + 1);
        assert(s.take(s.len() as int) =~= s);
    } else {
        assert(s.take(i) =~= s);
    }
}

/// Parses a non-empty hex-digit string as a `u32`; `None` on any other
/// character, on the empty string, and on values above `u32::MAX`.
pub fn parse_hex_u32(s: &str) -> (r: Option<u32>)
    ensures
        match r {
            Some(v) => s@.len() > 0 && all_hex_digits(s@) && v as nat == spec_hex_value(s@),
            None => s@.len() == 0 || !all_hex_digits(s@) || spec_hex_value(s@) > u32::MAX,
        },
{
    let len = s.unicode_len();
    if len == 0 {
        return None;
    }
    let mut acc: u64 = 0;
    let mut i: usize = 0;
    while i < len
        invariant
            len == s@.len(),
            i <= len,
            forall|k: int| 0 <= k < i ==> is_hex_digit_char(s@[k]),
            acc as nat == spec_hex_value(s@.take(i as int)),
            acc <= u32::MAX,
        decreases len - i,
    {
        let c = s.get_char(i);
        let d: u32 = if '0' <= c && c <= '9' {
            (c as u32) - ('0' as u32)
        } else if 'a' <= c && c <= 'f' {
            (c as u32) - ('a' as u32) + 10
        } else if 'A' <= c && c <= 'F' {
            (c as u32) - ('A' as u32) + 10
        } else {
            return None;
        };
        acc = acc * 16 + (d as u64);
        i = i + 1;
        assert(s@.take(i as int).drop_last() =~= s@.take(i as int - 1));
        if acc > u32::MAX as u64 {
            proof {
                lemma_hex_value_prefix(s@, i as int);
            }
            return None;
        }
    }
    assert(s@.take(len as int) =~= s@);
    Some(acc as u32)
}

} // verus!

verus! {

/// Character-wise string equality (equality of the `Seq<char>` views).
pub fn str_eq(a: &str, b: &str) -> (r: bool)
    ensures
        r == (a@ == b@),
{
    let a_len = a.unicode_len();
    let b_len = b.unicode_len();
    if a_len != b_len {
        return false;
    }
    let mut i: usize = 0;
    while i < a_len
        invariant
            a_len == a@.len(),
            b_len == b@.len(),
            a_len == b_len,
            i <= a_len,
            forall|k: int| 0 <= k < i ==> a@[k] == b@[k],
        decreases a_len - i,
    {
        if a.get_char(i) != b.get_char(i) {
            return false;
        }
        i = i + 1;
    }
    assert(a@ =~= b@);
    true
}

/// Clones a vector of string pairs, field by field, preserving the views.
pub fn clone_string_pairs(v: &Vec<(String, String)>) -> (r: Vec<(String, String)>)
    ensures
        r@ == v@,
{
    let mut r: Vec<(String, String)> = Vec::new();
    let n = v.len();
    let mut i: usize = 0;
    while i < n
        invariant
            n == v@.len(),
            i <= n,
            r@ =~= v@.take(i as int),
        decreases n - i,
    {
        let a = v[i].0.clone();
        let b = v[i].1.clone();
        assert((a, b) == v@[i as int]);
        r.push((a, b));
        i = i + 1;
        assert(r@ =~= v@.take(i as int));
    }
    assert(v@.take(n as int) =~= v@);
    assert(r@ =~= v@);
    r
}

} // verus!

verus! {

/// Clones a vector of strings, preserving the views.
pub fn clone_strings(v: &Vec<String>) -> (r: Vec<String>)
    ensures
        r@ == v@,
{
    let mut r: Vec<String> = Vec::new();
    let n = v.len();
    let mut i: usize = 0;
    while i < n
        invariant
            n == v@.len(),
            i <= n,
            r@ =~= v@.take(i as int),
        decreases n - i,
    {
        let s = v[i].clone();
        assert(s == v@[i as int]);
        r.push(s);
        i = i + 1;
        assert(r@ =~= v@.take(i as int));
    }
    assert(v@.take(n as int) =~= v@);
    assert(r@ =~= v@);
    r
}

/// Clones an optional string, preserving the value.
pub fn clone_opt_string(v: &Option<String>) -> (r: Option<String>)
    ensures
        r == *v,
{
    match v {
        Some(s) => Some(s.clone()),
        None => None,
    }
}

} // verus!

verus! {

/// The uppercase character for one hexadecimal digit value.
pub open spec fn hex_digit_upper(d: nat) -> char {
    if d < 10 {
        dec_digit(d)
    } else if d == 10 {
        'A'
    } else if d == 11 {
        'B'
    } else if d == 12 {
        'C'
    } else if d == 13 {
        'D'
    } else if d == 14 {
        'E'
    } else {
        'F'
    }
}

/// Four uppercase hex characters for a 16-bit value, high nibble first.
pub open spec fn spec_hex4_upper(n: nat) -> Seq<char> {
    seq![
        hex_digit_upper(n / 4096 % 16),
        hex_digit_upper(n / 256 % 16),
        hex_digit_upper(n / 16 % 16),
        hex_digit_upper(n % 16),
    ]
}

fn hex_digit_upper_str(d: u64) -> (r: &'static str)
    requires
        d < 16,
    ensures
        r@ =~= seq![hex_digit_upper(d as nat)],
{
    if d < 10 {
        digit_str(d)
    } else {
        proof {
            reveal_strlit("A");
            reveal_strlit("B");
            reveal_strlit("C");
            reveal_strlit("D");
            reveal_strlit("E");
            reveal_strlit("F");
        }
        match d {
            10 => "A",
            11 => "B",
            12 => "C",
            13 => "D",
            14 => "E",
            _ => "F",
        }
    }
}

/// Renders a 16-bit value as exactly four uppercase hex characters.
pub fn hex4_upper_string(n: u16) -> (r: String)
    ensures
        r@ == spec_hex4_upper(n as nat),
{
    let mut r = String::new();
    r.append(hex_digit_upper_str((n as u64) / 4096 % 16));
    r.append(hex_digit_upper_str((n as u64) / 256 % 16));
    r.append(hex_digit_upper_str((n as u64) / 16 % 16));
    r.append(hex_digit_upper_str((n as u64) % 16));
    assert(r@ =~= spec_hex4_upper(n as nat));
    r
}

} // verus!

verus! {

/// `s` split at every occurrence of `sep`: the pieces in order, separators
/// removed.  A string without the separator is one piece; `n` separators
/// give `n + 1` pieces.
pub open spec fn spec_split(s: Seq<char>, sep: char) -> Seq<Seq<char>>
    decreases s.len(),
{
    if s.len() == 0 {
        seq![Seq::empty()]
    } else if s[0] == sep {
        seq![Seq::<char>::empty()] + spec_split(s.drop_first(), sep)
    } else {
        let r = spec_split(s.drop_first(), sep);
        seq![seq![s[0]] + r[0]] + r.drop_first()
    }
}

/// A split always yields at least one piece.
pub proof fn lemma_split_nonempty(s: Seq<char>, sep: char)
    ensures
        spec_split(s, sep).len() >= 1,
    decreases s.len(),
{
    if s.len() > 0 {
        lemma_split_nonempty(s.drop_first(), sep);
    }
}

/// When the first separator stands at `i`, the split is the piece before it
/// followed by the split of what comes after it.
pub proof fn lemma_split_at_first(s: Seq<char>, sep: char, i: int)
    requires
        0 <= i < s.len(),
        s[i] == sep,
        forall|k: int| 0 <= k < i ==> s[k] != sep,
    ensures
        spec_split(s, sep) == seq![s.take(i)] + spec_split(s.skip(i + 1), sep),
    decreases i,
{
    lemma_split_nonempty(s.drop_first(), sep);
    if i == 0 {
        assert(s.take(0) =~= Seq::<char>::empty());
        assert(s.drop_first() =~= s.skip(1));
        assert(spec_split(s, sep) =~= seq![s.take(0)] + spec_split(s.skip(1), sep));
    } else {
        let d = s.drop_first();
        assert(d[i - 1] == sep);
        assert(forall|k: int| 0 <= k < i - 1 ==> d[k] != sep);
        lemma_split_at_first(d, sep, i - 1);
        let r = spec_split(d, sep);
        assert(s[0] != sep);
        assert(spec_split(s, sep) == seq![seq![s[0]] + r[0]] + r.drop_first());
        assert(r == seq![d.take(i - 1)] + spec_split(d.skip(i), sep));
        assert(r[0] == d.take(i - 1));
        assert(d.skip(i) =~= s.skip(i + 1));
        assert(seq![s[0]] + d.take(i - 1) =~= s.take(i));
        assert(r.drop_first() =~= spec_split(d.skip(i), sep));
        assert(spec_split(s, sep) =~= seq![s.take(i)] + spec_split(s.skip(i + 1), sep));
    }
}

/// When `sep` does not occur in `s`, the split is `s` alone.
pub proof fn lemma_split_none(s: Seq<char>, sep: char)
    requires
        forall|k: int| 0 <= k < s.len() ==> s[k] != sep,
    ensures
        spec_split(s, sep) == seq![s],
    decreases s.len(),
{
    if s.len() == 0 {
        assert(s =~= Seq::<char>::empty());
        assert(spec_split(s, sep) =~= seq![s]);
    } else {
        lemma_split_none(s.drop_first(), sep);
        let r = spec_split(s.drop_first(), sep);
        assert(s[0] != sep);
        assert(spec_split(s, sep) == seq![seq![s[0]] + r[0]] + r.drop_first());
        assert(r[0] == s.drop_first());
        assert(seq![s[0]] + s.drop_first() =~= s);
        assert(r.drop_first() =~= Seq::<Seq<char>>::empty());
        assert(seq![s] + Seq::<Seq<char>>::empty() =~= seq![s]);
        assert(spec_split(s, sep) == seq![s]);
    }
}

/// Splits a string at every occurrence of `sep`.
pub fn split_char(s: &str, sep: char) -> (r: Vec<String>)
    ensures
        r@.len() == spec_split(s@, sep).len(),
        forall|i: int| 0 <= i < r@.len() ==> (#[trigger] r@[i])@ == spec_split(s@, sep)[i],
    decreases s@.len(),
{
    match find_char(s, sep) {
        None => {
            let mut r: Vec<String> = Vec::new();
            r.push(s.to_owned());
            proof {
                lemma_split_none(s@, sep);
            }
            r
        },
        Some(i) => {
            proof {
                lemma_split_at_first(s@, sep, i as int);
            }
            let len = s.unicode_len();
            let head = s.substring_char(0, i);
            let tail = s.substring_char(i + 1, len);
            assert(head@ == s@.take(i as int));
            assert(tail@ =~= s@.skip(i as int + 1));
            let mut r: Vec<String> = Vec::new();
            r.push(head.to_owned());
            let mut rest = split_char(tail, sep);
            let ghost rest0 = rest@;
            r.append(&mut rest);
            proof {
                assert forall|k: int| 0 <= k < r@.len() implies (#[trigger] r@[k])@ == spec_split(
                    s@,
                    sep,
                )[k] by {
                    if k > 0 {
                        assert(r@[k] == rest0[k - 1]);
                        assert(rest0[k - 1]@ == spec_split(tail@, sep)[k - 1]);
                        assert(spec_split(s@, sep)[k] == spec_split(s@.skip(i as int + 1), sep)[k
                            - 1]);
                    }
                }
            }
            r
        },
    }
}

} // verus!

verus! {

/// `s` with every leading repetition of `p` removed (unchanged when `p` is
/// empty).
pub open spec fn spec_strip_prefix_all(s: Seq<char>, p: Seq<char>) -> Seq<char>
    decreases s.len(),
{
    if p.len() > 0 && spec_starts_with(s, p) {
        spec_strip_prefix_all(s.skip(p.len() as int), p)
    } else {
        s
    }
}

/// Strips every leading repetition of `p`.
pub fn strip_prefix_all<'a>(s: &'a str, p: &str) -> (r: &'a str)
    ensures
        r@ == spec_strip_prefix_all(s@, p@),
{
    let plen = p.unicode_len();
    let mut t: &str = s;
    let mut len = t.unicode_len();
    while plen > 0 && starts_with_str(t, p)
        invariant
            plen == p@.len(),
            len == t@.len(),
            spec_strip_prefix_all(t@, p@) == spec_strip_prefix_all(s@, p@),
        decreases len,
    {
        let rest = t.substring_char(plen, len);
        assert(rest@ =~= t@.skip(p@.len() as int));
        t = rest;
        len = len - plen;
    }
    t
}

/// `s` with every non-overlapping occurrence of `pat` replaced by `rep`,
/// left to right (unchanged when `pat` is empty).
pub open spec fn spec_replace_all(s: Seq<char>, pat: Seq<char>, rep: Seq<char>) -> Seq<char>
    decreases s.len(),
{
    if pat.len() == 0 || s.len() < pat.len() {
        s
    } else if s.take(pat.len() as int) == pat {
        rep + spec_replace_all(s.skip(pat.len() as int), pat, rep)
    } else {
        seq![s[0]] + spec_replace_all(s.drop_first(), pat, rep)
    }
}

/// Replaces every non-overlapping occurrence of `pat` by `rep`, left to
/// right.
pub fn replace_all(s: &str, pat: &str, rep: &str) -> (r: String)
    ensures
        r@ == spec_replace_all(s@, pat@, rep@),
{
    let len = s.unicode_len();
    let plen = pat.unicode_len();
    if plen == 0 {
        return s.to_owned();
    }
    let mut out = String::new();
    let mut i: usize = 0;
    proof {
        assert(s@.skip(0) =~= s@);
        assert(Seq::<char>::empty() + spec_replace_all(s@, pat@, rep@) =~= spec_replace_all(
            s@,
            pat@,
            rep@,
        ));
    }
    while i < len
        invariant
            len == s@.len(),
            plen == pat@.len(),
            plen > 0,
            i <= len,
            spec_replace_all(s@, pat@, rep@) == out@ + spec_replace_all(
                s@.skip(i as int),
                pat@,
                rep@,
            ),
        decreases len - i,
    {
        let ghost rem = s@.skip(i as int);
        proof {
            assert(rem[0] == s@[i as int]);
            assert(rem.drop_first() =~= s@.skip(i as int + 1));
        }
        if len - i >= plen && matches_at(s, pat, i) {
            proof {
                assert(rem.take(pat@.len() as int) =~= s@.subrange(i as int, i + pat@.len()));
                assert(rem.skip(pat@.len() as int) =~= s@.skip(i as int + plen));
            }
            out.append(rep);
            i = i + plen;
        } else {
            proof {
                if rem.len() >= pat@.len() {
                    assert(rem.take(pat@.len() as int) =~= s@.subrange(
                        i as int,
                        i + pat@.len(),
                    ));
                }
            }
            push_char(&mut out, s.get_char(i));
            i = i + 1;
        }
    }
    proof {
        assert(s@.skip(len as int) =~= Seq::<char>::empty());
        assert(out@ + Seq::<char>::empty() =~= out@);
    }
    out
}

} // verus!

verus! {

/// Strict lexicographic order on character sequences, by code point.
pub open spec fn spec_str_lt(a: Seq<char>, b: Seq<char>) -> bool
    decreases a.len(),
{
    if b.len() == 0 {
        false
    } else if a.len() == 0 {
        true
    } else if a[0] != b[0] {
        (a[0] as int) < (b[0] as int)
    } else {
        spec_str_lt(a.drop_first(), b.drop_first())
    }
}

/// Nothing is lexicographically below itself.
pub proof fn lemma_str_lt_irreflexive(a: Seq<char>)
    ensures
        !spec_str_lt(a, a),
    decreases a.len(),
{
    if a.len() > 0 {
        lemma_str_lt_irreflexive(a.drop_first());
    }
}

/// Lexicographic order is transitive.
pub proof fn lemma_str_lt_transitive(a: Seq<char>, b: Seq<char>, c: Seq<char>)
    requires
        spec_str_lt(a, b),
        spec_str_lt(b, c),
    ensures
        spec_str_lt(a, c),
    decreases a.len() + b.len() + c.len(),
{
    if c.len() > 0 && a.len() > 0 && b.len() > 0 {
        if a[0] == b[0] && b[0] == c[0] {
            lemma_str_lt_transitive(a.drop_first(), b.drop_first(), c.drop_first());
        }
    }
}

/// Compares two strings lexicographically by code point.
pub fn str_lt(a: &str, b: &str) -> (r: bool)
    ensures
        r == spec_str_lt(a@, b@),
{
    let alen = a.unicode_len();
    let blen = b.unicode_len();
    let mut i: usize = 0;
    proof {
        assert(a@.skip(0) =~= a@);
        assert(b@.skip(0) =~= b@);
    }
    while i < alen && i < blen
        invariant
            alen == a@.len(),
            blen == b@.len(),
            i <= alen,
            i <= blen,
            spec_str_lt(a@, b@) == spec_str_lt(a@.skip(i as int), b@.skip(i as int)),
        decreases alen - i,
    {
        proof {
            assert(a@.skip(i as int)[0] == a@[i as int]);
            assert(b@.skip(i as int)[0] == b@[i as int]);
            assert(a@.skip(i as int).drop_first() =~= a@.skip(i as int + 1));
            assert(b@.skip(i as int).drop_first() =~= b@.skip(i as int + 1));
        }
        let ca = a.get_char(i);
        let cb = b.get_char(i);
        if ca != cb {
            return (ca as u32) < (cb as u32);
        }
        i = i + 1;
    }
    proof {
        if i >= alen {
            assert(a@.skip(i as int) =~= Seq::<char>::empty());
        }
        if i >= blen {
            assert(b@.skip(i as int) =~= Seq::<char>::empty());
        }
    }
    i >= alen && i < blen
}

} // verus!
