//! Character-level text helpers: decimal formatting and parsing, JSON
//! string escaping, and substring search. These are the building blocks of
//! the timestamp format and of the framing and checking of request and
//! response bodies.

use vstd::prelude::*;

verus! {

/// The decimal digit character for `d` (0 through 9).
pub open spec fn digit_char(d: int) -> char {
    if d == 0 {
        '0'
    } else if d == 1 {
        '1'
    } else if d == 2 {
        '2'
    } else if d == 3 {
        '3'
    } else if d == 4 {
        '4'
    } else if d == 5 {
        '5'
    } else if d == 6 {
        '6'
    } else if d == 7 {
        '7'
    } else if d == 8 {
        '8'
    } else {
        '9'
    }
}

/// The lower-case hexadecimal digit character for `d` (0 through 15).
pub open spec fn hex_char(d: int) -> char {
    if d < 10 {
        digit_char(d)
    } else if d == 10 {
        'a'
    } else if d == 11 {
        'b'
    } else if d == 12 {
        'c'
    } else if d == 13 {
        'd'
    } else if d == 14 {
        'e'
    } else {
        'f'
    }
}

/// The one-character string for a decimal digit.
pub fn digit_str(d: u64) -> (r: &'static str)
    requires
        d < 10,
    ensures
        r@ =~= seq![digit_char(d as int)],
{
    proof {
        reveal_strlit("0");
        reveal_strlit("1");
        reveal_strlit("2");
        reveal_strlit("3");
        reveal_strlit("4");
        reveal_strlit("5");
        reveal_strlit("6");
        reveal_strlit("7");
        reveal_strlit("8");
        reveal_strlit("9");
    }
    match d {
        0 => "0",
        1 => "1",
        2 => "2",
        3 => "3",
        4 => "4",
        5 => "5",
        6 => "6",
        7 => "7",
        8 => "8",
        _ => "9",
    }
}

/// The one-character string for a hexadecimal digit.
pub fn hex_str(d: u32) -> (r: &'static str)
    requires
        d < 16,
    ensures
        r@ =~= seq![hex_char(d as int)],
{
    if d < 10 {
        digit_str(d as u64)
    } else {
        proof {
            reveal_strlit("a");
            reveal_strlit("b");
            reveal_strlit("c");
            reveal_strlit("d");
            reveal_strlit("e");
            reveal_strlit("f");
        }
        match d {
            10 => "a",
            11 => "b",
            12 => "c",
            13 => "d",
            14 => "e",
            _ => "f",
        }
    }
}

/// The decimal digits of a non-negative number, most significant first, no
/// leading zeros (a single zero for 0).
pub open spec fn spec_dec_digits(n: int) -> Seq<char>
    recommends
        n >= 0,
    decreases n,
{
    if n < 10 {
        seq![digit_char(n)]
    } else {
        spec_dec_digits(n / 10).push(digit_char(n % 10))
    }
}

/// Formats a number in decimal; exactly `spec_dec_digits`.
pub fn u64_to_dec(n: u64) -> (r: String)
    ensures
        r@ == spec_dec_digits(n as int),
    decreases n,
{
    if n < 10 {
        String::from_str(digit_str(n))
    } else {
        let mut s = u64_to_dec(n / 10);
        s.append(digit_str(n % 10));
        proof {
            assert(spec_dec_digits(n as int) =~= spec_dec_digits(n as int / 10).push(
                digit_char(n as int % 10),
            ));
            assert(s@ =~= spec_dec_digits(n as int / 10) + seq![digit_char(n as int % 10)]);
        }
        s
    }
}

/// A signed number in decimal: a minus sign for negatives, then the
/// digits.
pub open spec fn spec_i64_digits(n: int) -> Seq<char> {
    if n < 0 {
        seq!['-'] + spec_dec_digits(-n)
    } else {
        spec_dec_digits(n)
    }
}

/// Formats a signed number in decimal; exactly `spec_i64_digits`.
pub fn i64_to_dec(n: i64) -> (r: String)
    ensures
        r@ == spec_i64_digits(n as int),
{
    if n >= 0 {
        u64_to_dec(n as u64)
    } else {
        proof {
            reveal_strlit("-");
        }
        let wide: i128 = n as i128;
        let m: u64 = (-wide) as u64;
        let mut s = String::from_str("-");
        let digits = u64_to_dec(m);
        s.append(digits.as_str());
        proof {
            assert("-"@ =~= seq!['-']);
        }
        s
    }
}

/// The decimal digits of `n` zero-padded (or truncated) to exactly `w`
/// digits, least significant digit last.
pub open spec fn spec_pad_digits(n: int, w: nat) -> Seq<char>
    decreases w,
{
    if w == 0 {
        Seq::empty()
    } else {
        spec_pad_digits(n / 10, (w - 1) as nat).push(digit_char(n % 10))
    }
}

/// Formats `n` zero-padded to `w` digits; exactly `spec_pad_digits`.
pub fn pad_dec(n: u64, w: u32) -> (r: String)
    ensures
        r@ == spec_pad_digits(n as int, w as nat),
    decreases w,
{
    if w == 0 {
        let r = String::new();
        proof {
            assert(r@ =~= spec_pad_digits(n as int, 0));
        }
        r
    } else {
        let mut s = pad_dec(n / 10, w - 1);
        s.append(digit_str(n % 10));
        proof {
            assert(s@ =~= spec_pad_digits(n as int / 10, (w - 1) as nat) + seq![
                digit_char(n as int % 10),
            ]);
            assert(spec_pad_digits(n as int, w as nat) =~= spec_pad_digits(
                n as int / 10,
                (w - 1) as nat,
            ).push(digit_char(n as int % 10)));
        }
        s
    }
}

/// Whether a character is a decimal digit.
pub open spec fn is_digit(c: char) -> bool {
    48 <= c as u32 <= 57
}

/// Checks whether a character is a decimal digit.
pub fn is_digit_char(c: char) -> (r: bool)
    ensures
        r == is_digit(c),
{
    let code = c as u32;
    48 <= code && code <= 57
}

/// A digit character's numeric value.
pub open spec fn digit_val(c: char) -> int {
    c as u32 - 48
}

/// Whether every character of `s` is a decimal digit.
pub open spec fn all_digits(s: Seq<char>) -> bool {
    forall|i: int| 0 <= i < s.len() ==> is_digit(#[trigger] s[i])
}

/// The numeric value of a digit string, most significant digit first.
pub open spec fn dec_value(s: Seq<char>) -> int
    decreases s.len(),
{
    if s.len() == 0 {
        0
    } else {
        dec_value(s.drop_last()) * 10 + digit_val(s.last())
    }
}

pub proof fn lemma_dec_value_nonneg(s: Seq<char>)
    requires
        all_digits(s),
    ensures
        dec_value(s) >= 0,
    decreases s.len(),
{
    if s.len() > 0 {
        assert(all_digits(s.drop_last()));
        lemma_dec_value_nonneg(s.drop_last());
    }
}

/// Longer digit prefixes never have smaller values.
pub proof fn lemma_dec_value_prefix_le(s: Seq<char>, i: int, j: int)
    requires
        all_digits(s),
        0 <= i <= j <= s.len(),
    ensures
        dec_value(s.subrange(0, i)) <= dec_value(s.subrange(0, j)),
    decreases j - i,
{
    if i < j {
        lemma_dec_value_prefix_le(s, i + 1, j);
        let a = s.subrange(0, i);
        let b = s.subrange(0, i + 1);
        assert(b.drop_last() =~= a);
        assert(b.last() == s[i]);
        assert(all_digits(a));
        lemma_dec_value_nonneg(a);
    }
}

/// Parses a decimal digit string. Returns the value exactly when the text
/// is non-empty, wholly digits, and fits; otherwise nothing.
pub fn parse_u64(s: &str) -> (r: Option<u64>)
    ensures
        r matches Some(v) ==> s@.len() > 0 && all_digits(s@) && v == dec_value(s@),
        r is None ==> s@.len() == 0 || !all_digits(s@) || dec_value(s@) > u64::MAX,
{
    let n = s.unicode_len();
    if n == 0 {
        return None;
    }
    let mut acc: u64 = 0;
    let mut i: usize = 0;
    while i < n
        invariant
            n == s@.len(),
            0 <= i <= n,
            all_digits(s@.subrange(0, i as int)),
            acc == dec_value(s@.subrange(0, i as int)),
        decreases n - i,
    {
        let ghost pre = s@.subrange(0, i as int);
        let ghost cur = s@.subrange(0, i as int + 1);
        proof {
            assert(cur.drop_last() =~= pre);
            assert(cur.last() == s@[i as int]);
        }
        let c = s.get_char(i);
        let code = c as u32;
        if code < 48 || code > 57 {
            return None;
        }
        let d: u64 = (code - 48) as u64;
        let wide: u128 = (acc as u128) * 10 + (d as u128);
        if wide > u64::MAX as u128 {
            proof {
                assert(dec_value(cur) > u64::MAX);
                assert(all_digits(cur));
                if all_digits(s@) {
                    lemma_dec_value_prefix_le(s@, i as int + 1, s@.len() as int);
                    assert(s@.subrange(0, s@.len() as int) =~= s@);
                }
            }
            return None;
        }
        acc = wide as u64;
        i = i + 1;
    }
    proof {
        assert(s@.subrange(0, n as int) =~= s@);
    }
    Some(acc)
}

/// A character's escaped form inside a JSON string: quote, backslash and
/// the named control characters get a two-character escape, other control
/// characters a `\u00` escape, everything else stands as itself.
pub open spec fn json_escape_char(c: char) -> Seq<char> {
    if c == '"' {
        seq!['\\', '"']
    } else if c == '\\' {
        seq!['\\', '\\']
    } else if c == '\n' {
        seq!['\\', 'n']
    } else if c == '\r' {
        seq!['\\', 'r']
    } else if c == '\t' {
        seq!['\\', 't']
    } else if (c as u32) < 32 {
        seq!['\\', 'u', '0', '0', hex_char(c as u32 as int / 16), hex_char(c as u32 as int % 16)]
    } else {
        seq![c]
    }
}

/// A whole string escaped for inclusion in a JSON string literal.
pub open spec fn json_escaped(s: Seq<char>) -> Seq<char>
    decreases s.len(),
{
    if s.len() == 0 {
        Seq::empty()
    } else {
        json_escaped(s.drop_last()) + json_escape_char(s.last())
    }
}

/// Escapes a string for inclusion in a JSON string literal; exactly
/// `json_escaped`.
pub fn json_escape(s: &str) -> (r: String)
    ensures
        r@ == json_escaped(s@),
{
    let n = s.unicode_len();
    let mut out = String::new();
    let mut i: usize = 0;
    proof {
        assert(out@ =~= json_escaped(s@.subrange(0, 0)));
    }
    while i < n
        invariant
            n == s@.len(),
            0 <= i <= n,
            out@ == json_escaped(s@.subrange(0, i as int)),
        decreases n - i,
    {
        let ghost pre = s@.subrange(0, i as int);
        let ghost cur = s@.subrange(0, i as int + 1);
        proof {
            assert(cur.drop_last() =~= pre);
            assert(cur.last() == s@[i as int]);
        }
        let c = s.get_char(i);
        if c == '"' {
            proof {
                reveal_strlit("\\\"");
            }
            out.append("\\\"");
            proof {
                assert("\\\""@ =~= seq!['\\', '"']);
            }
        } else if c == '\\' {
            proof {
                reveal_strlit("\\\\");
            }
            out.append("\\\\");
            proof {
                assert("\\\\"@ =~= seq!['\\', '\\']);
            }
        } else if c == '\n' {
            proof {
                reveal_strlit("\\n");
            }
            out.append("\\n");
            proof {
                assert("\\n"@ =~= seq!['\\', 'n']);
            }
        } else if c == '\r' {
            proof {
                reveal_strlit("\\r");
            }
            out.append("\\r");
            proof {
                assert("\\r"@ =~= seq!['\\', 'r']);
            }
        } else if c == '\t' {
            proof {
                reveal_strlit("\\t");
            }
            out.append("\\t");
            proof {
                assert("\\t"@ =~= seq!['\\', 't']);
            }
        } else if (c as u32) < 32 {
            proof {
                reveal_strlit("\\u00");
            }
            out.append("\\u00");
            out.append(hex_str((c as u32) / 16));
            out.append(hex_str((c as u32) % 16));
            proof {
                assert("\\u00"@ =~= seq!['\\', 'u', '0', '0']);
                assert(out@ =~= json_escaped(pre) + json_escape_char(s@[i as int]));
            }
        } else {
            let piece = s.substring_char(i, i + 1);
            out.append(piece);
            proof {
                assert(piece@ =~= seq![s@[i as int]]);
            }
        }
        proof {
            assert(out@ =~= json_escaped(cur));
        }
        i = i + 1;
    }
    proof {
        assert(s@.subrange(0, n as int) =~= s@);
    }
    out
}

/// Whether `pat` occurs in `text` starting at `i`.
pub open spec fn match_at(text: Seq<char>, pat: Seq<char>, i: int) -> bool {
    0 <= i && i + pat.len() <= text.len() && text.subrange(i, i + pat.len()) == pat
}

/// The first position at or after `from` where `pat` occurs in `text`.
pub open spec fn find_from(text: Seq<char>, pat: Seq<char>, from: int) -> Option<int>
    recommends
        0 <= from,
    decreases text.len() - from,
{
    if from < 0 || from + pat.len() > text.len() {
        None
    } else if pat.len() == 0 {
        Some(from)
    } else if match_at(text, pat, from) {
        Some(from)
    } else {
        find_from(text, pat, from + 1)
    }
}

/// Naive substring search; exactly `find_from`.
pub fn find_token(text: &str, pat: &str, from: usize) -> (r: Option<usize>)
    ensures
        r matches Some(p) ==> find_from(text@, pat@, from as int) == Some(p as int),
        r is None ==> find_from(text@, pat@, from as int) is None,
{
    let tn = text.unicode_len();
    let pn = pat.unicode_len();
    if from > tn || pn > tn - from {
        return None;
    }
    let mut i: usize = from;
    while i <= tn - pn
        invariant
            tn == text@.len(),
            pn == pat@.len(),
            pn <= tn,
            from <= i,
            i <= tn - pn + 1,
            find_from(text@, pat@, from as int) == find_from(text@, pat@, i as int),
        decreases tn - i,
    {
        // compare pat against text at offset i
        let mut k: usize = 0;
        let mut matched = true;
        while k < pn && matched
            invariant
                tn == text@.len(),
                pn == pat@.len(),
                i + pn <= tn,
                0 <= k <= pn,
                matched ==> text@.subrange(i as int, i as int + k as int) =~= pat@.subrange(
                    0,
                    k as int,
                ),
                !matched ==> pn > 0 && !match_at(text@, pat@, i as int),
            decreases pn - k + if matched {
                1int
            } else {
                0int
            },
        {
            if text.get_char(i + k) == pat.get_char(k) {
                proof {
                    assert(text@.subrange(i as int, i as int + k as int + 1) =~= text@.subrange(
                        i as int,
                        i as int + k as int,
                    ).push(text@[i as int + k as int]));
                    assert(pat@.subrange(0, k as int + 1) =~= pat@.subrange(0, k as int).push(
                        pat@[k as int],
                    ));
                }
                k = k + 1;
            } else {
                proof {
                    if match_at(text@, pat@, i as int) {
                        assert(text@.subrange(i as int, i as int + pn as int)[k as int]
                            == pat@[k as int]);
                    }
                }
                matched = false;
            }
        }
        if matched {
            proof {
                assert(text@.subrange(i as int, i as int + pn as int) =~= pat@);
            }
            return Some(i);
        }
        i = i + 1;
    }
    proof {
        assert(find_from(text@, pat@, i as int) is None);
    }
    None
}

/// First non-space position at or after `i`.
pub open spec fn skip_spaces(text: Seq<char>, i: int) -> int
    decreases text.len() - i,
{
    if 0 <= i < text.len() && text[i] == ' ' {
        skip_spaces(text, i + 1)
    } else {
        i
    }
}

/// First non-digit position at or after `i`.
pub open spec fn digits_end(text: Seq<char>, i: int) -> int
    decreases text.len() - i,
{
    if 0 <= i < text.len() && is_digit(text[i]) {
        digits_end(text, i + 1)
    } else {
        i
    }
}

pub proof fn lemma_skip_spaces_bounds(text: Seq<char>, i: int)
    requires
        0 <= i <= text.len(),
    ensures
        i <= skip_spaces(text, i) <= text.len(),
    decreases text.len() - i,
{
    if i < text.len() && text[i] == ' ' {
        lemma_skip_spaces_bounds(text, i + 1);
    }
}

pub proof fn lemma_digits_end_bounds(text: Seq<char>, i: int)
    requires
        0 <= i <= text.len(),
    ensures
        i <= digits_end(text, i) <= text.len(),
        forall|t: int| i <= t < digits_end(text, i) ==> is_digit(#[trigger] text[t]),
    decreases text.len() - i,
{
    if i < text.len() && is_digit(text[i]) {
        lemma_digits_end_bounds(text, i + 1);
    }
}

/// The first closing brace at or after `i` (the text's end if none).
pub open spec fn brace_close(text: Seq<char>, i: int) -> int
    decreases text.len() - i,
{
    if 0 <= i < text.len() && text[i] != '}' {
        brace_close(text, i + 1)
    } else {
        i
    }
}

pub proof fn lemma_brace_close_bounds(text: Seq<char>, i: int)
    requires
        0 <= i <= text.len(),
    ensures
        i <= brace_close(text, i) <= text.len(),
    decreases text.len() - i,
{
    if i < text.len() && text[i] != '}' {
        lemma_brace_close_bounds(text, i + 1);
    }
}

/// A found occurrence lies within the text.
pub proof fn lemma_find_from_valid(text: Seq<char>, pat: Seq<char>, from: int, p: int)
    requires
        0 <= from,
        find_from(text, pat, from) == Some(p),
    ensures
        from <= p,
        p + pat.len() <= text.len(),
    decreases text.len() - from,
{
    if from + pat.len() > text.len() {
    } else if pat.len() == 0 {
    } else if match_at(text, pat, from) {
    } else {
        lemma_find_from_valid(text, pat, from + 1, p);
    }
}

/// The digit run named by `outer` then `inner` in `text`: after the first
/// occurrence of `outer` come optional spaces, a colon, optional spaces and
/// an opening brace; the first occurrence of `inner` inside that brace
/// (before the first closing brace that follows it) is then followed by
/// optional spaces, a colon, optional spaces, and at least one digit. This
/// is a token scan of that shape, not a grammatical JSON parse.
pub open spec fn spec_digits_after_keys(text: Seq<char>, outer: Seq<char>, inner: Seq<char>) -> Option<
    Seq<char>,
> {
    match find_from(text, outer, 0) {
        None => None,
        Some(p) => {
            let c0 = skip_spaces(text, p + outer.len());
            if c0 < text.len() && text[c0] == ':' {
                let c1 = skip_spaces(text, c0 + 1);
                if c1 < text.len() && text[c1] == '{' {
                    let close = brace_close(text, c1 + 1);
                    match find_from(text, inner, c1 + 1) {
                        None => None,
                        Some(q) => {
                            if q + inner.len() <= close {
                                let a = skip_spaces(text, q + inner.len());
                                if a < text.len() && text[a] == ':' {
                                    let b = skip_spaces(text, a + 1);
                                    let e = digits_end(text, b);
                                    if e > b {
                                        Some(text.subrange(b, e))
                                    } else {
                                        None
                                    }
                                } else {
                                    None
                                }
                            } else {
                                None
                            }
                        },
                    }
                } else {
                    None
                }
            } else {
                None
            }
        },
    }
}

/// A found digit run is non-empty and wholly digits.
pub proof fn lemma_digits_after_keys_digits(
    text: Seq<char>,
    outer: Seq<char>,
    inner: Seq<char>,
    d: Seq<char>,
)
    requires
        spec_digits_after_keys(text, outer, inner) == Some(d),
    ensures
        d.len() > 0,
        all_digits(d),
{
    let p = find_from(text, outer, 0)->0;
    lemma_find_from_valid(text, outer, 0, p);
    let c0 = skip_spaces(text, p + outer.len());
    lemma_skip_spaces_bounds(text, p + outer.len());
    let c1 = skip_spaces(text, c0 + 1);
    lemma_skip_spaces_bounds(text, c0 + 1);
    let q = find_from(text, inner, c1 + 1)->0;
    lemma_find_from_valid(text, inner, c1 + 1, q);
    let a = skip_spaces(text, q + inner.len());
    lemma_skip_spaces_bounds(text, q + inner.len());
    let b = skip_spaces(text, a + 1);
    lemma_skip_spaces_bounds(text, a + 1);
    let e = digits_end(text, b);
    lemma_digits_end_bounds(text, b);
    assert(d =~= text.subrange(b, e));
    assert forall|t: int| 0 <= t < d.len() implies is_digit(#[trigger] d[t]) by {
        assert(d[t] == text[b + t]);
    }
}

/// Scans `text` for `outer`, its object's opening brace, then `inner`
/// within the braces, then a colon and a digit run; exactly
/// `spec_digits_after_keys`.
pub fn digits_after_keys(text: &str, outer: &str, inner: &str) -> (r: Option<String>)
    ensures
        r matches Some(s) ==> spec_digits_after_keys(text@, outer@, inner@) == Some(s@),
        r is None ==> spec_digits_after_keys(text@, outer@, inner@) is None,
{
    let n = text.unicode_len();
    let p = match find_token(text, outer, 0) {
        Some(p) => p,
        None => {
            return None;
        },
    };
    proof {
        lemma_find_from_valid(text@, outer@, 0, p as int);
    }
    let outer_end = p + outer.unicode_len();
    let mut c0: usize = outer_end;
    while c0 < n && text.get_char(c0) == ' '
        invariant
            n == text@.len(),
            outer_end <= c0 <= n,
            skip_spaces(text@, outer_end as int) == skip_spaces(text@, c0 as int),
        decreases n - c0,
    {
        c0 = c0 + 1;
    }
    proof {
        assert(skip_spaces(text@, c0 as int) == c0 as int);
    }
    if !(c0 < n) {
        return None;
    }
    if text.get_char(c0) != ':' {
        return None;
    }
    let mut c1: usize = c0 + 1;
    while c1 < n && text.get_char(c1) == ' '
        invariant
            n == text@.len(),
            c0 + 1 <= c1 <= n,
            skip_spaces(text@, c0 as int + 1) == skip_spaces(text@, c1 as int),
        decreases n - c1,
    {
        c1 = c1 + 1;
    }
    proof {
        assert(skip_spaces(text@, c1 as int) == c1 as int);
    }
    if !(c1 < n) {
        return None;
    }
    if text.get_char(c1) != '{' {
        return None;
    }
    let mut close: usize = c1 + 1;
    while close < n && text.get_char(close) != '}'
        invariant
            n == text@.len(),
            c1 + 1 <= close <= n,
            brace_close(text@, c1 as int + 1) == brace_close(text@, close as int),
        decreases n - close,
    {
        close = close + 1;
    }
    proof {
        assert(brace_close(text@, close as int) == close as int);
    }
    let q = match find_token(text, inner, c1 + 1) {
        Some(q) => q,
        None => {
            return None;
        },
    };
    proof {
        lemma_find_from_valid(text@, inner@, c1 as int + 1, q as int);
    }
    if q + inner.unicode_len() > close {
        return None;
    }
    let start = q + inner.unicode_len();
    let mut a: usize = start;
    while a < n && text.get_char(a) == ' '
        invariant
            n == text@.len(),
            start <= a <= n,
            skip_spaces(text@, start as int) == skip_spaces(text@, a as int),
        decreases n - a,
    {
        a = a + 1;
    }
    proof {
        assert(skip_spaces(text@, a as int) == a as int);
    }
    if !(a < n) {
        return None;
    }
    if text.get_char(a) != ':' {
        return None;
    }
    let mut b: usize = a + 1;
    while b < n && text.get_char(b) == ' '
        invariant
            n == text@.len(),
            a + 1 <= b <= n,
            skip_spaces(text@, a as int + 1) == skip_spaces(text@, b as int),
        decreases n - b,
    {
        b = b + 1;
    }
    proof {
        assert(skip_spaces(text@, b as int) == b as int);
    }
    let mut e: usize = b;
    while e < n && is_digit_char(text.get_char(e))
        invariant
            n == text@.len(),
            b <= e <= n,
            digits_end(text@, b as int) == digits_end(text@, e as int),
        decreases n - e,
    {
        e = e + 1;
    }
    proof {
        assert(digits_end(text@, e as int) == e as int);
    }
    if e > b {
        Some(String::from_str(text.substring_char(b, e)))
    } else {
        None
    }
}

} // verus!
