//! Byte-level reader for the JSON dialect the player speaks.
//!
//! Response bodies are small objects of strings, integers, booleans, nulls,
//! and nested objects and arrays. Each reader works on a byte buffer and a
//! position, and each executable reader returns exactly what its spec twin
//! describes. Numbers that are read as values must be integers of at most 18
//! digits; numbers that are only skipped over may carry a fraction and an
//! exponent. String escapes are the single-character ones; a unicode escape
//! is not part of the dialect and fails the read.

use vstd::prelude::*;

verus! {

/// JSON whitespace: space, tab, line feed, carriage return.
pub open spec fn is_ws(b: u8) -> bool {
    b == 0x20 || b == 0x09 || b == 0x0a || b == 0x0d
}

/// ASCII decimal digit.
pub open spec fn is_digit(b: u8) -> bool {
    0x30 <= b <= 0x39
}

/// Position of the first byte at or after `i` that is not whitespace.
pub open spec fn ws_end(s: Seq<u8>, i: int) -> int
    decreases s.len() - i,
{
    if 0 <= i && i < s.len() && is_ws(s[i]) {
        ws_end(s, i + 1)
    } else {
        i
    }
}

/// Position of the first byte at or after `i` that is not a digit.
pub open spec fn digits_end(s: Seq<u8>, i: int) -> int
    decreases s.len() - i,
{
    if 0 <= i && i < s.len() && is_digit(s[i]) {
        digits_end(s, i + 1)
    } else {
        i
    }
}

/// Value of the digit run `s[i..j)`, most significant digit first.
pub open spec fn digits_val(s: Seq<u8>, i: int, j: int) -> int
    decreases j - i,
{
    if j <= i {
        0
    } else {
        digits_val(s, i, j - 1) * 10 + (s[j - 1] - 0x30)
    }
}

pub open spec fn pow10(n: int) -> int
    decreases n,
{
    if n <= 0 {
        1
    } else {
        10 * pow10(n - 1)
    }
}

proof fn lemma_pow10_pos(n: int)
    ensures
        pow10(n) >= 1,
    decreases n,
{
    if n > 0 {
        lemma_pow10_pos(n - 1);
    }
}

proof fn lemma_pow10_mono(a: int, b: int)
    requires
        a <= b,
    ensures
        pow10(a) <= pow10(b),
    decreases b - a,
{
    if a < b {
        lemma_pow10_mono(a, b - 1);
        lemma_pow10_pos(b - 1);
    }
}

proof fn lemma_digits_end_range(s: Seq<u8>, i: int)
    requires
        0 <= i <= s.len(),
    ensures
        i <= digits_end(s, i) <= s.len(),
        forall|m: int| i <= m < digits_end(s, i) ==> is_digit(#[trigger] s[m]),
    decreases s.len() - i,
{
    if i < s.len() && is_digit(s[i]) {
        lemma_digits_end_range(s, i + 1);
    }
}

/// Skips whitespace.
pub fn skip_ws(s: &Vec<u8>, i: usize) -> (j: usize)
    requires
        i <= s@.len(),
    ensures
        j as int == ws_end(s@, i as int),
        i <= j <= s@.len(),
{
    let mut cur: usize = i;
    while cur < s.len()
        invariant
            i <= cur <= s@.len(),
            ws_end(s@, i as int) == ws_end(s@, cur as int),
        decreases s@.len() - cur,
    {
        let b = s[cur];
        if b == 0x20 || b == 0x09 || b == 0x0a || b == 0x0d {
            cur = cur + 1;
        } else {
            return cur;
        }
    }
    cur
}

/// Finds the end of a digit run.
fn find_digits_end(s: &Vec<u8>, i: usize) -> (j: usize)
    requires
        i <= s@.len(),
    ensures
        j as int == digits_end(s@, i as int),
        i <= j <= s@.len(),
{
    let mut cur: usize = i;
    while cur < s.len()
        invariant
            i <= cur <= s@.len(),
            digits_end(s@, i as int) == digits_end(s@, cur as int),
        decreases s@.len() - cur,
    {
        let b = s[cur];
        if 0x30 <= b && b <= 0x39 {
            cur = cur + 1;
        } else {
            return cur;
        }
    }
    cur
}

/// An integer at `i`: an optional minus sign and one to eighteen digits.
/// Yields the value and the position after the digits.
pub open spec fn spec_parse_int(s: Seq<u8>, i: int) -> Option<(int, int)> {
    if 0 <= i && i < s.len() {
        if s[i] == 0x2d {
            let e = digits_end(s, i + 1);
            if e == i + 1 || e - (i + 1) > 18 {
                None
            } else {
                Some((-digits_val(s, i + 1, e), e))
            }
        } else {
            let e = digits_end(s, i);
            if e == i || e - i > 18 {
                None
            } else {
                Some((digits_val(s, i, e), e))
            }
        }
    } else {
        None
    }
}

/// Reads an integer.
pub fn parse_int(s: &Vec<u8>, i: usize) -> (r: Option<(i64, usize)>)
    requires
        i <= s@.len(),
    ensures
        match spec_parse_int(s@, i as int) {
            Some(p) => r matches Some(q) && q.0 as int == p.0 && q.1 as int == p.1 && i < q.1
                <= s@.len(),
            None => r is None,
        },
{
    if i >= s.len() {
        return None;
    }
    let neg = s[i] == 0x2d;
    let d0: usize = if neg {
        i + 1
    } else {
        i
    };
    let e = find_digits_end(s, d0);
    if e == d0 || e - d0 > 18 {
        return None;
    }
    proof {
        lemma_digits_end_range(s@, d0 as int);
    }
    let mut cur: usize = d0;
    let mut acc: i64 = 0;
    while cur < e
        invariant
            d0 <= cur <= e <= s@.len(),
            e as int == digits_end(s@, d0 as int),
            e - d0 <= 18,
            forall|m: int| d0 <= m < e ==> is_digit(#[trigger] s@[m]),
            acc as int == digits_val(s@, d0 as int, cur as int),
            0 <= acc,
            (acc as int) < pow10(cur as int - d0 as int),
        decreases e - cur,
    {
        let b = s[cur];
        proof {
            lemma_pow10_mono(cur as int - d0 as int, 17);
            reveal_with_fuel(pow10, 19);
            assert(pow10(17) == 100000000000000000);
            assert(pow10(18) == 1000000000000000000);
        }
        acc = acc * 10 + ((b - 0x30) as i64);
        cur = cur + 1;
    }
    if neg {
        Some((-acc, e))
    } else {
        Some((acc, e))
    }
}

/// The byte an escape character stands for, for the single-character escapes.
pub open spec fn spec_unescape(b: u8) -> Option<u8> {
    if b == 0x22 {
        Some(0x22)
    } else if b == 0x5c {
        Some(0x5c)
    } else if b == 0x2f {
        Some(0x2f)
    } else if b == 0x62 {
        Some(0x08)
    } else if b == 0x66 {
        Some(0x0c)
    } else if b == 0x6e {
        Some(0x0a)
    } else if b == 0x72 {
        Some(0x0d)
    } else if b == 0x74 {
        Some(0x09)
    } else {
        None
    }
}

fn unescape_byte(b: u8) -> (r: Option<u8>)
    ensures
        r == spec_unescape(b),
{
    if b == 0x22 {
        Some(0x22)
    } else if b == 0x5c {
        Some(0x5c)
    } else if b == 0x2f {
        Some(0x2f)
    } else if b == 0x62 {
        Some(0x08)
    } else if b == 0x66 {
        Some(0x0c)
    } else if b == 0x6e {
        Some(0x0a)
    } else if b == 0x72 {
        Some(0x0d)
    } else if b == 0x74 {
        Some(0x09)
    } else {
        None
    }
}

/// The body of a string, read from just after the opening quote: the
/// unescaped content bytes and the position after the closing quote.
pub open spec fn spec_string_body(s: Seq<u8>, i: int) -> Option<(Seq<u8>, int)>
    decreases s.len() - i,
{
    if !(0 <= i && i < s.len()) {
        None
    } else if s[i] == 0x22 {
        Some((Seq::empty(), i + 1))
    } else if s[i] == 0x5c {
        if i + 1 < s.len() {
            match spec_unescape(s[i + 1]) {
                Some(c) => match spec_string_body(s, i + 2) {
                    Some(p) => Some((seq![c] + p.0, p.1)),
                    None => None,
                },
                None => None,
            }
        } else {
            None
        }
    } else if s[i] >= 0x20 {
        match spec_string_body(s, i + 1) {
            Some(p) => Some((seq![s[i]] + p.0, p.1)),
            None => None,
        }
    } else {
        None
    }
}

/// A string at `i`: a quote, content, a closing quote. Yields the unescaped
/// content and the position after the closing quote.
pub open spec fn spec_parse_string(s: Seq<u8>, i: int) -> Option<(Seq<u8>, int)> {
    if 0 <= i && i < s.len() && s[i] == 0x22 {
        spec_string_body(s, i + 1)
    } else {
        None
    }
}

/// Reads a string.
pub fn parse_string(s: &Vec<u8>, i: usize) -> (r: Option<(Vec<u8>, usize)>)
    requires
        i <= s@.len(),
    ensures
        match spec_parse_string(s@, i as int) {
            Some(p) => r matches Some(q) && q.0@ == p.0 && q.1 as int == p.1 && i < q.1
                <= s@.len(),
            None => r is None,
        },
{
    if i >= s.len() {
        return None;
    }
    if s[i] != 0x22 {
        return None;
    }
    let mut cur: usize = i + 1;
    let mut acc: Vec<u8> = Vec::new();
    while cur < s.len()
        invariant
            i + 1 <= cur <= s@.len(),
            i < s@.len(),
            s@[i as int] == 0x22,
            match spec_string_body(s@, cur as int) {
                Some(p) => spec_string_body(s@, i + 1) matches Some(w) && w.0 == acc@ + p.0 && w.1
                    == p.1,
                None => spec_string_body(s@, i + 1) is None,
            },
        decreases s@.len() - cur,
    {
        let b = s[cur];
        if b == 0x22 {
            proof {
                assert(spec_string_body(s@, cur as int) == Some(
                    (Seq::<u8>::empty(), cur as int + 1),
                ));
                assert(acc@ + Seq::<u8>::empty() =~= acc@);
            }
            return Some((acc, cur + 1));
        } else if b == 0x5c {
            if cur + 1 >= s.len() {
                return None;
            }
            match unescape_byte(s[cur + 1]) {
                None => {
                    return None;
                },
                Some(c) => {
                    proof {
                        assert(acc@.push(c) =~= acc@ + seq![c]);
                        if let Some(p) = spec_string_body(s@, cur + 2) {
                            assert(acc@ + (seq![c] + p.0) =~= (acc@ + seq![c]) + p.0);
                        }
                    }
                    acc.push(c);
                    cur = cur + 2;
                },
            }
        } else if b >= 0x20 {
            proof {
                assert(acc@.push(b) =~= acc@ + seq![b]);
                if let Some(p) = spec_string_body(s@, cur + 1) {
                    assert(acc@ + (seq![b] + p.0) =~= (acc@ + seq![b]) + p.0);
                }
            }
            acc.push(b);
            cur = cur + 1;
        } else {
            return None;
        }
    }
    None
}

/// The literal `null` at `i`.
pub open spec fn is_null_at(s: Seq<u8>, i: int) -> bool {
    0 <= i && i + 4 <= s.len() && s[i] == 0x6e && s[i + 1] == 0x75 && s[i + 2] == 0x6c && s[i + 3]
        == 0x6c
}

/// The literal `true` at `i`.
pub open spec fn is_true_at(s: Seq<u8>, i: int) -> bool {
    0 <= i && i + 4 <= s.len() && s[i] == 0x74 && s[i + 1] == 0x72 && s[i + 2] == 0x75 && s[i + 3]
        == 0x65
}

/// The literal `false` at `i`.
pub open spec fn is_false_at(s: Seq<u8>, i: int) -> bool {
    0 <= i && i + 5 <= s.len() && s[i] == 0x66 && s[i + 1] == 0x61 && s[i + 2] == 0x6c && s[i + 3]
        == 0x73 && s[i + 4] == 0x65
}

/// Checks for the literal `null`.
pub fn check_null_at(s: &Vec<u8>, i: usize) -> (r: bool)
    requires
        i <= s@.len(),
    ensures
        r == is_null_at(s@, i as int),
{
    if s.len() - i < 4 {
        return false;
    }
    s[i] == 0x6e && s[i + 1] == 0x75 && s[i + 2] == 0x6c && s[i + 3] == 0x6c
}

fn check_true_at(s: &Vec<u8>, i: usize) -> (r: bool)
    requires
        i <= s@.len(),
    ensures
        r == is_true_at(s@, i as int),
{
    if s.len() - i < 4 {
        return false;
    }
    s[i] == 0x74 && s[i + 1] == 0x72 && s[i + 2] == 0x75 && s[i + 3] == 0x65
}

fn check_false_at(s: &Vec<u8>, i: usize) -> (r: bool)
    requires
        i <= s@.len(),
    ensures
        r == is_false_at(s@, i as int),
{
    if s.len() - i < 5 {
        return false;
    }
    s[i] == 0x66 && s[i + 1] == 0x61 && s[i + 2] == 0x6c && s[i + 3] == 0x73 && s[i + 4] == 0x65
}

/// End of the optional fraction part starting at `e`.
pub open spec fn frac_end(s: Seq<u8>, e: int) -> Option<int> {
    if 0 <= e && e < s.len() && s[e] == 0x2e {
        let f = digits_end(s, e + 1);
        if f == e + 1 {
            None
        } else {
            Some(f)
        }
    } else {
        Some(e)
    }
}

/// End of the optional exponent part starting at `e`.
pub open spec fn exp_end(s: Seq<u8>, e: int) -> Option<int> {
    if 0 <= e && e < s.len() && (s[e] == 0x65 || s[e] == 0x45) {
        let d = if e + 1 < s.len() && (s[e + 1] == 0x2b || s[e + 1] == 0x2d) {
            e + 2
        } else {
            e + 1
        };
        let f = digits_end(s, d);
        if f == d {
            None
        } else {
            Some(f)
        }
    } else {
        Some(e)
    }
}

/// A number at `i`, in full JSON number syntax; only its end position. A
/// number that is skipped rather than read may be arbitrarily long and may
/// carry a fraction and an exponent.
pub open spec fn spec_skip_number(s: Seq<u8>, i: int) -> Option<int> {
    if !(0 <= i && i < s.len()) {
        None
    } else {
        let d0 = if s[i] == 0x2d {
            i + 1
        } else {
            i
        };
        let e1 = digits_end(s, d0);
        if e1 == d0 {
            None
        } else {
            match frac_end(s, e1) {
                Some(e2) => exp_end(s, e2),
                None => None,
            }
        }
    }
}

/// Skips a number.
fn skip_number(s: &Vec<u8>, i: usize) -> (r: Option<usize>)
    requires
        i <= s@.len(),
    ensures
        match spec_skip_number(s@, i as int) {
            Some(e) => r matches Some(j) && j as int == e && i < j <= s@.len(),
            None => r is None,
        },
{
    if i >= s.len() {
        return None;
    }
    let d0: usize = if s[i] == 0x2d {
        i + 1
    } else {
        i
    };
    let e1 = find_digits_end(s, d0);
    if e1 == d0 {
        return None;
    }
    let e2: usize = if e1 < s.len() && s[e1] == 0x2e {
        let f = find_digits_end(s, e1 + 1);
        if f == e1 + 1 {
            return None;
        }
        f
    } else {
        e1
    };
    if e2 < s.len() && (s[e2] == 0x65 || s[e2] == 0x45) {
        let d: usize = if e2 + 1 < s.len() && (s[e2 + 1] == 0x2b || s[e2 + 1] == 0x2d) {
            e2 + 2
        } else {
            e2 + 1
        };
        let f = find_digits_end(s, d);
        if f == d {
            return None;
        }
        Some(f)
    } else {
        Some(e2)
    }
}

/// A JSON value of any shape at `i`; only its end position.
pub open spec fn spec_skip_value(s: Seq<u8>, i: int) -> Option<int>
    decreases s.len() - i, 0int,
{
    if !(0 <= i && i < s.len()) {
        None
    } else if s[i] == 0x22 {
        match spec_parse_string(s, i) {
            Some(p) => Some(p.1),
            None => None,
        }
    } else if s[i] == 0x7b {
        spec_skip_members(s, i + 1, true)
    } else if s[i] == 0x5b {
        spec_skip_elements(s, i + 1, true)
    } else if is_null_at(s, i) || is_true_at(s, i) {
        Some(i + 4)
    } else if is_false_at(s, i) {
        Some(i + 5)
    } else {
        spec_skip_number(s, i)
    }
}

/// The members of an object, read from just after the opening brace or after
/// a separating comma; only the position after the closing brace. An empty
/// object is allowed only directly after the opening brace.
pub open spec fn spec_skip_members(s: Seq<u8>, i: int, first: bool) -> Option<int>
    decreases s.len() - i, 1int,
{
    if !(0 <= i && i <= s.len()) {
        None
    } else {
        let k = ws_end(s, i);
        if first && k < s.len() && s[k] == 0x7d {
            Some(k + 1)
        } else {
            match spec_parse_string(s, k) {
                Some(key) => {
                    let c = ws_end(s, key.1);
                    if c < s.len() && s[c] == 0x3a {
                        let v = ws_end(s, c + 1);
                        if i < v && v <= s.len() {
                            match spec_skip_value(s, v) {
                                Some(e) => {
                                    let d = ws_end(s, e);
                                    if d < s.len() && s[d] == 0x2c {
                                        if i < d + 1 {
                                            spec_skip_members(s, d + 1, false)
                                        } else {
                                            None
                                        }
                                    } else if d < s.len() && s[d] == 0x7d {
                                        Some(d + 1)
                                    } else {
                                        None
                                    }
                                },
                                None => None,
                            }
                        } else {
                            None
                        }
                    } else {
                        None
                    }
                },
                None => None,
            }
        }
    }
}

/// The elements of an array, read from just after the opening bracket or
/// after a separating comma; only the position after the closing bracket.
pub open spec fn spec_skip_elements(s: Seq<u8>, i: int, first: bool) -> Option<int>
    decreases s.len() - i, 1int,
{
    if !(0 <= i && i <= s.len()) {
        None
    } else {
        let k = ws_end(s, i);
        if first && k < s.len() && s[k] == 0x5d {
            Some(k + 1)
        } else {
            if i <= k && k <= s.len() {
                match spec_skip_value(s, k) {
                    Some(e) => {
                        let d = ws_end(s, e);
                        if d < s.len() && s[d] == 0x2c {
                            if i < d + 1 {
                                spec_skip_elements(s, d + 1, false)
                            } else {
                                None
                            }
                        } else if d < s.len() && s[d] == 0x5d {
                            Some(d + 1)
                        } else {
                            None
                        }
                    },
                    None => None,
                }
            } else {
                None
            }
        }
    }
}

/// Skips a JSON value of any shape.
pub fn skip_value(s: &Vec<u8>, i: usize) -> (r: Option<usize>)
    requires
        i <= s@.len(),
    ensures
        match spec_skip_value(s@, i as int) {
            Some(e) => r matches Some(j) && j as int == e && i < j <= s@.len(),
            None => r is None,
        },
    decreases s@.len() - i, 0int,
{
    if i >= s.len() {
        return None;
    }
    let b = s[i];
    if b == 0x22 {
        match parse_string(s, i) {
            Some((_content, j)) => Some(j),
            None => None,
        }
    } else if b == 0x7b {
        skip_object_members(s, i + 1)
    } else if b == 0x5b {
        skip_array_elements(s, i + 1)
    } else if check_null_at(s, i) || check_true_at(s, i) {
        Some(i + 4)
    } else if check_false_at(s, i) {
        Some(i + 5)
    } else {
        skip_number(s, i)
    }
}

/// Skips the members of an object, from just after the opening brace.
fn skip_object_members(s: &Vec<u8>, i: usize) -> (r: Option<usize>)
    requires
        i <= s@.len(),
    ensures
        match spec_skip_members(s@, i as int, true) {
            Some(e) => r matches Some(j) && j as int == e && i < j <= s@.len(),
            None => r is None,
        },
    decreases s@.len() - i, 1int,
{
    let mut cur: usize = i;
    let mut first: bool = true;
    loop
        invariant
            i <= cur <= s@.len(),
            spec_skip_members(s@, i as int, true) == spec_skip_members(s@, cur as int, first),
        decreases s@.len() - cur,
    {
        let k = skip_ws(s, cur);
        if first && k < s.len() {
            if s[k] == 0x7d {
                return Some(k + 1);
            }
        }
        match parse_string(s, k) {
            None => {
                return None;
            },
            Some((_key, p)) => {
                let c = skip_ws(s, p);
                if c >= s.len() {
                    return None;
                }
                if s[c] != 0x3a {
                    return None;
                }
                let v = skip_ws(s, c + 1);
                if !(cur < v) {
                    return None;
                }
                match skip_value(s, v) {
                    None => {
                        return None;
                    },
                    Some(e) => {
                        let d = skip_ws(s, e);
                        if d >= s.len() {
                            return None;
                        }
                        let b2 = s[d];
                        if b2 == 0x2c {
                            cur = d + 1;
                            first = false;
                        } else if b2 == 0x7d {
                            return Some(d + 1);
                        } else {
                            return None;
                        }
                    },
                }
            },
        }
    }
}

/// Skips the elements of an array, from just after the opening bracket.
fn skip_array_elements(s: &Vec<u8>, i: usize) -> (r: Option<usize>)
    requires
        i <= s@.len(),
    ensures
        match spec_skip_elements(s@, i as int, true) {
            Some(e) => r matches Some(j) && j as int == e && i < j <= s@.len(),
            None => r is None,
        },
    decreases s@.len() - i, 1int,
{
    let mut cur: usize = i;
    let mut first: bool = true;
    loop
        invariant
            i <= cur <= s@.len(),
            spec_skip_elements(s@, i as int, true) == spec_skip_elements(s@, cur as int, first),
        decreases s@.len() - cur,
    {
        let k = skip_ws(s, cur);
        if first && k < s.len() {
            if s[k] == 0x5d {
                return Some(k + 1);
            }
        }
        match skip_value(s, k) {
            None => {
                return None;
            },
            Some(e) => {
                let d = skip_ws(s, e);
                if d >= s.len() {
                    return None;
                }
                let b2 = s[d];
                if b2 == 0x2c {
                    cur = d + 1;
                    first = false;
                } else if b2 == 0x5d {
                    return Some(d + 1);
                } else {
                    return None;
                }
            },
        }
    }
}

} // verus!
