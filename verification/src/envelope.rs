//! The two response envelope shapes of the player's JSON-RPC dialect.
//!
//! A response body is either an Error envelope
//! `{"jsonrpc":"2.0","id":<int or null>,"error":{"code":<int>,"message":<string>}}`
//! or a Result envelope `{"jsonrpc":"2.0","id":<int>,"result":{...}}`.
//! Members may come in any order, unknown members are skipped, and of a
//! repeated member the first occurrence counts. The protocol version must be
//! the string `2.0`, and all three members of an envelope must be present.

use vstd::prelude::*;
use crate::json::{
    check_null_at, is_null_at, parse_int, parse_string, skip_value, skip_ws, spec_parse_int,
    spec_parse_string, spec_skip_value, ws_end,
};

verus! {

/// The bytes of the member name `jsonrpc`.
pub open spec fn key_jsonrpc() -> Seq<u8> {
    seq![0x6a, 0x73, 0x6f, 0x6e, 0x72, 0x70, 0x63]
}

/// The bytes of the member name `id`.
pub open spec fn key_id() -> Seq<u8> {
    seq![0x69, 0x64]
}

/// The bytes of the member name `error`.
pub open spec fn key_error() -> Seq<u8> {
    seq![0x65, 0x72, 0x72, 0x6f, 0x72]
}

/// The bytes of the member name `result`.
pub open spec fn key_result() -> Seq<u8> {
    seq![0x72, 0x65, 0x73, 0x75, 0x6c, 0x74]
}

/// The bytes of the member name `code`.
pub open spec fn key_code() -> Seq<u8> {
    seq![0x63, 0x6f, 0x64, 0x65]
}

/// The bytes of the member name `message`.
pub open spec fn key_message() -> Seq<u8> {
    seq![0x6d, 0x65, 0x73, 0x73, 0x61, 0x67, 0x65]
}

/// The bytes of the protocol version string `2.0`.
pub open spec fn version_two() -> Seq<u8> {
    seq![0x32, 0x2e, 0x30]
}

fn lit_jsonrpc() -> (v: Vec<u8>)
    ensures
        v@ == key_jsonrpc(),
{
    let mut v: Vec<u8> = Vec::new();
    v.push(0x6a);
    v.push(0x73);
    v.push(0x6f);
    v.push(0x6e);
    v.push(0x72);
    v.push(0x70);
    v.push(0x63);
    proof {
        assert(v@ =~= key_jsonrpc());
    }
    v
}

fn lit_id() -> (v: Vec<u8>)
    ensures
        v@ == key_id(),
{
    let mut v: Vec<u8> = Vec::new();
    v.push(0x69);
    v.push(0x64);
    proof {
        assert(v@ =~= key_id());
    }
    v
}

fn lit_error() -> (v: Vec<u8>)
    ensures
        v@ == key_error(),
{
    let mut v: Vec<u8> = Vec::new();
    v.push(0x65);
    v.push(0x72);
    v.push(0x72);
    v.push(0x6f);
    v.push(0x72);
    proof {
        assert(v@ =~= key_error());
    }
    v
}

fn lit_result() -> (v: Vec<u8>)
    ensures
        v@ == key_result(),
{
    let mut v: Vec<u8> = Vec::new();
    v.push(0x72);
    v.push(0x65);
    v.push(0x73);
    v.push(0x75);
    v.push(0x6c);
    v.push(0x74);
    proof {
        assert(v@ =~= key_result());
    }
    v
}

fn lit_code() -> (v: Vec<u8>)
    ensures
        v@ == key_code(),
{
    let mut v: Vec<u8> = Vec::new();
    v.push(0x63);
    v.push(0x6f);
    v.push(0x64);
    v.push(0x65);
    proof {
        assert(v@ =~= key_code());
    }
    v
}

fn lit_message() -> (v: Vec<u8>)
    ensures
        v@ == key_message(),
{
    let mut v: Vec<u8> = Vec::new();
    v.push(0x6d);
    v.push(0x65);
    v.push(0x73);
    v.push(0x73);
    v.push(0x61);
    v.push(0x67);
    v.push(0x65);
    proof {
        assert(v@ =~= key_message());
    }
    v
}

fn lit_version_two() -> (v: Vec<u8>)
    ensures
        v@ == version_two(),
{
    let mut v: Vec<u8> = Vec::new();
    v.push(0x32);
    v.push(0x2e);
    v.push(0x30);
    proof {
        assert(v@ =~= version_two());
    }
    v
}

/// Byte-string equality.
fn bytes_eq(a: &Vec<u8>, b: &Vec<u8>) -> (r: bool)
    ensures
        r == (a@ == b@),
{
    if a.len() != b.len() {
        return false;
    }
    let mut i: usize = 0;
    while i < a.len()
        invariant
            0 <= i <= a@.len(),
            a@.len() == b@.len(),
            forall|m: int| 0 <= m < i ==> a@[m] == b@[m],
        decreases a@.len() - i,
    {
        if a[i] != b[i] {
            return false;
        }
        i = i + 1;
    }
    proof {
        assert(a@ =~= b@);
    }
    true
}

spec fn int_state_view(v: Option<i64>) -> Option<int> {
    match v {
        Some(x) => Some(x as int),
        None => None,
    }
}

spec fn bytes_state_view(v: Option<Vec<u8>>) -> Option<Seq<u8>> {
    match v {
        Some(x) => Some(x@),
        None => None,
    }
}

spec fn err_state_view(v: Option<(i64, Vec<u8>)>) -> Option<(int, Seq<u8>)> {
    match v {
        Some(p) => Some((p.0 as int, p.1@)),
        None => None,
    }
}

/// The members of an error object, read from just after its opening brace or
/// after a comma: an integer `code`, a string `message`, anything else
/// skipped. Yields code, message and the position after the closing brace;
/// both named members must appear.
pub open spec fn spec_error_obj_members(
    s: Seq<u8>,
    i: int,
    first: bool,
    code: Option<int>,
    message: Option<Seq<u8>>,
) -> Option<((int, Seq<u8>), int)>
    decreases s.len() - i,
{
    if !(0 <= i && i <= s.len()) {
        None
    } else {
        let k = ws_end(s, i);
        if first && k < s.len() && s[k] == 0x7d {
            None
        } else {
            match spec_parse_string(s, k) {
                Some(key) => {
                    let c = ws_end(s, key.1);
                    if c < s.len() && s[c] == 0x3a {
                        let v = ws_end(s, c + 1);
                        let next = if key.0 == key_code() {
                            match spec_parse_int(s, v) {
                                Some(p) => Some(
                                    (
                                        p.1,
                                        if code is None {
                                            Some(p.0)
                                        } else {
                                            code
                                        },
                                        message,
                                    ),
                                ),
                                None => None,
                            }
                        } else if key.0 == key_message() {
                            match spec_parse_string(s, v) {
                                Some(p) => Some(
                                    (
                                        p.1,
                                        code,
                                        if message is None {
                                            Some(p.0)
                                        } else {
                                            message
                                        },
                                    ),
                                ),
                                None => None,
                            }
                        } else {
                            if i < v && v <= s.len() {
                                match spec_skip_value(s, v) {
                                    Some(e) => Some((e, code, message)),
                                    None => None,
                                }
                            } else {
                                None
                            }
                        };
                        match next {
                            Some((e, code2, message2)) => {
                                let d = ws_end(s, e);
                                if d < s.len() && s[d] == 0x2c {
                                    if i < d + 1 {
                                        spec_error_obj_members(s, d + 1, false, code2, message2)
                                    } else {
                                        None
                                    }
                                } else if d < s.len() && s[d] == 0x7d {
                                    match (code2, message2) {
                                        (Some(cv), Some(mv)) => Some(((cv, mv), d + 1)),
                                        _ => None,
                                    }
                                } else {
                                    None
                                }
                            },
                            None => None,
                        }
                    } else {
                        None
                    }
                },
                None => None,
            }
        }
    }
}

/// The members of an Error envelope, read from just after its opening brace
/// or after a comma: `jsonrpc` must be the string `2.0`, `id` an integer or
/// null, `error` an error object; anything else skipped. Yields the error's
/// code and message and the position after the closing brace; all three
/// named members must appear.
pub open spec fn spec_error_env_members(
    s: Seq<u8>,
    i: int,
    first: bool,
    has_version: bool,
    has_id: bool,
    err: Option<(int, Seq<u8>)>,
) -> Option<((int, Seq<u8>), int)>
    decreases s.len() - i,
{
    if !(0 <= i && i <= s.len()) {
        None
    } else {
        let k = ws_end(s, i);
        if first && k < s.len() && s[k] == 0x7d {
            None
        } else {
            match spec_parse_string(s, k) {
                Some(key) => {
                    let c = ws_end(s, key.1);
                    if c < s.len() && s[c] == 0x3a {
                        let v = ws_end(s, c + 1);
                        let next = if key.0 == key_jsonrpc() {
                            match spec_parse_string(s, v) {
                                Some(p) => if p.0 == version_two() {
                                    Some((p.1, true, has_id, err))
                                } else {
                                    None
                                },
                                None => None,
                            }
                        } else if key.0 == key_id() {
                            match spec_parse_int(s, v) {
                                Some(p) => Some((p.1, has_version, true, err)),
                                None => if is_null_at(s, v) {
                                    Some((v + 4, has_version, true, err))
                                } else {
                                    None
                                },
                            }
                        } else if key.0 == key_error() {
                            if v < s.len() && s[v] == 0x7b {
                                match spec_error_obj_members(s, v + 1, true, None, None) {
                                    Some(p) => Some(
                                        (
                                            p.1,
                                            has_version,
                                            has_id,
                                            if err is None {
                                                Some(p.0)
                                            } else {
                                                err
                                            },
                                        ),
                                    ),
                                    None => None,
                                }
                            } else {
                                None
                            }
                        } else {
                            if i < v && v <= s.len() {
                                match spec_skip_value(s, v) {
                                    Some(e) => Some((e, has_version, has_id, err)),
                                    None => None,
                                }
                            } else {
                                None
                            }
                        };
                        match next {
                            Some((e, hv2, hi2, err2)) => {
                                let d = ws_end(s, e);
                                if d < s.len() && s[d] == 0x2c {
                                    if i < d + 1 {
                                        spec_error_env_members(s, d + 1, false, hv2, hi2, err2)
                                    } else {
                                        None
                                    }
                                } else if d < s.len() && s[d] == 0x7d {
                                    if hv2 && hi2 {
                                        match err2 {
                                            Some(ev) => Some((ev, d + 1)),
                                            None => None,
                                        }
                                    } else {
                                        None
                                    }
                                } else {
                                    None
                                }
                            },
                            None => None,
                        }
                    } else {
                        None
                    }
                },
                None => None,
            }
        }
    }
}

/// The members of the result object of a Result envelope, read from just
/// after its opening brace or after a comma: the member named `field` must
/// appear and be an integer; anything else skipped. Yields the field's value
/// and the position after the closing brace.
pub open spec fn spec_result_obj_members(
    s: Seq<u8>,
    i: int,
    field: Seq<u8>,
    first: bool,
    val: Option<int>,
) -> Option<(int, int)>
    decreases s.len() - i,
{
    if !(0 <= i && i <= s.len()) {
        None
    } else {
        let k = ws_end(s, i);
        if first && k < s.len() && s[k] == 0x7d {
            None
        } else {
            match spec_parse_string(s, k) {
                Some(key) => {
                    let c = ws_end(s, key.1);
                    if c < s.len() && s[c] == 0x3a {
                        let v = ws_end(s, c + 1);
                        let next = if key.0 == field {
                            match spec_parse_int(s, v) {
                                Some(p) => Some(
                                    (
                                        p.1,
                                        if val is None {
                                            Some(p.0)
                                        } else {
                                            val
                                        },
                                    ),
                                ),
                                None => None,
                            }
                        } else {
                            if i < v && v <= s.len() {
                                match spec_skip_value(s, v) {
                                    Some(e) => Some((e, val)),
                                    None => None,
                                }
                            } else {
                                None
                            }
                        };
                        match next {
                            Some((e, val2)) => {
                                let d = ws_end(s, e);
                                if d < s.len() && s[d] == 0x2c {
                                    if i < d + 1 {
                                        spec_result_obj_members(s, d + 1, field, false, val2)
                                    } else {
                                        None
                                    }
                                } else if d < s.len() && s[d] == 0x7d {
                                    match val2 {
                                        Some(x) => Some((x, d + 1)),
                                        None => None,
                                    }
                                } else {
                                    None
                                }
                            },
                            None => None,
                        }
                    } else {
                        None
                    }
                },
                None => None,
            }
        }
    }
}

/// The members of a Result envelope, read from just after its opening brace
/// or after a comma: `jsonrpc` must be the string `2.0`, `id` an integer,
/// `result` an object carrying an integer member named `field`; anything
/// else skipped. Yields the field's value and the position after the closing
/// brace; all three named members must appear.
pub open spec fn spec_result_env_members(
    s: Seq<u8>,
    i: int,
    field: Seq<u8>,
    first: bool,
    has_version: bool,
    has_id: bool,
    val: Option<int>,
) -> Option<(int, int)>
    decreases s.len() - i,
{
    if !(0 <= i && i <= s.len()) {
        None
    } else {
        let k = ws_end(s, i);
        if first && k < s.len() && s[k] == 0x7d {
            None
        } else {
            match spec_parse_string(s, k) {
                Some(key) => {
                    let c = ws_end(s, key.1);
                    if c < s.len() && s[c] == 0x3a {
                        let v = ws_end(s, c + 1);
                        let next = if key.0 == key_jsonrpc() {
                            match spec_parse_string(s, v) {
                                Some(p) => if p.0 == version_two() {
                                    Some((p.1, true, has_id, val))
                                } else {
                                    None
                                },
                                None => None,
                            }
                        } else if key.0 == key_id() {
                            match spec_parse_int(s, v) {
                                Some(p) => Some((p.1, has_version, true, val)),
                                None => None,
                            }
                        } else if key.0 == key_result() {
                            if v < s.len() && s[v] == 0x7b {
                                match spec_result_obj_members(s, v + 1, field, true, None) {
                                    Some(p) => Some(
                                        (
                                            p.1,
                                            has_version,
                                            has_id,
                                            if val is None {
                                                Some(p.0)
                                            } else {
                                                val
                                            },
                                        ),
                                    ),
                                    None => None,
                                }
                            } else {
                                None
                            }
                        } else {
                            if i < v && v <= s.len() {
                                match spec_skip_value(s, v) {
                                    Some(e) => Some((e, has_version, has_id, val)),
                                    None => None,
                                }
                            } else {
                                None
                            }
                        };
                        match next {
                            Some((e, hv2, hi2, val2)) => {
                                let d = ws_end(s, e);
                                if d < s.len() && s[d] == 0x2c {
                                    if i < d + 1 {
                                        spec_result_env_members(s, d + 1, field, false, hv2, hi2, val2)
                                    } else {
                                        None
                                    }
                                } else if d < s.len() && s[d] == 0x7d {
                                    if hv2 && hi2 {
                                        match val2 {
                                            Some(x) => Some((x, d + 1)),
                                            None => None,
                                        }
                                    } else {
                                        None
                                    }
                                } else {
                                    None
                                }
                            },
                            None => None,
                        }
                    } else {
                        None
                    }
                },
                None => None,
            }
        }
    }
}

/// A whole body as an Error envelope: the envelope object with only
/// whitespace around it, or nothing.
pub open spec fn spec_error_envelope(s: Seq<u8>) -> Option<(int, Seq<u8>)> {
    let k = ws_end(s, 0);
    if k < s.len() && s[k] == 0x7b {
        match spec_error_env_members(s, k + 1, true, false, false, None) {
            Some((ev, e)) => if ws_end(s, e) == s.len() {
                Some(ev)
            } else {
                None
            },
            None => None,
        }
    } else {
        None
    }
}

/// A whole body as a Result envelope whose result object carries an integer
/// member named `field`: that member's value, or nothing.
pub open spec fn spec_result_field_int(s: Seq<u8>, field: Seq<u8>) -> Option<int> {
    let k = ws_end(s, 0);
    if k < s.len() && s[k] == 0x7b {
        match spec_result_env_members(s, k + 1, field, true, false, false, None) {
            Some((x, e)) => if ws_end(s, e) == s.len() {
                Some(x)
            } else {
                None
            },
            None => None,
        }
    } else {
        None
    }
}

/// Reads the members of an error object, from just after its opening brace.
fn parse_error_object(s: &Vec<u8>, i: usize) -> (r: Option<((i64, Vec<u8>), usize)>)
    requires
        i <= s@.len(),
    ensures
        match spec_error_obj_members(s@, i as int, true, None, None) {
            Some(p) => r matches Some(q) && q.0.0 as int == p.0.0 && q.0.1@ == p.0.1 && q.1 as int
                == p.1 && i < q.1 <= s@.len(),
            None => r is None,
        },
{
    let lcode = lit_code();
    let lmessage = lit_message();
    let mut cur: usize = i;
    let mut first: bool = true;
    let mut code: Option<i64> = None;
    let mut message: Option<Vec<u8>> = None;
    loop
        invariant
            i <= cur <= s@.len(),
            lcode@ == key_code(),
            lmessage@ == key_message(),
            first ==> code is None && message is None,
            spec_error_obj_members(s@, i as int, true, None, None) == spec_error_obj_members(
                s@,
                cur as int,
                first,
                int_state_view(code),
                bytes_state_view(message),
            ),
        decreases s@.len() - cur,
    {
        let k = skip_ws(s, cur);
        if first && k < s.len() {
            if s[k] == 0x7d {
                return None;
            }
        }
        match parse_string(s, k) {
            None => {
                return None;
            },
            Some((key, p)) => {
                let c = skip_ws(s, p);
                if c >= s.len() {
                    return None;
                }
                if s[c] != 0x3a {
                    return None;
                }
                let v = skip_ws(s, c + 1);
                let e: usize;
                if bytes_eq(&key, &lcode) {
                    match parse_int(s, v) {
                        None => {
                            return None;
                        },
                        Some((x, j)) => {
                            e = j;
                            if code.is_none() {
                                code = Some(x);
                            }
                        },
                    }
                } else if bytes_eq(&key, &lmessage) {
                    match parse_string(s, v) {
                        None => {
                            return None;
                        },
                        Some((m, j)) => {
                            e = j;
                            if message.is_none() {
                                message = Some(m);
                            }
                        },
                    }
                } else {
                    if !(cur < v) {
                        return None;
                    }
                    match skip_value(s, v) {
                        None => {
                            return None;
                        },
                        Some(j) => {
                            e = j;
                        },
                    }
                }
                let d = skip_ws(s, e);
                if d >= s.len() {
                    return None;
                }
                let b2 = s[d];
                if b2 == 0x2c {
                    cur = d + 1;
                    first = false;
                } else if b2 == 0x7d {
                    match (code, message) {
                        (Some(cv), Some(mv)) => {
                            return Some(((cv, mv), d + 1));
                        },
                        _ => {
                            return None;
                        },
                    }
                } else {
                    return None;
                }
            },
        }
    }
}

/// Decodes a whole body as an Error envelope: the player-reported error's
/// code and message, or nothing when the body is not an Error envelope.
pub fn parse_error_envelope(s: &Vec<u8>) -> (r: Option<(i64, Vec<u8>)>)
    ensures
        match spec_error_envelope(s@) {
            Some(p) => r matches Some(q) && q.0 as int == p.0 && q.1@ == p.1,
            None => r is None,
        },
{
    let k = skip_ws(s, 0);
    if k >= s.len() {
        return None;
    }
    if s[k] != 0x7b {
        return None;
    }
    let ljsonrpc = lit_jsonrpc();
    let lid = lit_id();
    let lerror = lit_error();
    let lversion = lit_version_two();
    let start = k + 1;
    let mut cur: usize = start;
    let mut first: bool = true;
    let mut has_version: bool = false;
    let mut has_id: bool = false;
    let mut err: Option<(i64, Vec<u8>)> = None;
    loop
        invariant
            start <= cur <= s@.len(),
            ljsonrpc@ == key_jsonrpc(),
            lid@ == key_id(),
            lerror@ == key_error(),
            lversion@ == version_two(),
            spec_error_envelope(s@) == (match spec_error_env_members(
                s@,
                start as int,
                true,
                false,
                false,
                None,
            ) {
                Some(p) => if ws_end(s@, p.1) == s@.len() {
                    Some(p.0)
                } else {
                    None::<(int, Seq<u8>)>
                },
                None => None::<(int, Seq<u8>)>,
            }),
            spec_error_env_members(s@, start as int, true, false, false, None)
                == spec_error_env_members(
                s@,
                cur as int,
                first,
                has_version,
                has_id,
                err_state_view(err),
            ),
        decreases s@.len() - cur,
    {
        let k2 = skip_ws(s, cur);
        if first && k2 < s.len() {
            if s[k2] == 0x7d {
                return None;
            }
        }
        match parse_string(s, k2) {
            None => {
                return None;
            },
            Some((key, p)) => {
                let c = skip_ws(s, p);
                if c >= s.len() {
                    return None;
                }
                if s[c] != 0x3a {
                    return None;
                }
                let v = skip_ws(s, c + 1);
                let e: usize;
                if bytes_eq(&key, &ljsonrpc) {
                    match parse_string(s, v) {
                        None => {
                            return None;
                        },
                        Some((ver, j)) => {
                            if !bytes_eq(&ver, &lversion) {
                                return None;
                            }
                            e = j;
                            has_version = true;
                        },
                    }
                } else if bytes_eq(&key, &lid) {
                    match parse_int(s, v) {
                        Some((_x, j)) => {
                            e = j;
                            has_id = true;
                        },
                        None => {
                            if check_null_at(s, v) {
                                e = v + 4;
                                has_id = true;
                            } else {
                                return None;
                            }
                        },
                    }
                } else if bytes_eq(&key, &lerror) {
                    if v >= s.len() {
                        return None;
                    }
                    if s[v] != 0x7b {
                        return None;
                    }
                    match parse_error_object(s, v + 1) {
                        None => {
                            return None;
                        },
                        Some((ev, j)) => {
                            e = j;
                            if err.is_none() {
                                err = Some(ev);
                            }
                        },
                    }
                } else {
                    if !(cur < v) {
                        return None;
                    }
                    match skip_value(s, v) {
                        None => {
                            return None;
                        },
                        Some(j) => {
                            e = j;
                        },
                    }
                }
                let d = skip_ws(s, e);
                if d >= s.len() {
                    return None;
                }
                let b2 = s[d];
                if b2 == 0x2c {
                    cur = d + 1;
                    first = false;
                } else if b2 == 0x7d {
                    if has_version && has_id {
                        match err {
                            Some(ev) => {
                                let fin = skip_ws(s, d + 1);
                                if fin == s.len() {
                                    return Some(ev);
                                } else {
                                    return None;
                                }
                            },
                            None => {
                                return None;
                            },
                        }
                    } else {
                        return None;
                    }
                } else {
                    return None;
                }
            },
        }
    }
}

/// Reads the members of a result object, from just after its opening brace,
/// looking for the integer member named by `field`.
fn parse_result_object(s: &Vec<u8>, i: usize, field: &Vec<u8>) -> (r: Option<(i64, usize)>)
    requires
        i <= s@.len(),
    ensures
        match spec_result_obj_members(s@, i as int, field@, true, None) {
            Some(p) => r matches Some(q) && q.0 as int == p.0 && q.1 as int == p.1 && i < q.1
                <= s@.len(),
            None => r is None,
        },
{
    let mut cur: usize = i;
    let mut first: bool = true;
    let mut val: Option<i64> = None;
    loop
        invariant
            i <= cur <= s@.len(),
            spec_result_obj_members(s@, i as int, field@, true, None) == spec_result_obj_members(
                s@,
                cur as int,
                field@,
                first,
                int_state_view(val),
            ),
        decreases s@.len() - cur,
    {
        let k = skip_ws(s, cur);
        if first && k < s.len() {
            if s[k] == 0x7d {
                return None;
            }
        }
        match parse_string(s, k) {
            None => {
                return None;
            },
            Some((key, p)) => {
                let c = skip_ws(s, p);
                if c >= s.len() {
                    return None;
                }
                if s[c] != 0x3a {
                    return None;
                }
                let v = skip_ws(s, c + 1);
                let e: usize;
                if bytes_eq(&key, field) {
                    match parse_int(s, v) {
                        None => {
                            return None;
                        },
                        Some((x, j)) => {
                            e = j;
                            if val.is_none() {
                                val = Some(x);
                            }
                        },
                    }
                } else {
                    if !(cur < v) {
                        return None;
                    }
                    match skip_value(s, v) {
                        None => {
                            return None;
                        },
                        Some(j) => {
                            e = j;
                        },
                    }
                }
                let d = skip_ws(s, e);
                if d >= s.len() {
                    return None;
                }
                let b2 = s[d];
                if b2 == 0x2c {
                    cur = d + 1;
                    first = false;
                } else if b2 == 0x7d {
                    match val {
                        Some(x) => {
                            return Some((x, d + 1));
                        },
                        None => {
                            return None;
                        },
                    }
                } else {
                    return None;
                }
            },
        }
    }
}

/// Decodes a whole body as a Result envelope and reads the integer member
/// named by `field` out of its result object, or nothing when the body is
/// not such an envelope.
pub fn parse_result_field(s: &Vec<u8>, field: &Vec<u8>) -> (r: Option<i64>)
    ensures
        match spec_result_field_int(s@, field@) {
            Some(x) => r matches Some(y) && y as int == x,
            None => r is None,
        },
{
    let k = skip_ws(s, 0);
    if k >= s.len() {
        return None;
    }
    if s[k] != 0x7b {
        return None;
    }
    let ljsonrpc = lit_jsonrpc();
    let lid = lit_id();
    let lresult = lit_result();
    let lversion = lit_version_two();
    let start = k + 1;
    let mut cur: usize = start;
    let mut first: bool = true;
    let mut has_version: bool = false;
    let mut has_id: bool = false;
    let mut val: Option<i64> = None;
    loop
        invariant
            start <= cur <= s@.len(),
            ljsonrpc@ == key_jsonrpc(),
            lid@ == key_id(),
            lresult@ == key_result(),
            lversion@ == version_two(),
            spec_result_field_int(s@, field@) == (match spec_result_env_members(
                s@,
                start as int,
                field@,
                true,
                false,
                false,
                None,
            ) {
                Some(p) => if ws_end(s@, p.1) == s@.len() {
                    Some(p.0)
                } else {
                    None::<int>
                },
                None => None::<int>,
            }),
            spec_result_env_members(s@, start as int, field@, true, false, false, None)
                == spec_result_env_members(
                s@,
                cur as int,
                field@,
                first,
                has_version,
                has_id,
                int_state_view(val),
            ),
        decreases s@.len() - cur,
    {
        let k2 = skip_ws(s, cur);
        if first && k2 < s.len() {
            if s[k2] == 0x7d {
                return None;
            }
        }
        match parse_string(s, k2) {
            None => {
                return None;
            },
            Some((key, p)) => {
                let c = skip_ws(s, p);
                if c >= s.len() {
                    return None;
                }
                if s[c] != 0x3a {
                    return None;
                }
                let v = skip_ws(s, c + 1);
                let e: usize;
                if bytes_eq(&key, &ljsonrpc) {
                    match parse_string(s, v) {
                        None => {
                            return None;
                        },
                        Some((ver, j)) => {
                            if !bytes_eq(&ver, &lversion) {
                                return None;
                            }
                            e = j;
                            has_version = true;
                        },
                    }
                } else if bytes_eq(&key, &lid) {
                    match parse_int(s, v) {
                        None => {
                            return None;
                        },
                        Some((_x, j)) => {
                            e = j;
                            has_id = true;
                        },
                    }
                } else if bytes_eq(&key, &lresult) {
                    if v >= s.len() {
                        return None;
                    }
                    if s[v] != 0x7b {
                        return None;
                    }
                    match parse_result_object(s, v + 1, field) {
                        None => {
                            return None;
                        },
                        Some((x, j)) => {
                            e = j;
                            if val.is_none() {
                                val = Some(x);
                            }
                        },
                    }
                } else {
                    if !(cur < v) {
                        return None;
                    }
                    match skip_value(s, v) {
                        None => {
                            return None;
                        },
                        Some(j) => {
                            e = j;
                        },
                    }
                }
                let d = skip_ws(s, e);
                if d >= s.len() {
                    return None;
                }
                let b2 = s[d];
                if b2 == 0x2c {
                    cur = d + 1;
                    first = false;
                } else if b2 == 0x7d {
                    if has_version && has_id {
                        match val {
                            Some(x) => {
                                let fin = skip_ws(s, d + 1);
                                if fin == s.len() {
                                    return Some(x);
                                } else {
                                    return None;
                                }
                            },
                            None => {
                                return None;
                            },
                        }
                    } else {
                        return None;
                    }
                } else {
                    return None;
                }
            },
        }
    }
}

} // verus!
