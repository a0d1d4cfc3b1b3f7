//! The executable JSON parser.
//!
//! Each function returns exactly what the corresponding grammar function
//! in `json` says: a parsed document together with the index after it, or
//! nothing where the grammar refuses the text.

use crate::json::JsonV;
use crate::json::JsonValue;
use crate::json::hex4;
use crate::json::hex_val;
use crate::json::is_digit;
use crate::json::is_num_char;
use crate::json::is_number_token;
use crate::json::is_ws;
use crate::json::jv;
use crate::json::jv_arr;
use crate::json::jv_elems;
use crate::json::jv_fields;
use crate::json::jv_obj;
use crate::json::lemma_jv_elems_push;
use crate::json::lemma_jv_fields_push;
use crate::json::digit_run_end;
use crate::json::sp_elems;
use crate::json::sp_members;
use crate::json::sp_num_end;
use crate::json::sp_number;
use crate::json::sp_strchars;
use crate::json::sp_string;
use crate::json::sp_text;
use crate::json::sp_value;
use crate::json::sp_ws;
use crate::json::unescape_short;
use crate::json::wf_json;
use crate::text::char_from_u32;
use crate::text::chars_to_string;
use crate::text::str_to_chars;
use vstd::prelude::*;

verus! {

fn ws_char(c: char) -> (b: bool)
    ensures
        b == is_ws(c),
{
    c == ' ' || c == '\n' || c == '\r' || c == '\t'
}

fn digit_char(c: char) -> (b: bool)
    ensures
        b == is_digit(c),
{
    let v = c as u32;
    48 <= v && v <= 57
}

fn num_char(c: char) -> (b: bool)
    ensures
        b == is_num_char(c),
{
    digit_char(c) || c == '-' || c == '+' || c == '.' || c == 'e' || c == 'E'
}

/// The index of the first non-whitespace character at or after `i`.
fn ws_end(t: &Vec<char>, i: usize) -> (r: usize)
    requires
        i <= t@.len(),
    ensures
        r as int == sp_ws(t@, i as int),
        i <= r <= t@.len(),
{
    let n = t.len();
    let mut j = i;
    while j < n && ws_char(t[j])
        invariant
            i <= j <= n,
            n == t@.len(),
            sp_ws(t@, i as int) == sp_ws(t@, j as int),
        decreases n - j,
    {
        j = j + 1;
    }
    j
}

/// The index of the first non-number character at or after `i`.
fn num_end(t: &Vec<char>, i: usize) -> (r: usize)
    requires
        i <= t@.len(),
    ensures
        r as int == sp_num_end(t@, i as int),
        i <= r <= t@.len(),
{
    let n = t.len();
    let mut j = i;
    while j < n && num_char(t[j])
        invariant
            i <= j <= n,
            n == t@.len(),
            sp_num_end(t@, i as int) == sp_num_end(t@, j as int),
        decreases n - j,
    {
        j = j + 1;
    }
    j
}

/// The index of the first non-digit character at or after `i`.
fn digit_run(s: &Vec<char>, i: usize) -> (r: usize)
    requires
        i <= s@.len(),
    ensures
        r as int == digit_run_end(s@, i as int),
        i <= r <= s@.len(),
{
    let n = s.len();
    let mut j = i;
    while j < n && digit_char(s[j])
        invariant
            i <= j <= n,
            n == s@.len(),
            digit_run_end(s@, i as int) == digit_run_end(s@, j as int),
        decreases n - j,
    {
        j = j + 1;
    }
    j
}

/// Whether the whole vector is one valid number token.
fn number_token(s: &Vec<char>) -> (b: bool)
    ensures
        b == is_number_token(s@),
{
    let n = s.len();
    let i0: usize = if n > 0 && s[0] == '-' {
        1
    } else {
        0
    };
    if i0 >= n || !digit_char(s[i0]) {
        return false;
    }
    let i1: usize = if s[i0] == '0' {
        i0 + 1
    } else {
        digit_run(s, i0)
    };
    let mut i2: usize = i1;
    if i1 < n && s[i1] == '.' {
        if i1 + 1 < n && digit_char(s[i1 + 1]) {
            i2 = digit_run(s, i1 + 1);
        } else {
            return false;
        }
    }
    let mut i3: usize = i2;
    if i2 < n && (s[i2] == 'e' || s[i2] == 'E') {
        let je: usize = if i2 + 1 < n && (s[i2 + 1] == '+' || s[i2 + 1] == '-') {
            i2 + 2
        } else {
            i2 + 1
        };
        if je < n && digit_char(s[je]) {
            i3 = digit_run(s, je);
        } else {
            return false;
        }
    }
    i3 == n
}

/// A number token starting at `i`.
fn parse_number(t: &Vec<char>, i: usize) -> (r: Option<(String, usize)>)
    requires
        i <= t@.len(),
    ensures
        (match r {
            Option::Some((s, j)) => sp_number(t@, i as int) == Some((s@, j as int)) && i < j
                && j <= t@.len(),
            Option::None => sp_number(t@, i as int) is None,
        }),
{
    let e = num_end(t, i);
    if e == i {
        return None;
    }
    let mut raw: Vec<char> = Vec::new();
    let mut k = i;
    while k < e
        invariant
            i <= k <= e <= t@.len(),
            raw@ == t@.subrange(i as int, k as int),
        decreases e - k,
    {
        raw.push(t[k]);
        k = k + 1;
        assert(raw@ =~= t@.subrange(i as int, k as int));
    }
    if number_token(&raw) {
        let s = chars_to_string(&raw);
        Some((s, e))
    } else {
        None
    }
}

fn hex_char_val(c: char) -> (r: Option<u32>)
    ensures
        (match r {
            Option::Some(v) => v as int == hex_val(c) && v < 16,
            Option::None => hex_val(c) == -1,
        }),
{
    let v = c as u32;
    if 48 <= v && v <= 57 {
        Some(v - 48)
    } else if 97 <= v && v <= 102 {
        Some(v - 87)
    } else if 65 <= v && v <= 70 {
        Some(v - 55)
    } else {
        None
    }
}

/// The value of the four hexadecimal digits at `i`, if all four are such.
fn hex4_chars(t: &Vec<char>, i: usize) -> (r: Option<u32>)
    requires
        i + 4 <= t@.len(),
    ensures
        (match r {
            Option::Some(v) => hex4(t@, i as int) == v as int && v < 0x10000,
            Option::None => hex4(t@, i as int) == -1,
        }),
{
    let n = t.len();
    let a = hex_char_val(t[i]);
    let b = hex_char_val(t[i + 1]);
    let c = hex_char_val(t[i + 2]);
    let d = hex_char_val(t[i + 3]);
    match (a, b, c, d) {
        (Option::Some(av), Option::Some(bv), Option::Some(cv), Option::Some(dv)) => Some(
            av * 4096 + bv * 256 + cv * 16 + dv,
        ),
        _ => None,
    }
}

fn short_escape(e: char) -> (r: Option<char>)
    ensures
        r == unescape_short(e),
{
    if e == '"' {
        Some('"')
    } else if e == '\\' {
        Some('\\')
    } else if e == '/' {
        Some('/')
    } else if e == 'b' {
        Some('\u{0008}')
    } else if e == 'f' {
        Some('\u{000C}')
    } else if e == 'n' {
        Some('\n')
    } else if e == 'r' {
        Some('\r')
    } else if e == 't' {
        Some('\t')
    } else {
        None
    }
}

/// What remains of the string contents once `acc` has been read.
pub open spec fn strchars_cont(acc: Seq<char>, o: Option<(Seq<char>, int)>) -> Option<
    (Seq<char>, int),
> {
    match o {
        Option::Some((rest, j)) => Some((acc + rest, j)),
        Option::None => None,
    }
}

proof fn strchars_step(t: Seq<char>, start: int, cur: int, cur2: int, ch: char, acc: Seq<char>)
    requires
        sp_strchars(t, start) == strchars_cont(acc, sp_strchars(t, cur)),
        sp_strchars(t, cur) == strchars_cont(seq![ch], sp_strchars(t, cur2)),
    ensures
        sp_strchars(t, start) == strchars_cont(acc.push(ch), sp_strchars(t, cur2)),
{
    if sp_strchars(t, cur2) is Some {
        let pair = sp_strchars(t, cur2)->0;
        let rest = pair.0;
        assert(acc + (seq![ch] + rest) =~= acc.push(ch) + rest);
    }
}

/// A string literal starting at `i`.
fn parse_string(t: &Vec<char>, i: usize) -> (r: Option<(String, usize)>)
    requires
        i <= t@.len(),
    ensures
        (match r {
            Option::Some((s, j)) => sp_string(t@, i as int) == Some((s@, j as int)) && i < j
                && j <= t@.len(),
            Option::None => sp_string(t@, i as int) is None,
        }),
{
    let n = t.len();
    if i >= n || t[i] != '"' {
        return None;
    }
    let mut acc: Vec<char> = Vec::new();
    let mut cur: usize = i + 1;
    loop
        invariant
            i + 1 <= cur <= n,
            n == t@.len(),
            i < n,
            t@[i as int] == '"',
            sp_string(t@, i as int) == strchars_cont(acc@, sp_strchars(t@, cur as int)),
        decreases n - cur,
    {
        if cur >= n {
            return None;
        }
        let c = t[cur];
        if c == '"' {
            assert(acc@ + Seq::<char>::empty() =~= acc@);
            let s = chars_to_string(&acc);
            return Some((s, cur + 1));
        } else if c == '\\' {
            if n - cur < 2 {
                return None;
            }
            let e = t[cur + 1];
            if e == 'u' {
                if n - cur < 6 {
                    return None;
                }
                let h = hex4_chars(t, cur + 2);
                match h {
                    Option::None => {
                        return None;
                    },
                    Option::Some(hv) => {
                        if 0xD800 <= hv && hv < 0xDC00 {
                            if n - cur < 12 {
                                return None;
                            }
                            if t[cur + 6] != '\\' || t[cur + 7] != 'u' {
                                return None;
                            }
                            let l = hex4_chars(t, cur + 8);
                            match l {
                                Option::None => {
                                    return None;
                                },
                                Option::Some(lv) => {
                                    if !(0xDC00 <= lv && lv < 0xE000) {
                                        return None;
                                    }
                                    let code: u32 = 0x10000 + (hv - 0xD800) * 0x400 + (lv
                                        - 0xDC00);
                                    let oc = char_from_u32(code);
                                    match oc {
                                        Option::Some(ch) => {
                                            proof {
                                                strchars_step(
                                                    t@,
                                                    i + 1,
                                                    cur as int,
                                                    cur + 12,
                                                    ch,
                                                    acc@,
                                                );
                                            }
                                            acc.push(ch);
                                            cur = cur + 12;
                                        },
                                        Option::None => {
                                            proof {
                                                assert(false);
                                            }
                                            return None;
                                        },
                                    }
                                },
                            }
                        } else if 0xDC00 <= hv && hv < 0xE000 {
                            return None;
                        } else {
                            let oc = char_from_u32(hv);
                            match oc {
                                Option::Some(ch) => {
                                    proof {
                                        strchars_step(t@, i + 1, cur as int, cur + 6, ch, acc@);
                                    }
                                    acc.push(ch);
                                    cur = cur + 6;
                                },
                                Option::None => {
                                    proof {
                                        assert(false);
                                    }
                                    return None;
                                },
                            }
                        }
                    },
                }
            } else {
                let c0 = short_escape(e);
                match c0 {
                    Option::None => {
                        return None;
                    },
                    Option::Some(ch) => {
                        proof {
                            strchars_step(t@, i + 1, cur as int, cur + 2, ch, acc@);
                        }
                        acc.push(ch);
                        cur = cur + 2;
                    },
                }
            }
        } else {
            let v = c as u32;
            if v < 0x20 {
                return None;
            }
            proof {
                strchars_step(t@, i + 1, cur as int, cur + 1, c, acc@);
            }
            acc.push(c);
            cur = cur + 1;
        }
    }
}

/// What remains of an element list once `pre` has been read.
pub open spec fn elems_cont(pre: Seq<JsonV>, o: Option<(Seq<JsonV>, int)>) -> Option<
    (Seq<JsonV>, int),
> {
    match o {
        Option::Some((vs, j)) => Some((pre + vs, j)),
        Option::None => None,
    }
}

/// What remains of a member list once `pre` has been read.
pub open spec fn members_cont(
    pre: Seq<(Seq<char>, JsonV)>,
    o: Option<(Seq<(Seq<char>, JsonV)>, int)>,
) -> Option<(Seq<(Seq<char>, JsonV)>, int)> {
    match o {
        Option::Some((fs, j)) => Some((pre + fs, j)),
        Option::None => None,
    }
}

/// A parsed value starting at `i`.
pub fn parse_value(t: &Vec<char>, i: usize) -> (r: Option<(JsonValue, usize)>)
    requires
        i <= t@.len(),
    ensures
        (match r {
            Option::Some((v, j)) => sp_value(t@, i as int) == Some((jv(v), j as int)) && i < j
                && j <= t@.len(),
            Option::None => sp_value(t@, i as int) is None,
        }),
    decreases t@.len() - i, 1int,
{
    let n = t.len();
    if i >= n {
        return None;
    }
    let c = t[i];
    if c == 'n' {
        if n - i >= 4 && t[i + 1] == 'u' && t[i + 2] == 'l' && t[i + 3] == 'l' {
            Some((JsonValue::Null, i + 4))
        } else {
            None
        }
    } else if c == 't' {
        if n - i >= 4 && t[i + 1] == 'r' && t[i + 2] == 'u' && t[i + 3] == 'e' {
            Some((JsonValue::Bool(true), i + 4))
        } else {
            None
        }
    } else if c == 'f' {
        if n - i >= 5 && t[i + 1] == 'a' && t[i + 2] == 'l' && t[i + 3] == 's' && t[i + 4] == 'e' {
            Some((JsonValue::Bool(false), i + 5))
        } else {
            None
        }
    } else if c == '"' {
        match parse_string(t, i) {
            Option::None => None,
            Option::Some((s, j)) => Some((JsonValue::Str(s), j)),
        }
    } else if c == '[' {
        let j = ws_end(t, i + 1);
        if j < n && t[j] == ']' {
            let vs: Vec<JsonValue> = Vec::new();
            assert(jv_arr(vs) =~= Seq::<JsonV>::empty());
            Some((JsonValue::Arr(vs), j + 1))
        } else {
            match parse_elems(t, i + 1) {
                Option::None => None,
                Option::Some((vs, j2)) => Some((JsonValue::Arr(vs), j2)),
            }
        }
    } else if c == '{' {
        let j = ws_end(t, i + 1);
        if j < n && t[j] == '}' {
            let fs: Vec<(String, JsonValue)> = Vec::new();
            assert(jv_obj(fs) =~= Seq::<(Seq<char>, JsonV)>::empty());
            Some((JsonValue::Obj(fs), j + 1))
        } else {
            match parse_members(t, i + 1) {
                Option::None => None,
                Option::Some((fs, j2)) => Some((JsonValue::Obj(fs), j2)),
            }
        }
    } else if c == '-' || digit_char(c) {
        match parse_number(t, i) {
            Option::None => None,
            Option::Some((s, j)) => Some((JsonValue::Num(s), j)),
        }
    } else {
        None
    }
}

/// One or more array elements starting at `i`.
fn parse_elems(t: &Vec<char>, i: usize) -> (r: Option<(Vec<JsonValue>, usize)>)
    requires
        i <= t@.len(),
    ensures
        (match r {
            Option::Some((vs, j)) => sp_elems(t@, i as int) == Some((jv_arr(vs), j as int)) && i < j
                && j <= t@.len(),
            Option::None => sp_elems(t@, i as int) is None,
        }),
    decreases t@.len() - i, 2int,
{
    let n = t.len();
    let mut acc: Vec<JsonValue> = Vec::new();
    let mut cur: usize = i;
    loop
        invariant
            i <= cur <= n,
            n == t@.len(),
            sp_elems(t@, i as int) == elems_cont(jv_arr(acc), sp_elems(t@, cur as int)),
            cur > i || acc@.len() == 0,
        decreases n - cur,
    {
        let jj = ws_end(t, cur);
        let parsed = parse_value(t, jj);
        match parsed {
            Option::None => {
                return None;
            },
            Option::Some((v, k)) => {
                let k2 = ws_end(t, k);
                if k2 < n && t[k2] == ',' {
                    proof {
                        lemma_jv_elems_push(acc@, v);
                        if sp_elems(t@, k2 + 1) is Some {
                            let pair = sp_elems(t@, k2 + 1)->0;
                            let vs = pair.0;
                            assert(jv_arr(acc) + (seq![jv(v)] + vs) =~= jv_elems(
                                acc@.push(v),
                                0,
                            ) + vs);
                        }
                    }
                    acc.push(v);
                    cur = k2 + 1;
                } else if k2 < n && t[k2] == ']' {
                    proof {
                        lemma_jv_elems_push(acc@, v);
                        assert(jv_arr(acc) + seq![jv(v)] =~= jv_elems(acc@.push(v), 0));
                    }
                    acc.push(v);
                    return Some((acc, k2 + 1));
                } else {
                    return None;
                }
            },
        }
    }
}

/// One or more object members starting at `i`.
fn parse_members(t: &Vec<char>, i: usize) -> (r: Option<(Vec<(String, JsonValue)>, usize)>)
    requires
        i <= t@.len(),
    ensures
        (match r {
            Option::Some((fs, j)) => sp_members(t@, i as int) == Some((jv_obj(fs), j as int)) && i
                < j && j <= t@.len(),
            Option::None => sp_members(t@, i as int) is None,
        }),
    decreases t@.len() - i, 2int,
{
    let n = t.len();
    let mut acc: Vec<(String, JsonValue)> = Vec::new();
    let mut cur: usize = i;
    loop
        invariant
            i <= cur <= n,
            n == t@.len(),
            sp_members(t@, i as int) == members_cont(jv_obj(acc), sp_members(t@, cur as int)),
            cur > i || acc@.len() == 0,
        decreases n - cur,
    {
        let jj = ws_end(t, cur);
        let key = parse_string(t, jj);
        match key {
            Option::None => {
                return None;
            },
            Option::Some((ks, k)) => {
                let k2 = ws_end(t, k);
                if k2 < n && t[k2] == ':' {
                    let parsed = parse_value(t, k2 + 1);
                    match parsed {
                        Option::None => {
                            return None;
                        },
                        Option::Some((v, m)) => {
                            let m2 = ws_end(t, m);
                            if m2 < n && t[m2] == ',' {
                                proof {
                                    lemma_jv_fields_push(acc@, (ks, v));
                                    if sp_members(t@, m2 + 1) is Some {
                                        let pair = sp_members(t@, m2 + 1)->0;
                                        let fs = pair.0;
                                        assert(jv_obj(acc) + (seq![(ks@, jv(v))] + fs)
                                            =~= jv_fields(acc@.push((ks, v)), 0) + fs);
                                    }
                                }
                                acc.push((ks, v));
                                cur = m2 + 1;
                            } else if m2 < n && t[m2] == '}' {
                                proof {
                                    lemma_jv_fields_push(acc@, (ks, v));
                                    assert(jv_obj(acc) + seq![(ks@, jv(v))] =~= jv_fields(
                                        acc@.push((ks, v)),
                                        0,
                                    ));
                                }
                                acc.push((ks, v));
                                return Some((acc, m2 + 1));
                            } else {
                                return None;
                            }
                        },
                    }
                } else {
                    return None;
                }
            },
        }
    }
}

/// The document written in the whole character vector, if it is one valid
/// JSON text.
pub fn parse_json_chars(t: &Vec<char>) -> (r: Option<JsonValue>)
    ensures
        (match r {
            Option::Some(v) => sp_text(t@) == Some(jv(v)) && wf_json(jv(v)),
            Option::None => sp_text(t@) is None,
        }),
{
    let i = ws_end(t, 0);
    match parse_value(t, i) {
        Option::None => None,
        Option::Some((v, j)) => {
            let e = ws_end(t, j);
            if e == t.len() {
                proof {
                    crate::json::lemma_sp_value_wf(t@, i as int);
                }
                Some(v)
            } else {
                None
            }
        },
    }
}

/// The document written in the string, if it is one valid JSON text.
pub fn parse_json_text(s: &str) -> (r: Option<JsonValue>)
    ensures
        (match r {
            Option::Some(v) => sp_text(s@) == Some(jv(v)) && wf_json(jv(v)),
            Option::None => sp_text(s@) is None,
        }),
{
    let t = str_to_chars(s);
    parse_json_chars(&t)
}

} // verus!
