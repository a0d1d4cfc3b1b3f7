//! JSON documents and their wire text.
//!
//! `JsonValue` is the document model used by the protocol envelopes.  A
//! number keeps its literal token text, so a request id round-trips byte
//! for byte and no floating-point representation is needed.  `JsonV` is
//! the specification-level mirror in which strings are character
//! sequences; `jv` maps a document to its mirror.  `ser_value` defines the
//! exact serialized text of a document, and `write_json` produces it.

use crate::text::str_to_chars;
use vstd::prelude::*;
use vstd::string::*;

verus! {

/// Specification-level JSON document: strings are character sequences.
pub enum JsonV {
    Null,
    Bool(bool),
    Num(Seq<char>),
    Str(Seq<char>),
    Arr(Seq<JsonV>),
    Obj(Seq<(Seq<char>, JsonV)>),
}

/// A JSON document as held and exchanged by the library.
#[derive(Debug)]
pub enum JsonValue {
    Null,
    Bool(bool),
    /// A number, kept as its literal token text (for instance `-32700`).
    Num(String),
    Str(String),
    Arr(Vec<JsonValue>),
    Obj(Vec<(String, JsonValue)>),
}

/// The specification mirror of a document.
pub open spec fn jv(v: JsonValue) -> JsonV
    decreases v, 2int, 0int,
{
    match v {
        JsonValue::Null => JsonV::Null,
        JsonValue::Bool(b) => JsonV::Bool(b),
        JsonValue::Num(s) => JsonV::Num(s@),
        JsonValue::Str(s) => JsonV::Str(s@),
        JsonValue::Arr(items) => JsonV::Arr(jv_arr(items)),
        JsonValue::Obj(fields) => JsonV::Obj(jv_obj(fields)),
    }
}

pub open spec fn jv_arr(items: Vec<JsonValue>) -> Seq<JsonV>
    decreases items, 1int, 0int,
{
    jv_elems(items@, 0)
}

pub open spec fn jv_elems(s: Seq<JsonValue>, i: int) -> Seq<JsonV>
    decreases s, s.len() - i, 0int,
{
    if 0 <= i < s.len() {
        seq![jv(s[i])] + jv_elems(s, i + 1)
    } else {
        Seq::empty()
    }
}

pub open spec fn jv_obj(fields: Vec<(String, JsonValue)>) -> Seq<(Seq<char>, JsonV)>
    decreases fields, 1int, 0int,
{
    jv_fields(fields@, 0)
}

pub open spec fn jv_fields(s: Seq<(String, JsonValue)>, i: int) -> Seq<(Seq<char>, JsonV)>
    decreases s, s.len() - i, 1int,
{
    if 0 <= i < s.len() {
        seq![jv_field(s[i])] + jv_fields(s, i + 1)
    } else {
        Seq::empty()
    }
}

pub open spec fn jv_field(p: (String, JsonValue)) -> (Seq<char>, JsonV)
    decreases p, 0int, 0int,
{
    (p.0@, jv(p.1))
}

pub proof fn lemma_jv_elems(s: Seq<JsonValue>, i: int)
    requires
        0 <= i <= s.len(),
    ensures
        jv_elems(s, i).len() == s.len() - i,
        forall|q: int| 0 <= q < s.len() - i ==> #[trigger] jv_elems(s, i)[q] == jv(s[i + q]),
    decreases s.len() - i,
{
    if i < s.len() {
        lemma_jv_elems(s, i + 1);
    }
}

pub proof fn lemma_jv_fields(s: Seq<(String, JsonValue)>, i: int)
    requires
        0 <= i <= s.len(),
    ensures
        jv_fields(s, i).len() == s.len() - i,
        forall|q: int| 0 <= q < s.len() - i ==> #[trigger] jv_fields(s, i)[q] == jv_field(s[i + q]),
    decreases s.len() - i,
{
    if i < s.len() {
        lemma_jv_fields(s, i + 1);
    }
}

pub proof fn lemma_jv_elems_push(s: Seq<JsonValue>, v: JsonValue)
    ensures
        jv_elems(s.push(v), 0) =~= jv_elems(s, 0).push(jv(v)),
{
    lemma_jv_elems(s, 0);
    lemma_jv_elems(s.push(v), 0);
    assert(forall|q: int|
        0 <= q < s.len() ==> #[trigger] (s.push(v)[q]) == s[q]);
}

pub proof fn lemma_jv_fields_push(s: Seq<(String, JsonValue)>, p: (String, JsonValue))
    ensures
        jv_fields(s.push(p), 0) =~= jv_fields(s, 0).push(jv_field(p)),
{
    lemma_jv_fields(s, 0);
    lemma_jv_fields(s.push(p), 0);
    assert(forall|q: int|
        0 <= q < s.len() ==> #[trigger] (s.push(p)[q]) == s[q]);
}

/// The serializer escapes a quote, a backslash, and every control
/// character; all other characters stand as themselves.
pub open spec fn hex_digit(d: int) -> char {
    if d == 0 {
        '0'
    } else if d == 1 {
        '1'
    } else if d == 2 {
        '2'
    } else if d == 3 {
        '3'
    } else if d == 4 {
        '4'
    } else if d == 5 {
        '5'
    } else if d == 6 {
        '6'
    } else if d == 7 {
        '7'
    } else if d == 8 {
        '8'
    } else if d == 9 {
        '9'
    } else if d == 10 {
        'a'
    } else if d == 11 {
        'b'
    } else if d == 12 {
        'c'
    } else if d == 13 {
        'd'
    } else if d == 14 {
        'e'
    } else {
        'f'
    }
}

pub open spec fn esc_char(c: char) -> Seq<char> {
    if c == '"' {
        seq!['\\', '"']
    } else if c == '\\' {
        seq!['\\', '\\']
    } else if (c as u32) < 0x20 {
        seq!['\\', 'u', '0', '0', hex_digit((c as u32) as int / 16), hex_digit((c as u32) as int % 16)]
    } else {
        seq![c]
    }
}

pub open spec fn ser_chars(s: Seq<char>, i: int) -> Seq<char>
    decreases s.len() - i,
{
    if 0 <= i < s.len() {
        esc_char(s[i]) + ser_chars(s, i + 1)
    } else {
        Seq::empty()
    }
}

pub open spec fn ser_string(s: Seq<char>) -> Seq<char> {
    seq!['"'] + ser_chars(s, 0) + seq!['"']
}

/// The exact serialized text of a document: compact form, no added
/// whitespace, object fields in their held order.
pub open spec fn ser_value(j: JsonV) -> Seq<char>
    decreases j, 0int, 0int,
{
    match j {
        JsonV::Null => seq!['n', 'u', 'l', 'l'],
        JsonV::Bool(b) => if b {
            seq!['t', 'r', 'u', 'e']
        } else {
            seq!['f', 'a', 'l', 's', 'e']
        },
        JsonV::Num(s) => s,
        JsonV::Str(s) => ser_string(s),
        JsonV::Arr(items) => seq!['['] + ser_elems(items, 0) + seq![']'],
        JsonV::Obj(fields) => seq!['{'] + ser_fields(fields, 0) + seq!['}'],
    }
}

pub open spec fn ser_elems(items: Seq<JsonV>, k: int) -> Seq<char>
    decreases items, items.len() - k, 0int,
{
    if 0 <= k < items.len() {
        if k == items.len() - 1 {
            ser_value(items[k])
        } else {
            ser_value(items[k]) + seq![','] + ser_elems(items, k + 1)
        }
    } else {
        Seq::empty()
    }
}

pub open spec fn ser_fields(fields: Seq<(Seq<char>, JsonV)>, k: int) -> Seq<char>
    decreases fields, fields.len() - k, 1int,
{
    if 0 <= k < fields.len() {
        if k == fields.len() - 1 {
            ser_field(fields[k])
        } else {
            ser_field(fields[k]) + seq![','] + ser_fields(fields, k + 1)
        }
    } else {
        Seq::empty()
    }
}

pub open spec fn ser_field(p: (Seq<char>, JsonV)) -> Seq<char>
    decreases p, 0int, 0int,
{
    ser_string(p.0) + seq![':'] + ser_value(p.1)
}

fn hex_char(d: u32) -> (r: char)
    requires
        d < 16,
    ensures
        r == hex_digit(d as int),
{
    if d == 0 {
        '0'
    } else if d == 1 {
        '1'
    } else if d == 2 {
        '2'
    } else if d == 3 {
        '3'
    } else if d == 4 {
        '4'
    } else if d == 5 {
        '5'
    } else if d == 6 {
        '6'
    } else if d == 7 {
        '7'
    } else if d == 8 {
        '8'
    } else if d == 9 {
        '9'
    } else if d == 10 {
        'a'
    } else if d == 11 {
        'b'
    } else if d == 12 {
        'c'
    } else if d == 13 {
        'd'
    } else if d == 14 {
        'e'
    } else {
        'f'
    }
}

fn write_escaped_char(c: char, out: &mut Vec<char>)
    ensures
        final(out)@ == old(out)@ + esc_char(c),
{
    if c == '"' {
        out.push('\\');
        out.push('"');
    } else if c == '\\' {
        out.push('\\');
        out.push('\\');
    } else {
        let v = c as u32;
        if v < 0x20 {
            out.push('\\');
            out.push('u');
            out.push('0');
            out.push('0');
            out.push(hex_char(v / 16));
            out.push(hex_char(v % 16));
        } else {
            out.push(c);
        }
    }
    assert(out@ =~= old(out)@ + esc_char(c));
}

fn write_string_body(s: &String, out: &mut Vec<char>)
    ensures
        final(out)@ == old(out)@ + ser_chars(s@, 0),
{
    let cs = str_to_chars(s.as_str());
    let n = cs.len();
    let mut i: usize = 0;
    while i < n
        invariant
            i <= n,
            n == cs@.len(),
            cs@ == s@,
            out@ + ser_chars(s@, i as int) == old(out)@ + ser_chars(s@, 0),
        decreases n - i,
    {
        let c = cs[i];
        assert(ser_chars(s@, i as int) == esc_char(c) + ser_chars(s@, i + 1));
        write_escaped_char(c, out);
        assert(out@ + ser_chars(s@, i + 1) =~= old(out)@ + ser_chars(s@, 0));
        i = i + 1;
    }
    assert(ser_chars(s@, n as int) =~= Seq::<char>::empty());
    assert(out@ =~= out@ + ser_chars(s@, n as int));
}

/// Appends the serialized text of the document to `out`.
pub fn write_json(v: &JsonValue, out: &mut Vec<char>)
    ensures
        final(out)@ == old(out)@ + ser_value(jv(*v)),
    decreases *v, 2int, 0int,
{
    match v {
        JsonValue::Null => {
            out.push('n');
            out.push('u');
            out.push('l');
            out.push('l');
            assert(out@ =~= old(out)@ + ser_value(jv(*v)));
        },
        JsonValue::Bool(b) => {
            if *b {
                out.push('t');
                out.push('r');
                out.push('u');
                out.push('e');
            } else {
                out.push('f');
                out.push('a');
                out.push('l');
                out.push('s');
                out.push('e');
            }
            assert(out@ =~= old(out)@ + ser_value(jv(*v)));
        },
        JsonValue::Num(s) => {
            let mut cs = str_to_chars(s.as_str());
            out.append(&mut cs);
            assert(out@ =~= old(out)@ + ser_value(jv(*v)));
        },
        JsonValue::Str(s) => {
            out.push('"');
            write_string_body(s, out);
            out.push('"');
            assert(out@ =~= old(out)@ + ser_value(jv(*v)));
        },
        JsonValue::Arr(items) => {
            out.push('[');
            if items.len() > 0 {
                write_elems(items, 0, out);
            }
            out.push(']');
            proof {
                lemma_jv_elems(items@, 0);
                if items@.len() == 0 {
                    assert(ser_elems(jv_arr(*items), 0) =~= Seq::<char>::empty());
                }
            }
            assert(out@ =~= old(out)@ + ser_value(jv(*v)));
        },
        JsonValue::Obj(fields) => {
            out.push('{');
            if fields.len() > 0 {
                write_fields(fields, 0, out);
            }
            out.push('}');
            proof {
                lemma_jv_fields(fields@, 0);
                if fields@.len() == 0 {
                    assert(ser_fields(jv_obj(*fields), 0) =~= Seq::<char>::empty());
                }
            }
            assert(out@ =~= old(out)@ + ser_value(jv(*v)));
        },
    }
}

fn write_elems(items: &Vec<JsonValue>, k: usize, out: &mut Vec<char>)
    requires
        k < items@.len(),
    ensures
        final(out)@ == old(out)@ + ser_elems(jv_arr(*items), k as int),
    decreases *items, items@.len() - k, 1int,
{
    proof {
        lemma_jv_elems(items@, 0);
        assert(jv_arr(*items)[k as int] == jv(items@[k as int]));
    }
    let n = items.len();
    write_json(&items[k], out);
    assert(out@ =~= old(out)@ + ser_value(jv_arr(*items)[k as int]));
    if k + 1 < n {
        out.push(',');
        write_elems(items, k + 1, out);
    }
    assert(out@ =~= old(out)@ + ser_elems(jv_arr(*items), k as int));
}

fn write_fields(fields: &Vec<(String, JsonValue)>, k: usize, out: &mut Vec<char>)
    requires
        k < fields@.len(),
    ensures
        final(out)@ == old(out)@ + ser_fields(jv_obj(*fields), k as int),
    decreases *fields, fields@.len() - k, 1int,
{
    proof {
        lemma_jv_fields(fields@, 0);
        assert(jv_obj(*fields)[k as int] == jv_field(fields@[k as int]));
    }
    let n = fields.len();
    out.push('"');
    write_string_body(&fields[k].0, out);
    out.push('"');
    out.push(':');
    write_json(&fields[k].1, out);
    assert(out@ =~= old(out)@ + ser_field(jv_obj(*fields)[k as int]));
    if k + 1 < n {
        out.push(',');
        write_fields(fields, k + 1, out);
    }
    assert(out@ =~= old(out)@ + ser_fields(jv_obj(*fields), k as int));
}

/// A structurally equal copy of the document.
#[verifier::loop_isolation(false)]
pub fn clone_json(v: &JsonValue) -> (r: JsonValue)
    ensures
        jv(r) == jv(*v),
    decreases *v, 2int, 0int,
{
    match v {
        JsonValue::Null => JsonValue::Null,
        JsonValue::Bool(b) => JsonValue::Bool(*b),
        JsonValue::Num(s) => JsonValue::Num(s.clone()),
        JsonValue::Str(s) => JsonValue::Str(s.clone()),
        JsonValue::Arr(items) => {
            let n = items.len();
            let mut out: Vec<JsonValue> = Vec::new();
            let mut k: usize = 0;
            while k < n
                invariant
                    k <= n,
                    out@.len() == k,
                    forall|q: int| 0 <= q < k ==> jv(out@[q]) == jv(items@[q]),
                decreases n - k,
            {
                out.push(clone_json(&items[k]));
                k = k + 1;
            }
            proof {
                lemma_jv_elems(out@, 0);
                lemma_jv_elems(items@, 0);
                assert(jv_arr(out) =~= jv_arr(*items));
            }
            JsonValue::Arr(out)
        },
        JsonValue::Obj(fields) => {
            let n = fields.len();
            let mut out: Vec<(String, JsonValue)> = Vec::new();
            let mut k: usize = 0;
            while k < n
                invariant
                    k <= n,
                    out@.len() == k,
                    forall|q: int| 0 <= q < k ==> jv_field(out@[q]) == jv_field(fields@[q]),
                decreases n - k,
            {
                let key = fields[k].0.clone();
                let val = clone_json(&fields[k].1);
                out.push((key, val));
                k = k + 1;
            }
            proof {
                lemma_jv_fields(out@, 0);
                lemma_jv_fields(fields@, 0);
                assert(jv_obj(out) =~= jv_obj(*fields));
            }
            JsonValue::Obj(out)
        },
    }
}

/// A looked-up field value of a well-formed object document is
/// well-formed.
pub proof fn lemma_obj_lookup_wf(fields: Seq<(Seq<char>, JsonV)>, key: Seq<char>, k: int)
    requires
        wf_fields(fields, 0),
        0 <= k,
    ensures
        (match obj_lookup_from(fields, key, k) {
            Option::Some(x) => wf_json(x),
            Option::None => true,
        }),
    decreases fields.len() - k,
{
    if 0 <= k < fields.len() {
        if fields[k].0 == key {
            lemma_wf_fields_index(fields, 0, k);
        } else {
            lemma_obj_lookup_wf(fields, key, k + 1);
        }
    }
}

/// Appends one named field, for building object documents.
pub fn push_field(fields: &mut Vec<(String, JsonValue)>, key: &str, val: JsonValue)
    ensures
        jv_fields(final(fields)@, 0) == jv_fields(old(fields)@, 0).push((key@, jv(val))),
{
    let ghost before = fields@;
    let ghost gkey = key@;
    let ghost gval = jv(val);
    fields.push((String::from_str(key), val));
    proof {
        lemma_jv_fields_push(before, fields@[fields@.len() - 1]);
        assert(jv_field(fields@[fields@.len() - 1]) == (gkey, gval));
    }
}

/// The serialized text of a document, as a vector of characters.
pub fn json_to_chars(v: &JsonValue) -> (r: Vec<char>)
    ensures
        r@ == ser_value(jv(*v)),
{
    let mut out: Vec<char> = Vec::new();
    write_json(v, &mut out);
    out
}

/// The serialized text of a document, as a string.
pub fn json_to_string(v: &JsonValue) -> (r: String)
    ensures
        r@ == ser_value(jv(*v)),
{
    let cs = json_to_chars(v);
    crate::text::chars_to_string(&cs)
}

// ---------------------------------------------------------------------------
// The grammar.  `sp_value` and its companions define which texts parse and
// to what document, by recursive descent over a character sequence.  The
// executable parser below is proved to return exactly what they say.
// ---------------------------------------------------------------------------
pub open spec fn is_ws(c: char) -> bool {
    c == ' ' || c == '\n' || c == '\r' || c == '\t'
}

pub open spec fn is_digit(c: char) -> bool {
    48 <= (c as u32) && (c as u32) <= 57
}

pub open spec fn is_num_char(c: char) -> bool {
    is_digit(c) || c == '-' || c == '+' || c == '.' || c == 'e' || c == 'E'
}

/// The first index at or after `i` that does not hold whitespace.
pub open spec fn sp_ws(t: Seq<char>, i: int) -> int
    decreases t.len() - i,
{
    if 0 <= i < t.len() && is_ws(t[i]) {
        sp_ws(t, i + 1)
    } else {
        i
    }
}

pub proof fn lemma_sp_ws(t: Seq<char>, i: int)
    requires
        0 <= i <= t.len(),
    ensures
        i <= sp_ws(t, i) <= t.len(),
        sp_ws(t, i) < t.len() ==> !is_ws(t[sp_ws(t, i)]),
    decreases t.len() - i,
{
    if i < t.len() && is_ws(t[i]) {
        lemma_sp_ws(t, i + 1);
    }
}

/// The first index at or after `i` that does not hold a number character.
pub open spec fn sp_num_end(t: Seq<char>, i: int) -> int
    decreases t.len() - i,
{
    if 0 <= i < t.len() && is_num_char(t[i]) {
        sp_num_end(t, i + 1)
    } else {
        i
    }
}

pub proof fn lemma_sp_num_end(t: Seq<char>, i: int)
    requires
        0 <= i <= t.len(),
    ensures
        i <= sp_num_end(t, i) <= t.len(),
        forall|k: int| i <= k < sp_num_end(t, i) ==> is_num_char(t[k]),
        sp_num_end(t, i) < t.len() ==> !is_num_char(t[sp_num_end(t, i)]),
    decreases t.len() - i,
{
    if i < t.len() && is_num_char(t[i]) {
        lemma_sp_num_end(t, i + 1);
    }
}

/// The first index at or after `i` that does not hold a decimal digit.
pub open spec fn digit_run_end(s: Seq<char>, i: int) -> int
    decreases s.len() - i,
{
    if 0 <= i < s.len() && is_digit(s[i]) {
        digit_run_end(s, i + 1)
    } else {
        i
    }
}

pub proof fn lemma_digit_run_end(s: Seq<char>, i: int)
    requires
        0 <= i <= s.len(),
    ensures
        i <= digit_run_end(s, i) <= s.len(),
        forall|k: int| i <= k < digit_run_end(s, i) ==> is_digit(s[k]),
        digit_run_end(s, i) < s.len() ==> !is_digit(s[digit_run_end(s, i)]),
    decreases s.len() - i,
{
    if i < s.len() && is_digit(s[i]) {
        lemma_digit_run_end(s, i + 1);
    }
}

/// Whether `s` is exactly one valid JSON number token: an optional minus
/// sign, an integer part without a superfluous leading zero, an optional
/// fraction, and an optional exponent.
pub open spec fn is_number_token(s: Seq<char>) -> bool {
    let i0: int = if s.len() > 0 && s[0] == '-' {
        1
    } else {
        0
    };
    if i0 >= s.len() || !is_digit(s[i0]) {
        false
    } else {
        let i1: int = if s[i0] == '0' {
            i0 + 1
        } else {
            digit_run_end(s, i0)
        };
        let i2: int = if i1 < s.len() && s[i1] == '.' {
            if i1 + 1 < s.len() && is_digit(s[i1 + 1]) {
                digit_run_end(s, i1 + 1)
            } else {
                -1
            }
        } else {
            i1
        };
        if i2 < 0 {
            false
        } else {
            let i3: int = if i2 < s.len() && (s[i2] == 'e' || s[i2] == 'E') {
                let je: int = if i2 + 1 < s.len() && (s[i2 + 1] == '+' || s[i2 + 1] == '-') {
                    i2 + 2
                } else {
                    i2 + 1
                };
                if je < s.len() && is_digit(s[je]) {
                    digit_run_end(s, je)
                } else {
                    -1
                }
            } else {
                i2
            };
            i3 == s.len()
        }
    }
}

/// A number token: the maximal run of number characters from `i`, if it
/// forms a valid token.
pub open spec fn sp_number(t: Seq<char>, i: int) -> Option<(Seq<char>, int)> {
    let e = sp_num_end(t, i);
    let raw = t.subrange(i, e);
    if 0 <= i && i < e && is_number_token(raw) {
        Some((raw, e))
    } else {
        None
    }
}

/// The value of one hexadecimal digit, or -1.
pub open spec fn hex_val(c: char) -> int {
    let v = c as u32;
    if 48 <= v && v <= 57 {
        v - 48
    } else if 97 <= v && v <= 102 {
        v - 87
    } else if 65 <= v && v <= 70 {
        v - 55
    } else {
        -1
    }
}

/// The value of the four hexadecimal digits at `i`, or -1.
pub open spec fn hex4(t: Seq<char>, i: int) -> int {
    if 0 <= i && i + 4 <= t.len() {
        let a = hex_val(t[i]);
        let b = hex_val(t[i + 1]);
        let c = hex_val(t[i + 2]);
        let d = hex_val(t[i + 3]);
        if a >= 0 && b >= 0 && c >= 0 && d >= 0 {
            a * 4096 + b * 256 + c * 16 + d
        } else {
            -1
        }
    } else {
        -1
    }
}

/// The character named by a one-letter escape, if any.
pub open spec fn unescape_short(e: char) -> Option<char> {
    if e == '"' {
        Some('"')
    } else if e == '\\' {
        Some('\\')
    } else if e == '/' {
        Some('/')
    } else if e == 'b' {
        Some('\u{0008}')
    } else if e == 'f' {
        Some('\u{000C}')
    } else if e == 'n' {
        Some('\n')
    } else if e == 'r' {
        Some('\r')
    } else if e == 't' {
        Some('\t')
    } else {
        None
    }
}

/// String contents from `i` up to the closing quote: unescaped characters,
/// with surrogate escape pairs combined and unescaped control characters
/// refused.
pub open spec fn sp_strchars(t: Seq<char>, i: int) -> Option<(Seq<char>, int)>
    decreases t.len() - i, 0int,
{
    if !(0 <= i < t.len()) {
        None
    } else if t[i] == '"' {
        Some((Seq::empty(), i + 1))
    } else if t[i] == '\\' {
        if i + 1 >= t.len() {
            None
        } else if t[i + 1] == 'u' {
            if i + 6 > t.len() {
                None
            } else {
                let h = hex4(t, i + 2);
                if h < 0 {
                    None
                } else if 0xD800 <= h && h < 0xDC00 {
                    if i + 12 > t.len() || t[i + 6] != '\\' || t[i + 7] != 'u' {
                        None
                    } else {
                        let l = hex4(t, i + 8);
                        if !(0xDC00 <= l && l < 0xE000) {
                            None
                        } else {
                            let code = 0x10000 + (h - 0xD800) * 0x400 + (l - 0xDC00);
                            match sp_strchars(t, i + 12) {
                                Option::None => None,
                                Option::Some((rest, j)) => Some((seq![code as char] + rest, j)),
                            }
                        }
                    }
                } else if 0xDC00 <= h && h < 0xE000 {
                    None
                } else {
                    match sp_strchars(t, i + 6) {
                        Option::None => None,
                        Option::Some((rest, j)) => Some((seq![h as char] + rest, j)),
                    }
                }
            }
        } else {
            match unescape_short(t[i + 1]) {
                Option::None => None,
                Option::Some(c0) => match sp_strchars(t, i + 2) {
                    Option::None => None,
                    Option::Some((rest, j)) => Some((seq![c0] + rest, j)),
                },
            }
        }
    } else if (t[i] as u32) < 0x20 {
        None
    } else {
        match sp_strchars(t, i + 1) {
            Option::None => None,
            Option::Some((rest, j)) => Some((seq![t[i]] + rest, j)),
        }
    }
}

/// A string literal at `i`: a quote, contents, a quote.
pub open spec fn sp_string(t: Seq<char>, i: int) -> Option<(Seq<char>, int)>
    decreases t.len() - i, 1int,
{
    if 0 <= i < t.len() && t[i] == '"' {
        sp_strchars(t, i + 1)
    } else {
        None
    }
}

/// A value at `i`: a literal, a number, a string, an array, or an object.
pub open spec fn sp_value(t: Seq<char>, i: int) -> Option<(JsonV, int)>
    decreases t.len() - i, 2int,
{
    if !(0 <= i < t.len()) {
        None
    } else {
        let c = t[i];
        if c == 'n' {
            if i + 4 <= t.len() && t[i + 1] == 'u' && t[i + 2] == 'l' && t[i + 3] == 'l' {
                Some((JsonV::Null, i + 4))
            } else {
                None
            }
        } else if c == 't' {
            if i + 4 <= t.len() && t[i + 1] == 'r' && t[i + 2] == 'u' && t[i + 3] == 'e' {
                Some((JsonV::Bool(true), i + 4))
            } else {
                None
            }
        } else if c == 'f' {
            if i + 5 <= t.len() && t[i + 1] == 'a' && t[i + 2] == 'l' && t[i + 3] == 's' && t[i + 4]
                == 'e' {
                Some((JsonV::Bool(false), i + 5))
            } else {
                None
            }
        } else if c == '"' {
            match sp_string(t, i) {
                Option::None => None,
                Option::Some((s, j)) => Some((JsonV::Str(s), j)),
            }
        } else if c == '[' {
            let j = sp_ws(t, i + 1);
            if i + 1 <= j && j < t.len() && t[j] == ']' {
                Some((JsonV::Arr(Seq::empty()), j + 1))
            } else {
                match sp_elems(t, i + 1) {
                    Option::None => None,
                    Option::Some((vs, j2)) => Some((JsonV::Arr(vs), j2)),
                }
            }
        } else if c == '{' {
            let j = sp_ws(t, i + 1);
            if i + 1 <= j && j < t.len() && t[j] == '}' {
                Some((JsonV::Obj(Seq::empty()), j + 1))
            } else {
                match sp_members(t, i + 1) {
                    Option::None => None,
                    Option::Some((fs, j2)) => Some((JsonV::Obj(fs), j2)),
                }
            }
        } else if c == '-' || is_digit(c) {
            match sp_number(t, i) {
                Option::None => None,
                Option::Some((raw, j)) => Some((JsonV::Num(raw), j)),
            }
        } else {
            None
        }
    }
}

/// One or more array elements from `i`, up to and including the closing
/// bracket.
pub open spec fn sp_elems(t: Seq<char>, i: int) -> Option<(Seq<JsonV>, int)>
    decreases t.len() - i, 3int,
{
    if !(0 <= i <= t.len()) {
        None
    } else {
        let j = sp_ws(t, i);
        if j < i || j > t.len() {
            None
        } else {
            match sp_value(t, j) {
                Option::None => None,
                Option::Some((v, k)) => {
                    let k2 = sp_ws(t, k);
                    if k < k2 + 1 && k2 < t.len() && t[k2] == ',' {
                        if i < k2 + 1 && k2 + 1 <= t.len() {
                            match sp_elems(t, k2 + 1) {
                                Option::None => None,
                                Option::Some((vs, m)) => Some((seq![v] + vs, m)),
                            }
                        } else {
                            None
                        }
                    } else if k <= k2 && k2 < t.len() && t[k2] == ']' {
                        Some((seq![v], k2 + 1))
                    } else {
                        None
                    }
                },
            }
        }
    }
}

/// One or more object members from `i`, up to and including the closing
/// brace.
pub open spec fn sp_members(t: Seq<char>, i: int) -> Option<(Seq<(Seq<char>, JsonV)>, int)>
    decreases t.len() - i, 3int,
{
    if !(0 <= i <= t.len()) {
        None
    } else {
        let j = sp_ws(t, i);
        if j < i || j > t.len() {
            None
        } else {
            match sp_string(t, j) {
                Option::None => None,
                Option::Some((key, k)) => {
                    let k2 = sp_ws(t, k);
                    if k2 < t.len() && t[k2] == ':' && i < k2 + 1 && k2 + 1 <= t.len() {
                        match sp_value(t, k2 + 1) {
                            Option::None => None,
                            Option::Some((v, m)) => {
                                let m2 = sp_ws(t, m);
                                if m < m2 + 1 && m2 < t.len() && t[m2] == ',' {
                                    if i < m2 + 1 && m2 + 1 <= t.len() {
                                        match sp_members(t, m2 + 1) {
                                            Option::None => None,
                                            Option::Some((fs, e)) => Some(
                                                (seq![(key, v)] + fs, e),
                                            ),
                                        }
                                    } else {
                                        None
                                    }
                                } else if m <= m2 && m2 < t.len() && t[m2] == '}' {
                                    Some((seq![(key, v)], m2 + 1))
                                } else {
                                    None
                                }
                            },
                        }
                    } else {
                        None
                    }
                },
            }
        }
    }
}

/// A well-formed document: every number holds a valid token, so the
/// document serializes to parseable text.
pub open spec fn wf_json(j: JsonV) -> bool
    decreases j, 1int, 0int,
{
    match j {
        JsonV::Num(s) => is_number_token(s),
        JsonV::Arr(items) => wf_elems(items, 0),
        JsonV::Obj(fields) => wf_fields(fields, 0),
        _ => true,
    }
}

pub open spec fn wf_elems(items: Seq<JsonV>, k: int) -> bool
    decreases items, items.len() - k, 0int,
{
    if 0 <= k < items.len() {
        wf_json(items[k]) && wf_elems(items, k + 1)
    } else {
        true
    }
}

pub open spec fn wf_fields(fields: Seq<(Seq<char>, JsonV)>, k: int) -> bool
    decreases fields, fields.len() - k, 0int,
{
    if 0 <= k < fields.len() {
        wf_json(fields[k].1) && wf_fields(fields, k + 1)
    } else {
        true
    }
}

pub proof fn lemma_wf_elems_index(items: Seq<JsonV>, i: int, k: int)
    requires
        wf_elems(items, i),
        0 <= i <= k < items.len(),
    ensures
        wf_json(items[k]),
    decreases k - i,
{
    if i < k {
        lemma_wf_elems_index(items, i + 1, k);
    }
}

pub proof fn lemma_wf_fields_index(fields: Seq<(Seq<char>, JsonV)>, i: int, k: int)
    requires
        wf_fields(fields, i),
        0 <= i <= k < fields.len(),
    ensures
        wf_json(fields[k].1),
    decreases k - i,
{
    if i < k {
        lemma_wf_fields_index(fields, i + 1, k);
    }
}

pub proof fn lemma_wf_elems_all(items: Seq<JsonV>, i: int)
    requires
        0 <= i,
        forall|q: int| i <= q < items.len() ==> wf_json(#[trigger] items[q]),
    ensures
        wf_elems(items, i),
    decreases items.len() - i,
{
    if i < items.len() {
        lemma_wf_elems_all(items, i + 1);
    }
}

pub proof fn lemma_wf_fields_all(fields: Seq<(Seq<char>, JsonV)>, i: int)
    requires
        0 <= i,
        forall|q: int| i <= q < fields.len() ==> wf_json(#[trigger] fields[q].1),
    ensures
        wf_fields(fields, i),
    decreases fields.len() - i,
{
    if i < fields.len() {
        lemma_wf_fields_all(fields, i + 1);
    }
}

/// The value of the first field named `key`, if any.
pub open spec fn obj_lookup_from(
    fields: Seq<(Seq<char>, JsonV)>,
    key: Seq<char>,
    k: int,
) -> Option<JsonV>
    decreases fields.len() - k,
{
    if 0 <= k < fields.len() {
        if fields[k].0 == key {
            Some(fields[k].1)
        } else {
            obj_lookup_from(fields, key, k + 1)
        }
    } else {
        None
    }
}

pub open spec fn obj_lookup(fields: Seq<(Seq<char>, JsonV)>, key: Seq<char>) -> Option<JsonV> {
    obj_lookup_from(fields, key, 0)
}

/// A lookup in a concatenation finds the left part's field first.
pub proof fn lemma_lookup_concat(
    a: Seq<(Seq<char>, JsonV)>,
    b: Seq<(Seq<char>, JsonV)>,
    key: Seq<char>,
)
    ensures
        obj_lookup(a + b, key) == (match obj_lookup(a, key) {
            Option::Some(v) => Option::Some(v),
            Option::None => obj_lookup(b, key),
        }),
{
    lemma_lookup_concat_from(a, b, key, 0);
}

proof fn lemma_lookup_concat_from(
    a: Seq<(Seq<char>, JsonV)>,
    b: Seq<(Seq<char>, JsonV)>,
    key: Seq<char>,
    k: int,
)
    requires
        0 <= k <= a.len(),
    ensures
        obj_lookup_from(a + b, key, k) == (match obj_lookup_from(a, key, k) {
            Option::Some(v) => Option::Some(v),
            Option::None => obj_lookup_from(b, key, 0),
        }),
    decreases a.len() - k,
{
    if k < a.len() {
        assert((a + b)[k] == a[k]);
        lemma_lookup_concat_from(a, b, key, k + 1);
    } else {
        lemma_lookup_shift(a, b, key, 0);
    }
}

proof fn lemma_lookup_shift(
    a: Seq<(Seq<char>, JsonV)>,
    b: Seq<(Seq<char>, JsonV)>,
    key: Seq<char>,
    k: int,
)
    requires
        0 <= k <= b.len(),
    ensures
        obj_lookup_from(a + b, key, a.len() + k) == obj_lookup_from(b, key, k),
    decreases b.len() - k,
{
    if k < b.len() {
        assert((a + b)[a.len() + k] == b[k]);
        lemma_lookup_shift(a, b, key, k + 1);
    }
}

/// The value of the first field named `key` of an object document, if the
/// document is an object and has one.
pub open spec fn json_get(j: JsonV, key: Seq<char>) -> Option<JsonV> {
    match j {
        JsonV::Obj(fields) => obj_lookup(fields, key),
        _ => None,
    }
}

/// The first field named `key`, if the document is an object holding one.
pub fn get_field<'a>(v: &'a JsonValue, key: &str) -> (r: Option<&'a JsonValue>)
    ensures
        (match r {
            Option::Some(f) => json_get(jv(*v), key@) == Some(jv(*f)),
            Option::None => json_get(jv(*v), key@) is None,
        }),
{
    match v {
        JsonValue::Obj(fields) => {
            proof {
                lemma_jv_fields(fields@, 0);
            }
            let n = fields.len();
            let mut k: usize = 0;
            while k < n
                invariant
                    k <= n,
                    n == fields@.len(),
                    jv(*v) == JsonV::Obj(jv_obj(*fields)),
                    jv_obj(*fields).len() == n,
                    forall|q: int|
                        0 <= q < n ==> jv_obj(*fields)[q] == jv_field(fields@[q]),
                    obj_lookup(jv_obj(*fields), key@) == obj_lookup_from(
                        jv_obj(*fields),
                        key@,
                        k as int,
                    ),
                decreases n - k,
            {
                if crate::text::str_eq(key, fields[k].0.as_str()) {
                    return Some(&fields[k].1);
                }
                k = k + 1;
            }
            None
        },
        _ => None,
    }
}

/// The decimal digits of `n`, most significant first.
pub open spec fn dec_digits(n: nat) -> Seq<char>
    decreases n,
{
    if n < 10 {
        seq![hex_digit(n as int)]
    } else {
        dec_digits(n / 10) + seq![hex_digit((n % 10) as int)]
    }
}

/// The decimal text of `n`, with a minus sign when negative.
pub open spec fn dec_int(n: int) -> Seq<char> {
    if n < 0 {
        seq!['-'] + dec_digits((-n) as nat)
    } else {
        dec_digits(n as nat)
    }
}

fn dec_char(d: u64) -> (r: char)
    requires
        d < 10,
    ensures
        r == hex_digit(d as int),
{
    if d == 0 {
        '0'
    } else if d == 1 {
        '1'
    } else if d == 2 {
        '2'
    } else if d == 3 {
        '3'
    } else if d == 4 {
        '4'
    } else if d == 5 {
        '5'
    } else if d == 6 {
        '6'
    } else if d == 7 {
        '7'
    } else if d == 8 {
        '8'
    } else {
        '9'
    }
}

fn push_dec(v: u64, out: &mut Vec<char>)
    ensures
        final(out)@ == old(out)@ + dec_digits(v as nat),
    decreases v,
{
    if v < 10 {
        out.push(dec_char(v));
        assert(out@ =~= old(out)@ + dec_digits(v as nat));
    } else {
        push_dec(v / 10, out);
        out.push(dec_char(v % 10));
        assert(out@ =~= old(out)@ + dec_digits(v as nat));
    }
}

/// The number document for `n`.
pub fn int_to_json(n: i64) -> (r: JsonValue)
    ensures
        jv(r) == JsonV::Num(dec_int(n as int)),
{
    let mut out: Vec<char> = Vec::new();
    if n >= 0 {
        push_dec(n as u64, &mut out);
    } else {
        out.push('-');
        let m = n + 1;
        let mag: u64 = ((-m) as u64) + 1;
        assert(mag as int == -(n as int));
        push_dec(mag, &mut out);
        assert(out@ =~= seq!['-'] + dec_digits((-(n as int)) as nat));
    }
    JsonValue::Num(crate::text::chars_to_string(&out))
}

/// The number document for an unsigned count.
pub fn uint_to_json(n: u64) -> (r: JsonValue)
    ensures
        jv(r) == JsonV::Num(dec_digits(n as nat)),
{
    let mut out: Vec<char> = Vec::new();
    push_dec(n, &mut out);
    JsonValue::Num(crate::text::chars_to_string(&out))
}

/// The value of one decimal digit character.
pub open spec fn digit_val(c: char) -> int {
    (c as u32) - 48
}

/// Whether the token is one or more plain decimal digits.
pub open spec fn all_digits(s: Seq<char>) -> bool {
    s.len() > 0 && forall|k: int| 0 <= k < s.len() ==> is_digit(#[trigger] s[k])
}

/// The numeric value of a run of decimal digits.
pub open spec fn dec_val(s: Seq<char>) -> nat
    decreases s.len(),
{
    if s.len() == 0 {
        0
    } else {
        dec_val(s.drop_last()) * 10 + (if digit_val(s.last()) >= 0 {
            digit_val(s.last()) as nat
        } else {
            0
        })
    }
}

proof fn lemma_dec_val_snoc(s: Seq<char>, k: int)
    requires
        0 <= k < s.len(),
        is_digit(s[k]),
    ensures
        dec_val(s.subrange(0, k + 1)) == dec_val(s.subrange(0, k)) * 10 + digit_val(s[k]),
{
    assert(s.subrange(0, k + 1).drop_last() =~= s.subrange(0, k));
    assert(s.subrange(0, k + 1).last() == s[k]);
}

proof fn lemma_dec_val_grows(s: Seq<char>, k: int)
    requires
        0 <= k <= s.len(),
    ensures
        dec_val(s) >= dec_val(s.subrange(0, k)),
    decreases s.len() - k,
{
    if k < s.len() {
        assert(s.subrange(0, k + 1).drop_last() =~= s.subrange(0, k));
        assert(dec_val(s.subrange(0, k + 1)) >= dec_val(s.subrange(0, k)));
        lemma_dec_val_grows(s, k + 1);
    } else {
        assert(s.subrange(0, k) =~= s);
    }
}

/// The numeric value of a number document, if its token is a plain run of
/// decimal digits whose value fits in a `u64`.
pub fn json_as_u64(v: &JsonValue) -> (r: Option<u64>)
    ensures
        (match jv(*v) {
            JsonV::Num(s) => (match r {
                Option::Some(u) => all_digits(s) && dec_val(s) == u as nat,
                Option::None => !(all_digits(s) && dec_val(s) <= u64::MAX),
            }),
            _ => r is None,
        }),
{
    match v {
        JsonValue::Num(s) => {
            proof {
                assert(jv(*v) == JsonV::Num(s@));
            }
            let cs = str_to_chars(s.as_str());
            let n = cs.len();
            if n == 0 {
                assert(!all_digits(s@));
                return None;
            }
            let mut acc: u64 = 0;
            let mut k: usize = 0;
            while k < n
                invariant
                    k <= n,
                    n == cs@.len(),
                    n > 0,
                    cs@ == s@,
                    jv(*v) == JsonV::Num(s@),
                    forall|q: int| 0 <= q < k ==> is_digit(#[trigger] cs@[q]),
                    acc as nat == dec_val(cs@.subrange(0, k as int)),
                decreases n - k,
            {
                let c = cs[k];
                let cv = c as u32;
                if !(48 <= cv && cv <= 57) {
                    assert(!is_digit(s@[k as int]));
                    assert(!all_digits(s@));
                    return None;
                }
                let d: u64 = (cv - 48) as u64;
                if acc > (u64::MAX - d) / 10 {
                    proof {
                        lemma_dec_val_snoc(s@, k as int);
                        assert(acc * 10 + d > u64::MAX) by (nonlinear_arith)
                            requires
                                acc > (u64::MAX - d) / 10,
                                d <= 9,
                        ;
                        lemma_dec_val_grows(s@, k + 1);
                        assert(dec_val(s@) > u64::MAX);
                    }
                    return None;
                }
                proof {
                    lemma_dec_val_snoc(s@, k as int);
                    assert(acc * 10 + d <= u64::MAX) by (nonlinear_arith)
                        requires
                            acc <= (u64::MAX - d) / 10,
                            d <= 9,
                    ;
                }
                acc = acc * 10 + d;
                k = k + 1;
            }
            assert(cs@.subrange(0, n as int) =~= s@);
            Some(acc)
        },
        _ => None,
    }
}

proof fn lemma_dec_digits_shape(n: nat)
    ensures
        dec_digits(n).len() >= 1,
        forall|k: int| 0 <= k < dec_digits(n).len() ==> is_digit(#[trigger] dec_digits(n)[k]),
        n >= 1 ==> dec_digits(n)[0] != '0',
        n == 0 ==> dec_digits(n) == seq!['0'],
    decreases n,
{
    if n < 10 {
    } else {
        lemma_dec_digits_shape(n / 10);
    }
}

proof fn lemma_digit_run_all(s: Seq<char>, i: int)
    requires
        0 <= i <= s.len(),
        forall|k: int| i <= k < s.len() ==> is_digit(#[trigger] s[k]),
    ensures
        digit_run_end(s, i) == s.len(),
    decreases s.len() - i,
{
    if i < s.len() {
        lemma_digit_run_all(s, i + 1);
    }
}

/// The decimal text of an integer is a valid number token.
pub proof fn lemma_dec_int_token(n: int)
    ensures
        is_number_token(dec_int(n)),
{
    let s = dec_int(n);
    if n < 0 {
        lemma_dec_digits_shape((-n) as nat);
        assert(s[0] == '-');
        assert(forall|k: int| 1 <= k < s.len() ==> is_digit(#[trigger] s[k]));
        if s[1] == '0' {
            assert((-n) as nat == 0);
            assert(false);
        }
        lemma_digit_run_all(s, 1);
    } else {
        lemma_dec_digits_shape(n as nat);
        if s[0] == '0' {
            assert(s.len() == 1);
        } else {
            lemma_digit_run_all(s, 0);
        }
    }
}

/// One element of a well-formed array is well-formed.
pub proof fn lemma_wf_arr(items: Seq<JsonV>, k: int)
    requires
        0 <= k < items.len(),
        wf_json(JsonV::Arr(items)),
    ensures
        wf_json(items[k]),
{
    lemma_wf_elems_index(items, 0, k);
}

/// One member value of a well-formed object is well-formed.
pub proof fn lemma_wf_obj(fields: Seq<(Seq<char>, JsonV)>, k: int)
    requires
        0 <= k < fields.len(),
        wf_json(JsonV::Obj(fields)),
    ensures
        wf_json(fields[k].1),
{
    lemma_wf_fields_index(fields, 0, k);
}

/// Every parsed value is well-formed: its number tokens come from
/// `sp_number`, which only accepts valid tokens.
pub proof fn lemma_sp_value_wf(t: Seq<char>, i: int)
    ensures
        (match sp_value(t, i) {
            Option::Some((v, j)) => wf_json(v),
            Option::None => true,
        }),
    decreases t.len() - i, 2int,
{
    if 0 <= i < t.len() {
        let c = t[i];
        if c == '[' {
            let j = sp_ws(t, i + 1);
            if !(i + 1 <= j && j < t.len() && t[j] == ']') {
                lemma_sp_elems_wf(t, i + 1);
            }
        } else if c == '{' {
            let j = sp_ws(t, i + 1);
            if !(i + 1 <= j && j < t.len() && t[j] == '}') {
                lemma_sp_members_wf(t, i + 1);
            }
        }
    }
}

#[verifier::rlimit(60)]
pub proof fn lemma_sp_elems_wf(t: Seq<char>, i: int)
    ensures
        (match sp_elems(t, i) {
            Option::Some((vs, j)) => wf_json(JsonV::Arr(vs)),
            Option::None => true,
        }),
    decreases t.len() - i, 3int,
{
    if 0 <= i <= t.len() {
        let j = sp_ws(t, i);
        if !(j < i || j > t.len()) {
            lemma_sp_value_wf(t, j);
            match sp_value(t, j) {
                Option::None => {},
                Option::Some((v, k)) => {
                    let k2 = sp_ws(t, k);
                    if k < k2 + 1 && k2 < t.len() && t[k2] == ',' {
                        if i < k2 + 1 && k2 + 1 <= t.len() {
                            lemma_sp_elems_wf(t, k2 + 1);
                            match sp_elems(t, k2 + 1) {
                                Option::None => {},
                                Option::Some((vs, m)) => {
                                    assert forall|q: int|
                                        0 <= q < (seq![v] + vs).len() implies wf_json(
                                        #[trigger] (seq![v] + vs)[q],
                                    ) by {
                                        if q == 0 {
                                            assert((seq![v] + vs)[q] == v);
                                            assert(wf_json(v));
                                        } else {
                                            assert((seq![v] + vs)[q] == vs[q - 1]);
                                            lemma_wf_arr(vs, q - 1);
                                        }
                                    }
                                    lemma_wf_elems_all(seq![v] + vs, 0);
                                },
                            }
                        }
                    } else if k <= k2 && k2 < t.len() && t[k2] == ']' {
                        assert forall|q: int|
                            0 <= q < seq![v].len() implies wf_json(#[trigger] seq![v][q]) by {
                            assert(seq![v][q] == v);
                        }
                        lemma_wf_elems_all(seq![v], 0);
                    }
                },
            }
        }
    }
}

#[verifier::rlimit(60)]
pub proof fn lemma_sp_members_wf(t: Seq<char>, i: int)
    ensures
        (match sp_members(t, i) {
            Option::Some((fs, j)) => wf_json(JsonV::Obj(fs)),
            Option::None => true,
        }),
    decreases t.len() - i, 3int,
{
    if 0 <= i <= t.len() {
        let j = sp_ws(t, i);
        if !(j < i || j > t.len()) {
            match sp_string(t, j) {
                Option::None => {},
                Option::Some((key, k)) => {
                    let k2 = sp_ws(t, k);
                    if k2 < t.len() && t[k2] == ':' && i < k2 + 1 && k2 + 1 <= t.len() {
                        lemma_sp_value_wf(t, k2 + 1);
                        match sp_value(t, k2 + 1) {
                            Option::None => {},
                            Option::Some((v, m)) => {
                                let m2 = sp_ws(t, m);
                                if m < m2 + 1 && m2 < t.len() && t[m2] == ',' {
                                    if i < m2 + 1 && m2 + 1 <= t.len() {
                                        lemma_sp_members_wf(t, m2 + 1);
                                        match sp_members(t, m2 + 1) {
                                            Option::None => {},
                                            Option::Some((fs, e)) => {
                                                assert forall|q: int|
                                                    0 <= q < (seq![(key, v)] + fs).len()
                                                    implies wf_json(
                                                    #[trigger] (seq![(key, v)] + fs)[q].1,
                                                ) by {
                                                    if q == 0 {
                                                        assert((seq![(key, v)] + fs)[q] == (
                                                        key,
                                                        v,
                                                        ));
                                                        assert(wf_json(v));
                                                    } else {
                                                        assert((seq![(key, v)] + fs)[q] == fs[q
                                                            - 1]);
                                                        lemma_wf_obj(fs, q - 1);
                                                    }
                                                }
                                                lemma_wf_fields_all(seq![(key, v)] + fs, 0);
                                            },
                                        }
                                    }
                                } else if m <= m2 && m2 < t.len() && t[m2] == '}' {
                                    assert forall|q: int|
                                        0 <= q < seq![(key, v)].len() implies wf_json(
                                        #[trigger] seq![(key, v)][q].1,
                                    ) by {
                                        assert(seq![(key, v)][q] == (key, v));
                                    }
                                    lemma_wf_fields_all(seq![(key, v)], 0);
                                }
                            },
                        }
                    }
                },
            }
        }
    }
}

proof fn lemma_hex_digit_val(d: int)
    requires
        0 <= d < 16,
    ensures
        hex_val(hex_digit(d)) == d,
{
}

proof fn lemma_strchars_ser(s: Seq<char>, k: int, t: Seq<char>, i: int)
    requires
        0 <= k <= s.len(),
        text_at(t, i, ser_chars(s, k) + seq!['"']),
    ensures
        sp_strchars(t, i) == Some((s.subrange(k, s.len() as int), i + ser_chars(s, k).len() + 1)),
    decreases s.len() - k,
{
    let frag = ser_chars(s, k) + seq!['"'];
    if k == s.len() {
        assert(ser_chars(s, k) =~= Seq::<char>::empty());
        lemma_text_at_index(t, i, frag, 0);
        assert(t[i] == '"');
        assert(sp_strchars(t, i) == Some((Seq::<char>::empty(), i + 1)));
        assert(s.subrange(k, s.len() as int) =~= Seq::<char>::empty());
    } else {
        let c = s[k];
        let e = esc_char(c);
        assert(ser_chars(s, k) == e + ser_chars(s, k + 1));
        assert(frag =~= e + (ser_chars(s, k + 1) + seq!['"']));
        lemma_text_at_split(t, i, e, ser_chars(s, k + 1) + seq!['"']);
        lemma_strchars_ser(s, k + 1, t, i + e.len());
        let rest = s.subrange(k + 1, s.len() as int);
        let jafter = i + e.len() + ser_chars(s, k + 1).len() + 1;
        assert(sp_strchars(t, i + e.len()) == Some((rest, jafter)));
        if c == '"' {
            lemma_text_at_index(t, i, e, 0);
            lemma_text_at_index(t, i, e, 1);
            assert(t[i] == '\\' && t[i + 1] == '"');
            assert(sp_strchars(t, i) == Some((seq![c] + rest, jafter)));
        } else if c == '\\' {
            lemma_text_at_index(t, i, e, 0);
            lemma_text_at_index(t, i, e, 1);
            assert(t[i] == '\\' && t[i + 1] == '\\');
            assert(sp_strchars(t, i) == Some((seq![c] + rest, jafter)));
        } else if (c as u32) < 0x20 {
            lemma_text_at_index(t, i, e, 0);
            lemma_text_at_index(t, i, e, 1);
            lemma_text_at_index(t, i, e, 2);
            lemma_text_at_index(t, i, e, 3);
            lemma_text_at_index(t, i, e, 4);
            lemma_text_at_index(t, i, e, 5);
            let hi = (c as u32) as int / 16;
            let lo = (c as u32) as int % 16;
            assert(t[i] == '\\' && t[i + 1] == 'u' && t[i + 2] == '0' && t[i + 3] == '0');
            assert(t[i + 4] == hex_digit(hi) && t[i + 5] == hex_digit(lo));
            lemma_hex_digit_val(hi);
            lemma_hex_digit_val(lo);
            assert(hex_val('0') == 0);
            assert(hex4(t, i + 2) == hi * 16 + lo);
            assert(hex4(t, i + 2) == c as u32);
            vstd::utf8::char_u32_cast(c, c as u32);
            assert(((c as u32) as char) == c);
            assert(sp_strchars(t, i) == Some((seq![c] + rest, jafter)));
        } else {
            lemma_text_at_index(t, i, e, 0);
            assert(t[i] == c);
            assert(sp_strchars(t, i) == Some((seq![c] + rest, jafter)));
        }
        assert(seq![c] + rest =~= s.subrange(k, s.len() as int));
    }
}

proof fn lemma_string_ser(s: Seq<char>, t: Seq<char>, i: int)
    requires
        text_at(t, i, ser_string(s)),
    ensures
        sp_string(t, i) == Some((s, i + ser_string(s).len())),
{
    assert(ser_string(s) =~= seq!['"'] + (ser_chars(s, 0) + seq!['"']));
    lemma_text_at_split(t, i, seq!['"'], ser_chars(s, 0) + seq!['"']);
    lemma_text_at_index(t, i, seq!['"'], 0);
    assert(t[i] == '"');
    lemma_strchars_ser(s, 0, t, i + 1);
    assert(s.subrange(0, s.len() as int) =~= s);
}

/// Every character of a valid number token is a number character.
proof fn lemma_token_chars(s: Seq<char>)
    requires
        is_number_token(s),
    ensures
        s.len() > 0,
        forall|q: int| 0 <= q < s.len() ==> is_num_char(#[trigger] s[q]),
{
    let i0: int = if s.len() > 0 && s[0] == '-' {
        1
    } else {
        0
    };
    let i1: int = if s[i0] == '0' {
        i0 + 1
    } else {
        digit_run_end(s, i0)
    };
    lemma_digit_run_end(s, i0);
    let i2: int = if i1 < s.len() && s[i1] == '.' {
        if i1 + 1 < s.len() && is_digit(s[i1 + 1]) {
            digit_run_end(s, i1 + 1)
        } else {
            -1
        }
    } else {
        i1
    };
    if i1 < s.len() && s[i1] == '.' {
        if i1 + 1 < s.len() {
            lemma_digit_run_end(s, i1 + 1);
        }
    }
    let i3: int = if i2 < s.len() && (s[i2] == 'e' || s[i2] == 'E') {
        let je: int = if i2 + 1 < s.len() && (s[i2 + 1] == '+' || s[i2 + 1] == '-') {
            i2 + 2
        } else {
            i2 + 1
        };
        if je < s.len() && is_digit(s[je]) {
            digit_run_end(s, je)
        } else {
            -1
        }
    } else {
        i2
    };
    if 0 <= i2 < s.len() && (s[i2] == 'e' || s[i2] == 'E') {
        let je: int = if i2 + 1 < s.len() && (s[i2 + 1] == '+' || s[i2 + 1] == '-') {
            i2 + 2
        } else {
            i2 + 1
        };
        if je <= s.len() {
            lemma_digit_run_end(s, je);
        }
    }
    assert(i3 == s.len());
    assert forall|q: int| 0 <= q < s.len() implies is_num_char(#[trigger] s[q]) by {
        if q < i0 {
            assert(s[q] == '-');
        } else if q < i1 {
            assert(is_digit(s[q]));
        } else if q < i2 {
            if q == i1 {
                assert(s[q] == '.');
            } else {
                assert(is_digit(s[q]));
            }
        } else {
            if q == i2 {
                assert(s[q] == 'e' || s[q] == 'E');
            } else {
                let je: int = if i2 + 1 < s.len() && (s[i2 + 1] == '+' || s[i2 + 1] == '-') {
                    i2 + 2
                } else {
                    i2 + 1
                };
                if q < je {
                    assert(s[q] == '+' || s[q] == '-');
                } else {
                    assert(is_digit(s[q]));
                }
            }
        }
    }
}

/// The number scan stops exactly at the first non-number character.
proof fn lemma_num_end_exact(t: Seq<char>, i: int, j: int)
    requires
        0 <= i <= j <= t.len(),
        forall|q: int| i <= q < j ==> is_num_char(#[trigger] t[q]),
        j == t.len() || !is_num_char(t[j]),
    ensures
        sp_num_end(t, i) == j,
    decreases j - i,
{
    if i < j {
        lemma_num_end_exact(t, i + 1, j);
    }
}

/// A serialized number token parses back exactly, given that the text
/// goes on with something other than a number character.
proof fn lemma_number_ser(raw: Seq<char>, t: Seq<char>, i: int)
    requires
        is_number_token(raw),
        text_at(t, i, raw),
        i + raw.len() == t.len() || !is_num_char(t[i + raw.len()]),
    ensures
        sp_number(t, i) == Some((raw, i + raw.len())),
{
    lemma_token_chars(raw);
    assert forall|q: int| i <= q < i + raw.len() implies is_num_char(#[trigger] t[q]) by {
        lemma_text_at_index(t, i, raw, q - i);
    }
    lemma_num_end_exact(t, i, i + raw.len());
    assert(t.subrange(i, i + raw.len()) == raw);
}

// ---------------------------------------------------------------------------
// Round trip: parsing serialized text gives back the document.
// ---------------------------------------------------------------------------
/// The fragment stands in `t` at position `i`.
pub open spec fn text_at(t: Seq<char>, i: int, frag: Seq<char>) -> bool {
    0 <= i && i + frag.len() <= t.len() && t.subrange(i, i + frag.len()) == frag
}

proof fn lemma_text_at_index(t: Seq<char>, i: int, frag: Seq<char>, q: int)
    requires
        text_at(t, i, frag),
        0 <= q < frag.len(),
    ensures
        t[i + q] == frag[q],
{
    assert(t.subrange(i, i + frag.len())[q] == t[i + q]);
}

proof fn lemma_text_at_split(t: Seq<char>, i: int, a: Seq<char>, b: Seq<char>)
    requires
        text_at(t, i, a + b),
    ensures
        text_at(t, i, a),
        text_at(t, i + a.len(), b),
{
    assert forall|q: int| 0 <= q < a.len() implies t.subrange(i, i + a.len())[q] == a[q] by {
        lemma_text_at_index(t, i, a + b, q);
        assert((a + b)[q] == a[q]);
    }
    assert(t.subrange(i, i + a.len()) =~= a);
    assert forall|q: int|
        0 <= q < b.len() implies t.subrange(i + a.len(), i + a.len() + b.len())[q] == b[q] by {
        lemma_text_at_index(t, i, a + b, a.len() + q);
        assert((a + b)[a.len() + q] == b[q]);
    }
    assert(t.subrange(i + a.len(), i + a.len() + b.len()) =~= b);
}

/// Serialized text never starts with whitespace or a closing character.
proof fn lemma_ser_first(j: JsonV)
    requires
        wf_json(j),
    ensures
        ser_value(j).len() > 0,
        ({
            let c = ser_value(j)[0];
            c == 'n' || c == 't' || c == 'f' || c == '"' || c == '[' || c == '{' || c == '-'
                || is_digit(c)
        }),
{
    match j {
        JsonV::Num(s) => {
            let i0: int = if s.len() > 0 && s[0] == '-' {
                1
            } else {
                0
            };
            assert(i0 < s.len() && is_digit(s[i0]));
            if !(s[0] == '-') {
                assert(is_digit(s[0]));
            }
        },
        _ => {},
    }
}

/// A serialized value parses back exactly, given that the text goes on
/// with something other than a number character.
proof fn lemma_value_ser(j: JsonV, t: Seq<char>, i: int)
    requires
        wf_json(j),
        text_at(t, i, ser_value(j)),
        i + ser_value(j).len() == t.len() || !is_num_char(t[i + ser_value(j).len()]),
    ensures
        sp_value(t, i) == Some((j, i + ser_value(j).len())),
    decreases j, 0int, 0int,
{
    let s = ser_value(j);
    lemma_ser_first(j);
    lemma_text_at_index(t, i, s, 0);
    match j {
        JsonV::Null => {
            lemma_text_at_index(t, i, s, 1);
            lemma_text_at_index(t, i, s, 2);
            lemma_text_at_index(t, i, s, 3);
            assert(sp_value(t, i) == Some((JsonV::Null, i + 4)));
        },
        JsonV::Bool(b) => {
            lemma_text_at_index(t, i, s, 1);
            lemma_text_at_index(t, i, s, 2);
            lemma_text_at_index(t, i, s, 3);
            if !b {
                lemma_text_at_index(t, i, s, 4);
            }
        },
        JsonV::Num(raw) => {
            lemma_number_ser(raw, t, i);
            assert(t[i] == '-' || is_digit(t[i]));
        },
        JsonV::Str(sc) => {
            lemma_string_ser(sc, t, i);
        },
        JsonV::Arr(items) => {
            lemma_value_ser_arr(items, t, i);
        },
        JsonV::Obj(fields) => {
            lemma_value_ser_obj(fields, t, i);
        },
    }
}

#[verifier::rlimit(100)]
proof fn lemma_value_ser_arr(items: Seq<JsonV>, t: Seq<char>, i: int)
    requires
        wf_json(JsonV::Arr(items)),
        text_at(t, i, ser_value(JsonV::Arr(items))),
        i + ser_value(JsonV::Arr(items)).len() == t.len() || !is_num_char(
            t[i + ser_value(JsonV::Arr(items)).len()],
        ),
    ensures
        sp_value(t, i) == Some((JsonV::Arr(items), i + ser_value(JsonV::Arr(items)).len())),
    decreases items, items.len() + 1, 2int,
{
    let s = ser_value(JsonV::Arr(items));
    lemma_text_at_index(t, i, s, 0);
    assert(t[i] == '[');
    if items.len() == 0 {
        assert(ser_elems(items, 0) =~= Seq::<char>::empty());
        assert(s =~= seq!['[', ']']);
        lemma_text_at_index(t, i, s, 1);
        assert(t[i + 1] == ']');
        assert(!is_ws(t[i + 1]));
        assert(sp_ws(t, i + 1) == i + 1);
        assert(items =~= Seq::<JsonV>::empty());
        assert(sp_value(t, i) == Some((JsonV::Arr(items), i + 2)));
    } else {
        assert(s =~= seq!['['] + (ser_elems(items, 0) + seq![']']));
        lemma_text_at_split(t, i, seq!['['], ser_elems(items, 0) + seq![']']);
        lemma_elems_ser(items, 0, t, i + 1);
        lemma_ser_first(items[0]);
        assert(ser_elems(items, 0)[0] == ser_value(items[0])[0]) by {
            if items.len() == 1 {
                assert(ser_elems(items, 0) == ser_value(items[0]));
            } else {
                assert(ser_elems(items, 0) == ser_value(items[0]) + seq![','] + ser_elems(
                    items,
                    1,
                ));
            }
        }
        lemma_text_at_index(t, i + 1, ser_elems(items, 0) + seq![']'], 0);
        assert(t[i + 1] == ser_value(items[0])[0]);
        assert(!is_ws(t[i + 1]) && t[i + 1] != ']');
        assert(sp_ws(t, i + 1) == i + 1);
        assert(items.subrange(0, items.len() as int) =~= items);
        assert(sp_value(t, i) == Some((JsonV::Arr(items), i + s.len())));
    }
}

#[verifier::rlimit(100)]
proof fn lemma_value_ser_obj(fields: Seq<(Seq<char>, JsonV)>, t: Seq<char>, i: int)
    requires
        wf_json(JsonV::Obj(fields)),
        text_at(t, i, ser_value(JsonV::Obj(fields))),
        i + ser_value(JsonV::Obj(fields)).len() == t.len() || !is_num_char(
            t[i + ser_value(JsonV::Obj(fields)).len()],
        ),
    ensures
        sp_value(t, i) == Some((JsonV::Obj(fields), i + ser_value(JsonV::Obj(fields)).len())),
    decreases fields, fields.len() + 1, 2int,
{
    let s = ser_value(JsonV::Obj(fields));
    lemma_text_at_index(t, i, s, 0);
    assert(t[i] == '{');
    if fields.len() == 0 {
        assert(ser_fields(fields, 0) =~= Seq::<char>::empty());
        assert(s =~= seq!['{', '}']);
        lemma_text_at_index(t, i, s, 1);
        assert(t[i + 1] == '}');
        assert(!is_ws(t[i + 1]));
        assert(sp_ws(t, i + 1) == i + 1);
        assert(fields =~= Seq::<(Seq<char>, JsonV)>::empty());
        assert(sp_value(t, i) == Some((JsonV::Obj(fields), i + 2)));
    } else {
        assert(s =~= seq!['{'] + (ser_fields(fields, 0) + seq!['}']));
        lemma_text_at_split(t, i, seq!['{'], ser_fields(fields, 0) + seq!['}']);
        lemma_members_ser(fields, 0, t, i + 1);
        assert(ser_fields(fields, 0)[0] == '"') by {
            assert(ser_field(fields[0])[0] == '"');
            if fields.len() == 1 {
                assert(ser_fields(fields, 0) == ser_field(fields[0]));
            } else {
                assert(ser_fields(fields, 0) == ser_field(fields[0]) + seq![','] + ser_fields(
                    fields,
                    1,
                ));
            }
        }
        lemma_text_at_index(t, i + 1, ser_fields(fields, 0) + seq!['}'], 0);
        assert(t[i + 1] == '"');
        assert(!is_ws(t[i + 1]) && t[i + 1] != '}');
        assert(sp_ws(t, i + 1) == i + 1);
        assert(fields.subrange(0, fields.len() as int) =~= fields);
        assert(sp_value(t, i) == Some((JsonV::Obj(fields), i + s.len())));
    }
}

/// Serialized elements, with the closing bracket after them, parse back
/// exactly.
proof fn lemma_elems_ser(items: Seq<JsonV>, k: int, t: Seq<char>, i: int)
    requires
        0 <= k < items.len(),
        wf_elems(items, k),
        text_at(t, i, ser_elems(items, k) + seq![']']),
    ensures
        sp_elems(t, i) == Some(
            (items.subrange(k, items.len() as int), i + ser_elems(items, k).len() + 1),
        ),
    decreases items, items.len() - k, 1int,
{
    lemma_ser_first(items[k]);
    let v = items[k];
    let vlen = ser_value(v).len() as int;
    if k == items.len() - 1 {
        assert(ser_elems(items, k) == ser_value(v));
        lemma_text_at_index(t, i, ser_value(v) + seq![']'], vlen);
        assert(t[i + vlen] == ']');
        lemma_text_at_split(t, i, ser_value(v), seq![']']);
        lemma_value_ser(v, t, i);
        assert(!is_ws(t[i]) && t[i] != ']') by {
            lemma_text_at_index(t, i, ser_value(v), 0);
        }
        assert(sp_ws(t, i) == i);
        assert(!is_ws(t[i + vlen]));
        assert(sp_ws(t, i + vlen) == i + vlen);
        assert(items.subrange(k, items.len() as int) =~= seq![v]);
        assert(sp_elems(t, i) == Some((seq![v], i + vlen + 1)));
    } else {
        let restlen = ser_elems(items, k + 1).len() as int;
        assert(ser_elems(items, k) == ser_value(v) + seq![','] + ser_elems(items, k + 1));
        assert(ser_elems(items, k) + seq![']'] =~= ser_value(v) + (seq![','] + (ser_elems(
            items,
            k + 1,
        ) + seq![']'])));
        lemma_text_at_split(t, i, ser_value(v), seq![','] + (ser_elems(items, k + 1) + seq![']']));
        lemma_text_at_split(t, i + vlen, seq![','], ser_elems(items, k + 1) + seq![']']);
        lemma_text_at_index(t, i + vlen, seq![','], 0);
        assert(t[i + vlen] == ',');
        lemma_value_ser(v, t, i);
        assert(!is_ws(t[i]) && t[i] != ']') by {
            lemma_text_at_index(t, i, ser_value(v), 0);
        }
        assert(sp_ws(t, i) == i);
        assert(sp_ws(t, i + vlen) == i + vlen);
        lemma_elems_ser(items, k + 1, t, i + vlen + 1);
        assert(seq![v] + items.subrange(k + 1, items.len() as int) =~= items.subrange(
            k,
            items.len() as int,
        ));
        assert(sp_elems(t, i) == Some(
            (items.subrange(k, items.len() as int), i + vlen + 1 + restlen + 1),
        ));
    }
}

/// Serialized members, with the closing brace after them, parse back
/// exactly.
proof fn lemma_members_ser(fields: Seq<(Seq<char>, JsonV)>, k: int, t: Seq<char>, i: int)
    requires
        0 <= k < fields.len(),
        wf_fields(fields, k),
        text_at(t, i, ser_fields(fields, k) + seq!['}']),
    ensures
        sp_members(t, i) == Some(
            (fields.subrange(k, fields.len() as int), i + ser_fields(fields, k).len() + 1),
        ),
    decreases fields, fields.len() - k, 1int,
{
    let key = fields[k].0;
    let v = fields[k].1;
    let klen = ser_string(key).len() as int;
    let vlen = ser_value(v).len() as int;
    assert(ser_field(fields[k]) == ser_string(key) + seq![':'] + ser_value(v));
    if k == fields.len() - 1 {
        assert(ser_fields(fields, k) == ser_field(fields[k]));
        assert(ser_fields(fields, k) + seq!['}'] =~= ser_string(key) + (seq![':'] + (ser_value(v)
            + seq!['}'])));
        lemma_text_at_split(t, i, ser_string(key), seq![':'] + (ser_value(v) + seq!['}']));
        lemma_text_at_split(t, i + klen, seq![':'], ser_value(v) + seq!['}']);
        lemma_text_at_split(t, i + klen + 1, ser_value(v), seq!['}']);
        lemma_text_at_index(t, i + klen, seq![':'], 0);
        lemma_text_at_index(t, i + klen + 1 + vlen, seq!['}'], 0);
        assert(t[i + klen] == ':');
        assert(t[i + klen + 1 + vlen] == '}');
        lemma_string_ser(key, t, i);
        lemma_value_ser(v, t, i + klen + 1);
        assert(t[i] == '"') by {
            lemma_text_at_index(t, i, ser_string(key), 0);
        }
        assert(sp_ws(t, i) == i);
        assert(sp_ws(t, i + klen) == i + klen);
        assert(sp_ws(t, i + klen + 1 + vlen) == i + klen + 1 + vlen);
        assert(fields.subrange(k, fields.len() as int) =~= seq![(key, v)]);
        assert(sp_members(t, i) == Some((seq![(key, v)], i + klen + 1 + vlen + 1)));
    } else {
        let restlen = ser_fields(fields, k + 1).len() as int;
        assert(ser_fields(fields, k) == ser_field(fields[k]) + seq![','] + ser_fields(
            fields,
            k + 1,
        ));
        assert(ser_fields(fields, k) + seq!['}'] =~= ser_string(key) + (seq![':'] + (ser_value(v)
            + (seq![','] + (ser_fields(fields, k + 1) + seq!['}'])))));
        lemma_text_at_split(
            t,
            i,
            ser_string(key),
            seq![':'] + (ser_value(v) + (seq![','] + (ser_fields(fields, k + 1) + seq!['}']))),
        );
        lemma_text_at_split(
            t,
            i + klen,
            seq![':'],
            ser_value(v) + (seq![','] + (ser_fields(fields, k + 1) + seq!['}'])),
        );
        lemma_text_at_split(
            t,
            i + klen + 1,
            ser_value(v),
            seq![','] + (ser_fields(fields, k + 1) + seq!['}']),
        );
        lemma_text_at_split(
            t,
            i + klen + 1 + vlen,
            seq![','],
            ser_fields(fields, k + 1) + seq!['}'],
        );
        lemma_text_at_index(t, i + klen, seq![':'], 0);
        lemma_text_at_index(t, i + klen + 1 + vlen, seq![','], 0);
        assert(t[i + klen] == ':');
        assert(t[i + klen + 1 + vlen] == ',');
        lemma_string_ser(key, t, i);
        lemma_value_ser(v, t, i + klen + 1);
        assert(t[i] == '"') by {
            lemma_text_at_index(t, i, ser_string(key), 0);
        }
        assert(sp_ws(t, i) == i);
        assert(sp_ws(t, i + klen) == i + klen);
        assert(sp_ws(t, i + klen + 1 + vlen) == i + klen + 1 + vlen);
        lemma_members_ser(fields, k + 1, t, i + klen + 1 + vlen + 1);
        assert(seq![(key, v)] + fields.subrange(k + 1, fields.len() as int) =~= fields.subrange(
            k,
            fields.len() as int,
        ));
        assert(sp_members(t, i) == Some(
            (fields.subrange(k, fields.len() as int), i + klen + 1 + vlen + 1 + restlen + 1),
        ));
    }
}

/// The round trip of the wire codec: the serialized text of a
/// well-formed document parses back to exactly that document.
pub proof fn lemma_codec_round_trip(j: JsonV)
    requires
        wf_json(j),
    ensures
        sp_text(ser_value(j)) == Some(j),
{
    let t = ser_value(j);
    lemma_ser_first(j);
    assert(text_at(t, 0, t)) by {
        assert(t.subrange(0, t.len() as int) =~= t);
    }
    lemma_value_ser(j, t, 0);
    assert(!is_ws(t[0]));
    assert(sp_ws(t, 0) == 0);
    assert(sp_ws(t, t.len() as int) == t.len());
}

/// A whole text: one value surrounded by whitespace and nothing else.
pub open spec fn sp_text(t: Seq<char>) -> Option<JsonV> {
    let i = sp_ws(t, 0);
    if 0 <= i <= t.len() {
        match sp_value(t, i) {
            Option::None => None,
            Option::Some((v, j)) => if 0 <= j <= t.len() && sp_ws(t, j) == t.len() {
                Some(v)
            } else {
                None
            },
        }
    } else {
        None
    }
}

} // verus!
