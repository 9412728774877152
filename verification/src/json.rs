//! A small JSON reader for the provider wire formats. Event frames and
//! response bodies arrive as JSON text; this module turns such text
//! into a tree of plain values that the adapters then read. Decoding is
//! lenient by design: malformed text yields `None` and the caller
//! drops the frame.

use vstd::prelude::*;
use crate::text::{all_digits, dec_val, parse_u32, str_eq};

verus! {

/// Relies on `char::from_u32`: the character with exactly the given
/// scalar value, or nothing when the value is no Unicode scalar.
pub assume_specification[ char::from_u32 ](v: u32) -> (r: Option<char>)
    ensures
        r matches Some(c) ==> c as u32 == v,
;

/// One decoded JSON value. Numbers keep their raw text, so nothing is
/// lost before a caller asks for a particular numeric type.
#[derive(Debug)]
pub(crate) enum JsonValue {
    Null,
    Bool(bool),
    Num(String),
    Str(String),
    Arr(Vec<JsonValue>),
    Obj(Vec<(String, JsonValue)>),
}

fn skip_ws(s: &str, i: usize) -> (j: usize)
    requires
        i <= s@.len(),
    ensures
        i <= j <= s@.len(),
{
    let n = s.unicode_len();
    let mut j = i;
    while j < n
        invariant
            i <= j <= n,
            n == s@.len(),
        decreases n - j,
    {
        let c = s.get_char(j);
        if c == ' ' || c == '\t' || c == '\n' || c == '\r' {
            j = j + 1;
        } else {
            return j;
        }
    }
    j
}

fn hex_digit(c: char) -> (r: Option<u32>)
    ensures
        r matches Some(v) ==> v < 16,
{
    if '0' <= c && c <= '9' {
        Some((c as u32) - ('0' as u32))
    } else if 'a' <= c && c <= 'f' {
        Some((c as u32) - ('a' as u32) + 10)
    } else if 'A' <= c && c <= 'F' {
        Some((c as u32) - ('A' as u32) + 10)
    } else {
        None
    }
}

fn parse_hex4(s: &str, i: usize) -> (r: Option<u32>)
    requires
        i <= s@.len(),
    ensures
        r matches Some(v) ==> v < 0x10000 && i + 4 <= s@.len(),
{
    let n = s.unicode_len();
    if n - i < 4 {
        return None;
    }
    let h0 = match hex_digit(s.get_char(i)) { Some(v) => v, None => return None };
    let h1 = match hex_digit(s.get_char(i + 1)) { Some(v) => v, None => return None };
    let h2 = match hex_digit(s.get_char(i + 2)) { Some(v) => v, None => return None };
    let h3 = match hex_digit(s.get_char(i + 3)) { Some(v) => v, None => return None };
    Some(h0 * 4096 + h1 * 256 + h2 * 16 + h3)
}

fn parse_string_body(s: &str, i: usize) -> (r: Option<(String, usize)>)
    requires
        i <= s@.len(),
    ensures
        r matches Some(p) ==> i < p.1 <= s@.len(),
{
    let n = s.unicode_len();
    let mut out = String::new();
    let mut j = i;
    while j < n
        invariant
            i <= j <= n,
            n == s@.len(),
        decreases n - j,
    {
        let c = s.get_char(j);
        if c == '"' {
            return Some((out, j + 1));
        } else if c == '\\' {
            if n - j < 2 {
                return None;
            }
            let e = s.get_char(j + 1);
            if e == 'u' {
                if n - j < 6 {
                    return None;
                }
                let code = match parse_hex4(s, j + 2) { Some(v) => v, None => return None };
                if 0xD800 <= code && code < 0xDC00 {
                    if n - j < 12 {
                        return None;
                    }
                    if !(s.get_char(j + 6) == '\\' && s.get_char(j + 7) == 'u') {
                        return None;
                    }
                    let low = match parse_hex4(s, j + 8) { Some(v) => v, None => return None };
                    if !(0xDC00 <= low && low < 0xE000) {
                        return None;
                    }
                    let combined = 0x10000 + (code - 0xD800) * 0x400 + (low - 0xDC00);
                    match char::from_u32(combined) {
                        Some(ch) => out.push(ch),
                        None => return None,
                    }
                    j = j + 12;
                } else {
                    match char::from_u32(code) {
                        Some(ch) => out.push(ch),
                        None => return None,
                    }
                    j = j + 6;
                }
            } else {
                if e == '"' {
                    out.push('"');
                } else if e == '\\' {
                    out.push('\\');
                } else if e == '/' {
                    out.push('/');
                } else if e == 'n' {
                    out.push('\n');
                } else if e == 't' {
                    out.push('\t');
                } else if e == 'r' {
                    out.push('\r');
                } else if e == 'b' {
                    out.push('\u{0008}');
                } else if e == 'f' {
                    out.push('\u{000C}');
                } else {
                    return None;
                }
                j = j + 2;
            }
        } else {
            out.push(c);
            j = j + 1;
        }
    }
    None
}

fn parse_number(s: &str, i: usize) -> (r: Option<(String, usize)>)
    requires
        i <= s@.len(),
    ensures
        r matches Some(p) ==> i < p.1 <= s@.len(),
{
    let n = s.unicode_len();
    let mut j = i;
    if j < n && s.get_char(j) == '-' {
        j = j + 1;
    }
    let digits_start = j;
    while j < n
        invariant
            i <= digits_start <= j <= n,
            n == s@.len(),
        decreases n - j,
    {
        let c = s.get_char(j);
        if '0' <= c && c <= '9' {
            j = j + 1;
        } else {
            break;
        }
    }
    if j == digits_start {
        return None;
    }
    if j < n && s.get_char(j) == '.' {
        let frac_start = j + 1;
        j = j + 1;
        while j < n
            invariant
                i < j <= n,
                n == s@.len(),
            decreases n - j,
        {
            let c = s.get_char(j);
            if '0' <= c && c <= '9' {
                j = j + 1;
            } else {
                break;
            }
        }
        if j == frac_start {
            return None;
        }
    }
    if j < n && (s.get_char(j) == 'e' || s.get_char(j) == 'E') {
        j = j + 1;
        if j < n && (s.get_char(j) == '+' || s.get_char(j) == '-') {
            j = j + 1;
        }
        let exp_start = j;
        while j < n
            invariant
                i < j <= n,
                n == s@.len(),
            decreases n - j,
        {
            let c = s.get_char(j);
            if '0' <= c && c <= '9' {
                j = j + 1;
            } else {
                break;
            }
        }
        if j == exp_start {
            return None;
        }
    }
    Some((String::from_str(s.substring_char(i, j)), j))
}

fn expect_lit(s: &str, i: usize, lit: &str) -> (r: Option<usize>)
    requires
        i <= s@.len(),
    ensures
        r matches Some(j) ==> i < j <= s@.len(),
{
    let n = s.unicode_len();
    let m = lit.unicode_len();
    if m == 0 || n - i < m {
        return None;
    }
    if str_eq(s.substring_char(i, i + m), lit) {
        Some(i + m)
    } else {
        None
    }
}

fn parse_value(s: &str, i: usize) -> (r: Option<(JsonValue, usize)>)
    requires
        i <= s@.len(),
    ensures
        r matches Some(p) ==> i < p.1 <= s@.len(),
    decreases s@.len() - i, 0int,
{
    let n = s.unicode_len();
    if i >= n {
        return None;
    }
    let c = s.get_char(i);
    if c == '{' {
        parse_object_body(s, i + 1)
    } else if c == '[' {
        parse_array_body(s, i + 1)
    } else if c == '"' {
        match parse_string_body(s, i + 1) {
            Some((v, j)) => Some((JsonValue::Str(v), j)),
            None => None,
        }
    } else if c == 't' {
        match expect_lit(s, i, "true") {
            Some(j) => Some((JsonValue::Bool(true), j)),
            None => None,
        }
    } else if c == 'f' {
        match expect_lit(s, i, "false") {
            Some(j) => Some((JsonValue::Bool(false), j)),
            None => None,
        }
    } else if c == 'n' {
        match expect_lit(s, i, "null") {
            Some(j) => Some((JsonValue::Null, j)),
            None => None,
        }
    } else if c == '-' || ('0' <= c && c <= '9') {
        match parse_number(s, i) {
            Some((raw, j)) => Some((JsonValue::Num(raw), j)),
            None => None,
        }
    } else {
        None
    }
}

fn parse_object_body(s: &str, i: usize) -> (r: Option<(JsonValue, usize)>)
    requires
        i <= s@.len(),
    ensures
        r matches Some(p) ==> i < p.1 <= s@.len(),
    decreases s@.len() - i, 1int,
{
    let n = s.unicode_len();
    let mut fields: Vec<(String, JsonValue)> = Vec::new();
    let mut cur = skip_ws(s, i);
    if cur < n && s.get_char(cur) == '}' {
        return Some((JsonValue::Obj(fields), cur + 1));
    }
    while cur < n
        invariant
            i <= cur <= n,
            n == s@.len(),
        decreases n - cur,
    {
        if s.get_char(cur) != '"' {
            return None;
        }
        let (key, after_key) = match parse_string_body(s, cur + 1) {
            Some(p) => p,
            None => return None,
        };
        let colon_pos = skip_ws(s, after_key);
        if !(colon_pos < n && s.get_char(colon_pos) == ':') {
            return None;
        }
        let value_start = skip_ws(s, colon_pos + 1);
        assert(value_start > i);
        let (value, after_value) = match parse_value(s, value_start) {
            Some(p) => p,
            None => return None,
        };
        fields.push((key, value));
        let tail = skip_ws(s, after_value);
        if tail < n && s.get_char(tail) == '}' {
            return Some((JsonValue::Obj(fields), tail + 1));
        }
        if !(tail < n && s.get_char(tail) == ',') {
            return None;
        }
        cur = skip_ws(s, tail + 1);
    }
    None
}

fn parse_array_body(s: &str, i: usize) -> (r: Option<(JsonValue, usize)>)
    requires
        i <= s@.len(),
    ensures
        r matches Some(p) ==> i < p.1 <= s@.len(),
    decreases s@.len() - i, 1int,
{
    let n = s.unicode_len();
    let mut items: Vec<JsonValue> = Vec::new();
    let mut cur = skip_ws(s, i);
    if cur < n && s.get_char(cur) == ']' {
        return Some((JsonValue::Arr(items), cur + 1));
    }
    while cur < n
        invariant
            i <= cur <= n,
            n == s@.len(),
        decreases n - cur,
    {
        let (value, after_value) = match parse_value(s, cur) {
            Some(p) => p,
            None => return None,
        };
        items.push(value);
        let tail = skip_ws(s, after_value);
        if tail < n && s.get_char(tail) == ']' {
            return Some((JsonValue::Arr(items), tail + 1));
        }
        if !(tail < n && s.get_char(tail) == ',') {
            return None;
        }
        cur = skip_ws(s, tail + 1);
    }
    None
}

/// Parses one complete JSON document; trailing whitespace is accepted,
/// any other trailing text is not.
pub(crate) fn parse(s: &str) -> (r: Option<JsonValue>)
{
    let start = skip_ws(s, 0);
    match parse_value(s, start) {
        Some((v, j)) => {
            let end = skip_ws(s, j);
            if end == s.unicode_len() {
                Some(v)
            } else {
                None
            }
        }
        None => None,
    }
}

/// Position `i` holds the earliest field of an object named `key`.
pub(crate) open spec fn field_match_idx(
    fields: Seq<(String, JsonValue)>,
    key: Seq<char>,
    i: int,
) -> bool {
    &&& 0 <= i < fields.len()
    &&& fields[i].0@ == key
    &&& forall|j: int| 0 <= j < i ==> #[trigger] fields[j].0@ != key
}

/// The result of looking `key` up in `fields`: the value of the
/// earliest field with that name.
pub(crate) open spec fn lookup_ok(
    fields: Seq<(String, JsonValue)>,
    key: Seq<char>,
    v: JsonValue,
) -> bool {
    exists|i: int| #![auto] field_match_idx(fields, key, i) && v == fields[i].1
}

impl JsonValue {
    /// The value of the first field with the given key, when this is
    /// an object that has one. On an object that repeats a key the
    /// earliest field wins: such bodies are read leniently here, where
    /// a strict schema decoder would reject them outright.
    pub(crate) fn get<'a>(&'a self, key: &str) -> (r: Option<&'a JsonValue>)
        ensures
            match self {
                JsonValue::Obj(fields) => match r {
                    Some(v) => lookup_ok(fields@, key@, *v),
                    None => forall|i: int| 0 <= i < fields@.len()
                        ==> (#[trigger] fields@[i]).0@ != key@,
                },
                _ => r is None,
            },
    {
        match self {
            JsonValue::Obj(fields) => {
                let n = fields.len();
                let mut i: usize = 0;
                while i < n
                    invariant
                        0 <= i <= n,
                        n == fields@.len(),
                        self is Obj,
                        self->Obj_0@ == fields@,
                        forall|j: int| 0 <= j < i ==> (#[trigger] fields@[j]).0@ != key@,
                    decreases n - i,
                {
                    if str_eq(fields[i].0.as_str(), key) {
                        proof {
                            assert(field_match_idx(fields@, key@, i as int));
                            assert(lookup_ok(fields@, key@, fields@[i as int].1));
                        }
                        return Some(&fields[i].1);
                    }
                    i = i + 1;
                }
                None
            }
            _ => None,
        }
    }

    /// The text of a string value.
    pub(crate) fn as_text<'a>(&'a self) -> (r: Option<&'a String>)
        ensures
            match self {
                JsonValue::Str(v) => r == Some(v),
                _ => r is None,
            },
    {
        match self {
            JsonValue::Str(v) => Some(v),
            _ => None,
        }
    }

    /// The elements of an array value.
    pub(crate) fn as_items<'a>(&'a self) -> (r: Option<&'a Vec<JsonValue>>)
        ensures
            match self {
                JsonValue::Arr(v) => r == Some(v),
                _ => r is None,
            },
    {
        match self {
            JsonValue::Arr(v) => Some(v),
            _ => None,
        }
    }

    /// A boolean value.
    pub(crate) fn as_flag(&self) -> (r: Option<bool>)
        ensures
            match self {
                JsonValue::Bool(b) => r == Some(*b),
                _ => r is None,
            },
    {
        match self {
            JsonValue::Bool(b) => Some(*b),
            _ => None,
        }
    }

    /// The raw text of a number value.
    pub(crate) fn as_num_raw<'a>(&'a self) -> (r: Option<&'a String>)
        ensures
            match self {
                JsonValue::Num(v) => r == Some(v),
                _ => r is None,
            },
    {
        match self {
            JsonValue::Num(v) => Some(v),
            _ => None,
        }
    }

    /// A number value read as a `u32`, when its raw text is a plain
    /// decimal in range.
    pub(crate) fn as_u32(&self) -> (r: Option<u32>)
        ensures
            match self {
                JsonValue::Num(raw) => match r {
                    Some(v) => all_digits(raw@) && raw@.len() > 0 && v == dec_val(raw@),
                    None => raw@.len() == 0 || !all_digits(raw@) || dec_val(raw@) > u32::MAX,
                },
                _ => r is None,
            },
    {
        match self {
            JsonValue::Num(raw) => parse_u32(raw.as_str()),
            _ => None,
        }
    }

    /// Whether this is the JSON `null`.
    pub(crate) fn is_null(&self) -> (r: bool)
        ensures
            r == (self is Null),
    {
        match self {
            JsonValue::Null => true,
            _ => false,
        }
    }
}

} // verus!
