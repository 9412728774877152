//! Character-level text utilities: decimal rendering and parsing,
//! JSON string escaping, and plain string comparisons. Everything here
//! works on `Seq<char>` views, so the rest of the crate can state its
//! contracts directly over the characters of its inputs and outputs.

use vstd::prelude::*;

verus! {

/// Relies on `String::push`: appends exactly the given character.
pub assume_specification[ String::push ](s: &mut String, ch: char)
    ensures
        final(s)@ == old(s)@.push(ch),
;

/// The character for one decimal digit.
pub open spec fn digit_char(d: int) -> char {
    if d == 0 { '0' }
    else if d == 1 { '1' }
    else if d == 2 { '2' }
    else if d == 3 { '3' }
    else if d == 4 { '4' }
    else if d == 5 { '5' }
    else if d == 6 { '6' }
    else if d == 7 { '7' }
    else if d == 8 { '8' }
    else { '9' }
}

/// The decimal representation of a non-negative integer, most
/// significant digit first, with no leading zeros (except for 0 itself).
pub open spec fn dec_rep(n: int) -> Seq<char>
    decreases n,
{
    if n < 10 {
        seq![digit_char(n)]
    } else {
        dec_rep(n / 10).push(digit_char(n % 10))
    }
}

fn digit_to_char(d: u64) -> (c: char)
    requires
        d < 10,
    ensures
        c == digit_char(d as int),
{
    if d == 0 { '0' }
    else if d == 1 { '1' }
    else if d == 2 { '2' }
    else if d == 3 { '3' }
    else if d == 4 { '4' }
    else if d == 5 { '5' }
    else if d == 6 { '6' }
    else if d == 7 { '7' }
    else if d == 8 { '8' }
    else { '9' }
}

/// Renders an unsigned integer in decimal.
pub fn u64_to_dec(n: u64) -> (s: String)
    ensures
        s@ == dec_rep(n as int),
    decreases n,
{
    if n < 10 {
        let mut s = String::new();
        s.push(digit_to_char(n));
        s
    } else {
        let mut s = u64_to_dec(n / 10);
        s.push(digit_to_char(n % 10));
        s
    }
}

/// True if every character of `s` is a decimal digit.
pub open spec fn all_digits(s: Seq<char>) -> bool {
    forall|i: int| 0 <= i < s.len() ==> '0' <= #[trigger] s[i] <= '9'
}

/// The numeric value of one digit character.
pub open spec fn digit_val(c: char) -> int {
    c as int - '0' as int
}

/// The value of a sequence of decimal digit characters.
pub open spec fn dec_val(s: Seq<char>) -> int
    decreases s.len(),
{
    if s.len() == 0 {
        0
    } else {
        dec_val(s.drop_last()) * 10 + digit_val(s.last())
    }
}

proof fn lemma_dec_val_nonneg(s: Seq<char>)
    requires
        all_digits(s),
    ensures
        dec_val(s) >= 0,
    decreases s.len(),
{
    if s.len() > 0 {
        assert(all_digits(s.drop_last()));
        lemma_dec_val_nonneg(s.drop_last());
    }
}

proof fn lemma_dec_val_prefix(s: Seq<char>, i: int)
    requires
        all_digits(s),
        0 <= i <= s.len(),
    ensures
        dec_val(s.subrange(0, i)) <= dec_val(s),
    decreases s.len() - i,
{
    if i < s.len() {
        let t = s.subrange(0, i + 1);
        assert(t.drop_last() =~= s.subrange(0, i));
        assert(all_digits(t)) by {
            assert(forall|j: int| 0 <= j < t.len() ==> t[j] == s[j]);
        }
        lemma_dec_val_nonneg(s.subrange(0, i));
        assert(dec_val(s.subrange(0, i)) <= dec_val(t));
        lemma_dec_val_prefix(s, i + 1);
        assert(s.subrange(0, s.len() as int) =~= s);
    } else {
        assert(s.subrange(0, i) =~= s);
    }
}

fn char_digit_val(c: char) -> (d: u32)
    requires
        '0' <= c <= '9',
    ensures
        d == digit_val(c),
        d < 10,
{
    (c as u32) - ('0' as u32)
}

/// Parses a non-empty, all-digit string into a `u32`. Returns `None`
/// when the text is empty, holds a non-digit, or exceeds `u32::MAX`.
pub fn parse_u32(s: &str) -> (r: Option<u32>)
    ensures
        match r {
            Some(v) => s@.len() > 0 && all_digits(s@) && v == dec_val(s@),
            None => s@.len() == 0 || !all_digits(s@) || dec_val(s@) > u32::MAX,
        },
{
    let n = s.unicode_len();
    if n == 0 {
        return None;
    }
    let mut acc: u32 = 0;
    let mut i: usize = 0;
    while i < n
        invariant
            0 <= i <= n,
            n == s@.len(),
            all_digits(s@.subrange(0, i as int)),
            acc == dec_val(s@.subrange(0, i as int)),
        decreases n - i,
    {
        let c = s.get_char(i);
        if !('0' <= c && c <= '9') {
            assert(!all_digits(s@));
            return None;
        }
        let d = char_digit_val(c);
        if acc > (u32::MAX - d) / 10 {
            proof {
                let p = s@.subrange(0, i as int);
                let q = s@.subrange(0, i as int + 1);
                assert(q.drop_last() =~= p);
                assert(dec_val(q) == dec_val(p) * 10 + digit_val(c));
                if all_digits(s@) {
                    lemma_dec_val_prefix(s@, i as int + 1);
                }
            }
            return None;
        }
        proof {
            let p = s@.subrange(0, i as int);
            let q = s@.subrange(0, i as int + 1);
            assert(q.drop_last() =~= p);
            assert(q.last() == s@[i as int]);
        }
        acc = acc * 10 + d;
        i = i + 1;
    }
    proof {
        assert(s@.subrange(0, n as int) =~= s@);
    }
    Some(acc)
}

/// The fractional digits of a thousandths value `0 < f < 1000`, with
/// trailing zeros trimmed.
pub open spec fn milli_frac_rep(f: int) -> Seq<char> {
    if f % 10 != 0 {
        seq![digit_char(f / 100), digit_char((f / 10) % 10), digit_char(f % 10)]
    } else if f % 100 != 0 {
        seq![digit_char(f / 100), digit_char((f / 10) % 10)]
    } else {
        seq![digit_char(f / 100)]
    }
}

/// The decimal rendering of a non-negative value held in thousandths:
/// the integer part, then a point and the trimmed fraction when the
/// fraction is non-zero (700 renders as `0.7`, 2000 as `2`).
pub open spec fn milli_rep_nonneg(n: int) -> Seq<char> {
    if n % 1000 == 0 {
        dec_rep(n / 1000)
    } else {
        dec_rep(n / 1000) + seq!['.'] + milli_frac_rep(n % 1000)
    }
}

/// The decimal rendering of a value held in thousandths, signed.
pub open spec fn milli_rep(n: int) -> Seq<char> {
    if n < 0 {
        seq!['-'] + milli_rep_nonneg(-n)
    } else {
        milli_rep_nonneg(n)
    }
}

/// Renders a signed value held in thousandths as a plain decimal.
pub fn render_milli(n: i64) -> (s: String)
    ensures
        s@ == milli_rep(n as int),
{
    let neg = n < 0;
    let mag: u64 = if n < 0 {
        (-(n as i128)) as u64
    } else {
        n as u64
    };
    let q = mag / 1000;
    let f = mag % 1000;
    let mut out = String::new();
    if neg {
        out.push('-');
    }
    let ip = u64_to_dec(q);
    out.append(ip.as_str());
    if f != 0 {
        out.push('.');
        if f % 10 != 0 {
            out.push(digit_to_char(f / 100));
            out.push(digit_to_char((f / 10) % 10));
            out.push(digit_to_char(f % 10));
        } else if f % 100 != 0 {
            out.push(digit_to_char(f / 100));
            out.push(digit_to_char((f / 10) % 10));
        } else {
            out.push(digit_to_char(f / 100));
        }
    }
    proof {
        if n < 0 {
            assert(out@ =~= milli_rep(n as int));
        } else {
            assert(out@ =~= milli_rep(n as int));
        }
    }
    out
}

/// The view of an optional string.
pub open spec fn opt_text(o: Option<String>) -> Option<Seq<char>> {
    match o {
        Some(s) => Some(s@),
        None => None,
    }
}

/// The view of an optional borrowed string.
pub open spec fn opt_str_view(o: Option<&str>) -> Option<Seq<char>> {
    match o {
        Some(s) => Some(s@),
        None => None,
    }
}

/// The characters of `s`, truncated to at most `n`.
pub open spec fn truncated(s: Seq<char>, n: int) -> Seq<char> {
    if s.len() <= n {
        s
    } else {
        s.subrange(0, n)
    }
}

/// Truncates a string to at most `n` characters.
pub fn truncate_chars(s: &str, n: usize) -> (r: &str)
    ensures
        r@ == truncated(s@, n as int),
{
    let len = s.unicode_len();
    if len <= n {
        s
    } else {
        s.substring_char(0, n)
    }
}

/// The base URL with every trailing `/` removed.
pub open spec fn trimmed_base(s: Seq<char>) -> Seq<char>
    decreases s.len(),
{
    if s.len() > 0 && s.last() == '/' {
        trimmed_base(s.drop_last())
    } else {
        s
    }
}

/// Removes every trailing `/` from a base URL.
pub fn trim_trailing_slashes(s: &str) -> (r: &str)
    ensures
        r@ == trimmed_base(s@),
{
    let len = s.unicode_len();
    let mut end = len;
    proof {
        assert(s@.subrange(0, len as int) =~= s@);
    }
    while end > 0 && s.get_char(end - 1) == '/'
        invariant
            0 <= end <= len,
            len == s@.len(),
            trimmed_base(s@) == trimmed_base(s@.subrange(0, end as int)),
        decreases end,
    {
        proof {
            let p = s@.subrange(0, end as int);
            assert(p.last() == s@[end as int - 1]);
            assert(p.drop_last() =~= s@.subrange(0, end as int - 1));
        }
        end = end - 1;
    }
    proof {
        let p = s@.subrange(0, end as int);
        if end > 0 {
            assert(p.last() == s@[end as int - 1]);
        }
        assert(trimmed_base(p) == p);
    }
    s.substring_char(0, end)
}

/// Parses a non-empty, all-digit string into a `u64`. Returns `None`
/// when the text is empty, holds a non-digit, or exceeds `u64::MAX`.
pub fn parse_u64(s: &str) -> (r: Option<u64>)
    ensures
        match r {
            Some(v) => s@.len() > 0 && all_digits(s@) && v == dec_val(s@),
            None => s@.len() == 0 || !all_digits(s@) || dec_val(s@) > u64::MAX,
        },
{
    let n = s.unicode_len();
    if n == 0 {
        return None;
    }
    let mut acc: u64 = 0;
    let mut i: usize = 0;
    while i < n
        invariant
            0 <= i <= n,
            n == s@.len(),
            all_digits(s@.subrange(0, i as int)),
            acc == dec_val(s@.subrange(0, i as int)),
        decreases n - i,
    {
        let c = s.get_char(i);
        if !('0' <= c && c <= '9') {
            assert(!all_digits(s@));
            return None;
        }
        let d = char_digit_val(c) as u64;
        if acc > (u64::MAX - d) / 10 {
            proof {
                let p = s@.subrange(0, i as int);
                let q = s@.subrange(0, i as int + 1);
                assert(q.drop_last() =~= p);
                assert(dec_val(q) == dec_val(p) * 10 + digit_val(c));
                if all_digits(s@) {
                    lemma_dec_val_prefix(s@, i as int + 1);
                }
            }
            return None;
        }
        proof {
            let p = s@.subrange(0, i as int);
            let q = s@.subrange(0, i as int + 1);
            assert(q.drop_last() =~= p);
            assert(q.last() == s@[i as int]);
        }
        acc = acc * 10 + d;
        i = i + 1;
    }
    proof {
        assert(s@.subrange(0, n as int) =~= s@);
    }
    Some(acc)
}

/// A plain decimal number: an optional minus sign `neg`, a non-empty
/// all-digit integer part `ip`, and optionally a point followed by a
/// non-empty all-digit fraction `fp` — and nothing else.
pub open spec fn plain_decimal(s: Seq<char>, neg: bool, ip: Seq<char>, fp: Seq<char>) -> bool {
    &&& ip.len() > 0
    &&& all_digits(ip)
    &&& if fp.len() == 0 {
        s == (if neg { seq!['-'] } else { Seq::<char>::empty() }) + ip
    } else {
        all_digits(fp)
            && s == (if neg { seq!['-'] } else { Seq::<char>::empty() }) + ip + seq!['.'] + fp
    }
}

/// The thousandths contributed by a fraction: its first three digits,
/// padded with zeros on the right; further digits are dropped.
pub open spec fn frac_milli(fp: Seq<char>) -> int {
    if fp.len() >= 3 {
        dec_val(fp.subrange(0, 3))
    } else if fp.len() == 2 {
        dec_val(fp) * 10
    } else if fp.len() == 1 {
        dec_val(fp) * 100
    } else {
        0
    }
}

/// The value of a plain decimal read in thousandths.
pub open spec fn milli_val(neg: bool, ip: Seq<char>, fp: Seq<char>) -> int {
    if neg {
        -(dec_val(ip) * 1000 + frac_milli(fp))
    } else {
        dec_val(ip) * 1000 + frac_milli(fp)
    }
}

/// `v` is the thousandths reading of the plain decimal `s`.
pub open spec fn is_milli_of(s: Seq<char>, v: int) -> bool {
    exists|neg: bool, ip: Seq<char>, fp: Seq<char>| #![auto]
        plain_decimal(s, neg, ip, fp) && v == milli_val(neg, ip, fp)
}

proof fn lemma_dec_val_len_bound(s: Seq<char>)
    requires
        all_digits(s),
    ensures
        0 <= dec_val(s),
        s.len() == 0 ==> dec_val(s) == 0,
        s.len() == 1 ==> dec_val(s) <= 9,
        s.len() == 2 ==> dec_val(s) <= 99,
        s.len() == 3 ==> dec_val(s) <= 999,
    decreases s.len(),
{
    if s.len() > 0 {
        assert('0' <= s[s.len() - 1] <= '9');
        assert(all_digits(s.drop_last())) by {
            assert(forall|j: int| 0 <= j < s.drop_last().len()
                ==> s.drop_last()[j] == s[j]);
        }
        lemma_dec_val_len_bound(s.drop_last());
    }
}

/// Reads the raw text of a JSON number as a signed value in
/// thousandths: an optional sign, an integer part, and up to three
/// fractional digits; further fractional digits are dropped. Exponent
/// forms, which a full JSON number grammar admits, are not accepted,
/// nor are values within a few thousandths of the representable
/// limit; such text yields nothing, and the caller rejects the body.
pub fn parse_milli(s: &str) -> (r: Option<i64>)
    ensures
        r matches Some(v) ==> is_milli_of(s@, v as int),
{
    let n = s.unicode_len();
    let mut i: usize = 0;
    let mut neg = false;
    if i < n && s.get_char(i) == '-' {
        neg = true;
        i = i + 1;
    }
    let int_start = i;
    let mut int_val: u64 = 0;
    while i < n
        invariant
            0 <= int_start <= i <= n,
            n == s@.len(),
            int_val <= 0x7fff_ffff_ffff_ffffu64 / 1000,
            all_digits(s@.subrange(int_start as int, i as int)),
            int_val == dec_val(s@.subrange(int_start as int, i as int)),
        decreases n - i,
    {
        let c = s.get_char(i);
        if '0' <= c && c <= '9' {
            let d = char_digit_val(c) as u64;
            if int_val > (0x7fff_ffff_ffff_ffffu64 / 1000 - 9) / 10 {
                return None;
            }
            proof {
                let p = s@.subrange(int_start as int, i as int);
                let q = s@.subrange(int_start as int, i as int + 1);
                assert(q.drop_last() =~= p);
                assert(q.last() == s@[i as int]);
            }
            int_val = int_val * 10 + d;
            i = i + 1;
        } else {
            break;
        }
    }
    if i == int_start {
        return None;
    }
    let int_end = i;
    let mut frac_val: u64 = 0;
    let mut frac_digits: usize = 0;
    let mut frac_start = i;
    if i < n && s.get_char(i) == '.' {
        i = i + 1;
        frac_start = i;
        while i < n
            invariant
                0 <= frac_start <= i <= n,
                n == s@.len(),
                frac_digits == (if i - frac_start >= 3 { 3int } else { i - frac_start }),
                all_digits(s@.subrange(frac_start as int, i as int)),
                frac_val == (if i - frac_start >= 3 {
                    dec_val(s@.subrange(frac_start as int, frac_start as int + 3))
                } else {
                    dec_val(s@.subrange(frac_start as int, i as int))
                }),
                frac_val < 1000,
            decreases n - i,
        {
            let c = s.get_char(i);
            if '0' <= c && c <= '9' {
                proof {
                    let p = s@.subrange(frac_start as int, i as int);
                    let q = s@.subrange(frac_start as int, i as int + 1);
                    assert(q.drop_last() =~= p);
                    assert(q.last() == s@[i as int]);
                    assert(all_digits(q)) by {
                        assert(forall|j: int| 0 <= j < p.len() ==> q[j] == p[j]);
                    }
                    if i - frac_start < 3 {
                        assert(dec_val(q) == dec_val(p) * 10 + digit_val(s@[i as int]));
                        lemma_dec_val_len_bound(q);
                    }
                }
                if frac_digits < 3 {
                    frac_val = frac_val * 10 + char_digit_val(c) as u64;
                    frac_digits = frac_digits + 1;
                }
                i = i + 1;
            } else {
                break;
            }
        }
        if i == frac_start {
            return None;
        }
    }
    if i != n {
        return None;
    }
    let ghost ip = s@.subrange(int_start as int, int_end as int);
    let ghost fp = if frac_start > int_end {
        s@.subrange(frac_start as int, n as int)
    } else {
        Seq::<char>::empty()
    };
    proof {
        if frac_start > int_end {
            assert(fp =~= s@.subrange(frac_start as int, i as int));
        }
    }
    if frac_digits == 1 {
        proof {
            assert(fp.len() == 1);
            lemma_dec_val_len_bound(fp);
        }
        frac_val = frac_val * 100;
    } else if frac_digits == 2 {
        proof {
            assert(fp.len() == 2);
            lemma_dec_val_len_bound(fp);
        }
        frac_val = frac_val * 10;
    }
    proof {
        assert(plain_decimal(s@, neg, ip, fp)) by {
            if frac_start > int_end {
                assert(s@ =~= (if neg { seq!['-'] } else { Seq::<char>::empty() }) + ip
                    + seq!['.'] + fp);
            } else {
                assert(s@ =~= (if neg { seq!['-'] } else { Seq::<char>::empty() }) + ip);
            }
        }
        assert(frac_val == frac_milli(fp)) by {
            if fp.len() >= 3 {
                assert(fp.subrange(0, 3)
                    =~= s@.subrange(frac_start as int, frac_start as int + 3));
            } else if fp.len() >= 1 {
                assert(fp =~= s@.subrange(frac_start as int, n as int));
            }
        }
    }
    if int_val > (0x7fff_ffff_ffff_ffffu64 - frac_val) / 1000 {
        return None;
    }
    let magnitude = int_val * 1000 + frac_val;
    let r = if neg {
        -(magnitude as i64)
    } else {
        magnitude as i64
    };
    proof {
        assert(int_val == dec_val(ip));
        assert(frac_val == frac_milli(fp));
        assert(magnitude == dec_val(ip) * 1000 + frac_milli(fp));
        assert(r as int == milli_val(neg, ip, fp));
        assert(is_milli_of(s@, r as int));
    }
    Some(r)
}

/// The lowercase hexadecimal digit character for a value below 16.
pub open spec fn hex_char(d: int) -> char {
    if d < 10 { digit_char(d) }
    else if d == 10 { 'a' }
    else if d == 11 { 'b' }
    else if d == 12 { 'c' }
    else if d == 13 { 'd' }
    else if d == 14 { 'e' }
    else { 'f' }
}

/// How one character is escaped inside a JSON string literal:
/// backslash, quote and the named control characters get their short
/// escapes, every other control character below 0x20 its `\u00XX`
/// form, and everything else stands as itself.
pub open spec fn escape_char(c: char) -> Seq<char> {
    if c == '\\' { seq!['\\', '\\'] }
    else if c == '"' { seq!['\\', '"'] }
    else if c == '\n' { seq!['\\', 'n'] }
    else if c == '\r' { seq!['\\', 'r'] }
    else if c == '\t' { seq!['\\', 't'] }
    else if c == '\u{0008}' { seq!['\\', 'b'] }
    else if c == '\u{000C}' { seq!['\\', 'f'] }
    else if (c as u32) < 0x20 {
        seq!['\\', 'u', '0', '0', hex_char((c as u32) as int / 16), hex_char((c as u32) as int % 16)]
    }
    else { seq![c] }
}

/// JSON string escaping of a whole text: each character replaced by its
/// escape sequence, in order.
pub open spec fn escape_text(s: Seq<char>) -> Seq<char>
    decreases s.len(),
{
    if s.len() == 0 {
        Seq::empty()
    } else {
        escape_text(s.drop_last()) + escape_char(s.last())
    }
}

fn hex_to_char(d: u32) -> (c: char)
    requires
        d < 16,
    ensures
        c == hex_char(d as int),
{
    if d < 10 {
        digit_to_char(d as u64)
    } else if d == 10 { 'a' }
    else if d == 11 { 'b' }
    else if d == 12 { 'c' }
    else if d == 13 { 'd' }
    else if d == 14 { 'e' }
    else { 'f' }
}

/// Escapes backslash, double quote and every control character for
/// inclusion in a JSON string literal.
pub fn escape_json(s: &str) -> (r: String)
    ensures
        r@ == escape_text(s@),
{
    let n = s.unicode_len();
    let mut out = String::new();
    let mut i: usize = 0;
    while i < n
        invariant
            0 <= i <= n,
            n == s@.len(),
            out@ == escape_text(s@.subrange(0, i as int)),
        decreases n - i,
    {
        let c = s.get_char(i);
        if c == '\\' {
            out.push('\\');
            out.push('\\');
        } else if c == '"' {
            out.push('\\');
            out.push('"');
        } else if c == '\n' {
            out.push('\\');
            out.push('n');
        } else if c == '\r' {
            out.push('\\');
            out.push('r');
        } else if c == '\t' {
            out.push('\\');
            out.push('t');
        } else if c == '\u{0008}' {
            out.push('\\');
            out.push('b');
        } else if c == '\u{000C}' {
            out.push('\\');
            out.push('f');
        } else if (c as u32) < 0x20 {
            let d = c as u32;
            out.push('\\');
            out.push('u');
            out.push('0');
            out.push('0');
            out.push(hex_to_char(d / 16));
            out.push(hex_to_char(d % 16));
        } else {
            out.push(c);
        }
        proof {
            let p = s@.subrange(0, i as int);
            let q = s@.subrange(0, i as int + 1);
            assert(q.drop_last() =~= p);
            assert(q.last() == s@[i as int]);
            assert(out@ =~= escape_text(q));
        }
        i = i + 1;
    }
    proof {
        assert(s@.subrange(0, n as int) =~= s@);
    }
    out
}

/// Character-for-character string equality, stated over the views.
pub fn str_eq(a: &str, b: &str) -> (r: bool)
    ensures
        r == (a@ == b@),
{
    let n = a.unicode_len();
    if n != b.unicode_len() {
        proof {
            if a@ == b@ {
                assert(a@.len() == b@.len());
            }
        }
        return false;
    }
    let mut i: usize = 0;
    while i < n
        invariant
            0 <= i <= n,
            n == a@.len(),
            n == b@.len(),
            forall|j: int| 0 <= j < i ==> a@[j] == b@[j],
        decreases n - i,
    {
        if a.get_char(i) != b.get_char(i) {
            assert(a@[i as int] != b@[i as int]);
            return false;
        }
        i = i + 1;
    }
    proof {
        assert(a@ =~= b@);
    }
    true
}

/// True if `p` is a prefix of `s`.
pub open spec fn has_prefix(s: Seq<char>, p: Seq<char>) -> bool {
    p.len() <= s.len() && s.subrange(0, p.len() as int) == p
}

/// Strips the prefix `p` from `s`, or reports that `p` is no prefix.
pub fn strip_prefix<'a>(s: &'a str, p: &str) -> (r: Option<&'a str>)
    ensures
        match r {
            Some(t) => has_prefix(s@, p@) && t@ == s@.subrange(p@.len() as int, s@.len() as int),
            None => !has_prefix(s@, p@),
        },
{
    let n = s.unicode_len();
    let m = p.unicode_len();
    if m > n {
        return None;
    }
    let head = s.substring_char(0, m);
    if str_eq(head, p) {
        Some(s.substring_char(m, n))
    } else {
        None
    }
}

/// True if `p` occurs in `s` at position `i`.
pub open spec fn occurs_at(s: Seq<char>, p: Seq<char>, i: int) -> bool {
    0 <= i && i + p.len() <= s.len() && s.subrange(i, i + p.len() as int) == p
}

} // verus!
