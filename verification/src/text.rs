//! Character-level building blocks of the JSON wire encoding: whitespace,
//! string escaping, decimal numbers, and skipping of unknown values.
//!
//! The canonical encoding of every value is given by spec functions over
//! `Seq<char>`. Parsers are specified positionally: a spec parser takes the
//! whole text and a position and returns the parsed value together with the
//! position just past it, or `None` on malformed input. Executable parsers
//! are proved to return exactly what the spec parser says.

use vstd::prelude::*;
use vstd::string::StrSliceExecFns;
use vstd::utf8::char_u32_cast;

verus! {

/// JSON insignificant whitespace.
pub open spec fn is_ws(c: char) -> bool {
    c == ' ' || c == '\t' || c == '\n' || c == '\r'
}

/// ASCII decimal digit.
pub open spec fn is_digit(c: char) -> bool {
    48 <= (c as u32) <= 57
}

/// ASCII hexadecimal digit (either case).
pub open spec fn is_hex(c: char) -> bool {
    is_digit(c) || 97 <= (c as u32) <= 102 || 65 <= (c as u32) <= 70
}

/// A character that the string encoder passes through unescaped.
pub open spec fn plain_char(c: char) -> bool {
    c != '"' && c != '\\' && (c as u32) >= 32
}

/// The text `t` occurs in `s` starting at position `i`.
pub open spec fn text_at(s: Seq<char>, i: int, t: Seq<char>) -> bool {
    &&& 0 <= i
    &&& i + t.len() <= s.len()
    &&& forall|k: int| 0 <= k < t.len() ==> s[i + k] == t[k]
}

pub proof fn lemma_text_at_concat(s: Seq<char>, i: int, a: Seq<char>, b: Seq<char>)
    requires
        text_at(s, i, a + b),
    ensures
        text_at(s, i, a),
        text_at(s, i + a.len(), b),
{
    assert forall|k: int| 0 <= k < a.len() implies s[i + k] == a[k] by {
        assert((a + b)[k] == a[k]);
    }
    assert forall|k: int| 0 <= k < b.len() implies s[i + a.len() + k] == b[k] by {
        assert((a + b)[a.len() + k] == b[k]);
    }
}

pub proof fn lemma_text_at_index(s: Seq<char>, i: int, t: Seq<char>, k: int)
    requires
        text_at(s, i, t),
        0 <= k < t.len(),
    ensures
        s[i + k] == t[k],
{
}

/// Position of the first non-whitespace character at or after `i`.
pub open spec fn sp_ws(s: Seq<char>, i: int) -> int
    decreases s.len() - i,
{
    if 0 <= i < s.len() && is_ws(s[i]) {
        sp_ws(s, i + 1)
    } else {
        i
    }
}

pub proof fn lemma_sp_ws_bounds(s: Seq<char>, i: int)
    requires
        0 <= i <= s.len(),
    ensures
        i <= sp_ws(s, i) <= s.len(),
        sp_ws(s, i) < s.len() ==> !is_ws(s[sp_ws(s, i)]),
    decreases s.len() - i,
{
    if i < s.len() && is_ws(s[i]) {
        lemma_sp_ws_bounds(s, i + 1);
    }
}

/// Skipping whitespace at a non-whitespace position (or at the end) stays put.
pub proof fn lemma_sp_ws_stay(s: Seq<char>, i: int)
    requires
        0 <= i <= s.len(),
        i == s.len() || !is_ws(s[i]),
    ensures
        sp_ws(s, i) == i,
{
}

/// Skip whitespace, executably.
pub fn skip_ws(s: &Vec<char>, i: usize) -> (j: usize)
    requires
        i <= s@.len(),
    ensures
        j as int == sp_ws(s@, i as int),
        i <= j <= s@.len(),
{
    let mut j = i;
    loop
        invariant
            i <= j <= s@.len(),
            sp_ws(s@, i as int) == sp_ws(s@, j as int),
        decreases s@.len() - j,
    {
        if j < s.len() {
            let c = s[j];
            if c == ' ' || c == '\t' || c == '\n' || c == '\r' {
                j = j + 1;
                continue;
            }
        }
        proof {
            lemma_sp_ws_stay(s@, j as int);
        }
        return j;
    }
}

// ---------------------------------------------------------------------------
// String escaping
// ---------------------------------------------------------------------------

/// Lower-case hexadecimal digit for a value below sixteen.
pub open spec fn hex_digit(n: int) -> char {
    if n == 0 { '0' } else if n == 1 { '1' } else if n == 2 { '2' } else if n == 3 { '3' }
    else if n == 4 { '4' } else if n == 5 { '5' } else if n == 6 { '6' } else if n == 7 { '7' }
    else if n == 8 { '8' } else if n == 9 { '9' } else if n == 10 { 'a' } else if n == 11 { 'b' }
    else if n == 12 { 'c' } else if n == 13 { 'd' } else if n == 14 { 'e' } else { 'f' }
}

/// Numeric value of a hexadecimal digit.
pub open spec fn hex_val(c: char) -> int {
    if is_digit(c) {
        (c as u32) - 48
    } else if 97 <= (c as u32) <= 102 {
        (c as u32) - 87
    } else {
        (c as u32) - 55
    }
}

/// Encoding of one character inside a JSON string: itself, a two-character
/// escape, or a `\u00XX` escape for the remaining control characters.
pub open spec fn esc_char(c: char) -> Seq<char> {
    if c == '"' {
        seq!['\\', '"']
    } else if c == '\\' {
        seq!['\\', '\\']
    } else if c == '\u{8}' {
        seq!['\\', 'b']
    } else if c == '\u{c}' {
        seq!['\\', 'f']
    } else if c == '\n' {
        seq!['\\', 'n']
    } else if c == '\r' {
        seq!['\\', 'r']
    } else if c == '\t' {
        seq!['\\', 't']
    } else if (c as u32) < 32 {
        seq!['\\', 'u', '0', '0', hex_digit((c as u32) as int / 16), hex_digit((c as u32) as int % 16)]
    } else {
        seq![c]
    }
}

/// Escaped body of a JSON string (without the surrounding quotes).
pub open spec fn enc_str(s: Seq<char>) -> Seq<char>
    decreases s.len(),
{
    if s.len() == 0 {
        Seq::empty()
    } else {
        esc_char(s[0]) + enc_str(s.drop_first())
    }
}

/// A complete JSON string literal.
pub open spec fn enc_string(s: Seq<char>) -> Seq<char> {
    seq!['"'] + enc_str(s) + seq!['"']
}

pub proof fn lemma_enc_str_app(a: Seq<char>, b: Seq<char>)
    ensures
        enc_str(a + b) == enc_str(a) + enc_str(b),
    decreases a.len(),
{
    if a.len() == 0 {
        assert(a + b =~= b);
        assert(enc_str(a) + enc_str(b) =~= enc_str(b));
    } else {
        assert((a + b).drop_first() =~= a.drop_first() + b);
        lemma_enc_str_app(a.drop_first(), b);
        assert(esc_char((a + b)[0]) + (enc_str(a.drop_first()) + enc_str(b)) =~= (esc_char(a[0])
            + enc_str(a.drop_first())) + enc_str(b));
    }
}

/// Escaping a sequence of plain characters leaves it unchanged.
pub proof fn lemma_enc_str_plain(s: Seq<char>)
    requires
        forall|k: int| 0 <= k < s.len() ==> plain_char(s[k]),
    ensures
        enc_str(s) == s,
    decreases s.len(),
{
    if s.len() > 0 {
        assert(plain_char(s[0]));
        lemma_enc_str_plain(s.drop_first());
        assert(esc_char(s[0]) + s.drop_first() =~= s);
    }
}

// ---------------------------------------------------------------------------
// String parsing
// ---------------------------------------------------------------------------

/// The character named by a single-letter escape, if it is one.
pub open spec fn unescape_code(e: char) -> Option<char> {
    if e == '"' { Some('"') } else if e == '\\' { Some('\\') } else if e == '/' { Some('/') }
    else if e == 'b' { Some('\u{8}') } else if e == 'f' { Some('\u{c}') }
    else if e == 'n' { Some('\n') } else if e == 'r' { Some('\r') }
    else if e == 't' { Some('\t') } else { None }
}

/// Parse the body of a JSON string up to and including the closing quote,
/// starting just after the opening quote. Escapes `\" \\ \/ \b \f \n \r \t`
/// and `\u00XX` are understood; raw control characters are rejected.
pub open spec fn sp_str_body(s: Seq<char>, i: int) -> Option<(Seq<char>, int)>
    decreases s.len() - i,
{
    if !(0 <= i < s.len()) {
        None
    } else if s[i] == '"' {
        Some((Seq::empty(), i + 1))
    } else if s[i] == '\\' {
        if i + 2 > s.len() {
            None
        } else if s[i + 1] == 'u' {
            if i + 6 <= s.len() && s[i + 2] == '0' && s[i + 3] == '0' && is_hex(s[i + 4]) && is_hex(
                s[i + 5],
            ) {
                let c = (((16 * hex_val(s[i + 4]) + hex_val(s[i + 5])) as u32) as char);
                match sp_str_body(s, i + 6) {
                    None => None,
                    Some((rest, j)) => Some((seq![c] + rest, j)),
                }
            } else {
                None
            }
        } else {
            match unescape_code(s[i + 1]) {
                None => None,
                Some(c) => match sp_str_body(s, i + 2) {
                    None => None,
                    Some((rest, j)) => Some((seq![c] + rest, j)),
                },
            }
        }
    } else if (s[i] as u32) < 32 {
        None
    } else {
        match sp_str_body(s, i + 1) {
            None => None,
            Some((rest, j)) => Some((seq![s[i]] + rest, j)),
        }
    }
}

/// Parse a complete JSON string literal at `i`.
pub open spec fn sp_string(s: Seq<char>, i: int) -> Option<(Seq<char>, int)> {
    if 0 <= i < s.len() && s[i] == '"' {
        sp_str_body(s, i + 1)
    } else {
        None
    }
}

pub proof fn lemma_sp_str_body_bounds(s: Seq<char>, i: int)
    requires
        sp_str_body(s, i) is Some,
    ensures
        i < (sp_str_body(s, i)->0).1 <= s.len(),
    decreases s.len() - i,
{
    if s[i] == '"' {
    } else if s[i] == '\\' {
        if s[i + 1] == 'u' {
            lemma_sp_str_body_bounds(s, i + 6);
        } else {
            lemma_sp_str_body_bounds(s, i + 2);
        }
    } else {
        lemma_sp_str_body_bounds(s, i + 1);
    }
}

/// Round trip of the string body: the escaped form of `c` followed by a
/// closing quote parses back to exactly `c`.
pub proof fn lemma_str_body_rt(s: Seq<char>, i: int, c: Seq<char>)
    requires
        text_at(s, i, enc_str(c) + seq!['"']),
    ensures
        sp_str_body(s, i) == Some((c, i + enc_str(c).len() + 1)),
    decreases c.len(),
{
    if c.len() == 0 {
        lemma_text_at_index(s, i, enc_str(c) + seq!['"'], 0);
        assert(s[i] == '"');
        assert(sp_str_body(s, i) == Some((Seq::<char>::empty(), i + 1)));
        assert(c =~= Seq::<char>::empty());
    } else {
        let c0 = c[0];
        let e = esc_char(c0);
        let tail = c.drop_first();
        assert(enc_str(c) == e + enc_str(tail));
        assert((e + enc_str(tail)) + seq!['"'] =~= e + (enc_str(tail) + seq!['"']));
        lemma_text_at_concat(s, i, e, enc_str(tail) + seq!['"']);
        let i2 = i + e.len();
        lemma_str_body_rt(s, i2, tail);
        if c0 == '"' || c0 == '\\' || c0 == '\u{8}' || c0 == '\u{c}' || c0 == '\n' || c0 == '\r'
            || c0 == '\t' {
            lemma_text_at_index(s, i, e, 0);
            lemma_text_at_index(s, i, e, 1);
            assert(s[i] == '\\');
            assert(unescape_code(s[i + 1]) == Some(c0));
            assert(seq![c0] + tail =~= c);
        } else if (c0 as u32) < 32 {
            let v: int = (c0 as u32) as int;
            lemma_text_at_index(s, i, e, 0);
            lemma_text_at_index(s, i, e, 1);
            lemma_text_at_index(s, i, e, 2);
            lemma_text_at_index(s, i, e, 3);
            lemma_text_at_index(s, i, e, 4);
            lemma_text_at_index(s, i, e, 5);
            assert(s[i] == '\\' && s[i + 1] == 'u' && s[i + 2] == '0' && s[i + 3] == '0');
            assert(s[i + 4] == hex_digit(v / 16) && s[i + 5] == hex_digit(v % 16));
            assert(is_hex(hex_digit(v / 16)) && is_hex(hex_digit(v % 16)));
            assert(hex_val(hex_digit(v / 16)) == v / 16 && hex_val(hex_digit(v % 16)) == v % 16);
            assert(16 * (v / 16) + v % 16 == v) by (nonlinear_arith)
                requires v < 32,
            ;
            char_u32_cast(c0, c0 as u32);
            assert((((16 * hex_val(s[i + 4]) + hex_val(s[i + 5])) as u32) as char) == c0);
            assert(seq![c0] + tail =~= c);
        } else {
            assert(plain_char(c0));
            lemma_text_at_index(s, i, e, 0);
            assert(s[i] == c0);
            assert(seq![c0] + tail =~= c);
        }
    }
}

/// Round trip of a whole string literal.
pub proof fn lemma_string_rt(s: Seq<char>, i: int, c: Seq<char>)
    requires
        text_at(s, i, enc_string(c)),
    ensures
        sp_string(s, i) == Some((c, i + enc_string(c).len())),
{
    assert(enc_string(c) =~= seq!['"'] + (enc_str(c) + seq!['"']));
    lemma_text_at_concat(s, i, seq!['"'], enc_str(c) + seq!['"']);
    lemma_text_at_index(s, i, seq!['"'], 0);
    assert(s[i] == '"');
    lemma_str_body_rt(s, i + 1, c);
}

// ---------------------------------------------------------------------------
// Decimal numbers
// ---------------------------------------------------------------------------

/// Decimal digit for a value below ten.
pub open spec fn dec_digit(n: int) -> char {
    if n == 0 { '0' } else if n == 1 { '1' } else if n == 2 { '2' } else if n == 3 { '3' }
    else if n == 4 { '4' } else if n == 5 { '5' } else if n == 6 { '6' } else if n == 7 { '7' }
    else if n == 8 { '8' } else { '9' }
}

/// Numeric value of a decimal digit.
pub open spec fn dec_val(c: char) -> int {
    (c as u32) - 48
}

/// Canonical decimal encoding of a non-negative number (no sign, no leading
/// zero).
pub open spec fn enc_u16(n: int) -> Seq<char>
    decreases n,
{
    if n < 10 {
        seq![dec_digit(n)]
    } else {
        enc_u16(n / 10) + seq![dec_digit(n % 10)]
    }
}

/// Value of a sequence of decimal digits, most significant first.
pub open spec fn str_to_int(d: Seq<char>) -> int
    decreases d.len(),
{
    if d.len() == 0 {
        0
    } else {
        str_to_int(d.drop_last()) * 10 + dec_val(d.last())
    }
}

pub open spec fn pow10(n: int) -> int
    decreases n,
{
    if n <= 0 {
        1
    } else {
        10 * pow10(n - 1)
    }
}

/// Position of the first non-digit character at or after `i`.
pub open spec fn digit_run_end(s: Seq<char>, i: int) -> int
    decreases s.len() - i,
{
    if 0 <= i < s.len() && is_digit(s[i]) {
        digit_run_end(s, i + 1)
    } else {
        i
    }
}

pub proof fn lemma_digit_run_end_bounds(s: Seq<char>, i: int)
    requires
        0 <= i <= s.len(),
    ensures
        i <= digit_run_end(s, i) <= s.len(),
    decreases s.len() - i,
{
    if i < s.len() && is_digit(s[i]) {
        lemma_digit_run_end_bounds(s, i + 1);
    }
}

/// Parse an unsigned decimal number that must fit 16 bits: a digit run
/// without a leading zero whose value is at most 65535.
pub open spec fn sp_u16(s: Seq<char>, i: int) -> Option<(u16, int)> {
    if !(0 <= i < s.len() && is_digit(s[i])) {
        None
    } else {
        let j = digit_run_end(s, i);
        let d = s.subrange(i, j);
        if s[i] == '0' && j > i + 1 {
            None
        } else if str_to_int(d) > 65535 {
            None
        } else {
            Some((str_to_int(d) as u16, j))
        }
    }
}

/// The canonical decimal encoding is made of digits, is non-empty, starts
/// with a non-zero digit unless the value is zero, and reads back to the
/// value it encodes.
pub proof fn lemma_enc_u16_props(n: int)
    requires
        0 <= n,
    ensures
        enc_u16(n).len() >= 1,
        forall|k: int| 0 <= k < enc_u16(n).len() ==> is_digit(#[trigger] enc_u16(n)[k]),
        n > 0 ==> enc_u16(n)[0] != '0',
        str_to_int(enc_u16(n)) == n,
    decreases n,
{
    if n < 10 {
        let d = seq![dec_digit(n)];
        assert(d.drop_last() =~= Seq::<char>::empty());
        assert(d.last() == dec_digit(n));
        assert(str_to_int(Seq::<char>::empty()) == 0);
        assert(str_to_int(d) == dec_val(dec_digit(n)));
        assert(dec_val(dec_digit(n)) == n);
    } else {
        assert(1 <= n / 10 && n / 10 < n) by (nonlinear_arith)
            requires n >= 10,
        ;
        lemma_enc_u16_props(n / 10);
        let a = enc_u16(n / 10);
        let d = a + seq![dec_digit(n % 10)];
        assert(d.drop_last() =~= a);
        assert(d.last() == dec_digit(n % 10));
        assert(0 <= n % 10 < 10) by (nonlinear_arith)
            requires n >= 10,
        ;
        assert(str_to_int(d) == n) by {
            assert(str_to_int(d) == str_to_int(a) * 10 + dec_val(dec_digit(n % 10)));
            assert(dec_val(dec_digit(n % 10)) == n % 10);
            assert((n / 10) * 10 + n % 10 == n) by (nonlinear_arith);
        }
        assert(forall|k: int| 0 <= k < d.len() ==> is_digit(#[trigger] d[k])) by {
            assert(forall|k: int| 0 <= k < a.len() ==> d[k] == a[k]);
            assert(d[a.len() as int] == dec_digit(n % 10));
        }
        assert(d[0] == a[0]);
    }
}

/// A digit run read most-significant-first is below `pow10` of its length.
pub proof fn lemma_str_to_int_upper(d: Seq<char>)
    requires
        forall|k: int| 0 <= k < d.len() ==> is_digit(#[trigger] d[k]),
    ensures
        0 <= str_to_int(d) < pow10(d.len() as int),
    decreases d.len(),
{
    if d.len() > 0 {
        assert(forall|k: int| 0 <= k < d.drop_last().len() ==> is_digit(
            #[trigger] d.drop_last()[k],
        ));
        lemma_str_to_int_upper(d.drop_last());
        assert(is_digit(d.last()));
        assert(0 <= dec_val(d.last()) <= 9);
    }
}

/// A digit run that does not start with a zero is at least `pow10` of one
/// less than its length.
pub proof fn lemma_str_to_int_lower(d: Seq<char>)
    requires
        d.len() >= 1,
        forall|k: int| 0 <= k < d.len() ==> is_digit(#[trigger] d[k]),
        d[0] != '0',
    ensures
        str_to_int(d) >= pow10(d.len() - 1),
    decreases d.len(),
{
    if d.len() == 1 {
        assert(d.last() == d[0]);
        assert(d.drop_last() =~= Seq::<char>::empty());
        assert(str_to_int(Seq::<char>::empty()) == 0);
        assert(dec_val(d[0]) >= 1) by {
            if (d[0] as u32) == 48 {
                char_u32_cast(d[0], d[0] as u32);
                char_u32_cast('0', '0' as u32);
                assert(d[0] == '0');
            }
        }
    } else {
        assert(forall|k: int| 0 <= k < d.drop_last().len() ==> is_digit(
            #[trigger] d.drop_last()[k],
        ));
        assert(d.drop_last()[0] == d[0]);
        lemma_str_to_int_lower(d.drop_last());
        assert(is_digit(d.last()));
        assert(0 <= dec_val(d.last()));
    }
}

/// The digit run starting at a copy of an all-digit text `d` ends right
/// after it, provided no digit follows.
pub proof fn lemma_run_end_digits(s: Seq<char>, i: int, d: Seq<char>)
    requires
        text_at(s, i, d),
        forall|k: int| 0 <= k < d.len() ==> is_digit(#[trigger] d[k]),
        i + d.len() == s.len() || !is_digit(s[i + d.len()]),
    ensures
        digit_run_end(s, i) == i + d.len(),
    decreases d.len(),
{
    if d.len() == 0 {
    } else {
        lemma_text_at_index(s, i, d, 0);
        assert(is_digit(s[i]));
        assert(d =~= seq![d[0]] + d.drop_first());
        lemma_text_at_concat(s, i, seq![d[0]], d.drop_first());
        assert(forall|k: int| 0 <= k < d.drop_first().len() ==> is_digit(
            #[trigger] d.drop_first()[k],
        ));
        lemma_run_end_digits(s, i + 1, d.drop_first());
    }
}

/// Round trip of a 16-bit number: its canonical decimal encoding, followed
/// by anything that is not a digit, parses back to the same value.
pub proof fn lemma_u16_rt(s: Seq<char>, i: int, n: u16)
    requires
        text_at(s, i, enc_u16(n as int)),
        i + enc_u16(n as int).len() == s.len() || !is_digit(s[i + enc_u16(n as int).len()]),
    ensures
        sp_u16(s, i) == Some((n, i + enc_u16(n as int).len())),
{
    let e = enc_u16(n as int);
    lemma_enc_u16_props(n as int);
    lemma_text_at_index(s, i, e, 0);
    assert(is_digit(s[i]));
    lemma_run_end_digits(s, i, e);
    let j = digit_run_end(s, i);
    assert(j == i + e.len());
    let d = s.subrange(i, j);
    assert(d =~= e) by {
        assert(forall|k: int| 0 <= k < e.len() ==> s[i + k] == e[k]);
        assert(forall|k: int| 0 <= k < d.len() ==> d[k] == s[i + k]);
    }
    if n == 0 {
        assert(e.len() == 1);
    } else {
        assert(s[i] == e[0]);
        assert(e[0] != '0');
    }
    assert(str_to_int(d) == n as int);
}

// ---------------------------------------------------------------------------
// Skipping a value of an unknown field
// ---------------------------------------------------------------------------

/// Consume the rest of a string literal without interpreting its escapes.
pub open spec fn sp_skip_string(s: Seq<char>, i: int) -> Option<int>
    decreases s.len() - i,
{
    if !(0 <= i < s.len()) {
        None
    } else if s[i] == '"' {
        Some(i + 1)
    } else if s[i] == '\\' {
        if i + 2 <= s.len() {
            sp_skip_string(s, i + 2)
        } else {
            None
        }
    } else {
        sp_skip_string(s, i + 1)
    }
}

/// Consume the rest of an object or array, tracking nesting depth and
/// whether the cursor stands inside a string or right after a backslash.
pub open spec fn sp_skip_container(
    s: Seq<char>,
    i: int,
    depth: int,
    in_str: bool,
    esc: bool,
) -> Option<int>
    decreases s.len() - i,
{
    if !(0 <= i < s.len()) {
        None
    } else {
        let c = s[i];
        if esc {
            sp_skip_container(s, i + 1, depth, in_str, false)
        } else if in_str {
            if c == '\\' {
                sp_skip_container(s, i + 1, depth, true, true)
            } else if c == '"' {
                sp_skip_container(s, i + 1, depth, false, false)
            } else {
                sp_skip_container(s, i + 1, depth, true, false)
            }
        } else if c == '"' {
            sp_skip_container(s, i + 1, depth, true, false)
        } else if c == '{' || c == '[' {
            sp_skip_container(s, i + 1, depth + 1, false, false)
        } else if c == '}' || c == ']' {
            if depth <= 1 {
                Some(i + 1)
            } else {
                sp_skip_container(s, i + 1, depth - 1, false, false)
            }
        } else {
            sp_skip_container(s, i + 1, depth, false, false)
        }
    }
}

/// A character that may stand in a bare scalar such as a number, `true`,
/// `false` or `null`.
pub open spec fn is_scalar_char(c: char) -> bool {
    !is_ws(c) && c != ',' && c != '}' && c != ']' && c != '{' && c != '[' && c != '"' && c != ':'
}

pub open spec fn scalar_run_end(s: Seq<char>, i: int) -> int
    decreases s.len() - i,
{
    if 0 <= i < s.len() && is_scalar_char(s[i]) {
        scalar_run_end(s, i + 1)
    } else {
        i
    }
}

/// Pass over one JSON value of a field this schema does not know, without
/// interpreting it: a string, a bracketed container, or a bare scalar run.
pub open spec fn sp_skip_value(s: Seq<char>, i: int) -> Option<int> {
    if !(0 <= i < s.len()) {
        None
    } else if s[i] == '"' {
        sp_skip_string(s, i + 1)
    } else if s[i] == '{' || s[i] == '[' {
        sp_skip_container(s, i + 1, 1, false, false)
    } else if is_scalar_char(s[i]) {
        Some(scalar_run_end(s, i + 1))
    } else {
        None
    }
}

pub proof fn lemma_pow10_pos(n: int)
    ensures
        pow10(n) >= 1,
    decreases n,
{
    if n > 0 {
        lemma_pow10_pos(n - 1);
    }
}

pub proof fn lemma_pow10_mono(a: int, b: int)
    requires
        a <= b,
    ensures
        pow10(a) <= pow10(b),
    decreases b - a,
{
    if a < b {
        lemma_pow10_mono(a, b - 1);
        lemma_pow10_pos(b - 1);
    }
}

// ---------------------------------------------------------------------------
// Executable conversions between `String` and `Vec<char>`
// ---------------------------------------------------------------------------

/// Relies on `String::from_iter`: collecting an iterator of `char`s yields
/// the string of exactly those characters in order.
#[verifier::external_body]
pub(crate) fn chars_to_string(v: Vec<char>) -> (s: String)
    ensures
        s@ == v@,
{
    String::from_iter(v)
}

/// Relies on `char::from_u32`: returns `Some` exactly on Unicode scalar
/// values (below the surrogate range or between it and the maximum code
/// point), and the returned character has that code point.
#[verifier::external_body]
pub(crate) fn char_from_code(v: u32) -> (r: Option<char>)
    ensures
        r is Some <==> (v < 0xD800 || (0xE000 <= v && v <= 0x10FFFF)),
        r matches Some(c) ==> c as u32 == v,
{
    char::from_u32(v)
}

/// Copy the characters of a string slice into a vector.
pub(crate) fn str_to_chars(s: &str) -> (v: Vec<char>)
    ensures
        v@ == s@,
{
    let n = s.unicode_len();
    let mut v: Vec<char> = Vec::new();
    let mut k: usize = 0;
    while k < n
        invariant
            n == s@.len(),
            k <= n,
            v@ == s@.take(k as int),
        decreases n - k,
    {
        let c = s.get_char(k);
        v.push(c);
        proof {
            assert(s@.take(k as int).push(s@[k as int]) =~= s@.take(k + 1 as int));
        }
        k = k + 1;
    }
    proof {
        assert(s@.take(n as int) =~= s@);
    }
    v
}

// ---------------------------------------------------------------------------
// Executable encoding
// ---------------------------------------------------------------------------

/// Append the characters of a literal.
pub(crate) fn push_lit(out: &mut Vec<char>, t: &str)
    ensures
        final(out)@ == old(out)@ + t@,
{
    let n = t.unicode_len();
    let mut k: usize = 0;
    while k < n
        invariant
            n == t@.len(),
            k <= n,
            out@ == old(out)@ + t@.take(k as int),
        decreases n - k,
    {
        let c = t.get_char(k);
        out.push(c);
        proof {
            assert((old(out)@ + t@.take(k as int)).push(t@[k as int]) =~= old(out)@ + t@.take(
                k + 1 as int,
            ));
        }
        k = k + 1;
    }
    proof {
        assert(t@.take(n as int) =~= t@);
    }
}

/// Lower-case hexadecimal digit of a value below sixteen.
fn hex_digit_exec(n: u32) -> (c: char)
    requires
        n < 16,
    ensures
        c == hex_digit(n as int),
{
    match n {
        0 => '0', 1 => '1', 2 => '2', 3 => '3', 4 => '4', 5 => '5', 6 => '6', 7 => '7',
        8 => '8', 9 => '9', 10 => 'a', 11 => 'b', 12 => 'c', 13 => 'd', 14 => 'e', _ => 'f',
    }
}

/// Decimal digit of a value below ten.
fn dec_digit_exec(n: u16) -> (c: char)
    requires
        n < 10,
    ensures
        c == dec_digit(n as int),
{
    match n {
        0 => '0', 1 => '1', 2 => '2', 3 => '3', 4 => '4', 5 => '5', 6 => '6', 7 => '7',
        8 => '8', _ => '9',
    }
}

/// Append the escaped form of one character.
fn push_esc_char(out: &mut Vec<char>, c: char)
    ensures
        final(out)@ == old(out)@ + esc_char(c),
{
    if c == '"' {
        out.push('\\');
        out.push('"');
        proof {
            assert(out@ =~= old(out)@ + esc_char(c));
        }
    } else if c == '\\' {
        out.push('\\');
        out.push('\\');
        proof {
            assert(out@ =~= old(out)@ + esc_char(c));
        }
    } else if c == '\u{8}' {
        out.push('\\');
        out.push('b');
        proof {
            assert(out@ =~= old(out)@ + esc_char(c));
        }
    } else if c == '\u{c}' {
        out.push('\\');
        out.push('f');
        proof {
            assert(out@ =~= old(out)@ + esc_char(c));
        }
    } else if c == '\n' {
        out.push('\\');
        out.push('n');
        proof {
            assert(out@ =~= old(out)@ + esc_char(c));
        }
    } else if c == '\r' {
        out.push('\\');
        out.push('r');
        proof {
            assert(out@ =~= old(out)@ + esc_char(c));
        }
    } else if c == '\t' {
        out.push('\\');
        out.push('t');
        proof {
            assert(out@ =~= old(out)@ + esc_char(c));
        }
    } else {
        let v = c as u32;
        if v < 32 {
            out.push('\\');
            out.push('u');
            out.push('0');
            out.push('0');
            out.push(hex_digit_exec(v / 16));
            out.push(hex_digit_exec(v % 16));
            proof {
                assert(out@ =~= old(out)@ + esc_char(c));
            }
        } else {
            out.push(c);
            proof {
                assert(out@ =~= old(out)@ + esc_char(c));
            }
        }
    }
}

/// Append a complete JSON string literal for `v`.
pub(crate) fn push_string(out: &mut Vec<char>, v: &str)
    ensures
        final(out)@ == old(out)@ + enc_string(v@),
{
    out.push('"');
    let ghost mid = out@;
    let n = v.unicode_len();
    let mut k: usize = 0;
    while k < n
        invariant
            n == v@.len(),
            k <= n,
            out@ == mid + enc_str(v@.take(k as int)),
            mid == old(out)@ + seq!['"'],
        decreases n - k,
    {
        let c = v.get_char(k);
        push_esc_char(out, c);
        proof {
            let a = v@.take(k as int);
            let b = seq![v@[k as int]];
            lemma_enc_str_app(a, b);
            assert(b.drop_first() =~= Seq::<char>::empty());
            assert(enc_str(b) == esc_char(v@[k as int]) + enc_str(Seq::<char>::empty()));
            assert(esc_char(v@[k as int]) + Seq::<char>::empty() =~= esc_char(v@[k as int]));
            assert(a + b =~= v@.take(k + 1 as int));
            assert(mid + enc_str(a) + esc_char(v@[k as int]) =~= mid + enc_str(
                v@.take(k + 1 as int),
            ));
        }
        k = k + 1;
    }
    out.push('"');
    proof {
        assert(v@.take(n as int) =~= v@);
        assert(old(out)@ + seq!['"'] + enc_str(v@) + seq!['"'] =~= old(out)@ + enc_string(v@));
    }
}

/// Append the canonical decimal encoding of a 16-bit number.
pub(crate) fn push_u16(out: &mut Vec<char>, n: u16)
    ensures
        final(out)@ == old(out)@ + enc_u16(n as int),
    decreases n,
{
    if n < 10 {
        out.push(dec_digit_exec(n));
        proof {
            assert(out@ =~= old(out)@ + enc_u16(n as int));
        }
    } else {
        push_u16(out, n / 10);
        out.push(dec_digit_exec(n % 10));
        proof {
            assert(out@ =~= old(out)@ + enc_u16(n as int));
        }
    }
}

// ---------------------------------------------------------------------------
// Executable parsing
// ---------------------------------------------------------------------------

fn is_digit_exec(c: char) -> (b: bool)
    ensures
        b == is_digit(c),
{
    (c as u32) >= 48 && (c as u32) <= 57
}

fn is_hex_exec(c: char) -> (b: bool)
    ensures
        b == is_hex(c),
{
    let v = c as u32;
    (48 <= v && v <= 57) || (97 <= v && v <= 102) || (65 <= v && v <= 70)
}

fn hex_val_exec(c: char) -> (n: u32)
    requires
        is_hex(c),
    ensures
        n as int == hex_val(c),
        n < 16,
{
    let v = c as u32;
    if v <= 57 {
        v - 48
    } else if v >= 97 {
        v - 87
    } else {
        v - 55
    }
}

fn unescape_exec(e: char) -> (r: Option<char>)
    ensures
        r == unescape_code(e),
{
    if e == '"' { Some('"') } else if e == '\\' { Some('\\') } else if e == '/' { Some('/') }
    else if e == 'b' { Some('\u{8}') } else if e == 'f' { Some('\u{c}') }
    else if e == 'n' { Some('\n') } else if e == 'r' { Some('\r') }
    else if e == 't' { Some('\t') } else { None }
}

/// Parse a string body, as `sp_str_body` describes it.
pub(crate) fn p_str_body(s: &Vec<char>, i: usize) -> (r: Option<(Vec<char>, usize)>)
    requires
        i <= s@.len(),
    ensures
        match r {
            Some(p) => sp_str_body(s@, i as int) == Some((p.0@, p.1 as int)) && i < p.1
                <= s@.len(),
            None => sp_str_body(s@, i as int) is None,
        },
{
    let mut out: Vec<char> = Vec::new();
    let mut j = i;
    proof {
        if sp_str_body(s@, i as int) is Some {
            let p = sp_str_body(s@, i as int)->0;
            assert(Seq::<char>::empty() + p.0 =~= p.0);
        }
    }
    loop
        invariant
            i <= j <= s@.len(),
            (match sp_str_body(s@, j as int) {
                Some(p) => sp_str_body(s@, i as int) == Some((out@ + p.0, p.1)),
                None => sp_str_body(s@, i as int) is None,
            }),
        decreases s@.len() - j,
    {
        if j >= s.len() {
            return None;
        }
        let c = s[j];
        if c == '"' {
            proof {
                assert(sp_str_body(s@, j as int) == Some((Seq::<char>::empty(), j + 1 as int)));
                assert(out@ + Seq::<char>::empty() =~= out@);
            }
            return Some((out, j + 1));
        } else if c == '\\' {
            if j + 1 >= s.len() {
                return None;
            }
            let e = s[j + 1];
            if e == 'u' {
                if s.len() - j < 6 {
                    return None;
                }
                let okz = s[j + 2] == '0' && s[j + 3] == '0';
                let h1 = s[j + 4];
                let h2 = s[j + 5];
                if !okz || !is_hex_exec(h1) || !is_hex_exec(h2) {
                    return None;
                }
                let v = 16 * hex_val_exec(h1) + hex_val_exec(h2);
                let copt = char_from_code(v);
                let c2 = copt.unwrap();
                proof {
                    char_u32_cast(c2, v);
                    assert((((16 * hex_val(s@[j + 4]) + hex_val(s@[j + 5])) as u32) as char)
                        == c2);
                    if sp_str_body(s@, j + 6 as int) is Some {
                        let p = sp_str_body(s@, j + 6 as int)->0;
                        assert(out@ + (seq![c2] + p.0) =~= (out@ + seq![c2]) + p.0);
                    }
                }
                out.push(c2);
                j = j + 6;
            } else {
                let dec = unescape_exec(e);
                if dec.is_none() {
                    return None;
                }
                let c2 = dec.unwrap();
                proof {
                    if sp_str_body(s@, j + 2 as int) is Some {
                        let p = sp_str_body(s@, j + 2 as int)->0;
                        assert(out@ + (seq![c2] + p.0) =~= (out@ + seq![c2]) + p.0);
                    }
                }
                out.push(c2);
                j = j + 2;
            }
        } else if (c as u32) < 32 {
            return None;
        } else {
            proof {
                if sp_str_body(s@, j + 1 as int) is Some {
                    let p = sp_str_body(s@, j + 1 as int)->0;
                    assert(out@ + (seq![c] + p.0) =~= (out@ + seq![c]) + p.0);
                }
            }
            out.push(c);
            j = j + 1;
        }
    }
}

/// Parse a complete string literal, as `sp_string` describes it.
pub(crate) fn p_string(s: &Vec<char>, i: usize) -> (r: Option<(String, usize)>)
    requires
        i <= s@.len(),
    ensures
        match r {
            Some(p) => sp_string(s@, i as int) == Some((p.0@, p.1 as int)) && i < p.1 <= s@.len(),
            None => sp_string(s@, i as int) is None,
        },
{
    if i >= s.len() || s[i] != '"' {
        return None;
    }
    match p_str_body(s, i + 1) {
        Some((v, j)) => Some((chars_to_string(v), j)),
        None => None,
    }
}

/// Parse an unsigned 16-bit decimal number, as `sp_u16` describes it.
pub(crate) fn p_u16(s: &Vec<char>, i: usize) -> (r: Option<(u16, usize)>)
    requires
        i <= s@.len(),
    ensures
        match r {
            Some(p) => sp_u16(s@, i as int) == Some((p.0, p.1 as int)) && i < p.1 <= s@.len(),
            None => sp_u16(s@, i as int) is None,
        },
{
    if i >= s.len() {
        return None;
    }
    let c0 = s[i];
    if !is_digit_exec(c0) {
        return None;
    }
    let j = run_digits(s, i);
    proof {
        lemma_digit_run_end_bounds(s@, i + 1 as int);
    }
    let ghost d = s@.subrange(i as int, j as int);
    proof {
        assert(forall|k: int| 0 <= k < d.len() ==> is_digit(#[trigger] d[k]));
    }
    if c0 == '0' && j > i + 1 {
        return None;
    }
    if j - i > 5 {
        proof {
            assert(d[0] == s@[i as int]);
            lemma_str_to_int_lower(d);
            lemma_pow10_mono(5, d.len() - 1);
            assert(pow10(0) == 1);
            assert(pow10(1) == 10);
            assert(pow10(2) == 100);
            assert(pow10(3) == 1000);
            assert(pow10(4) == 10000);
            assert(pow10(5) == 100000);
        }
        return None;
    }
    let mut acc: u32 = 0;
    let mut k = i;
    proof {
        assert(s@.subrange(i as int, i as int) =~= Seq::<char>::empty());
    }
    while k < j
        invariant
            i <= k <= j <= s@.len(),
            j - i <= 5,
            forall|k2: int| i <= k2 < j ==> is_digit(s@[k2]),
            acc as int == str_to_int(s@.subrange(i as int, k as int)),
        decreases j - k,
    {
        let c = s[k];
        let dv = (c as u32) - 48;
        proof {
            let sub = s@.subrange(i as int, k as int);
            let sub2 = s@.subrange(i as int, k + 1 as int);
            assert(sub2.drop_last() =~= sub);
            assert(sub2.last() == s@[k as int]);
            assert(forall|k2: int| 0 <= k2 < sub.len() ==> is_digit(#[trigger] sub[k2]));
            lemma_str_to_int_upper(sub);
            lemma_pow10_mono(sub.len() as int, 4);
            assert(pow10(0) == 1);
            assert(pow10(1) == 10);
            assert(pow10(2) == 100);
            assert(pow10(3) == 1000);
            assert(pow10(4) == 10000);
        }
        acc = acc * 10 + dv;
        k = k + 1;
    }
    if acc > 65535 {
        return None;
    }
    Some((acc as u16, j))
}

/// Advance over a run of decimal digits.
fn run_digits(s: &Vec<char>, i: usize) -> (j: usize)
    requires
        i <= s@.len(),
    ensures
        i <= j <= s@.len(),
        j as int == digit_run_end(s@, i as int),
        forall|k: int| i <= k < j ==> is_digit(s@[k]),
{
    let mut j = i;
    loop
        invariant
            i <= j <= s@.len(),
            digit_run_end(s@, i as int) == digit_run_end(s@, j as int),
            forall|k: int| i <= k < j ==> is_digit(s@[k]),
        decreases s@.len() - j,
    {
        if j < s.len() {
            if is_digit_exec(s[j]) {
                j = j + 1;
                continue;
            }
        }
        proof {
            assert(digit_run_end(s@, j as int) == j);
        }
        return j;
    }
}

fn is_scalar_char_exec(c: char) -> (b: bool)
    ensures
        b == is_scalar_char(c),
{
    !(c == ' ' || c == '\t' || c == '\n' || c == '\r') && c != ',' && c != '}' && c != ']'
        && c != '{' && c != '[' && c != '"' && c != ':'
}

/// Pass over one JSON value, as `sp_skip_value` describes it.
pub(crate) fn p_skip_value(s: &Vec<char>, i: usize) -> (r: Option<usize>)
    requires
        i <= s@.len(),
    ensures
        match r {
            Some(j) => sp_skip_value(s@, i as int) == Some(j as int) && i < j <= s@.len(),
            None => sp_skip_value(s@, i as int) is None,
        },
{
    let n = s.len();
    if i >= n {
        return None;
    }
    let c = s[i];
    if c == '"' {
        let mut j = i + 1;
        loop
            invariant
                i + 1 <= j <= s@.len(),
                s@.len() == n,
                s@[i as int] == '"',
                i < s@.len(),
                sp_skip_string(s@, i + 1 as int) == sp_skip_string(s@, j as int),
            decreases s@.len() - j,
        {
            if j >= n {
                return None;
            }
            let c2 = s[j];
            if c2 == '"' {
                proof {
                    assert(sp_skip_value(s@, i as int) == sp_skip_string(s@, i + 1 as int));
                }
                return Some(j + 1);
            }
            if c2 == '\\' {
                if n - j < 2 {
                    return None;
                }
                j = j + 2;
            } else {
                j = j + 1;
            }
        }
    } else if c == '{' || c == '[' {
        let mut j = i + 1;
        let mut depth: u128 = 1;
        let mut in_str = false;
        let mut esc = false;
        loop
            invariant
                i + 1 <= j <= s@.len(),
                s@.len() == n,
                i < s@.len(),
                s@[i as int] == '{' || s@[i as int] == '[',
                1 <= depth,
                depth as int <= j - i,
                sp_skip_container(s@, i + 1 as int, 1, false, false) == sp_skip_container(
                    s@,
                    j as int,
                    depth as int,
                    in_str,
                    esc,
                ),
            decreases s@.len() - j,
        {
            if j >= n {
                return None;
            }
            let c2 = s[j];
            if esc {
                esc = false;
                j = j + 1;
            } else if in_str {
                if c2 == '\\' {
                    esc = true;
                    j = j + 1;
                } else if c2 == '"' {
                    in_str = false;
                    j = j + 1;
                } else {
                    j = j + 1;
                }
            } else if c2 == '"' {
                in_str = true;
                j = j + 1;
            } else if c2 == '{' || c2 == '[' {
                depth = depth + 1;
                j = j + 1;
            } else if c2 == '}' || c2 == ']' {
                if depth == 1 {
                    proof {
                        assert(sp_skip_value(s@, i as int) == sp_skip_container(
                            s@,
                            i + 1 as int,
                            1,
                            false,
                            false,
                        ));
                    }
                    return Some(j + 1);
                }
                depth = depth - 1;
                j = j + 1;
            } else {
                j = j + 1;
            }
        }
    } else if is_scalar_char_exec(c) {
        let mut j = i + 1;
        loop
            invariant
                i + 1 <= j <= s@.len(),
                s@.len() == n,
                i < s@.len(),
                s@[i as int] != '"' && s@[i as int] != '{' && s@[i as int] != '[',
                is_scalar_char(s@[i as int]),
                scalar_run_end(s@, i + 1 as int) == scalar_run_end(s@, j as int),
            decreases s@.len() - j,
        {
            if j < n {
                if is_scalar_char_exec(s[j]) {
                    j = j + 1;
                    continue;
                }
            }
            proof {
                assert(scalar_run_end(s@, j as int) == j);
                assert(sp_skip_value(s@, i as int) == Some(scalar_run_end(s@, i + 1 as int)));
            }
            return Some(j);
        }
    } else {
        return None;
    }
}

} // verus!
