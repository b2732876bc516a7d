//! Text helpers shared by the tools: ASCII formatting of numbers and bytes,
//! and string comparisons used by the command-line parsers.

use vstd::prelude::*;

verus! {

/// `String::push` appends one `char` to the end of the string.
#[verifier::external_body]
pub(crate) fn push_char(s: &mut String, c: char)
    ensures
        final(s)@ == old(s)@.push(c),
{
    s.push(c);
}

/// The upper-case hexadecimal digit of `n` (`n < 16`).
pub open spec fn hex_digit_spec(n: int) -> char {
    if n < 10 {
        (48 + n) as char
    } else {
        (55 + n) as char
    }
}

/// The two upper-case hexadecimal digits of a byte.
pub open spec fn hex_byte_spec(b: u8) -> Seq<char> {
    seq![hex_digit_spec(b as int / 16), hex_digit_spec(b as int % 16)]
}

fn hex_digit(n: u8) -> (c: char)
    requires
        n < 16,
    ensures
        c == hex_digit_spec(n as int),
{
    if n < 10 {
        (48 + n) as char
    } else {
        (55 + n) as char
    }
}

/// Appends the two upper-case hex digits of `b` to `s`.
pub fn push_hex_byte(s: &mut String, b: u8)
    ensures
        final(s)@ == old(s)@ + hex_byte_spec(b),
{
    push_char(s, hex_digit(b / 16));
    push_char(s, hex_digit(b % 16));
}

} // verus!

verus! {

/// The decimal digit character for `d < 10`.
pub open spec fn dec_digit_spec(d: int) -> char {
    (48 + d) as char
}

/// The decimal representation of `n`, without leading zeros.
pub open spec fn decimal_spec(n: nat) -> Seq<char>
    decreases n,
{
    if n < 10 {
        seq![dec_digit_spec(n as int)]
    } else {
        decimal_spec(n / 10).push(dec_digit_spec((n % 10) as int))
    }
}

/// Appends the decimal representation of `n` to `s`.
pub fn push_decimal(s: &mut String, n: u64)
    ensures
        final(s)@ == old(s)@ + decimal_spec(n as nat),
    decreases n,
{
    if n >= 10 {
        push_decimal(s, n / 10);
    }
    let d = (n % 10) as u8;
    push_char(s, (48 + d) as char);
    proof {
        if n >= 10 {
            assert(old(s)@ + decimal_spec(n as nat) =~= old(s)@ + decimal_spec((n / 10) as nat) + seq![
                dec_digit_spec((n % 10) as int),
            ]);
        } else {
            assert(old(s)@ + decimal_spec(n as nat) =~= old(s)@.push(dec_digit_spec(n as int)));
        }
    }
}

/// A new string holding the characters of `lit`.
pub fn string_from(lit: &str) -> (s: String)
    ensures
        s@ == lit@,
{
    lit.to_owned()
}

} // verus!

verus! {

/// Characters with the Unicode `White_Space` property (what `str::trim`
/// removes).
pub open spec fn is_whitespace_spec(c: char) -> bool {
    let u = c as u32;
    (0x09 <= u <= 0x0D) || u == 0x20 || u == 0x85 || u == 0xA0 || u == 0x1680 || (0x2000 <= u
        <= 0x200A) || u == 0x2028 || u == 0x2029 || u == 0x202F || u == 0x205F || u == 0x3000
}

fn is_whitespace(c: char) -> (b: bool)
    ensures
        b == is_whitespace_spec(c),
{
    let u = c as u32;
    (0x09 <= u && u <= 0x0D) || u == 0x20 || u == 0x85 || u == 0xA0 || u == 0x1680 || (0x2000 <= u
        && u <= 0x200A) || u == 0x2028 || u == 0x2029 || u == 0x202F || u == 0x205F || u == 0x3000
}

/// Index of the first non-whitespace character of `s` at or after `i`.
pub open spec fn skip_ws_from(s: Seq<char>, i: int) -> int
    decreases s.len() - i,
{
    if 0 <= i < s.len() && is_whitespace_spec(s[i]) {
        skip_ws_from(s, i + 1)
    } else {
        i
    }
}

/// The end of `s[lo..j]` once trailing whitespace is removed.
pub open spec fn trim_ws_end_from(s: Seq<char>, lo: int, j: int) -> int
    decreases j - lo,
{
    if lo < j && 0 < j <= s.len() && is_whitespace_spec(s[j - 1]) {
        trim_ws_end_from(s, lo, j - 1)
    } else {
        j
    }
}

/// `s` without leading and trailing whitespace.
pub open spec fn trim_spec(s: Seq<char>) -> Seq<char> {
    let lo = skip_ws_from(s, 0);
    s.subrange(lo, trim_ws_end_from(s, lo, s.len() as int))
}

/// The characters of `s` as a vector.
pub fn chars_of(s: &str) -> (v: Vec<char>)
    ensures
        v@ == s@,
{
    let n = s.unicode_len();
    let mut v: Vec<char> = Vec::new();
    let mut i: usize = 0;
    while i < n
        invariant
            i <= n,
            n == s@.len(),
            v@ == s@.take(i as int),
        decreases n - i,
    {
        v.push(s.get_char(i));
        i = i + 1;
        proof {
            assert(v@ =~= s@.take(i as int));
        }
    }
    proof {
        assert(s@.take(i as int) =~= s@);
    }
    v
}

/// The bounds `(lo, hi)` of `s` without surrounding whitespace.
fn trim_bounds(s: &Vec<char>) -> (r: (usize, usize))
    ensures
        r.0 == skip_ws_from(s@, 0),
        r.1 == trim_ws_end_from(s@, r.0 as int, s@.len() as int),
        r.0 <= r.1 <= s@.len(),
{
    let mut lo: usize = 0;
    while lo < s.len() && is_whitespace(s[lo])
        invariant
            lo <= s@.len(),
            skip_ws_from(s@, 0) == skip_ws_from(s@, lo as int),
        decreases s@.len() - lo,
    {
        lo = lo + 1;
    }
    let mut hi: usize = s.len();
    while hi > lo && is_whitespace(s[hi - 1])
        invariant
            lo <= hi <= s@.len(),
            skip_ws_from(s@, 0) == lo,
            trim_ws_end_from(s@, lo as int, s@.len() as int) == trim_ws_end_from(
                s@,
                lo as int,
                hi as int,
            ),
        decreases hi - lo,
    {
        hi = hi - 1;
    }
    (lo, hi)
}

/// The characters of `s[lo..hi]` as a string.
fn string_of_range(s: &Vec<char>, lo: usize, hi: usize) -> (out: String)
    requires
        lo <= hi <= s@.len(),
    ensures
        out@ == s@.subrange(lo as int, hi as int),
{
    let mut out = String::new();
    let mut i = lo;
    while i < hi
        invariant
            lo <= i <= hi <= s@.len(),
            out@ == s@.subrange(lo as int, i as int),
        decreases hi - i,
    {
        push_char(&mut out, s[i]);
        i = i + 1;
        proof {
            assert(out@ =~= s@.subrange(lo as int, i as int));
        }
    }
    out
}

/// The characters of `v` as a string.
pub fn string_of_chars(v: &Vec<char>) -> (out: String)
    ensures
        out@ == v@,
{
    let out = string_of_range(v, 0, v.len());
    assert(v@.subrange(0, v@.len() as int) =~= v@);
    out
}

/// `text` without leading and trailing whitespace (`str::trim`).
pub fn trimmed(text: &str) -> (out: String)
    ensures
        out@ == trim_spec(text@),
{
    let chars = chars_of(text);
    let (lo, hi) = trim_bounds(&chars);
    string_of_range(&chars, lo, hi)
}

/// Character-wise equality of two strings.
pub fn str_eq(a: &str, b: &str) -> (eq: bool)
    ensures
        eq == (a@ == b@),
{
    let x = chars_of(a);
    let y = chars_of(b);
    if x.len() != y.len() {
        return false;
    }
    let mut i: usize = 0;
    while i < x.len()
        invariant
            i <= x@.len(),
            x@ == a@,
            y@ == b@,
            x@.len() == y@.len(),
            forall|j: int| 0 <= j < i ==> x@[j] == y@[j],
        decreases x@.len() - i,
    {
        if x[i] != y[i] {
            return false;
        }
        i = i + 1;
    }
    proof {
        assert(x@ =~= y@);
    }
    true
}

/// The ASCII lower-case form of a character.
pub open spec fn ascii_lower_spec(c: char) -> char {
    if 'A' <= c <= 'Z' {
        ((c as u32) + 32) as char
    } else {
        c
    }
}

/// The ASCII upper-case form of a character.
pub open spec fn ascii_upper_spec(c: char) -> char {
    if 'a' <= c <= 'z' {
        ((c as u32) - 32) as char
    } else {
        c
    }
}

/// `text` with ASCII letters lowered (`str::to_ascii_lowercase`).
pub fn ascii_lowercase(text: &str) -> (out: String)
    ensures
        out@ == text@.map_values(|c: char| ascii_lower_spec(c)),
{
    let chars = chars_of(text);
    let mut out = String::new();
    let mut i: usize = 0;
    while i < chars.len()
        invariant
            i <= chars@.len(),
            chars@ == text@,
            out@ == text@.take(i as int).map_values(|c: char| ascii_lower_spec(c)),
        decreases chars@.len() - i,
    {
        let c = chars[i];
        let l = if 'A' <= c && c <= 'Z' {
            ((c as u32) + 32) as u8 as char
        } else {
            c
        };
        push_char(&mut out, l);
        i = i + 1;
        proof {
            assert(out@ =~= text@.take(i as int).map_values(|c: char| ascii_lower_spec(c)));
        }
    }
    proof {
        assert(text@.take(i as int) =~= text@);
    }
    out
}

} // verus!

verus! {

/// Why text is not an unsigned integer, as `str::parse` and
/// `from_str_radix` report it.
#[derive(Debug, Clone, Copy, PartialEq, Eq, Structural)]
pub enum IntErrorKind {
    Empty,
    InvalidDigit,
    PosOverflow,
}

/// The value of `c` as a digit (letters count from 10, either case), or
/// 99 for anything else.
pub open spec fn digit_value(c: char) -> int {
    let u = c as u32;
    if '0' <= c <= '9' {
        u - 48
    } else if 'a' <= c <= 'z' {
        u - 87
    } else if 'A' <= c <= 'Z' {
        u - 55
    } else {
        99
    }
}

/// `c` is a digit in base `radix`.
pub open spec fn is_digit(c: char, radix: u32) -> bool {
    digit_value(c) < radix
}

/// The value of a sequence of base-`radix` digits.
pub open spec fn digits_value(s: Seq<char>, radix: u32) -> nat
    decreases s.len(),
{
    if s.len() == 0 {
        0
    } else {
        digits_value(s.drop_last(), radix) * (radix as nat) + digit_value(s.last()) as nat
    }
}

/// Index of the first character of `s` at or after `i` that is not a
/// base-`radix` digit, or `s.len()`.
pub open spec fn non_digit_from(s: Seq<char>, radix: u32, i: int) -> int
    decreases s.len() - i,
{
    if i < 0 || i >= s.len() {
        s.len() as int
    } else if !is_digit(s[i], radix) {
        i
    } else {
        non_digit_from(s, radix, i + 1)
    }
}

/// The result of parsing `s` as an unsigned base-`radix` integer of at
/// most `max`: an optional `+` sign, then digits; a lone sign is an
/// invalid digit; scanning from the left, the first digit that makes the
/// value exceed `max` gives an overflow and the first non-digit an invalid
/// digit, whichever comes first.
pub open spec fn parse_uint_spec(s: Seq<char>, radix: u32, max: nat) -> Result<nat, IntErrorKind> {
    if s.len() == 0 {
        Err(IntErrorKind::Empty)
    } else if s.len() == 1 && (s[0] == '+' || s[0] == '-') {
        Err(IntErrorKind::InvalidDigit)
    } else {
        let d = if s[0] == '+' {
            s.drop_first()
        } else {
            s
        };
        let k = non_digit_from(d, radix, 0);
        let v = digits_value(d.take(k), radix);
        if v > max {
            Err(IntErrorKind::PosOverflow)
        } else if k < d.len() {
            Err(IntErrorKind::InvalidDigit)
        } else {
            Ok(v)
        }
    }
}

/// Longer digit prefixes never have smaller values.
proof fn lemma_digits_value_prefix(s: Seq<char>, radix: u32, i: int, j: int)
    requires
        0 <= i <= j <= s.len(),
        radix >= 1,
        forall|t: int| 0 <= t < j ==> #[trigger] is_digit(s[t], radix),
    ensures
        digits_value(s.take(i), radix) <= digits_value(s.take(j), radix),
    decreases j - i,
{
    if i < j {
        lemma_digits_value_prefix(s, radix, i, j - 1);
        let p = s.take(j);
        assert(p.drop_last() =~= s.take(j - 1));
        let a = digits_value(s.take(j - 1), radix);
        assert(a * (radix as nat) >= a) by (nonlinear_arith)
            requires
                radix >= 1,
        ;
    }
}

fn digit_of(c: char) -> (d: u32)
    ensures
        d == digit_value(c),
{
    let u = c as u32;
    if '0' <= c && c <= '9' {
        u - 48
    } else if 'a' <= c && c <= 'z' {
        u - 87
    } else if 'A' <= c && c <= 'Z' {
        u - 55
    } else {
        99
    }
}

/// Parses `s` as an unsigned base-`radix` integer of at most `max`, as
/// `from_str_radix` does.
pub fn parse_uint(s: &str, radix: u32, max: u64) -> (r: Result<u64, IntErrorKind>)
    requires
        2 <= radix <= 36,
    ensures
        r matches Ok(v) ==> parse_uint_spec(s@, radix, max as nat) == Ok::<nat, IntErrorKind>(
            v as nat,
        ),
        r matches Err(k) ==> parse_uint_spec(s@, radix, max as nat) == Err::<nat, IntErrorKind>(
            k,
        ),
{
    let chars = chars_of(s);
    if chars.len() == 0 {
        return Err(IntErrorKind::Empty);
    }
    if chars.len() == 1 && (chars[0] == '+' || chars[0] == '-') {
        return Err(IntErrorKind::InvalidDigit);
    }
    let start: usize = if chars[0] == '+' {
        1
    } else {
        0
    };
    let ghost d = if s@[0] == '+' {
        s@.drop_first()
    } else {
        s@
    };
    proof {
        assert(d =~= s@.skip(start as int));
    }
    let mut acc: u64 = 0;
    let mut i: usize = start;
    while i < chars.len()
        invariant
            chars@ == s@,
            start <= i <= chars@.len(),
            d == s@.skip(start as int),
            s@.len() > 0,
            !(s@.len() == 1 && (s@[0] == '+' || s@[0] == '-')),
            d == (if s@[0] == '+' {
                s@.drop_first()
            } else {
                s@
            }),
            2 <= radix <= 36,
            acc <= max,
            acc == digits_value(d.take(i - start), radix),
            forall|t: int| 0 <= t < i - start ==> #[trigger] is_digit(d[t], radix),
            non_digit_from(d, radix, 0) == non_digit_from(d, radix, i - start),
        decreases chars@.len() - i,
    {
        let dv = digit_of(chars[i]);
        assert(d[i - start] == chars@[i as int]);
        if dv >= radix {
            assert(non_digit_from(d, radix, i - start) == i - start);
            return Err(IntErrorKind::InvalidDigit);
        }
        assert((acc as u128) * (radix as u128) <= 0xFFFF_FFFF_FFFF_FFFFu128 * 36) by (nonlinear_arith)
            requires
                acc <= 0xFFFF_FFFF_FFFF_FFFFu64,
                radix <= 36,
        ;
        let next: u128 = (acc as u128) * (radix as u128) + (dv as u128);
        proof {
            let t = d.take(i - start + 1);
            assert(t.drop_last() =~= d.take(i - start));
            assert(next == digits_value(t, radix));
        }
        if next > max as u128 {
            proof {
                let k = non_digit_from(d, radix, 0);
                lemma_non_digit_from_range(d, radix, i - start + 1);
                assert forall|t: int| 0 <= t < k implies #[trigger] is_digit(d[t], radix) by {
                    if t >= i - start {
                        lemma_non_digit_from(d, radix, i - start, t);
                    }
                }
                lemma_digits_value_prefix(d, radix, i - start + 1, k);
            }
            return Err(IntErrorKind::PosOverflow);
        }
        acc = next as u64;
        i = i + 1;
    }
    proof {
        assert(d.take(i - start) =~= d);
    }
    Ok(acc)
}

proof fn lemma_non_digit_from(s: Seq<char>, radix: u32, i: int, t: int)
    requires
        0 <= i <= t < non_digit_from(s, radix, i),
        i <= s.len(),
        forall|u: int| 0 <= u < i ==> #[trigger] is_digit(s[u], radix),
    ensures
        is_digit(s[t], radix),
    decreases t - i,
{
    if i < t {
        lemma_non_digit_from(s, radix, i + 1, t);
    }
}

proof fn lemma_non_digit_from_range(s: Seq<char>, radix: u32, i: int)
    requires
        0 <= i <= s.len(),
    ensures
        i <= non_digit_from(s, radix, i) <= s.len(),
    decreases s.len() - i,
{
    if i < s.len() && is_digit(s[i], radix) {
        lemma_non_digit_from_range(s, radix, i + 1);
    }
}

} // verus!

verus! {

/// `s` starts with `0x` or `0X`.
pub open spec fn has_hex_prefix(s: Seq<char>) -> bool {
    s.len() >= 2 && s[0] == '0' && (s[1] == 'x' || s[1] == 'X')
}

/// A number written in hex after `0x` or `0X`, otherwise in decimal.
pub open spec fn parse_prefixed_spec(s: Seq<char>, max: nat) -> Result<nat, IntErrorKind> {
    if has_hex_prefix(s) {
        parse_uint_spec(s.skip(2), 16, max)
    } else {
        parse_uint_spec(s, 10, max)
    }
}

/// Parses hex after a `0x`/`0X` prefix, decimal otherwise.
pub fn parse_prefixed(s: &str, max: u64) -> (r: Result<u64, IntErrorKind>)
    ensures
        r matches Ok(v) ==> parse_prefixed_spec(s@, max as nat) == Ok::<nat, IntErrorKind>(
            v as nat,
        ),
        r matches Err(k) ==> parse_prefixed_spec(s@, max as nat) == Err::<nat, IntErrorKind>(k),
{
    let n = s.unicode_len();
    if n >= 2 && s.get_char(0) == '0' && (s.get_char(1) == 'x' || s.get_char(1) == 'X') {
        let rest = s.substring_char(2, n);
        assert(rest@ =~= s@.skip(2));
        parse_uint(rest, 16, max)
    } else {
        parse_uint(s, 10, max)
    }
}

} // verus!

verus! {

/// The message `ParseIntError` shows for each kind.
pub open spec fn int_error_text(k: IntErrorKind) -> Seq<char> {
    match k {
        IntErrorKind::Empty => "cannot parse integer from empty string"@,
        IntErrorKind::InvalidDigit => "invalid digit found in string"@,
        IntErrorKind::PosOverflow => "number too large to fit in target type"@,
    }
}

/// The message of an integer parse failure.
pub fn int_error_message(k: IntErrorKind) -> (m: String)
    ensures
        m@ == int_error_text(k),
{
    match k {
        IntErrorKind::Empty => string_from("cannot parse integer from empty string"),
        IntErrorKind::InvalidDigit => string_from("invalid digit found in string"),
        IntErrorKind::PosOverflow => string_from("number too large to fit in target type"),
    }
}

/// A result whose error message is taken by its view.
pub open spec fn result_view<T>(r: Result<T, String>) -> Result<T, Seq<char>> {
    match r {
        Ok(v) => Ok(v),
        Err(e) => Err(e@),
    }
}

/// The views of a list of arguments.
pub open spec fn arg_views(args: Seq<String>) -> Seq<Seq<char>> {
    args.map_values(|a: String| a@)
}

/// `s` asks for help.
pub open spec fn is_help_word(s: Seq<char>) -> bool {
    s == "help"@ || s == "--help"@ || s == "-h"@
}

pub fn help_word(s: &str) -> (b: bool)
    ensures
        b == is_help_word(s@),
{
    str_eq(s, "help") || str_eq(s, "--help") || str_eq(s, "-h")
}

/// `prefix` followed by `s`, as a new string.
pub fn concat(prefix: &str, s: &str) -> (out: String)
    ensures
        out@ == prefix@ + s@,
{
    let mut out = string_from(prefix);
    out.append(s);
    out
}

/// `prefix` followed by the decimal digits of `n`.
pub fn concat_decimal(prefix: &str, n: u64) -> (out: String)
    ensures
        out@ == prefix@ + decimal_spec(n as nat),
{
    let mut out = string_from(prefix);
    push_decimal(&mut out, n);
    out
}

/// Space-separated upper-case hex of a byte sequence ("AA 55 0B").
pub open spec fn hex_spaced_spec(data: Seq<u8>) -> Seq<char>
    decreases data.len(),
{
    if data.len() == 0 {
        Seq::empty()
    } else if data.len() == 1 {
        hex_byte_spec(data[0])
    } else {
        hex_spaced_spec(data.drop_last()) + seq![' '] + hex_byte_spec(data.last())
    }
}

/// Formats bytes as space-separated upper-case hex pairs.
pub fn format_hex(data: &[u8]) -> (s: String)
    ensures
        s@ == hex_spaced_spec(data@),
{
    let mut s = String::new();
    let mut i: usize = 0;
    while i < data.len()
        invariant
            i <= data@.len(),
            s@ == hex_spaced_spec(data@.take(i as int)),
        decreases data@.len() - i,
    {
        if i > 0 {
            push_char(&mut s, ' ');
        }
        push_hex_byte(&mut s, data[i]);
        i = i + 1;
        proof {
            let t = data@.take(i as int);
            assert(t.drop_last() =~= data@.take(i - 1));
            if i == 1 {
                assert(s@ =~= hex_byte_spec(data@[0]));
            } else {
                assert(s@ =~= hex_spaced_spec(t.drop_last()) + seq![' '] + hex_byte_spec(t.last()));
            }
        }
    }
    proof {
        assert(data@.take(i as int) =~= data@);
    }
    s
}

} // verus!

verus! {

/// The lower-case hexadecimal digit of `n` (`n < 16`).
pub open spec fn hex_digit_lower_spec(n: int) -> char {
    if n < 10 {
        (48 + n) as char
    } else {
        (87 + n) as char
    }
}

/// The two hexadecimal digits of a byte, in upper or lower case.
pub open spec fn hex_byte_case_spec(b: u8, upper: bool) -> Seq<char> {
    if upper {
        hex_byte_spec(b)
    } else {
        seq![hex_digit_lower_spec(b as int / 16), hex_digit_lower_spec(b as int % 16)]
    }
}

fn hex_digit_case(n: u8, upper: bool) -> (c: char)
    requires
        n < 16,
    ensures
        upper ==> c == hex_digit_spec(n as int),
        !upper ==> c == hex_digit_lower_spec(n as int),
{
    if n < 10 {
        (48 + n) as char
    } else if upper {
        (55 + n) as char
    } else {
        (87 + n) as char
    }
}

/// Appends the two hex digits of `b`, in the case asked for.
pub fn push_hex_byte_case(s: &mut String, b: u8, upper: bool)
    ensures
        final(s)@ == old(s)@ + hex_byte_case_spec(b, upper),
{
    push_char(s, hex_digit_case(b / 16, upper));
    push_char(s, hex_digit_case(b % 16, upper));
}

/// The bytes of `data` in hex, separated by a comma and a space.
pub open spec fn hex_items_spec(data: Seq<u8>, upper: bool) -> Seq<char>
    decreases data.len(),
{
    if data.len() == 0 {
        Seq::empty()
    } else if data.len() == 1 {
        hex_byte_case_spec(data[0], upper)
    } else {
        hex_items_spec(data.drop_last(), upper) + seq![',', ' '] + hex_byte_case_spec(
            data.last(),
            upper,
        )
    }
}

/// A byte list as the debug form with two hex digits per byte writes it:
/// `[55, AA]`.
pub open spec fn hex_list_spec(data: Seq<u8>, upper: bool) -> Seq<char> {
    seq!['['] + hex_items_spec(data, upper) + seq![']']
}

/// Formats bytes as a bracketed, comma-separated list of hex pairs.
pub fn format_hex_list(data: &[u8], upper: bool) -> (s: String)
    ensures
        s@ == hex_list_spec(data@, upper),
{
    let mut s = String::new();
    push_char(&mut s, '[');
    let mut i: usize = 0;
    while i < data.len()
        invariant
            i <= data@.len(),
            s@ == seq!['['] + hex_items_spec(data@.take(i as int), upper),
        decreases data@.len() - i,
    {
        let ghost before = s@;
        if i > 0 {
            push_char(&mut s, ',');
            push_char(&mut s, ' ');
        }
        push_hex_byte_case(&mut s, data[i], upper);
        i = i + 1;
        proof {
            let t = data@.take(i as int);
            assert(t.drop_last() =~= data@.take(i - 1));
            if i == 1 {
                assert(s@ =~= seq!['['] + hex_byte_case_spec(data@[0], upper));
            } else {
                assert(s@ =~= seq!['['] + (hex_items_spec(t.drop_last(), upper) + seq![',', ' ']
                    + hex_byte_case_spec(t.last(), upper)));
            }
        }
    }
    push_char(&mut s, ']');
    proof {
        assert(data@.take(i as int) =~= data@);
    }
    s
}

/// The hex digits of `n` without leading zeros, in upper or lower case.
pub open spec fn hex_digits_spec(n: nat, upper: bool) -> Seq<char>
    decreases n,
{
    let d = if n < 16 {
        n as int
    } else {
        (n % 16) as int
    };
    let c = if upper {
        hex_digit_spec(d)
    } else {
        hex_digit_lower_spec(d)
    };
    if n < 16 {
        seq![c]
    } else {
        hex_digits_spec(n / 16, upper).push(c)
    }
}

/// `n` in hex, at least two digits wide (`{:02X}` or `{:02x}`).
pub open spec fn hex_pad2_spec(n: nat, upper: bool) -> Seq<char> {
    if n < 16 {
        seq!['0'] + hex_digits_spec(n, upper)
    } else {
        hex_digits_spec(n, upper)
    }
}

fn push_hex_digits(s: &mut String, n: u64, upper: bool)
    ensures
        final(s)@ == old(s)@ + hex_digits_spec(n as nat, upper),
    decreases n,
{
    if n >= 16 {
        push_hex_digits(s, n / 16, upper);
    }
    let d = (n % 16) as u8;
    push_char(s, hex_digit_case(d, upper));
    proof {
        if n >= 16 {
            assert(old(s)@ + hex_digits_spec(n as nat, upper) =~= old(s)@ + hex_digits_spec(
                (n / 16) as nat,
                upper,
            ) + seq![hex_digit_case_spec(d, upper)]);
        } else {
            assert(old(s)@ + hex_digits_spec(n as nat, upper) =~= old(s)@.push(
                hex_digit_case_spec(d, upper),
            ));
        }
    }
}

/// The hex digit of `n < 16` in the case asked for.
pub open spec fn hex_digit_case_spec(n: u8, upper: bool) -> char {
    if upper {
        hex_digit_spec(n as int)
    } else {
        hex_digit_lower_spec(n as int)
    }
}

/// Appends `n` in hex, at least two digits wide.
pub fn push_hex_pad2(s: &mut String, n: u64, upper: bool)
    ensures
        final(s)@ == old(s)@ + hex_pad2_spec(n as nat, upper),
{
    if n < 16 {
        push_char(s, '0');
    }
    push_hex_digits(s, n, upper);
    proof {
        if n < 16 {
            assert(s@ =~= old(s)@ + hex_pad2_spec(n as nat, upper));
        }
    }
}

} // verus!
