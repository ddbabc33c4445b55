use vstd::prelude::*;
use crate::text::{push_char, push_str};

pub use crate::text::char_is_whitespace;

verus! {

/// Whether `c` is in the ASCII range.
pub open spec fn is_ascii(c: char) -> bool {
    (c as u32) < 0x80
}

/// Whether `c` is an ASCII letter.
pub open spec fn is_ascii_alphabetic(c: char) -> bool {
    ('A' <= c <= 'Z') || ('a' <= c <= 'z')
}

/// Whether `c` is an ASCII decimal digit.
pub open spec fn is_ascii_digit(c: char) -> bool {
    '0' <= c <= '9'
}

/// Whether `c` is an ASCII control char: U+0000 to U+001F, or U+007F.
pub open spec fn is_ascii_control(c: char) -> bool {
    c <= '\u{1f}' || c == '\u{7f}'
}

/// Whether `c` is a printable ASCII char other than the space: `!` to `~`.
pub open spec fn is_ascii_graphic(c: char) -> bool {
    '!' <= c <= '~'
}

/// Whether `c` is ASCII punctuation: the graphic ASCII chars that are neither letters nor digits.
pub open spec fn is_ascii_punctuation(c: char) -> bool {
    ('!' <= c <= '/') || (':' <= c <= '@') || ('[' <= c <= '`') || ('{' <= c <= '~')
}

/// Whether `c` is ASCII whitespace in the WhatWG sense: space, tab, line feed, form feed
/// or carriage return (not the vertical tab).
pub open spec fn is_ascii_whitespace(c: char) -> bool {
    c == ' ' || c == '\t' || c == '\n' || c == '\u{c}' || c == '\r'
}

/// Whether `c` is in the Unicode general category `Cc` (control).
pub open spec fn is_control(c: char) -> bool {
    c <= '\u{1f}' || ('\u{7f}' <= c <= '\u{9f}')
}

/// The value of `c` as a digit in the given radix (2 to 36): `0`-`9`, then `a`-`z` or
/// `A`-`Z` for ten and above; `None` for any other char or a value not below the radix.
pub open spec fn digit_value(c: char, radix: u32) -> Option<u32> {
    let v: int = if '0' <= c <= '9' {
        c as int - '0' as int
    } else if 'a' <= c <= 'z' {
        c as int - 'a' as int + 10
    } else if 'A' <= c <= 'Z' {
        c as int - 'A' as int + 10
    } else {
        36
    };
    if v < radix {
        Some(v as u32)
    } else {
        None
    }
}

/// The char that stands for digit `d` (below 36): `0`-`9`, then lowercase `a`-`z`.
pub open spec fn digit_of(d: nat) -> char {
    if d < 10 {
        ((d + '0' as nat) as u32) as char
    } else {
        ((d - 10 + 'a' as nat) as u32) as char
    }
}

/// The number of bytes the UTF-8 encoding of `c` takes.
pub open spec fn utf8_width(c: char) -> nat {
    if (c as u32) < 0x80 {
        1
    } else if (c as u32) < 0x800 {
        2
    } else if (c as u32) < 0x10000 {
        3
    } else {
        4
    }
}

/// The lowercase hexadecimal digits of `n`, without leading zeros.
pub open spec fn hex(n: nat) -> Seq<char>
    decreases n,
{
    if n < 16 {
        seq![digit_of(n)]
    } else {
        hex(n / 16).push(digit_of(n % 16))
    }
}

/// The escape `\u{NNNN}` of `c`, with its code point in lowercase hexadecimal.
pub open spec fn escape_unicode(c: char) -> Seq<char> {
    "\\u{"@ + hex(c as nat) + "}"@
}

/// The escape of `c` as Rust writes a char literal: `\t`, `\r` and `\n` for tab, carriage
/// return and line feed, a backslash before `\`, `'` and `"`, printable ASCII as it is,
/// and the Unicode escape for anything else.
pub open spec fn escape_default(c: char) -> Seq<char> {
    if c == '\t' {
        "\\t"@
    } else if c == '\r' {
        "\\r"@
    } else if c == '\n' {
        "\\n"@
    } else if c == '\\' || c == '\'' || c == '"' {
        seq!['\\', c]
    } else if ' ' <= c <= '~' {
        seq![c]
    } else {
        escape_unicode(c)
    }
}

/// Whether `c` has the Unicode `Alphabetic` property, as `char::is_alphabetic` decides.
pub uninterp spec fn unicode_alphabetic(c: char) -> bool;

/// Whether `c` is in one of the Unicode general categories for numbers (`Nd`, `Nl`, `No`),
/// as `char::is_numeric` decides.
pub uninterp spec fn unicode_numeric(c: char) -> bool;

/// Whether `c` has the Unicode `Lowercase` property, as `char::is_lowercase` decides.
pub uninterp spec fn unicode_lowercase(c: char) -> bool;

/// Whether `c` has the Unicode `Uppercase` property, as `char::is_uppercase` decides.
pub uninterp spec fn unicode_uppercase(c: char) -> bool;

/// The first char of the Unicode lowercase mapping of `c`, as `char::to_lowercase` yields it.
pub uninterp spec fn lowercase_first(c: char) -> char;

/// The first char of the Unicode uppercase mapping of `c`, as `char::to_uppercase` yields it.
pub uninterp spec fn uppercase_first(c: char) -> char;

/// Calls `char::is_alphabetic`, which reports the Unicode `Alphabetic` property: the
/// contract only names that result.
#[verifier::external_body]
fn alphabetic(c: char) -> (b: bool)
    ensures
        b == unicode_alphabetic(c),
{
    c.is_alphabetic()
}

/// Calls `char::is_numeric`, which reports whether `c` is in a Unicode number category:
/// the contract only names that result.
#[verifier::external_body]
fn numeric(c: char) -> (b: bool)
    ensures
        b == unicode_numeric(c),
{
    c.is_numeric()
}

/// Calls `char::is_lowercase`, which reports the Unicode `Lowercase` property: the
/// contract only names that result.
#[verifier::external_body]
fn lowercase(c: char) -> (b: bool)
    ensures
        b == unicode_lowercase(c),
{
    c.is_lowercase()
}

/// Calls `char::is_uppercase`, which reports the Unicode `Uppercase` property: the
/// contract only names that result.
#[verifier::external_body]
fn uppercase(c: char) -> (b: bool)
    ensures
        b == unicode_uppercase(c),
{
    c.is_uppercase()
}

/// Calls `char::to_lowercase` and takes the first char it yields; the documentation
/// promises at least one (the char itself where it has no lowercase mapping). The
/// contract only names the result.
#[verifier::external_body]
fn lowercase_mapping(c: char) -> (l: char)
    ensures
        l == lowercase_first(c),
{
    c.to_lowercase().next().unwrap_or(c)
}

/// Calls `char::to_uppercase` and takes the first char it yields; the documentation
/// promises at least one (the char itself where it has no uppercase mapping). The
/// contract only names the result.
#[verifier::external_body]
fn uppercase_mapping(c: char) -> (u: char)
    ensures
        u == uppercase_first(c),
{
    c.to_uppercase().next().unwrap_or(c)
}

/// Whether the char is alphabetic in Unicode.
pub fn char_is_alphabetic(c: char) -> (b: bool)
    ensures
        b == unicode_alphabetic(c),
{
    alphabetic(c)
}

/// Whether the char is alphabetic or numeric in Unicode.
pub fn char_is_alphanumeric(c: char) -> (b: bool)
    ensures
        b == (unicode_alphabetic(c) || unicode_numeric(c)),
{
    alphabetic(c) || numeric(c)
}

/// Whether the char is ASCII.
pub fn char_is_ascii(c: char) -> (b: bool)
    ensures
        b == is_ascii(c),
{
    (c as u32) < 0x80
}

/// Whether the char is an ASCII letter.
pub fn char_is_ascii_alphabetic(c: char) -> (b: bool)
    ensures
        b == is_ascii_alphabetic(c),
{
    ('A' <= c && c <= 'Z') || ('a' <= c && c <= 'z')
}

/// Whether the char is an ASCII letter or digit.
pub fn char_is_ascii_alphanumeric(c: char) -> (b: bool)
    ensures
        b == (is_ascii_alphabetic(c) || is_ascii_digit(c)),
{
    char_is_ascii_alphabetic(c) || ('0' <= c && c <= '9')
}

/// Whether the char is an ASCII control char.
pub fn char_is_ascii_control(c: char) -> (b: bool)
    ensures
        b == is_ascii_control(c),
{
    c <= '\u{1f}' || c == '\u{7f}'
}

/// Whether the char is an ASCII digit.
pub fn char_is_ascii_digit(c: char) -> (b: bool)
    ensures
        b == is_ascii_digit(c),
{
    '0' <= c && c <= '9'
}

/// Whether the char is printable ASCII other than the space.
pub fn char_is_ascii_graphic(c: char) -> (b: bool)
    ensures
        b == is_ascii_graphic(c),
{
    '!' <= c && c <= '~'
}

/// Whether the char is an ASCII lowercase letter.
pub fn char_is_ascii_lowercase(c: char) -> (b: bool)
    ensures
        b == ('a' <= c <= 'z'),
{
    'a' <= c && c <= 'z'
}

/// Whether the char is ASCII punctuation.
pub fn char_is_ascii_punctuation(c: char) -> (b: bool)
    ensures
        b == is_ascii_punctuation(c),
{
    ('!' <= c && c <= '/') || (':' <= c && c <= '@') || ('[' <= c && c <= '`') || ('{' <= c && c <= '~')
}

/// Whether the char is an ASCII uppercase letter.
pub fn char_is_ascii_uppercase(c: char) -> (b: bool)
    ensures
        b == ('A' <= c <= 'Z'),
{
    'A' <= c && c <= 'Z'
}

/// Whether the char is ASCII whitespace.
pub fn char_is_ascii_whitespace(c: char) -> (b: bool)
    ensures
        b == is_ascii_whitespace(c),
{
    c == ' ' || c == '\t' || c == '\n' || c == '\u{c}' || c == '\r'
}

/// Whether the char is a control char.
pub fn char_is_control(c: char) -> (b: bool)
    ensures
        b == is_control(c),
{
    c <= '\u{1f}' || ('\u{7f}' <= c && c <= '\u{9f}')
}

/// The value of the char as a digit in the radix, if it is one.
pub fn char_to_digit(c: char, radix: u32) -> (d: Option<u32>)
    requires
        2 <= radix <= 36,
    ensures
        d == digit_value(c, radix),
{
    let v: u32 = if '0' <= c && c <= '9' {
        (c as u32) - ('0' as u32)
    } else if 'a' <= c && c <= 'z' {
        (c as u32) - ('a' as u32) + 10
    } else if 'A' <= c && c <= 'Z' {
        (c as u32) - ('A' as u32) + 10
    } else {
        36
    };
    if v < radix {
        Some(v)
    } else {
        None
    }
}

/// Whether the char is a decimal digit.
pub fn char_is_digit(c: char) -> (b: bool)
    ensures
        b == digit_value(c, 10) is Some,
{
    char_to_digit(c, 10).is_some()
}

/// Whether the char is lowercase in Unicode.
pub fn char_is_lowercase(c: char) -> (b: bool)
    ensures
        b == unicode_lowercase(c),
{
    lowercase(c)
}

/// Whether the char is numeric in Unicode.
pub fn char_is_numeric(c: char) -> (b: bool)
    ensures
        b == unicode_numeric(c),
{
    numeric(c)
}

/// Whether the char is uppercase in Unicode.
pub fn char_is_uppercase(c: char) -> (b: bool)
    ensures
        b == unicode_uppercase(c),
{
    uppercase(c)
}

/// The char with an ASCII uppercase letter made lowercase; any other char unchanged.
pub fn char_to_ascii_lowercase(c: char) -> (l: char)
    ensures
        l == (if 'A' <= c <= 'Z' { ((c as u32) + 32) as char } else { c }),
{
    if 'A' <= c && c <= 'Z' {
        ((c as u8) + 32) as char
    } else {
        c
    }
}

/// The char with an ASCII lowercase letter made uppercase; any other char unchanged.
pub fn char_to_ascii_uppercase(c: char) -> (u: char)
    ensures
        u == (if 'a' <= c <= 'z' { ((c as u32) - 32) as char } else { c }),
{
    if 'a' <= c && c <= 'z' {
        ((c as u8) - 32) as char
    } else {
        c
    }
}

/// The first char of the char's lowercase mapping.
pub fn char_to_lowercase(c: char) -> (l: char)
    ensures
        l == lowercase_first(c),
{
    lowercase_mapping(c)
}

/// The first char of the char's uppercase mapping.
pub fn char_to_uppercase(c: char) -> (u: char)
    ensures
        u == uppercase_first(c),
{
    uppercase_mapping(c)
}

/// Whether the char is a digit in the given base; the base is taken as a `u32`, as the
/// low 32 bits of the number.
pub fn char_is_digit_in_base(c: char, base: i64) -> (b: bool)
    requires
        2 <= (base as u32) <= 36,
    ensures
        b == digit_value(c, base as u32) is Some,
{
    let radix = base as u32;
    char_to_digit(c, radix).is_some()
}

/// The char for digit `d` below 36.
fn digit_char_of(d: u32) -> (c: char)
    requires
        d < 36,
    ensures
        c == digit_of(d as nat),
{
    if d < 10 {
        ((d as u8) + 48) as char
    } else {
        ((d as u8) - 10 + 97) as char
    }
}

/// The lowercase hexadecimal digits of `n`.
fn hex_string(n: u32) -> (s: String)
    ensures
        s@ == hex(n as nat),
    decreases n,
{
    if n < 16 {
        let mut s = String::new();
        push_char(&mut s, digit_char_of(n));
        s
    } else {
        let mut s = hex_string(n / 16);
        push_char(&mut s, digit_char_of(n % 16));
        s
    }
}

/// The Unicode escape `\u{NNNN}` of the char.
pub fn char_escape_unicode(c: char) -> (s: String)
    ensures
        s@ == escape_unicode(c),
{
    let mut s = String::new();
    push_str(&mut s, "\\u{");
    let h = hex_string(c as u32);
    push_str(&mut s, h.as_str());
    push_str(&mut s, "}");
    proof {
        reveal_strlit("\\u{");
        reveal_strlit("}");
    }
    s
}

/// The char escaped as in a Rust char literal.
pub fn char_escape_default(c: char) -> (s: String)
    ensures
        s@ == escape_default(c),
{
    proof {
        reveal_strlit("\\t");
        reveal_strlit("\\r");
        reveal_strlit("\\n");
    }
    if c == '\t' {
        "\\t".to_owned()
    } else if c == '\r' {
        "\\r".to_owned()
    } else if c == '\n' {
        "\\n".to_owned()
    } else if c == '\\' || c == '\'' || c == '"' {
        let mut s = String::new();
        push_char(&mut s, '\\');
        push_char(&mut s, c);
        s
    } else if ' ' <= c && c <= '~' {
        let mut s = String::new();
        push_char(&mut s, c);
        s
    } else {
        char_escape_unicode(c)
    }
}

/// The char for a digit in a base; `None` when the digit is not below the base. Both
/// numbers are taken as `u32`s, as their low 32 bits.
pub fn char_from_digit(digit: i64, base: i64) -> (c: Option<char>)
    requires
        2 <= (base as u32) <= 36,
    ensures
        c == (if (digit as u32) < (base as u32) { Some(digit_of((digit as u32) as nat)) } else { None }),
{
    let num = digit as u32;
    let radix = base as u32;
    if num < radix {
        Some(digit_char_of(num))
    } else {
        None
    }
}

/// The number of bytes of the char in UTF-8.
pub fn char_len_utf8(c: char) -> (n: i64)
    ensures
        n == utf8_width(c),
{
    let v = c as u32;
    if v < 0x80 {
        1
    } else if v < 0x800 {
        2
    } else if v < 0x10000 {
        3
    } else {
        4
    }
}

/// The char as a one-char string.
pub fn char_to_string(c: char) -> (s: String)
    ensures
        s@ == seq![c],
{
    let mut s = String::new();
    push_char(&mut s, c);
    s
}

/// The char's code point.
pub fn char_to_int(c: char) -> (n: i64)
    ensures
        n == c as int,
{
    (c as u32) as i64
}

/// Each digit below the radix has its char, which reads back as that digit: taking
/// `char_to_digit` of `char_from_digit` gives the digit again.
pub proof fn lemma_digit_round_trip(d: u32, radix: u32)
    requires
        2 <= radix <= 36,
        d < radix,
    ensures
        digit_value(digit_of(d as nat), radix) == Some(d),
{
    if d < 10 {
        assert(((d + 48) as u32) as char as int == d + 48);
    } else {
        assert(((d - 10 + 97) as u32) as char as int == d + 87);
    }
}

} // verus!
