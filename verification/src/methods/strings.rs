use vstd::prelude::*;
use vstd::utf8::{encode_scalar, encode_utf8, is_scalar};
use crate::methods::chars::{char_to_int, is_ascii_digit, utf8_width};
use crate::source::char_from_u32;
use crate::text::{
    char_vecs_view, chars_match_at, chars_of, first_match_from, i64_to_decimal, join, join_strings,
    decimal, digit_char, lemma_first_match_from, lemma_split_from_nonempty, matches_at, push_char, signed_decimal, split_chars, split_from, split_on,
    string_from_chars, string_views, trim_end, trim_end_chars, trim_start, trim_start_chars,
};

verus! {

/// The number of bytes of the UTF-8 encoding of the text.
pub open spec fn utf8_len(s: Seq<char>) -> nat {
    encode_utf8(s).len()
}

/// The byte offset at which char `i` of the text starts in its UTF-8 encoding.
pub open spec fn byte_index(s: Seq<char>, i: int) -> nat {
    encode_utf8(s.take(i)).len()
}

/// The UTF-8 encoding of one char takes `utf8_width` bytes.
pub proof fn lemma_encode_scalar_len(c: char)
    ensures
        encode_scalar(c as u32).len() == utf8_width(c),
{
    assert(is_scalar(c as u32)) by {
        broadcast use vstd::utf8::char_is_scalar;
    }
}

/// Encoding a concatenation concatenates the encodings.
pub proof fn lemma_encode_utf8_concat(a: Seq<char>, b: Seq<char>)
    ensures
        encode_utf8(a + b) == encode_utf8(a) + encode_utf8(b),
    decreases a.len(),
{
    if a.len() == 0 {
        assert(a + b =~= b);
        assert(encode_utf8(a) =~= Seq::<u8>::empty());
        assert(encode_utf8(a) + encode_utf8(b) =~= encode_utf8(b));
    } else {
        lemma_encode_utf8_concat(a.drop_first(), b);
        assert((a + b).drop_first() =~= a.drop_first() + b);
        assert((a + b)[0] == a[0]);
        assert(encode_utf8(a + b) =~= encode_utf8(a) + encode_utf8(b));
    }
}

/// Char `i + 1` starts `utf8_width(s[i])` bytes after char `i`, and no char starts past the end.
pub proof fn lemma_byte_index_step(s: Seq<char>, i: int)
    requires
        0 <= i < s.len(),
    ensures
        byte_index(s, i + 1) == byte_index(s, i) + utf8_width(s[i]),
        byte_index(s, i + 1) <= utf8_len(s),
{
    let one = seq![s[i]];
    assert(s.take(i + 1) =~= s.take(i) + one);
    lemma_encode_utf8_concat(s.take(i), one);
    assert(one.drop_first() =~= Seq::<char>::empty());
    assert(encode_utf8(one.drop_first()) =~= Seq::<u8>::empty());
    assert(encode_utf8(one) =~= encode_scalar(s[i] as u32));
    lemma_encode_scalar_len(s[i]);
    assert(s =~= s.take(i + 1) + s.skip(i + 1));
    lemma_encode_utf8_concat(s.take(i + 1), s.skip(i + 1));
}

/// The text has at least as many bytes as chars, and the whole text ends at its byte length.
pub proof fn lemma_byte_index_bounds(s: Seq<char>, i: int)
    requires
        0 <= i <= s.len(),
    ensures
        i <= byte_index(s, i) <= utf8_len(s),
        byte_index(s, s.len() as int) == utf8_len(s),
    decreases i,
{
    assert(s.take(s.len() as int) =~= s);
    if i == 0 {
        assert(s.take(0) =~= Seq::<char>::empty());
        assert(encode_utf8(s.take(0)) =~= Seq::<u8>::empty());
        assert(s =~= s.take(0) + s);
        lemma_encode_utf8_concat(s.take(0), s);
    } else {
        lemma_byte_index_bounds(s, i - 1);
        lemma_byte_index_step(s, i - 1);
    }
}

/// The UTF-8 width of a char.
fn width_of(c: char) -> (w: usize)
    ensures
        w == utf8_width(c),
{
    let v = c as u32;
    if v < 0x80 {
        1
    } else if v < 0x800 {
        2
    } else if v < 0x10000 {
        3
    } else {
        4
    }
}

/// The byte offset at which char `i` starts.
fn byte_index_of(cs: &Vec<char>, i: usize) -> (n: usize)
    requires
        i <= cs@.len(),
        utf8_len(cs@) <= usize::MAX,
    ensures
        n == byte_index(cs@, i as int),
{
    let mut n: usize = 0;
    let mut k: usize = 0;
    proof {
        lemma_byte_index_bounds(cs@, 0);
    }
    while k < i
        invariant
            k <= i <= cs@.len(),
            utf8_len(cs@) <= usize::MAX,
            n == byte_index(cs@, k as int),
        decreases i - k,
    {
        proof {
            lemma_byte_index_step(cs@, k as int);
        }
        n = n + width_of(cs[k]);
        k = k + 1;
    }
    n
}

/// The pieces `str::split` yields: with an empty separator, an empty piece, each char on
/// its own, and an empty piece; otherwise the pieces between the occurrences of the separator.
pub open spec fn split_pieces(s: Seq<char>, sep: Seq<char>) -> Seq<Seq<char>> {
    if sep.len() == 0 {
        seq![Seq::<char>::empty()] + s.map_values(|c: char| seq![c]) + seq![Seq::<char>::empty()]
    } else {
        split_on(s, sep)
    }
}

/// Strings holding the given char vectors.
fn strings_of(parts: &Vec<Vec<char>>) -> (r: Vec<String>)
    ensures
        string_views(r@) == char_vecs_view(parts@),
{
    let mut r: Vec<String> = Vec::new();
    let mut i: usize = 0;
    while i < parts.len()
        invariant
            i <= parts@.len(),
            string_views(r@) == char_vecs_view(parts@).take(i as int),
        decreases parts@.len() - i,
    {
        let t = string_from_chars(parts[i].as_slice());
        let ghost before = r@;
        let ghost tv = t@;
        r.push(t);
        assert(string_views(r@) =~= string_views(before).push(tv));
        assert(char_vecs_view(parts@).take(i + 1) =~= char_vecs_view(parts@).take(i as int).push(
            parts@[i as int]@,
        ));
        i = i + 1;
    }
    assert(char_vecs_view(parts@).take(parts@.len() as int) =~= char_vecs_view(parts@));
    r
}

/// Whether the byte length of the text fits in an `i64` and in a `usize`, as that of
/// any string held in memory does on the machines that have an `i64`-sized address space or less.
pub open spec fn byte_len_fits(s: Seq<char>) -> bool {
    utf8_len(s) <= i64::MAX && utf8_len(s) <= usize::MAX
}

/// The byte length of the string.
pub fn string_len(s: &str) -> (n: i64)
    requires
        byte_len_fits(s@),
    ensures
        n == utf8_len(s@),
{
    s.len() as i64
}

/// The pieces of the string between the occurrences of the separator.
pub fn string_split(s: &str, sep: &str) -> (parts: Vec<String>)
    ensures
        string_views(parts@) == split_pieces(s@, sep@),
{
    let cs = chars_of(s);
    let pat = chars_of(sep);
    if pat.len() == 0 {
        let mut parts: Vec<String> = Vec::new();
        parts.push(String::new());
        let mut i: usize = 0;
        while i < cs.len()
            invariant
                i <= cs@.len(),
                string_views(parts@) == seq![Seq::<char>::empty()] + cs@.take(i as int).map_values(
                    |c: char| seq![c],
                ),
            decreases cs@.len() - i,
        {
            let mut t = String::new();
            push_char(&mut t, cs[i]);
            let ghost before = parts@;
            let ghost tv = t@;
            parts.push(t);
            assert(string_views(parts@) =~= string_views(before).push(tv));
            assert(cs@.take(i + 1) =~= cs@.take(i as int).push(cs@[i as int]));
            assert(cs@.take(i + 1).map_values(|c: char| seq![c]) =~= cs@.take(i as int).map_values(
                |c: char| seq![c],
            ).push(seq![cs@[i as int]]));
            assert(string_views(parts@) =~= seq![Seq::<char>::empty()] + cs@.take(i + 1).map_values(
                |c: char| seq![c],
            ));
            i = i + 1;
        }
        parts.push(String::new());
        assert(cs@.take(cs@.len() as int) =~= cs@);
        assert(string_views(parts@) =~= split_pieces(s@, sep@));
        parts
    } else {
        let pieces = split_chars(&cs, &pat);
        strings_of(&pieces)
    }
}

/// The chars of the string.
pub fn string_chars(s: &str) -> (cs: Vec<char>)
    ensures
        cs@ == s@,
{
    chars_of(s)
}

/// The first index at which `pat` occurs in `cs`.
fn find_chars(cs: &Vec<char>, pat: &Vec<char>) -> (r: Option<usize>)
    ensures
        match r {
            Some(i) => first_match_from(cs@, pat@, 0) == Some(i as int),
            None => first_match_from(cs@, pat@, 0) is None,
        },
{
    if pat.len() > cs.len() {
        return None;
    }
    let last = cs.len() - pat.len();
    let mut i: usize = 0;
    while i < last
        invariant
            last == cs@.len() - pat@.len(),
            i <= last,
            first_match_from(cs@, pat@, 0) == first_match_from(cs@, pat@, i as int),
        decreases last - i,
    {
        if chars_match_at(cs, pat, i) {
            return Some(i);
        }
        i = i + 1;
    }
    if chars_match_at(cs, pat, last) {
        Some(last)
    } else {
        assert(first_match_from(cs@, pat@, last + 1) is None);
        None
    }
}

/// Whether `needle` occurs in the string; the empty needle occurs in every string.
pub fn string_contains(s: &str, needle: &str) -> (b: bool)
    ensures
        b == exists|i: int| matches_at(s@, needle@, i),
{
    let cs = chars_of(s);
    let pat = chars_of(needle);
    let r = find_chars(&cs, &pat);
    proof {
        lemma_first_match_from(cs@, pat@, 0);
    }
    r.is_some()
}

/// Whether the string begins with `needle`.
pub fn string_starts_with(s: &str, needle: &str) -> (b: bool)
    ensures
        b == matches_at(s@, needle@, 0),
{
    let cs = chars_of(s);
    let pat = chars_of(needle);
    chars_match_at(&cs, &pat, 0)
}

/// Whether the string ends with `needle`.
pub fn string_ends_with(s: &str, needle: &str) -> (b: bool)
    ensures
        b == matches_at(s@, needle@, s@.len() - needle@.len()),
{
    let cs = chars_of(s);
    let pat = chars_of(needle);
    if pat.len() > cs.len() {
        false
    } else {
        chars_match_at(&cs, &pat, cs.len() - pat.len())
    }
}

/// The string with every occurrence of `from` replaced by `to`, occurrences taken from the
/// left without overlap; an empty `from` puts `to` before every char and at the end.
pub fn string_replace(s: &str, from: &str, to: &str) -> (r: String)
    ensures
        r@ == join(split_pieces(s@, from@), to@),
{
    let parts = string_split(s, from);
    join_strings(&parts, to)
}

/// The string without leading and trailing whitespace.
pub fn string_trim(s: &str) -> (r: String)
    ensures
        r@ == trim_start(trim_end(s@)),
{
    let cs = chars_of(s);
    let t = trim_start_chars(&trim_end_chars(&cs));
    string_from_chars(t.as_slice())
}

/// The string without leading whitespace.
pub fn string_trim_start(s: &str) -> (r: String)
    ensures
        r@ == trim_start(s@),
{
    let cs = chars_of(s);
    let t = trim_start_chars(&cs);
    string_from_chars(t.as_slice())
}

/// The string without trailing whitespace.
pub fn string_trim_end(s: &str) -> (r: String)
    ensures
        r@ == trim_end(s@),
{
    let cs = chars_of(s);
    let t = trim_end_chars(&cs);
    string_from_chars(t.as_slice())
}

/// The text in Unicode uppercase, as `str::to_uppercase` maps it.
pub uninterp spec fn uppercase_text(s: Seq<char>) -> Seq<char>;

/// The text in Unicode lowercase, as `str::to_lowercase` maps it.
pub uninterp spec fn lowercase_text(s: Seq<char>) -> Seq<char>;

/// Calls `str::to_uppercase`, which maps each char by the Unicode uppercase mapping (one
/// char may become several): the contract only names the result.
#[verifier::external_body]
fn str_to_uppercase(s: &str) -> (r: String)
    ensures
        r@ == uppercase_text(s@),
{
    s.to_uppercase()
}

/// Calls `str::to_lowercase`, which maps each char by the Unicode lowercase mapping (one
/// char may become several, and a final sigma is treated apart): the contract only names
/// the result.
#[verifier::external_body]
fn str_to_lowercase(s: &str) -> (r: String)
    ensures
        r@ == lowercase_text(s@),
{
    s.to_lowercase()
}

/// The string in uppercase.
pub fn string_to_uppercase(s: &str) -> (r: String)
    ensures
        r@ == uppercase_text(s@),
{
    str_to_uppercase(s)
}

/// The string in lowercase.
pub fn string_to_lowercase(s: &str) -> (r: String)
    ensures
        r@ == lowercase_text(s@),
{
    str_to_lowercase(s)
}

/// The string with its chars in reverse order.
pub fn string_reverse(s: &str) -> (r: String)
    ensures
        r@ == s@.reverse(),
{
    let cs = chars_of(s);
    let mut r = String::new();
    let mut i: usize = cs.len();
    while i > 0
        invariant
            i <= cs@.len(),
            r@ == cs@.skip(i as int).reverse(),
        decreases i,
    {
        push_char(&mut r, cs[i - 1]);
        assert(cs@.skip(i - 1).reverse() =~= cs@.skip(i as int).reverse().push(cs@[i - 1]));
        i = i - 1;
    }
    assert(cs@.skip(0) =~= cs@);
    r
}

/// An index counted from the end when negative: `-1` is the last position of a text of
/// `len` positions.
pub open spec fn resolve_index(len: int, index: int) -> int {
    if index < 0 {
        len + index
    } else {
        index
    }
}

/// The position that `char_at` and `char_code_at` read: the index resolved against the
/// byte length of the text, when it falls inside that byte length.
pub open spec fn char_position(s: Seq<char>, index: int) -> Option<int> {
    let k = resolve_index(utf8_len(s) as int, index);
    if 0 <= k < utf8_len(s) {
        Some(k)
    } else {
        None
    }
}

/// Whether `char_at` and `char_code_at` can read the char they point at: the position,
/// bounded by the byte length, must also be below the number of chars (the two differ
/// where the text has non-ASCII chars, and reading past the last char fails).
pub open spec fn char_position_readable(s: Seq<char>, index: int) -> bool {
    char_position(s, index) matches Some(k) ==> k < s.len()
}

/// Positions in a text of one byte per char (such as ASCII text): an index from 0 reads
/// that char, a negative index counts back from the end (`-1` is the last char), and any
/// index outside reads nothing; a slice between two positions in order is the chars from
/// the first up to, not including, the second.
pub proof fn lemma_positions(s: Seq<char>, index: int, start: int, end: int)
    requires
        utf8_len(s) == s.len(),
    ensures
        0 <= index < s.len() ==> char_position(s, index) == Some(index),
        -(s.len() as int) <= index < 0 ==> char_position(s, index) == Some(s.len() + index),
        index >= s.len() || index < -(s.len() as int) ==> char_position(s, index) is None,
        0 <= start <= end < s.len() ==> string_slice_spec(s, start, end) == Some(s.subrange(start, end)),
{
    if 0 <= start <= end < s.len() {
        assert(s.subrange(start, s.len() as int).take(end - start) =~= s.subrange(start, end));
    }
}

/// The position resolved as `char_position` does.
fn resolve_char_position(cs: &Vec<char>, blen: usize, index: i64) -> (k: Option<usize>)
    requires
        blen == utf8_len(cs@),
        blen <= i64::MAX,
    ensures
        match k {
            Some(k) => char_position(cs@, index as int) == Some(k as int),
            None => char_position(cs@, index as int) is None,
        },
{
    let b = blen as i64;
    let k: i64 = if index < 0 {
        b + index
    } else {
        index
    };
    if k < 0 || k >= b {
        None
    } else {
        Some(k as usize)
    }
}

/// The char at the position, as a one-char string; negative indices count from the end of
/// the string's byte length; `None` outside of it.
pub fn string_char_at(s: &str, index: i64) -> (r: Option<String>)
    requires
        byte_len_fits(s@),
        char_position_readable(s@, index as int),
    ensures
        match char_position(s@, index as int) {
            Some(k) => r matches Some(t) && t@ == seq![s@[k]],
            None => r is None,
        },
{
    let cs = chars_of(s);
    match resolve_char_position(&cs, s.len(), index) {
        None => None,
        Some(k) => {
            let mut t = String::new();
            push_char(&mut t, cs[k]);
            Some(t)
        },
    }
}

/// The code point of the char at the position, negative indices counting from the end of
/// the string's byte length; `None` outside of it.
pub fn string_char_code_at(s: &str, index: i64) -> (r: Option<i64>)
    requires
        byte_len_fits(s@),
        char_position_readable(s@, index as int),
    ensures
        match char_position(s@, index as int) {
            Some(k) => r matches Some(n) && n == s@[k] as int,
            None => r is None,
        },
{
    let cs = chars_of(s);
    match resolve_char_position(&cs, s.len(), index) {
        None => None,
        Some(k) => Some(char_to_int(cs[k])),
    }
}

/// The chars from char `start` on: `end - start` of them when `end >= start`, else all the
/// rest (a text shorter than asked gives what it has).
pub open spec fn slice_chars(s: Seq<char>, start: int, end: int) -> Seq<char> {
    let rest = if start >= s.len() {
        Seq::<char>::empty()
    } else {
        s.subrange(start, s.len() as int)
    };
    if end >= start && end - start < rest.len() {
        rest.take(end - start)
    } else {
        rest
    }
}

/// The slice the `slice` method gives: both ends resolved against the byte length,
/// `None` unless both fall inside it.
pub open spec fn string_slice_spec(s: Seq<char>, start: int, end: int) -> Option<Seq<char>> {
    let b = utf8_len(s) as int;
    let st = resolve_index(b, start);
    let en = resolve_index(b, end);
    if st < 0 || en < 0 || st >= b || en >= b {
        None
    } else {
        Some(slice_chars(s, st, en))
    }
}

/// The chars between the two positions (see `slice_chars`); negative positions count from
/// the end of the string's byte length, and `None` comes when either falls outside of it.
pub fn string_slice(s: &str, start: i64, end: i64) -> (r: Option<String>)
    requires
        byte_len_fits(s@),
    ensures
        match string_slice_spec(s@, start as int, end as int) {
            Some(t) => r matches Some(u) && u@ == t,
            None => r is None,
        },
{
    let cs = chars_of(s);
    let b = s.len() as i64;
    let st: i64 = if start < 0 {
        b + start
    } else {
        start
    };
    let en: i64 = if end < 0 {
        b + end
    } else {
        end
    };
    if st < 0 || en < 0 || st >= b || en >= b {
        return None;
    }
    let n = cs.len();
    let from: usize = if (st as usize) >= n {
        n
    } else {
        st as usize
    };
    let to: usize = if en >= st && ((en - st) as usize) < n - from {
        from + (en - st) as usize
    } else {
        n
    };
    let mut t = String::new();
    let mut i: usize = from;
    while i < to
        invariant
            from <= i <= to <= n,
            n == cs@.len(),
            t@ == cs@.subrange(from as int, i as int),
        decreases to - i,
    {
        push_char(&mut t, cs[i]);
        assert(cs@.subrange(from as int, i + 1) =~= cs@.subrange(from as int, i as int).push(cs@[i as int]));
        i = i + 1;
    }
    assert(t@ =~= slice_chars(cs@, st as int, en as int));
    Some(t)
}

/// The last index, at most `i`, at which `pat` occurs in `s`.
pub open spec fn last_match_upto(s: Seq<char>, pat: Seq<char>, i: int) -> Option<int>
    decreases i + 1,
{
    if i < 0 {
        None
    } else if matches_at(s, pat, i) {
        Some(i)
    } else {
        last_match_upto(s, pat, i - 1)
    }
}

/// The byte offset of the first occurrence of `needle` in the string, or `-1` when it
/// does not occur; the empty needle occurs at 0.
pub fn string_index_of(s: &str, needle: &str) -> (r: i64)
    requires
        byte_len_fits(s@),
    ensures
        r == match first_match_from(s@, needle@, 0) {
            Some(i) => byte_index(s@, i) as int,
            None => -1,
        },
{
    let cs = chars_of(s);
    let pat = chars_of(needle);
    match find_chars(&cs, &pat) {
        Some(i) => {
            proof {
                lemma_first_match_from(cs@, pat@, 0);
                lemma_byte_index_bounds(cs@, i as int);
            }
            byte_index_of(&cs, i) as i64
        },
        None => -1,
    }
}

/// The byte offset of the last occurrence of `needle` in the string, or `-1` when it does
/// not occur; the empty needle occurs at the end.
pub fn string_last_index_of(s: &str, needle: &str) -> (r: i64)
    requires
        byte_len_fits(s@),
    ensures
        r == match last_match_upto(s@, needle@, s@.len() - needle@.len()) {
            Some(i) => byte_index(s@, i) as int,
            None => -1,
        },
{
    let cs = chars_of(s);
    let pat = chars_of(needle);
    if pat.len() > cs.len() {
        return -1;
    }
    let mut i: usize = cs.len() - pat.len();
    loop
        invariant
            i <= cs@.len() - pat@.len(),
            last_match_upto(cs@, pat@, cs@.len() - pat@.len()) == last_match_upto(cs@, pat@, i as int),
            byte_len_fits(cs@),
            cs@ == s@,
            pat@ == needle@,
        decreases i,
    {
        if chars_match_at(&cs, &pat, i) {
            proof {
                lemma_byte_index_bounds(cs@, i as int);
            }
            return byte_index_of(&cs, i) as i64;
        }
        if i == 0 {
            assert(last_match_upto(cs@, pat@, -1) is None);
            return -1;
        }
        i = i - 1;
    }
}

/// The number a run of decimal digits writes.
pub open spec fn digits_value(d: Seq<char>) -> int
    decreases d.len(),
{
    if d.len() == 0 {
        0
    } else {
        digits_value(d.drop_last()) * 10 + (d.last() as int - '0' as int)
    }
}

/// Whether every char of the text is an ASCII digit.
pub open spec fn all_digits(d: Seq<char>) -> bool {
    forall|i: int| 0 <= i < d.len() ==> is_ascii_digit(#[trigger] d[i])
}

/// Whether the text starts with a `+` or `-` sign.
pub open spec fn has_sign(s: Seq<char>) -> bool {
    s.len() > 0 && (s[0] == '-' || s[0] == '+')
}

/// The digits of a number as `i64::from_str` reads them: the text after an optional sign.
pub open spec fn unsigned_part(s: Seq<char>) -> Seq<char> {
    if has_sign(s) {
        s.drop_first()
    } else {
        s
    }
}

/// The number that the text writes, when it is an `i64` as `i64::from_str` accepts it: an
/// optional `+` or `-`, then one or more ASCII digits, and a value in range.
pub open spec fn parse_i64(s: Seq<char>) -> Option<i64> {
    let body = unsigned_part(s);
    let v = if s.len() > 0 && s[0] == '-' {
        -digits_value(body)
    } else {
        digits_value(body)
    };
    if body.len() > 0 && all_digits(body) && i64::MIN <= v <= i64::MAX {
        Some(v as i64)
    } else {
        None
    }
}

/// A prefix of a run of digits writes a number no larger than the whole run, and no number is negative.
pub proof fn lemma_digits_value_prefix(d: Seq<char>, k: int)
    requires
        all_digits(d),
        0 <= k <= d.len(),
    ensures
        0 <= digits_value(d.take(k)) <= digits_value(d),
    decreases d.len(),
{
    if d.len() == 0 {
        assert(d.take(k) =~= d);
    } else {
        let r = d.drop_last();
        assert(all_digits(r)) by {
            assert forall|i: int| 0 <= i < r.len() implies is_ascii_digit(#[trigger] r[i]) by {
                assert(r[i] == d[i]);
            }
        }
        assert(is_ascii_digit(d[d.len() - 1]));
        if k == d.len() {
            lemma_digits_value_prefix(r, 0);
            assert(d.take(k) =~= d);
        } else {
            lemma_digits_value_prefix(r, k);
            assert(r.take(k) =~= d.take(k));
        }
    }
}

/// Reading numbers: a run of digits whose value fits reads as that value, and with a `-`
/// before it as its negation; an empty text, a lone sign, or a text with a char other than
/// a digit after the sign, reads as nothing.
pub proof fn lemma_parse_digits(d: Seq<char>)
    ensures
        d.len() > 0 && all_digits(d) && digits_value(d) <= i64::MAX ==> parse_i64(d) == Some(digits_value(d) as i64),
        d.len() > 0 && all_digits(d) && digits_value(d) <= i64::MAX ==> parse_i64(seq!['-'] + d) == Some((-digits_value(d)) as i64),
        parse_i64(Seq::<char>::empty()) is None,
        parse_i64(seq!['-']) is None && parse_i64(seq!['+']) is None,
        (exists|i: int| 0 <= i < unsigned_part(d).len() && !is_ascii_digit(#[trigger] unsigned_part(d)[i])) ==> parse_i64(d) is None,
{
    if d.len() > 0 && all_digits(d) {
        lemma_digits_value_prefix(d, 0);
        assert(is_ascii_digit(d[0]));
        assert((seq!['-'] + d).drop_first() =~= d);
    }
    assert(seq!['-'].drop_first() =~= Seq::<char>::empty());
    assert(seq!['+'].drop_first() =~= Seq::<char>::empty());
}

/// The number the string writes, as `i64::from_str` reads it; `None` when it writes none
/// or one out of range.
pub fn string_to_int(s: &str) -> (r: Option<i64>)
    ensures
        r == parse_i64(s@),
{
    let cs = chars_of(s);
    let n = cs.len();
    let neg = n > 0 && cs[0] == '-';
    let start: usize = if n > 0 && (cs[0] == '-' || cs[0] == '+') {
        1
    } else {
        0
    };
    let ghost body = unsigned_part(cs@);
    assert(body =~= cs@.subrange(start as int, n as int));
    if start >= n {
        return None;
    }
    let mut i: usize = start;
    while i < n
        invariant
            start <= i <= n,
            n == cs@.len(),
            body == cs@.subrange(start as int, n as int),
            body == unsigned_part(s@),
            cs@ == s@,
            forall|k: int| start <= k < i ==> is_ascii_digit(#[trigger] cs@[k]),
        decreases n - i,
    {
        if !('0' <= cs[i] && cs[i] <= '9') {
            assert(!is_ascii_digit(body[i - start]));
            return None;
        }
        i = i + 1;
    }
    assert(all_digits(body)) by {
        assert forall|k: int| 0 <= k < body.len() implies is_ascii_digit(#[trigger] body[k]) by {
            assert(body[k] == cs@[start + k]);
        }
    }
    let mut acc: i64 = 0;
    let mut j: usize = start;
    assert(body.take(0) =~= Seq::<char>::empty());
    while j < n
        invariant
            start <= j <= n,
            n == cs@.len(),
            body == cs@.subrange(start as int, n as int),
            all_digits(body),
            body == unsigned_part(s@),
            cs@ == s@,
            neg == (cs@.len() > 0 && cs@[0] == '-'),
            acc == (if neg { -digits_value(body.take(j - start)) } else { digits_value(body.take(j - start)) }),
        decreases n - j,
    {
        let ghost k = j - start;
        assert(body.take(k + 1).drop_last() =~= body.take(k));
        assert(body.take(k + 1).last() == cs@[j as int]);
        assert(is_ascii_digit(body[k]));
        let d: i64 = ((cs[j] as u32) - 48) as i64;
        let next = match acc.checked_mul(10) {
            None => None,
            Some(m) => if neg {
                m.checked_sub(d)
            } else {
                m.checked_add(d)
            },
        };
        match next {
            None => {
                proof {
                    lemma_digits_value_prefix(body, k + 1);
                    lemma_digits_value_prefix(body, k);
                }
                return None;
            },
            Some(x) => {
                acc = x;
            },
        }
        j = j + 1;
    }
    assert(body.take(n - start) =~= body);
    Some(acc)
}

/// The boolean the string names: `true` or `false`, exactly.
pub fn string_to_bool(s: &str) -> (r: Option<bool>)
    ensures
        r == (if s@ == "true"@ {
            Some(true)
        } else if s@ == "false"@ {
            Some(false)
        } else {
            None
        }),
{
    let owned = s.to_owned();
    let t = "true".to_owned();
    let f = "false".to_owned();
    if owned == t {
        Some(true)
    } else if owned == f {
        Some(false)
    } else {
        None
    }
}

/// The number in decimal, with a `-` before a negative one.
pub fn string_from_int(i: i64) -> (s: String)
    ensures
        s@ == signed_decimal(i as int),
{
    i64_to_decimal(i)
}

/// `true` or `false`.
pub fn string_from_bool(b: bool) -> (s: String)
    ensures
        s@ == (if b { "true"@ } else { "false"@ }),
{
    if b {
        "true".to_owned()
    } else {
        "false".to_owned()
    }
}

/// The one-char string of the code point; the number is taken as a `u32`, as its low 32 bits.
pub fn string_from_code(code: i64) -> (s: String)
    requires
        is_scalar(code as u32),
    ensures
        s@ == seq![(code as u32) as char],
{
    let c = char_from_u32(code as u32);
    let mut s = String::new();
    match c {
        Some(c) => push_char(&mut s, c),
        None => {},
    }
    s
}

/// Joining a sequence that has a first item and at least one more: the first item, the
/// separator, then the rest joined.
pub proof fn lemma_join_first(a: Seq<char>, rest: Seq<Seq<char>>, sep: Seq<char>)
    requires
        rest.len() >= 1,
    ensures
        join(seq![a] + rest, sep) == a + sep + join(rest, sep),
    decreases rest.len(),
{
    let items = seq![a] + rest;
    if rest.len() == 1 {
        assert(items.drop_last() =~= seq![a]);
        assert(items.last() == rest[0]);
        assert(join(seq![a], sep) == a);
        assert(join(rest, sep) == rest[0]);
    } else {
        lemma_join_first(a, rest.drop_last(), sep);
        assert(items.drop_last() =~= seq![a] + rest.drop_last());
        assert(items.last() == rest.last());
        assert(join(rest, sep) == join(rest.drop_last(), sep) + sep + rest.last());
        assert(join(items, sep) == join(items.drop_last(), sep) + sep + items.last());
        assert(a + sep + join(rest.drop_last(), sep) + sep + rest.last() =~= a + sep + (join(
            rest.drop_last(),
            sep,
        ) + sep + rest.last()));
    }
}

/// Joining the pieces of a split from `start` with the separator gives back the text from `start`.
proof fn lemma_join_split_from(s: Seq<char>, sep: Seq<char>, start: int)
    requires
        sep.len() > 0,
        0 <= start <= s.len(),
    ensures
        join(split_from(s, sep, start), sep) == s.subrange(start, s.len() as int),
    decreases s.len() - start,
{
    lemma_first_match_from(s, sep, start);
    match first_match_from(s, sep, start) {
        None => {},
        Some(k) => {
            let next = k + sep.len();
            lemma_join_split_from(s, sep, next);
            lemma_split_from_nonempty(s, sep, next);
            lemma_join_first(s.subrange(start, k), split_from(s, sep, next), sep);
            assert(s.subrange(k, next) == sep);
            assert(s.subrange(start, s.len() as int) =~= s.subrange(start, k) + sep + s.subrange(
                next,
                s.len() as int,
            ));
        },
    }
}

/// Joining an empty piece and the first `i` chars, each on its own, with no separator
/// gives those chars.
proof fn lemma_join_chars(s: Seq<char>, i: int)
    requires
        0 <= i <= s.len(),
    ensures
        join(seq![Seq::<char>::empty()] + s.take(i).map_values(|c: char| seq![c]), Seq::<char>::empty())
            == s.take(i),
    decreases i,
{
    let f = |c: char| seq![c];
    let sep = Seq::<char>::empty();
    if i == 0 {
        assert(seq![Seq::<char>::empty()] + s.take(0).map_values(f) =~= seq![Seq::<char>::empty()]);
        assert(s.take(0) =~= Seq::<char>::empty());
    } else {
        lemma_join_chars(s, i - 1);
        let before = seq![Seq::<char>::empty()] + s.take(i - 1).map_values(f);
        let after = seq![Seq::<char>::empty()] + s.take(i).map_values(f);
        assert(after.drop_last() =~= before);
        assert(after.last() == seq![s[i - 1]]);
        assert(s.take(i) =~= s.take(i - 1) + sep + seq![s[i - 1]]);
    }
}

/// Splitting a text at a separator and joining the pieces with that separator gives back
/// the text; so replacing a text by itself leaves a string unchanged.
pub proof fn lemma_join_split(s: Seq<char>, sep: Seq<char>)
    ensures
        join(split_pieces(s, sep), sep) == s,
{
    if sep.len() > 0 {
        lemma_join_split_from(s, sep, 0);
        assert(s.subrange(0, s.len() as int) =~= s);
    } else {
        let f = |c: char| seq![c];
        lemma_join_chars(s, s.len() as int);
        assert(sep =~= Seq::<char>::empty());
        let all = seq![Seq::<char>::empty()] + s.take(s.len() as int).map_values(f);
        assert(s.take(s.len() as int) =~= s);
        let pieces = all + seq![Seq::<char>::empty()];
        assert(pieces.drop_last() =~= all);
        assert(pieces =~= split_pieces(s, sep));
        assert(join(pieces, sep) == join(all, sep) + sep + Seq::<char>::empty());
        assert(s + sep + Seq::<char>::empty() =~= s);
    }
}

/// The last index, at most `i`, at which `pat` occurs is one, and no later one up to `i` is.
pub proof fn lemma_last_match_upto(s: Seq<char>, pat: Seq<char>, i: int)
    ensures
        last_match_upto(s, pat, i) matches Some(k) ==> k <= i && matches_at(s, pat, k)
            && forall|j: int| k < j <= i ==> !matches_at(s, pat, j),
        last_match_upto(s, pat, i) is None ==> forall|j: int| j <= i ==> !matches_at(s, pat, j),
    decreases i + 1,
{
    if i >= 0 && !matches_at(s, pat, i) {
        lemma_last_match_upto(s, pat, i - 1);
    }
}

/// A needle occurs in a text exactly when searching from the front finds it, and exactly
/// when searching from the back finds it: `contains` is true just when `index_of` and
/// `last_index_of` give an index rather than `-1`.
pub proof fn lemma_found_iff_occurs(s: Seq<char>, pat: Seq<char>)
    ensures
        (exists|i: int| matches_at(s, pat, i)) <==> first_match_from(s, pat, 0) is Some,
        (exists|i: int| matches_at(s, pat, i)) <==> last_match_upto(s, pat, s.len() - pat.len()) is Some,
{
    lemma_first_match_from(s, pat, 0);
    lemma_last_match_upto(s, pat, s.len() - pat.len());
    if exists|i: int| matches_at(s, pat, i) {
        let i = choose|i: int| matches_at(s, pat, i);
        assert(i <= s.len() - pat.len());
    }
}

/// The digits of a number written in decimal read back as that number.
pub proof fn lemma_decimal_digits(n: nat)
    ensures
        decimal(n).len() > 0,
        all_digits(decimal(n)),
        digits_value(decimal(n)) == n,
    decreases n,
{
    let c = digit_char(n % 10);
    assert(((n % 10 + 48) as u32) as char as int == n % 10 + 48);
    if n >= 10 {
        lemma_decimal_digits(n / 10);
        let d = decimal(n / 10).push(c);
        assert(decimal(n) == d);
        assert(d.drop_last() =~= decimal(n / 10));
        assert(d.last() == c);
        assert(digits_value(d) == digits_value(decimal(n / 10)) * 10 + (c as int - '0' as int));
        assert(n == (n / 10) * 10 + n % 10);
        assert(all_digits(d)) by {
            assert forall|i: int| 0 <= i < d.len() implies is_ascii_digit(#[trigger] d[i]) by {
                if i < d.len() - 1 {
                    assert(d[i] == decimal(n / 10)[i]);
                }
            }
        }
    } else {
        assert(decimal(n) == seq![c]);
        assert(seq![c].drop_last() =~= Seq::<char>::empty());
        assert(digits_value(seq![c]) == digits_value(Seq::<char>::empty()) * 10 + (c as int - '0' as int));
    }
}

/// Writing a number in decimal and reading it back gives the number: `to_int` of
/// `from_int` of any `i64` is that `i64`.
pub proof fn lemma_int_round_trip(i: i64)
    ensures
        parse_i64(signed_decimal(i as int)) == Some(i),
{
    let t = signed_decimal(i as int);
    if i < 0 {
        let d = decimal((-i) as nat);
        lemma_decimal_digits((-i) as nat);
        assert(t.drop_first() =~= d);
    } else {
        let d = decimal(i as nat);
        lemma_decimal_digits(i as nat);
        assert(is_ascii_digit(d[0]));
    }
}

} // verus!
