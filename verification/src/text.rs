use vstd::prelude::*;

verus! {

/// Appends one char to a string.
///
/// Calls `String::push`, which the standard library documents as appending
/// the given char to the end of the string.
#[verifier::external_body]
pub fn push_char(s: &mut String, c: char)
    ensures
        final(s)@ == old(s)@.push(c),
{
    s.push(c)
}

/// Appends a string slice to a string.
///
/// Calls `String::push_str`, documented as appending the given slice to the end of the string.
#[verifier::external_body]
pub fn push_str(s: &mut String, t: &str)
    ensures
        final(s)@ == old(s)@ + t@,
{
    s.push_str(t)
}

/// The chars of a string slice, in order.
pub fn chars_of(s: &str) -> (v: Vec<char>)
    ensures
        v@ == s@,
{
    let mut v: Vec<char> = Vec::new();
    for c in it: s.chars()
        invariant
            v@ == it.seq().take(it.index() as int),
    {
        v.push(c);
    }
    v
}

/// A string holding the given chars.
pub fn string_from_chars(cs: &[char]) -> (s: String)
    ensures
        s@ == cs@,
{
    let mut s = String::new();
    let mut i: usize = 0;
    while i < cs.len()
        invariant
            i <= cs@.len(),
            s@ == cs@.take(i as int),
        decreases cs@.len() - i,
    {
        push_char(&mut s, cs[i]);
        assert(cs@.take(i + 1) == cs@.take(i as int).push(cs@[i as int]));
        i = i + 1;
    }
    assert(cs@.take(cs@.len() as int) == cs@);
    s
}

/// The decimal digit char for `d < 10`.
pub open spec fn digit_char(d: nat) -> char {
    ((d + 48) as u32) as char
}

/// The decimal representation of a natural number, without leading zeros.
pub open spec fn decimal(n: nat) -> Seq<char>
    decreases n,
{
    if n < 10 {
        seq![digit_char(n)]
    } else {
        decimal(n / 10).push(digit_char(n % 10))
    }
}

/// The decimal representation of a signed number: a leading `-` for negatives.
pub open spec fn signed_decimal(n: int) -> Seq<char> {
    if n < 0 {
        seq!['-'] + decimal((-n) as nat)
    } else {
        decimal(n as nat)
    }
}

fn digit(d: u64) -> (c: char)
    requires
        d < 10,
    ensures
        c == digit_char(d as nat),
{
    if d == 0 { '0' } else if d == 1 { '1' } else if d == 2 { '2' } else if d == 3 { '3' }
    else if d == 4 { '4' } else if d == 5 { '5' } else if d == 6 { '6' } else if d == 7 { '7' }
    else if d == 8 { '8' } else { '9' }
}

/// Renders an unsigned number in decimal.
pub fn u64_to_decimal(n: u64) -> (s: String)
    ensures
        s@ == decimal(n as nat),
    decreases n,
{
    if n < 10 {
        let mut s = String::new();
        push_char(&mut s, digit(n));
        s
    } else {
        let mut s = u64_to_decimal(n / 10);
        push_char(&mut s, digit(n % 10));
        s
    }
}

/// Renders a signed number in decimal.
pub fn i64_to_decimal(n: i64) -> (s: String)
    ensures
        s@ == signed_decimal(n as int),
{
    if n < 0 {
        let m: u64 = if n == i64::MIN { 9223372036854775808u64 } else { (-n) as u64 };
        let mut s = String::new();
        push_char(&mut s, '-');
        let t = u64_to_decimal(m);
        push_str(&mut s, t.as_str());
        s
    } else {
        u64_to_decimal(n as u64)
    }
}

/// A string of `n` copies of `c`.
pub fn repeat_char(c: char, n: usize) -> (s: String)
    ensures
        s@ == Seq::new(n as nat, |_i: int| c),
{
    let mut s = String::new();
    let mut i: usize = 0;
    while i < n
        invariant
            i <= n,
            s@ == Seq::new(i as nat, |_k: int| c),
        decreases n - i,
    {
        push_char(&mut s, c);
        assert(s@ =~= Seq::new((i + 1) as nat, |_k: int| c));
        i = i + 1;
    }
    s
}

/// The strings joined with `sep` between consecutive items.
pub open spec fn join(items: Seq<Seq<char>>, sep: Seq<char>) -> Seq<char>
    decreases items.len(),
{
    if items.len() == 0 {
        seq![]
    } else if items.len() == 1 {
        items[0]
    } else {
        join(items.drop_last(), sep) + sep + items.last()
    }
}

/// The views of a sequence of strings.
pub open spec fn string_views(items: Seq<String>) -> Seq<Seq<char>> {
    items.map_values(|s: String| s@)
}

/// Joins the strings with `sep` between consecutive items.
pub fn join_strings(items: &Vec<String>, sep: &str) -> (s: String)
    ensures
        s@ == join(string_views(items@), sep@),
{
    let mut s = String::new();
    let mut i: usize = 0;
    while i < items.len()
        invariant
            i <= items@.len(),
            s@ == join(string_views(items@).take(i as int), sep@),
        decreases items@.len() - i,
    {
        let ghost before = string_views(items@).take(i as int);
        if i > 0 {
            push_str(&mut s, sep);
        }
        push_str(&mut s, items[i].as_str());
        proof {
            let after = string_views(items@).take(i + 1);
            assert(after.drop_last() =~= before);
            if i == 0 {
                assert(s@ =~= after[0]);
            }
        }
        i = i + 1;
    }
    assert(string_views(items@).take(items@.len() as int) =~= string_views(items@));
    s
}

/// Whether `c` has the Unicode `White_Space` property, as `char::is_whitespace` decides.
pub open spec fn is_whitespace(c: char) -> bool {
    ||| '\u{9}' <= c <= '\u{d}'
    ||| c == ' '
    ||| c == '\u{85}'
    ||| c == '\u{a0}'
    ||| c == '\u{1680}'
    ||| '\u{2000}' <= c <= '\u{200a}'
    ||| c == '\u{2028}'
    ||| c == '\u{2029}'
    ||| c == '\u{202f}'
    ||| c == '\u{205f}'
    ||| c == '\u{3000}'
}

/// Whether `c` has the Unicode `White_Space` property.
pub fn char_is_whitespace(c: char) -> (b: bool)
    ensures
        b == is_whitespace(c),
{
    ('\u{9}' <= c && c <= '\u{d}') || c == ' ' || c == '\u{85}' || c == '\u{a0}' || c == '\u{1680}'
        || ('\u{2000}' <= c && c <= '\u{200a}') || c == '\u{2028}' || c == '\u{2029}'
        || c == '\u{202f}' || c == '\u{205f}' || c == '\u{3000}'
}

/// The text without its trailing whitespace.
pub open spec fn trim_end(s: Seq<char>) -> Seq<char>
    decreases s.len(),
{
    if s.len() > 0 && is_whitespace(s.last()) {
        trim_end(s.drop_last())
    } else {
        s
    }
}

/// The text without its leading whitespace.
pub open spec fn trim_start(s: Seq<char>) -> Seq<char>
    decreases s.len(),
{
    if s.len() > 0 && is_whitespace(s[0]) {
        trim_start(s.drop_first())
    } else {
        s
    }
}

/// The number of trailing whitespace chars of `s`.
pub open spec fn trailing_ws(s: Seq<char>) -> nat
    decreases s.len(),
{
    if s.len() > 0 && is_whitespace(s.last()) {
        trailing_ws(s.drop_last()) + 1
    } else {
        0
    }
}

/// The number of leading whitespace chars of `s`.
pub open spec fn leading_ws(s: Seq<char>) -> nat
    decreases s.len(),
{
    if s.len() > 0 && is_whitespace(s[0]) {
        leading_ws(s.drop_first()) + 1
    } else {
        0
    }
}

proof fn lemma_trim_end_take(s: Seq<char>)
    ensures
        trailing_ws(s) <= s.len(),
        trim_end(s) == s.take(s.len() - trailing_ws(s)),
    decreases s.len(),
{
    if s.len() > 0 && is_whitespace(s.last()) {
        lemma_trim_end_take(s.drop_last());
        assert(s.drop_last().take(s.drop_last().len() - trailing_ws(s.drop_last()))
            =~= s.take(s.len() - trailing_ws(s)));
    } else {
        assert(s.take(s.len() as int) =~= s);
    }
}

proof fn lemma_trim_start_skip(s: Seq<char>)
    ensures
        leading_ws(s) <= s.len(),
        trim_start(s) == s.skip(leading_ws(s) as int),
    decreases s.len(),
{
    if s.len() > 0 && is_whitespace(s[0]) {
        lemma_trim_start_skip(s.drop_first());
        assert(s.drop_first().skip(leading_ws(s.drop_first()) as int) =~= s.skip(leading_ws(s) as int));
    } else {
        assert(s.skip(0) =~= s);
    }
}

/// The number of trailing whitespace chars of `s`.
fn count_trailing_ws(s: &Vec<char>) -> (n: usize)
    ensures
        n == trailing_ws(s@),
{
    let mut k = s.len();
    assert(s@.take(k as int) =~= s@);
    while k > 0 && char_is_whitespace(s[k - 1])
        invariant
            k <= s@.len(),
            trailing_ws(s@) == trailing_ws(s@.take(k as int)) + (s@.len() - k),
        decreases k,
    {
        assert(s@.take(k as int).drop_last() =~= s@.take(k - 1));
        k = k - 1;
    }
    proof {
        if k > 0 {
            assert(s@.take(k as int).last() == s@[k - 1]);
        }
    }
    s.len() - k
}

/// The number of leading whitespace chars of `s`.
fn count_leading_ws(s: &Vec<char>) -> (n: usize)
    ensures
        n == leading_ws(s@),
{
    let mut k: usize = 0;
    assert(s@.skip(0) =~= s@);
    while k < s.len() && char_is_whitespace(s[k])
        invariant
            k <= s@.len(),
            leading_ws(s@) == leading_ws(s@.skip(k as int)) + k,
        decreases s@.len() - k,
    {
        assert(s@.skip(k as int).drop_first() =~= s@.skip(k + 1));
        k = k + 1;
    }
    proof {
        if k < s@.len() {
            assert(s@.skip(k as int)[0] == s@[k as int]);
        }
    }
    k
}

/// The chars `s[from..to]`.
pub fn sub_chars(s: &Vec<char>, from: usize, to: usize) -> (r: Vec<char>)
    requires
        from <= to <= s@.len(),
    ensures
        r@ == s@.subrange(from as int, to as int),
{
    let mut r: Vec<char> = Vec::new();
    let mut i = from;
    while i < to
        invariant
            from <= i <= to <= s@.len(),
            r@ == s@.subrange(from as int, i as int),
        decreases to - i,
    {
        r.push(s[i]);
        assert(r@ =~= s@.subrange(from as int, i + 1));
        i = i + 1;
    }
    r
}

/// The chars without their trailing whitespace.
pub fn trim_end_chars(s: &Vec<char>) -> (r: Vec<char>)
    ensures
        r@ == trim_end(s@),
{
    let n = count_trailing_ws(s);
    proof {
        lemma_trim_end_take(s@);
    }
    let r = sub_chars(s, 0, s.len() - n);
    assert(r@ =~= s@.take(s@.len() - n));
    r
}

/// The chars without their leading whitespace.
pub fn trim_start_chars(s: &Vec<char>) -> (r: Vec<char>)
    ensures
        r@ == trim_start(s@),
{
    let n = count_leading_ws(s);
    proof {
        lemma_trim_start_skip(s@);
    }
    let r = sub_chars(s, n, s.len());
    assert(r@ =~= s@.skip(n as int));
    r
}

/// The index of the first `\n` in `s`, or its length when there is none.
pub open spec fn line_end(s: Seq<char>) -> nat
    decreases s.len(),
{
    if s.len() == 0 {
        0
    } else if s[0] == '\n' {
        0
    } else {
        1 + line_end(s.drop_first())
    }
}

pub proof fn lemma_line_end(s: Seq<char>)
    ensures
        line_end(s) <= s.len(),
        line_end(s) < s.len() ==> s[line_end(s) as int] == '\n',
        forall|k: int| 0 <= k < line_end(s) ==> s[k] != '\n',
    decreases s.len(),
{
    if s.len() > 0 && s[0] != '\n' {
        lemma_line_end(s.drop_first());
        assert forall|k: int| 0 <= k < line_end(s) implies s[k] != '\n' by {
            if k > 0 {
                assert(s[k] == s.drop_first()[k - 1]);
            }
        }
    }
}

/// A line's text without the `\r` of a `\r\n` ending.
pub open spec fn strip_cr(line: Seq<char>) -> Seq<char> {
    if line.len() > 0 && line.last() == '\r' {
        line.drop_last()
    } else {
        line
    }
}

/// The lines of a text as `str::lines` yields them: split at `\n` or `\r\n`, where
/// a final line ending is optional and a lone `\r` stays in its line.
pub open spec fn lines_of(s: Seq<char>) -> Seq<Seq<char>>
    decreases s.len(),
{
    if s.len() == 0 {
        seq![]
    } else {
        let e = line_end(s);
        if e >= s.len() {
            seq![s]
        } else {
            proof {
                lemma_line_end(s);
            }
            seq![strip_cr(s.take(e as int))] + lines_of(s.skip(e + 1 as int))
        }
    }
}

/// The `k`-th line (from 0) of the text, if it has that many lines.
pub fn nth_line(s: &Vec<char>, k: usize) -> (line: Option<Vec<char>>)
    ensures
        match line {
            Some(l) => k < lines_of(s@).len() && l@ == lines_of(s@)[k as int],
            None => k >= lines_of(s@).len(),
        },
{
    let n = s.len();
    let mut pos: usize = 0;
    let mut idx: usize = 0;
    assert(s@.skip(0) =~= s@);
    assert(lines_of(s@).skip(0) =~= lines_of(s@));
    while pos < n
        invariant
            n == s@.len(),
            pos <= n,
            idx <= k,
            idx <= lines_of(s@).len(),
            lines_of(s@).skip(idx as int) == lines_of(s@.skip(pos as int)),
        decreases n - pos,
    {
        let ghost t = s@.skip(pos as int);
        proof {
            lemma_line_end(t);
        }
        let mut e = pos;
        while e < n && s[e] != '\n'
            invariant
                pos <= e <= n,
                n == s@.len(),
                t == s@.skip(pos as int),
                forall|j: int| pos <= j < e ==> s@[j] != '\n',
            decreases n - e,
        {
            e = e + 1;
        }
        proof {
            assert(line_end(t) == e - pos) by {
                lemma_line_end_exact(t, (e - pos) as int);
            }
        }
        if idx == k {
            let mut line = sub_chars(s, pos, e);
            assert(line@ =~= t.take(e - pos));
            if e < n && line.len() > 0 && line[line.len() - 1] == '\r' {
                line.pop();
            }
            proof {
                assert(t.len() > 0);
                assert(lines_of(t).len() >= 1);
                assert(lines_of(s@).skip(idx as int).len() >= 1);
                assert(idx < lines_of(s@).len());
                assert(lines_of(s@)[idx as int] == lines_of(s@).skip(idx as int)[0]);
                if e >= n {
                    assert(t.take(e - pos) =~= t);
                    assert(lines_of(t)[0] == t);
                } else {
                    assert(lines_of(t)[0] == strip_cr(t.take(e - pos)));
                }
            }
            return Some(line);
        }
        proof {
            if e < n {
                assert(t.skip(e - pos + 1) =~= s@.skip(e + 1));
                assert(lines_of(s@).skip(idx + 1) =~= lines_of(s@).skip(idx as int).drop_first());
            } else {
                assert(s@.skip(n as int) =~= Seq::<char>::empty());
                assert(lines_of(s@).skip(idx + 1) =~= lines_of(s@).skip(idx as int).drop_first());
            }
        }
        pos = if e < n { e + 1 } else { n };
        idx = idx + 1;
    }
    proof {
        assert(s@.skip(n as int) =~= Seq::<char>::empty());
        assert(lines_of(s@).skip(idx as int).len() == 0);
    }
    None
}

proof fn lemma_line_end_exact(t: Seq<char>, e: int)
    requires
        0 <= e <= t.len(),
        forall|j: int| 0 <= j < e ==> t[j] != '\n',
        e < t.len() ==> t[e] == '\n',
    ensures
        line_end(t) == e,
    decreases t.len(),
{
    if t.len() > 0 && e > 0 {
        assert forall|j: int| 0 <= j < e - 1 implies t.drop_first()[j] != '\n' by {
            assert(t.drop_first()[j] == t[j + 1]);
        }
        lemma_line_end_exact(t.drop_first(), e - 1);
    }
}

/// Ten to the power `k`.
pub open spec fn pow10(k: nat) -> nat
    decreases k,
{
    if k == 0 { 1 } else { 10 * pow10((k - 1) as nat) }
}

/// A number below `10^k` has at most `k` decimal digits.
pub proof fn lemma_decimal_len_bound(n: nat, k: nat)
    requires
        k >= 1,
        n < pow10(k),
    ensures
        decimal(n).len() <= k,
    decreases n,
{
    if n >= 10 {
        assert(k >= 2) by {
            if k == 1 {
                assert(pow10(1) == 10 * pow10(0));
            }
        }
        let p = pow10((k - 1) as nat);
        assert(pow10(k) == 10 * p);
        assert(n / 10 < p) by (nonlinear_arith)
            requires
                n < 10 * p,
        ;
        lemma_decimal_len_bound(n / 10, (k - 1) as nat);
    }
}

/// The number of decimal digits of `n`.
pub fn decimal_len(n: u64) -> (len: usize)
    ensures
        len == decimal(n as nat).len(),
    decreases n,
{
    proof {
        assert(pow10(20) == 100000000000000000000nat) by {
            reveal_with_fuel(pow10, 21);
        }
        lemma_decimal_len_bound(n as nat, 20);
    }
    if n < 10 {
        1
    } else {
        1 + decimal_len(n / 10)
    }
}

/// Whether `pat` occurs in `s` at index `i`.
pub open spec fn matches_at(s: Seq<char>, pat: Seq<char>, i: int) -> bool {
    0 <= i && i + pat.len() <= s.len() && s.subrange(i, i + pat.len()) == pat
}

/// The first index, from `i` on, at which `pat` occurs in `s`.
pub open spec fn first_match_from(s: Seq<char>, pat: Seq<char>, i: int) -> Option<int>
    decreases s.len() + 1 - i,
{
    if i < 0 || i + pat.len() > s.len() {
        None
    } else if matches_at(s, pat, i) {
        Some(i)
    } else {
        first_match_from(s, pat, i + 1)
    }
}

/// Trimming the start removes exactly the leading whitespace: what is left is a suffix of
/// the text that does not start with whitespace, and every char removed is whitespace.
pub proof fn lemma_trim_start_law(s: Seq<char>)
    ensures
        trim_start(s).len() <= s.len(),
        trim_start(s) == s.skip(s.len() - trim_start(s).len()),
        trim_start(s).len() > 0 ==> !is_whitespace(trim_start(s)[0]),
        forall|i: int| 0 <= i < s.len() - trim_start(s).len() ==> is_whitespace(#[trigger] s[i]),
    decreases s.len(),
{
    lemma_trim_start_skip(s);
    if s.len() > 0 && is_whitespace(s[0]) {
        lemma_trim_start_law(s.drop_first());
        assert forall|i: int| 0 <= i < s.len() - trim_start(s).len() implies is_whitespace(#[trigger] s[i]) by {
            if i > 0 {
                assert(s[i] == s.drop_first()[i - 1]);
            }
        }
    }
}

/// Trimming the end removes exactly the trailing whitespace: what is left is a prefix of
/// the text that does not end with whitespace, and every char removed is whitespace.
pub proof fn lemma_trim_end_law(s: Seq<char>)
    ensures
        trim_end(s).len() <= s.len(),
        trim_end(s) == s.take(trim_end(s).len() as int),
        trim_end(s).len() > 0 ==> !is_whitespace(trim_end(s).last()),
        forall|i: int| trim_end(s).len() <= i < s.len() ==> is_whitespace(#[trigger] s[i]),
    decreases s.len(),
{
    lemma_trim_end_take(s);
    if s.len() > 0 && is_whitespace(s.last()) {
        lemma_trim_end_law(s.drop_last());
        assert forall|i: int| trim_end(s).len() <= i < s.len() implies is_whitespace(#[trigger] s[i]) by {
            if i < s.len() - 1 {
                assert(s[i] == s.drop_last()[i]);
            }
        }
    }
}

/// Where `first_match_from` can land.
pub proof fn lemma_first_match_from(s: Seq<char>, pat: Seq<char>, i: int)
    requires
        0 <= i,
    ensures
        first_match_from(s, pat, i) matches Some(k) ==> i <= k && matches_at(s, pat, k)
            && forall|j: int| i <= j < k ==> !matches_at(s, pat, j),
        first_match_from(s, pat, i) is None ==> forall|j: int| i <= j ==> !matches_at(s, pat, j),
    decreases s.len() + 1 - i,
{
    if i < 0 || i + pat.len() > s.len() {
    } else if matches_at(s, pat, i) {
    } else {
        lemma_first_match_from(s, pat, i + 1);
    }
}

/// The pieces of `s` between the occurrences of the non-empty `pat` found scanning
/// from index `start`: occurrences are taken leftmost first and do not overlap.
pub open spec fn split_from(s: Seq<char>, pat: Seq<char>, start: int) -> Seq<Seq<char>>
    decreases s.len() - start,
    when pat.len() > 0 && 0 <= start <= s.len()
{
    match first_match_from(s, pat, start) {
        None => seq![s.subrange(start, s.len() as int)],
        Some(k) => {
            proof {
                lemma_first_match_from(s, pat, start);
            }
            seq![s.subrange(start, k)] + split_from(s, pat, k + pat.len())
        },
    }
}

/// The pieces of `s` separated by the non-empty `pat`, as `str::split` yields them.
pub open spec fn split_on(s: Seq<char>, pat: Seq<char>) -> Seq<Seq<char>> {
    split_from(s, pat, 0)
}

/// Splitting always yields at least one piece.
pub proof fn lemma_split_from_nonempty(s: Seq<char>, pat: Seq<char>, start: int)
    requires
        pat.len() > 0,
        0 <= start <= s.len(),
    ensures
        split_from(s, pat, start).len() >= 1,
{
    lemma_first_match_from(s, pat, start);
}

/// The views of vectors of chars.
pub open spec fn char_vecs_view(v: Seq<Vec<char>>) -> Seq<Seq<char>> {
    v.map_values(|c: Vec<char>| c@)
}

/// Whether `pat` occurs in `s` at index `i`.
pub fn chars_match_at(s: &Vec<char>, pat: &Vec<char>, i: usize) -> (b: bool)
    ensures
        b == matches_at(s@, pat@, i as int),
{
    if pat.len() > s.len() || i > s.len() - pat.len() {
        return false;
    }
    let mut k: usize = 0;
    while k < pat.len()
        invariant
            i + pat.len() <= s.len(),
            k <= pat@.len(),
            forall|j: int| 0 <= j < k ==> s@[i + j] == pat@[j],
        decreases pat@.len() - k,
    {
        assert(i + k < s@.len());
        if s[i + k] != pat[k] {
            assert(s@.subrange(i as int, i + pat@.len())[k as int] != pat@[k as int]);
            return false;
        }
        k = k + 1;
    }
    assert(s@.subrange(i as int, i + pat@.len()) =~= pat@);
    true
}

/// Splits `s` at the occurrences of the non-empty `pat`.
pub fn split_chars(s: &Vec<char>, pat: &Vec<char>) -> (parts: Vec<Vec<char>>)
    requires
        pat@.len() > 0,
    ensures
        char_vecs_view(parts@) == split_on(s@, pat@),
{
    let n = s.len();
    let mut parts: Vec<Vec<char>> = Vec::new();
    let mut start: usize = 0;
    let mut i: usize = 0;
    while i <= n && pat.len() <= n - i
        invariant
            n == s@.len(),
            pat@.len() > 0,
            start <= i <= n,
            split_on(s@, pat@) == char_vecs_view(parts@) + split_from(s@, pat@, start as int),
            first_match_from(s@, pat@, start as int) == first_match_from(s@, pat@, i as int),
        decreases n - i,
    {
        if chars_match_at(s, pat, i) {
            let piece = sub_chars(s, start, i);
            proof {
                lemma_first_match_from(s@, pat@, start as int);
                assert(split_from(s@, pat@, start as int) == seq![s@.subrange(start as int, i as int)]
                    + split_from(s@, pat@, i + pat@.len()));
            }
            let ghost before = parts@;
            parts.push(piece);
            assert(char_vecs_view(parts@) =~= char_vecs_view(before).push(s@.subrange(start as int, i as int)));
            start = i + pat.len();
            i = start;
        } else {
            i = i + 1;
        }
    }
    proof {
        assert(first_match_from(s@, pat@, i as int) is None);
        assert(split_from(s@, pat@, start as int) == seq![s@.subrange(start as int, n as int)]);
    }
    let piece = sub_chars(s, start, n);
    let ghost before = parts@;
    parts.push(piece);
    assert(char_vecs_view(parts@) =~= char_vecs_view(before).push(s@.subrange(start as int, n as int)));
    parts
}

} // verus!
