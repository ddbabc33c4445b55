use vstd::prelude::*;
use vstd::string::*;
use vstd::utf8::*;
use crate::position::Position;
use crate::text::{decimal, push_char, push_str, u64_to_decimal};

verus! {

broadcast use {vstd::utf8::encode_utf8_valid_utf8, vstd::utf8::is_char_boundary_start_end_of_seq};

/// Represents a span of text between two positions, including the literal text.
#[derive(Debug, Clone, PartialEq, Eq)]
pub struct TextSpan {
    /// The starting position of the text span.
    pub start: Position,
    /// The ending position of the text span.
    pub end: Position,
    /// The literal text contained in the span.
    pub literal: String,
}

/// The result of inserting `x` into `sorted` after every span whose start index is
/// not greater than that of `x` (the step of a stable sort by start index).
pub open spec fn insert_by_start(sorted: Seq<TextSpan>, x: TextSpan) -> Seq<TextSpan>
    decreases sorted.len(),
{
    if sorted.len() == 0 {
        seq![x]
    } else if sorted.last().start.index <= x.start.index {
        sorted.push(x)
    } else {
        insert_by_start(sorted.drop_last(), x).push(sorted.last())
    }
}

/// The spans stably sorted by the byte index of their start position: spans with
/// equal start indices keep their relative order.
pub open spec fn sort_by_start(spans: Seq<TextSpan>) -> Seq<TextSpan>
    decreases spans.len(),
{
    if spans.len() == 0 {
        seq![]
    } else {
        insert_by_start(sort_by_start(spans.drop_last()), spans.last())
    }
}

/// The literals of the spans, concatenated in order.
pub open spec fn concat_literals(spans: Seq<TextSpan>) -> Seq<char>
    decreases spans.len(),
{
    if spans.len() == 0 {
        seq![]
    } else {
        concat_literals(spans.drop_last()) + spans.last().literal@
    }
}

/// True when the spans are ordered by the byte index of their start position.
pub open spec fn sorted_by_start(spans: Seq<TextSpan>) -> bool {
    forall|i: int, j: int| 0 <= i <= j < spans.len() ==> spans[i].start.index <= spans[j].start.index
}

/// Spans already in order of their start indices stay as they are: combining them
/// concatenates their literals in the order given.
pub proof fn lemma_sort_by_start_of_sorted(spans: Seq<TextSpan>)
    requires
        sorted_by_start(spans),
    ensures
        sort_by_start(spans) == spans,
    decreases spans.len(),
{
    if spans.len() > 0 {
        let rest = spans.drop_last();
        assert(sorted_by_start(rest));
        lemma_sort_by_start_of_sorted(rest);
        if rest.len() > 0 {
            assert(rest.last().start.index <= spans.last().start.index);
        }
        assert(rest.push(spans.last()) =~= spans);
    }
}

/// Inserting a span adds it to the spans, in the sense of multisets.
proof fn lemma_insert_multiset(t: Seq<TextSpan>, x: TextSpan)
    ensures
        insert_by_start(t, x).to_multiset() == t.to_multiset().insert(x),
    decreases t.len(),
{
    broadcast use vstd::seq_lib::group_to_multiset_ensures, vstd::multiset::group_multiset_axioms;

    if t.len() == 0 {
        assert(seq![x] =~= Seq::<TextSpan>::empty().push(x));
        assert(t =~= Seq::<TextSpan>::empty());
    } else if t.last().start.index <= x.start.index {
    } else {
        let r = t.drop_last();
        lemma_insert_multiset(r, x);
        assert(r.push(t.last()) =~= t);
        assert(r.to_multiset().insert(x).insert(t.last()) =~= r.to_multiset().insert(t.last()).insert(x));
    }
}

/// Sorting keeps the spans, in the sense of multisets.
pub proof fn lemma_sort_by_start_multiset(spans: Seq<TextSpan>)
    ensures
        sort_by_start(spans).to_multiset() == spans.to_multiset(),
    decreases spans.len(),
{
    broadcast use vstd::seq_lib::group_to_multiset_ensures, vstd::multiset::group_multiset_axioms;

    if spans.len() == 0 {
        assert(sort_by_start(spans) =~= spans);
    } else {
        let r = spans.drop_last();
        lemma_sort_by_start_multiset(r);
        lemma_insert_multiset(sort_by_start(r), spans.last());
        assert(r.push(spans.last()) =~= spans);
    }
}

/// Two sequences ordered by start index that hold the same spans are equal, when spans
/// that start at the same index are the same span.
proof fn lemma_sorted_unique(s: Seq<TextSpan>, t: Seq<TextSpan>)
    requires
        sorted_by_start(s),
        sorted_by_start(t),
        s.to_multiset() == t.to_multiset(),
        forall|x: TextSpan, y: TextSpan|
            s.to_multiset().contains(x) && s.to_multiset().contains(y) && x.start.index == y.start.index
                ==> x == y,
    ensures
        s == t,
    decreases s.len(),
{
    broadcast use vstd::seq_lib::group_to_multiset_ensures, vstd::multiset::group_multiset_axioms;

    assert(s.len() == s.to_multiset().len());
    assert(t.len() == t.to_multiset().len());
    if s.len() == 0 {
        assert(s =~= t);
    } else {
        let m = s.to_multiset();
        assert(s.contains(s[0]));
        assert(m.count(s[0]) > 0);
        assert(t.contains(s[0]));
        let k = choose|k: int| 0 <= k < t.len() && t[k] == s[0];
        assert(t[0].start.index <= t[k].start.index);
        assert(t.contains(t[0]));
        assert(m.count(t[0]) > 0);
        assert(s.contains(t[0]));
        let l = choose|l: int| 0 <= l < s.len() && s[l] == t[0];
        assert(s[0].start.index <= s[l].start.index);
        assert(s[0].start.index == t[0].start.index);
        assert(m.contains(s[0]) && m.contains(t[0]));
        assert(s[0] == t[0]);
        let s1 = s.remove(0);
        let t1 = t.remove(0);
        assert(s1 =~= s.drop_first());
        assert(t1 =~= t.drop_first());
        assert(s1.to_multiset() == m.remove(s[0]));
        assert(t1.to_multiset() == m.remove(t[0]));
        assert forall|x: TextSpan, y: TextSpan|
            s1.to_multiset().contains(x) && s1.to_multiset().contains(y) && x.start.index == y.start.index
            implies x == y by {
            assert(m.contains(x) && m.contains(y));
        }
        lemma_sorted_unique(s1, t1);
        assert(s =~= seq![s[0]] + s1);
        assert(t =~= seq![t[0]] + t1);
    }
}

/// The order in which spans come does not change what combining them gives, when spans
/// that start at the same index are the same span: two arrangements of the same spans
/// sort alike.
pub proof fn lemma_combine_order_free(a: Seq<TextSpan>, b: Seq<TextSpan>)
    requires
        a.to_multiset() == b.to_multiset(),
        forall|i: int, j: int|
            0 <= i < a.len() && 0 <= j < a.len() && a[i].start.index == a[j].start.index ==> a[i] == a[j],
    ensures
        sort_by_start(a) == sort_by_start(b),
{
    broadcast use vstd::seq_lib::group_to_multiset_ensures, vstd::multiset::group_multiset_axioms;

    lemma_sort_by_start_multiset(a);
    lemma_sort_by_start_multiset(b);
    lemma_sort_by_start_sorted(a);
    lemma_sort_by_start_sorted(b);
    let m = a.to_multiset();
    assert forall|x: TextSpan, y: TextSpan|
        m.contains(x) && m.contains(y) && x.start.index == y.start.index implies x == y by {
        assert(a.contains(x) && a.contains(y));
        let i = choose|i: int| 0 <= i < a.len() && a[i] == x;
        let j = choose|j: int| 0 <= j < a.len() && a[j] == y;
    }
    lemma_sorted_unique(sort_by_start(a), sort_by_start(b));
}

/// Inserting at position `j`, found by scanning back over the larger keys, gives `insert_by_start`.
proof fn lemma_insert_at(s: Seq<TextSpan>, x: TextSpan, j: int)
    requires
        0 <= j <= s.len(),
        forall|k: int| j <= k < s.len() ==> s[k].start.index > x.start.index,
        j == 0 || s[j - 1].start.index <= x.start.index,
    ensures
        insert_by_start(s, x) == s.take(j).push(x) + s.skip(j),
    decreases s.len(),
{
    if s.len() == j {
        assert(s.skip(j) =~= Seq::<TextSpan>::empty());
        assert(s.take(j) =~= s);
        if j == 0 {
            assert(s.take(j).push(x) =~= seq![x]);
        }
        assert(s.take(j).push(x) + s.skip(j) =~= s.push(x));
    } else {
        let t = s.drop_last();
        lemma_insert_at(t, x, j);
        assert(t.take(j) =~= s.take(j));
        assert(t.skip(j).push(s.last()) =~= s.skip(j));
        assert((t.take(j).push(x) + t.skip(j)).push(s.last()) =~= s.take(j).push(x) + s.skip(j));
    }
}

/// `insert_by_start` keeps a sorted sequence sorted.
proof fn lemma_insert_sorted(s: Seq<TextSpan>, x: TextSpan)
    requires
        sorted_by_start(s),
    ensures
        sorted_by_start(insert_by_start(s, x)),
        insert_by_start(s, x).len() == s.len() + 1,
    decreases s.len(),
{
    if s.len() > 0 && s.last().start.index > x.start.index {
        let t = s.drop_last();
        lemma_insert_sorted(t, x);
        let r = insert_by_start(t, x);
        assert forall|k: int| 0 <= k < r.len() implies r[k].start.index <= s.last().start.index by {
            lemma_insert_member(t, x, k);
        }
    }
}

/// Every span of `insert_by_start(s, x)` is `x` or one of `s`.
proof fn lemma_insert_member(s: Seq<TextSpan>, x: TextSpan, k: int)
    requires
        0 <= k < s.len() + 1,
        sorted_by_start(s),
    ensures
        insert_by_start(s, x).len() == s.len() + 1,
        insert_by_start(s, x)[k] == x || exists|m: int| 0 <= m < s.len() && insert_by_start(s, x)[k] == s[m],
    decreases s.len(),
{
    if s.len() > 0 && s.last().start.index > x.start.index {
        let t = s.drop_last();
        if k < s.len() {
            lemma_insert_member(t, x, k);
            if insert_by_start(s, x)[k] != x {
                let m = choose|m: int| 0 <= m < t.len() && insert_by_start(t, x)[k] == t[m];
                assert(insert_by_start(s, x)[k] == s[m]);
            }
        } else {
            lemma_insert_member(t, x, 0);
            assert(insert_by_start(s, x)[k] == s[s.len() - 1]);
        }
    } else if s.len() > 0 {
        if k < s.len() {
            assert(insert_by_start(s, x)[k] == s[k]);
        }
    }
}

/// A stable sort by start index yields a sequence ordered by start index with as many spans.
pub proof fn lemma_sort_by_start_sorted(spans: Seq<TextSpan>)
    ensures
        sorted_by_start(sort_by_start(spans)),
        sort_by_start(spans).len() == spans.len(),
    decreases spans.len(),
{
    if spans.len() > 0 {
        lemma_sort_by_start_sorted(spans.drop_last());
        lemma_insert_sorted(sort_by_start(spans.drop_last()), spans.last());
    }
}

/// `insert_by_start` keeps every span it was given.
proof fn lemma_insert_keeps(s: Seq<TextSpan>, x: TextSpan)
    ensures
        insert_by_start(s, x).contains(x),
        forall|m: int| 0 <= m < s.len() ==> insert_by_start(s, x).contains(#[trigger] s[m]),
    decreases s.len(),
{
    let r = insert_by_start(s, x);
    if s.len() == 0 {
        assert(r[0] == x);
    } else if s.last().start.index <= x.start.index {
        assert(r[s.len() as int] == x);
        assert forall|m: int| 0 <= m < s.len() implies r.contains(#[trigger] s[m]) by {
            assert(r[m] == s[m]);
        }
    } else {
        let t = s.drop_last();
        lemma_insert_keeps(t, x);
        let q = insert_by_start(t, x);
        let k = choose|k: int| 0 <= k < q.len() && q[k] == x;
        assert(r[k] == x);
        assert forall|m: int| 0 <= m < s.len() implies r.contains(#[trigger] s[m]) by {
            if m == s.len() - 1 {
                assert(r[r.len() - 1] == s[m]);
            } else {
                assert(t[m] == s[m]);
                let k2 = choose|k2: int| 0 <= k2 < q.len() && q[k2] == t[m];
                assert(r[k2] == s[m]);
            }
        }
    }
}

/// Every span given to the stable sort appears in its result.
pub proof fn lemma_sort_by_start_keeps(spans: Seq<TextSpan>)
    ensures
        forall|m: int| 0 <= m < spans.len() ==> sort_by_start(spans).contains(#[trigger] spans[m]),
    decreases spans.len(),
{
    if spans.len() > 0 {
        let t = spans.drop_last();
        lemma_sort_by_start_keeps(t);
        let st = sort_by_start(t);
        lemma_insert_keeps(st, spans.last());
        let r = sort_by_start(spans);
        assert forall|m: int| 0 <= m < spans.len() implies r.contains(#[trigger] spans[m]) by {
            if m < spans.len() - 1 {
                assert(t[m] == spans[m]);
                let k = choose|k: int| 0 <= k < st.len() && st[k] == t[m];
                assert(st.contains(st[k]));
            }
        }
    }
}

impl TextSpan {
    /// Creates a new `TextSpan` from a starting position, an ending position, and a literal string.
    pub fn new(start: Position, end: Position, literal: String) -> (span: Self)
        ensures
            span.start == start,
            span.end == end,
            span.literal == literal,
    {
        Self { start, end, literal }
    }

    /// A copy of this span.
    pub fn duplicate(&self) -> (span: Self)
        ensures
            span == *self,
    {
        TextSpan { start: self.start, end: self.end, literal: self.literal.clone() }
    }

    /// Stably sorts the spans by the byte index of their start position.
    fn sort_spans(spans: Vec<TextSpan>) -> (sorted: Vec<TextSpan>)
        ensures
            sorted@ == sort_by_start(spans@),
    {
        let ghost given = spans@;
        let mut rest = spans;
        let mut sorted: Vec<TextSpan> = Vec::new();
        let n = rest.len();
        let mut i: usize = 0;
        assert(given.take(0) =~= Seq::<TextSpan>::empty());
        assert(given.skip(0) =~= given);
        while i < n
            invariant
                n == given.len(),
                i <= n,
                rest@ == given.skip(i as int),
                sorted@ == sort_by_start(given.take(i as int)),
            decreases n - i,
        {
            let x = rest.remove(0);
            assert(x == given[i as int]);
            assert(rest@ =~= given.skip(i + 1));
            let ghost s = sorted@;
            let mut j = sorted.len();
            while j > 0 && sorted[j - 1].start.index > x.start.index
                invariant
                    j <= s.len(),
                    sorted@ == s,
                    forall|k: int| j <= k < s.len() ==> s[k].start.index > x.start.index,
                decreases j,
            {
                j = j - 1;
            }
            proof {
                lemma_insert_at(s, x, j as int);
                assert(s.take(j as int).push(x) + s.skip(j as int) =~= s.insert(j as int, x));
                assert(given.take(i + 1).drop_last() =~= given.take(i as int));
            }
            sorted.insert(j, x);
            i = i + 1;
        }
        assert(given.take(n as int) =~= given);
        sorted
    }

    /// Combines multiple `TextSpan` objects into one. The spans are sorted by their starting
    /// positions; the result spans from the start of the first span to the end of the last
    /// span, with the concatenated literal text. `None` when there are no spans.
    pub fn combine(spans: Vec<TextSpan>) -> (combined: Option<TextSpan>)
        ensures
            combined is None <==> spans@.len() == 0,
            combined matches Some(c) ==> {
                &&& c.start == sort_by_start(spans@)[0].start
                &&& c.end == sort_by_start(spans@).last().end
                &&& c.literal@ == concat_literals(sort_by_start(spans@))
                &&& forall|i: int| 0 <= i < spans@.len() ==> c.start.index <= #[trigger] spans@[i].start.index
            },
    {
        if spans.len() == 0 {
            return None;
        }
        let ghost given = spans@;
        let sorted = Self::sort_spans(spans);
        proof {
            lemma_sort_by_start_sorted(given);
            lemma_sort_by_start_keeps(given);
            assert forall|i: int| 0 <= i < given.len() implies sorted@[0].start.index <= #[trigger] given[i].start.index by {
                let k = choose|k: int| 0 <= k < sorted@.len() && sorted@[k] == given[i];
            }
        }
        let start = sorted[0].start;
        let end = sorted[sorted.len() - 1].end;
        let mut literal = String::new();
        let mut i: usize = 0;
        assert(sorted@.take(0) =~= Seq::<TextSpan>::empty());
        while i < sorted.len()
            invariant
                i <= sorted@.len(),
                literal@ == concat_literals(sorted@.take(i as int)),
            decreases sorted@.len() - i,
        {
            push_str(&mut literal, sorted[i].literal.as_str());
            assert(sorted@.take(i + 1).drop_last() =~= sorted@.take(i as int));
            i = i + 1;
        }
        assert(sorted@.take(sorted@.len() as int) =~= sorted@);
        Some(TextSpan::new(start, end, literal))
    }

    /// Returns the length of the span in bytes: the difference between the end and start indices.
    pub fn length(&self) -> (len: usize)
        requires
            self.start.index <= self.end.index,
        ensures
            len == self.end.index - self.start.index,
    {
        self.end.index - self.start.index
    }

    /// Extracts the literal text from the given input string: the bytes between the
    /// span's start and end indices.
    pub fn literal<'a>(&self, input: &'a str) -> (text: &'a str)
        requires
            self.start.index <= self.end.index <= input.spec_bytes().len(),
            is_char_boundary(input.spec_bytes(), self.start.index as int),
            is_char_boundary(input.spec_bytes(), self.end.index as int),
        ensures
            text.spec_bytes() == input.spec_bytes().subrange(self.start.index as int, self.end.index as int),
    {
        let ghost bytes = input.spec_bytes();
        let (_, rest) = input.split_at(self.start.index);
        let mid = self.end.index - self.start.index;
        proof {
            let r = rest.spec_bytes();
            assert(valid_utf8(bytes));
            if mid as int == r.len() {
            } else {
                is_char_boundary_iff_not_is_continuation_byte(bytes, self.end.index as int);
                is_char_boundary_iff_not_is_continuation_byte(r, mid as int);
                assert(r[mid as int] == bytes[self.end.index as int]);
            }
        }
        let (text, _) = rest.split_at(mid);
        proof {
            assert(text.spec_bytes() =~= bytes.subrange(self.start.index as int, self.end.index as int));
        }
        text
    }

    /// Formats the span as `"literal" (line:column)`.
    pub fn to_debug_string(&self) -> (s: String)
        ensures
            s@ == "\""@ + self.literal@ + "\" ("@ + decimal(self.start.line as nat) + ":"@
                + decimal(self.start.column as nat) + ")"@,
    {
        let mut s = String::new();
        push_str(&mut s, "\"");
        push_str(&mut s, self.literal.as_str());
        push_str(&mut s, "\" (");
        let l = u64_to_decimal(self.start.line as u64);
        push_str(&mut s, l.as_str());
        push_str(&mut s, ":");
        let c = u64_to_decimal(self.start.column as u64);
        push_str(&mut s, c.as_str());
        push_str(&mut s, ")");
        s
    }
}

impl Default for TextSpan {
    /// A span with default start and end positions and an empty literal.
    fn default() -> (span: Self)
        ensures
            span.start.line == 1 && span.start.column == 1 && span.start.index == 0,
            span.end.line == 1 && span.end.column == 1 && span.end.index == 0,
            span.literal@ == Seq::<char>::empty(),
    {
        Self { start: Position::default(), end: Position::default(), literal: String::new() }
    }
}

} // verus!
