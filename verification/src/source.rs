use vstd::prelude::*;
use vstd::string::*;
use vstd::utf8::*;
use std::path::PathBuf;

verus! {

/// Why decoding the input failed.
#[derive(Debug, Clone, Copy, PartialEq, Eq)]
pub enum DecodeErrorKind {
    /// The input ended inside a multi-byte sequence.
    UnexpectedEof,
    /// The input holds a byte or a sequence that encodes no char.
    InvalidData,
}

/// An error met while decoding UTF-8 input.
#[derive(Debug, Clone, PartialEq, Eq)]
pub struct DecodeError {
    /// The kind of the error.
    pub kind: DecodeErrorKind,
    /// A human-readable description of the error.
    pub message: String,
}

impl DecodeError {
    /// The kind of the error.
    pub fn kind(&self) -> (kind: DecodeErrorKind)
        ensures
            kind == self.kind,
    {
        self.kind
    }

    /// The human-readable description of the error.
    pub fn message(&self) -> (message: &str)
        ensures
            message@ == self.message@,
    {
        self.message.as_str()
    }

    fn new(kind: DecodeErrorKind, message: &str) -> (e: DecodeError)
        ensures
            e.kind == kind,
            e.message@ == message@,
    {
        DecodeError { kind, message: message.to_owned() }
    }
}

/// What decoding gives, with errors taken by kind and message.
pub open spec fn decoded_view(r: Result<Option<char>, DecodeError>) -> Result<Option<char>, (DecodeErrorKind, Seq<char>)> {
    match r {
        Ok(c) => Ok(c),
        Err(e) => Err((e.kind, e.message@)),
    }
}

/// The code point of a two-byte sequence: five bits of the first byte, six of the second.
pub open spec fn code_point_2(b0: u8, b1: u8) -> u32 {
    ((b0 & 0x1F) as u32) << 6 | (b1 & 0x3F) as u32
}

/// The code point of a three-byte sequence.
pub open spec fn code_point_3(b0: u8, b1: u8, b2: u8) -> u32 {
    ((b0 & 0x0F) as u32) << 12 | ((b1 & 0x3F) as u32) << 6 | (b2 & 0x3F) as u32
}

/// The code point of a four-byte sequence.
pub open spec fn code_point_4(b0: u8, b1: u8, b2: u8, b3: u8) -> u32 {
    ((b0 & 0x07) as u32) << 18 | ((b1 & 0x3F) as u32) << 12 | ((b2 & 0x3F) as u32) << 6
        | (b3 & 0x3F) as u32
}

/// The message of an input that ends inside a sequence.
pub open spec fn eof_message() -> Seq<char> {
    "Unexpected end of input"@
}

/// The message of a sequence that encodes no char.
pub open spec fn invalid_sequence_message() -> Seq<char> {
    "Invalid UTF-8 sequence"@
}

/// The message of a byte that starts no sequence.
pub open spec fn invalid_start_message() -> Seq<char> {
    "Invalid UTF-8 start byte"@
}

/// Whether the byte continues a multi-byte sequence: it has the form `10xxxxxx`.
pub open spec fn is_continuation(b: u8) -> bool {
    0x80 <= b <= 0xBF
}

/// The length of the sequence that a start byte `0x80..` opens: two for `0xC0..=0xDF`,
/// three for `0xE0..=0xEF`, four for `0xF0..=0xF7`, none (0) for any other byte.
pub open spec fn sequence_width(b0: u8) -> nat {
    if 0xC0 <= b0 <= 0xDF {
        2
    } else if 0xE0 <= b0 <= 0xEF {
        3
    } else if 0xF0 <= b0 <= 0xF7 {
        4
    } else {
        0
    }
}

/// The smallest code point that needs a sequence of the given width; a smaller one
/// written that long is an overlong encoding.
pub open spec fn min_code_point(width: nat) -> u32 {
    if width == 2 {
        0x80
    } else if width == 3 {
        0x800
    } else {
        0x10000
    }
}

/// The code point that a complete sequence of the given width writes.
pub open spec fn sequence_code_point(bytes: Seq<u8>, width: nat) -> u32 {
    if width == 2 {
        code_point_2(bytes[0], bytes[1])
    } else if width == 3 {
        code_point_3(bytes[0], bytes[1], bytes[2])
    } else {
        code_point_4(bytes[0], bytes[1], bytes[2], bytes[3])
    }
}

/// The first position from `k` on, below `width`, where the sequence lacks a byte or
/// holds one that is no continuation byte; `width` when there is none.
pub open spec fn first_bad(bytes: Seq<u8>, width: int, k: int) -> int
    decreases width - k,
{
    if k >= width {
        width
    } else if k >= bytes.len() || !is_continuation(bytes[k]) {
        k
    } else {
        first_bad(bytes, width, k + 1)
    }
}

/// The first bad position is at most the width, and when it is the width the sequence
/// holds all its continuation bytes.
pub proof fn lemma_first_bad_complete(bytes: Seq<u8>, width: int, k: int)
    requires
        1 <= k <= width,
    ensures
        first_bad(bytes, width, k) <= width,
        first_bad(bytes, width, k) == width && k < width ==> width <= bytes.len(),
        first_bad(bytes, width, k) == width ==> forall|j: int| k <= j < width ==> is_continuation(#[trigger] bytes[j]),
    decreases width - k,
{
    if k < width {
        lemma_first_bad_complete(bytes, width, k + 1);
    }
}

/// Decoding a sequence of the given width at the start of `bytes`: the input ending inside
/// it is an end-of-input error (taking what is left); a byte that does not continue it is
/// invalid (taking the bytes before it); a complete sequence gives its char when its code
/// point is a Unicode scalar value that needs that width, and is invalid otherwise.
pub open spec fn decode_sequence(bytes: Seq<u8>, width: nat) -> (Result<Option<char>, (DecodeErrorKind, Seq<char>)>, nat) {
    let k = first_bad(bytes, width as int, 1);
    if k < width {
        if k >= bytes.len() {
            (Err((DecodeErrorKind::UnexpectedEof, eof_message())), bytes.len())
        } else {
            (Err((DecodeErrorKind::InvalidData, invalid_sequence_message())), k as nat)
        }
    } else {
        let cp = sequence_code_point(bytes, width);
        if cp >= min_code_point(width) && is_scalar(cp) {
            (Ok(Some(cp as char)), width)
        } else {
            (Err((DecodeErrorKind::InvalidData, invalid_sequence_message())), width)
        }
    }
}

/// Decoding the next char of `bytes`: what comes back and how many bytes it takes.
///
/// A start byte `0x00..=0x7F` is a char by itself; `0xC0..=0xDF`, `0xE0..=0xEF` and
/// `0xF0..=0xF7` open sequences of two, three and four bytes (see `decode_sequence`):
/// only valid UTF-8 gives a char. Any other start byte is invalid.
pub open spec fn decode_next(bytes: Seq<u8>) -> (Result<Option<char>, (DecodeErrorKind, Seq<char>)>, nat) {
    if bytes.len() == 0 {
        (Ok(None), 0)
    } else if bytes[0] <= 0x7F {
        (Ok(Some((bytes[0] as u32) as char)), 1)
    } else if sequence_width(bytes[0]) == 0 {
        (Err((DecodeErrorKind::InvalidData, invalid_start_message())), 1)
    } else {
        decode_sequence(bytes, sequence_width(bytes[0]))
    }
}

/// The first bad position is not before where the search starts.
proof fn lemma_first_bad_from(bytes: Seq<u8>, width: int, k: int)
    ensures
        k <= width ==> k <= first_bad(bytes, width, k),
    decreases width - k,
{
    if k < width && k < bytes.len() && is_continuation(bytes[k]) {
        lemma_first_bad_from(bytes, width, k + 1);
    }
}

/// The decoder always makes progress and never reads past the input or past one
/// sequence: on input that is not empty it takes between one and four bytes; an ASCII
/// byte is its own char; a byte that cannot start a sequence (a continuation byte, or
/// `0xF8` and above) is invalid on its own; on empty input it gives nothing.
pub proof fn lemma_decode_progress(bytes: Seq<u8>)
    ensures
        decode_next(bytes) == (Ok::<Option<char>, (DecodeErrorKind, Seq<char>)>(None), 0nat) <==> bytes.len() == 0,
        bytes.len() > 0 ==> 1 <= decode_next(bytes).1 <= 4 && decode_next(bytes).1 <= bytes.len(),
        bytes.len() > 0 && bytes[0] < 0x80 ==> decode_next(bytes) == (Ok::<Option<char>, (DecodeErrorKind, Seq<char>)>(Some((bytes[0] as u32) as char)), 1nat),
        bytes.len() > 0 && ((0x80 <= bytes[0] && bytes[0] <= 0xBF) || bytes[0] >= 0xF8)
            ==> (decode_next(bytes).0 matches Err((kind, _)) && kind == DecodeErrorKind::InvalidData && decode_next(bytes).1 == 1),
{
    if bytes.len() > 0 && sequence_width(bytes[0]) > 0 {
        let w = sequence_width(bytes[0]);
        lemma_first_bad_complete(bytes, w as int, 1);
        lemma_first_bad_from(bytes, w as int, 1);
    }
}

/// Converts a `u32` to the char it denotes.
///
/// Calls `char::from_u32`, which the standard library documents to return the char
/// exactly when the value is a Unicode scalar value (at most `0x10FFFF` and outside
/// the surrogate range `0xD800..=0xDFFF`), and `None` otherwise.
#[verifier::external_body]
pub(crate) fn char_from_u32(cp: u32) -> (c: Option<char>)
    ensures
        c == (if is_scalar(cp) { Some(cp as char) } else { None }),
{
    char::from_u32(cp)
}

/// Reading Unicode chars from a source, one at a time.
pub trait ReadChar {
    /// The next char: `Ok(Some(c))` for a char, `Ok(None)` at the end of the input, or an
    /// error where the input holds no char or ends inside one.
    fn next_char(&mut self) -> Result<Option<char>, DecodeError>;
}

/// Decodes the next char of `input` from position `pos` on (see `decode_next`), giving
/// what comes back and how many bytes it takes.
fn decode_at(input: &Vec<u8>, pos: usize) -> (r: (Result<Option<char>, DecodeError>, usize))
    requires
        pos <= input@.len(),
    ensures
        decoded_view(r.0) == decode_next(input@.skip(pos as int)).0,
        r.1 == decode_next(input@.skip(pos as int)).1,
        pos + r.1 <= input@.len(),
{
    let ghost bytes = input@.skip(pos as int);
    let n = input.len() - pos;
    if n == 0 {
        return (Ok(None), 0);
    }
    let b0 = input[pos];
    assert(bytes[0] == b0);
    if b0 <= 0x7F {
        return (Ok(Some(b0 as char)), 1);
    }
    let width: usize = if 0xC0 <= b0 && b0 <= 0xDF {
        2
    } else if 0xE0 <= b0 && b0 <= 0xEF {
        3
    } else if 0xF0 <= b0 && b0 <= 0xF7 {
        4
    } else {
        return (Err(DecodeError::new(DecodeErrorKind::InvalidData, "Invalid UTF-8 start byte")), 1);
    };
    let mut k: usize = 1;
    while k < width
        invariant
            1 <= k <= width <= 4,
            width == sequence_width(b0),
            pos <= input@.len(),
            pos + n == input@.len(),
            n > 0,
            b0 > 0x7F,
            bytes[0] == b0,
            n == bytes.len(),
            n == input@.len() - pos,
            bytes == input@.skip(pos as int),
            first_bad(bytes, width as int, 1) == first_bad(bytes, width as int, k as int),
            forall|j: int| 1 <= j < k ==> j < n && is_continuation(#[trigger] bytes[j]),
        decreases width - k,
    {
        if k >= n {
            return (Err(DecodeError::new(DecodeErrorKind::UnexpectedEof, "Unexpected end of input")), n);
        }
        assert(pos + k < input@.len());
        assert(input@.len() == input.len());
        let b = input[pos + k];
        assert(bytes[k as int] == b);
        if !(0x80 <= b && b <= 0xBF) {
            return (Err(DecodeError::new(DecodeErrorKind::InvalidData, "Invalid UTF-8 sequence")), k);
        }
        k = k + 1;
    }
    let cp: u32 = if width == 2 {
        ((b0 & 0x1F) as u32) << 6 | (input[pos + 1] & 0x3F) as u32
    } else if width == 3 {
        ((b0 & 0x0F) as u32) << 12 | ((input[pos + 1] & 0x3F) as u32) << 6 | (input[pos + 2] & 0x3F) as u32
    } else {
        ((b0 & 0x07) as u32) << 18 | ((input[pos + 1] & 0x3F) as u32) << 12
            | ((input[pos + 2] & 0x3F) as u32) << 6 | (input[pos + 3] & 0x3F) as u32
    };
    proof {
        assert(bytes[1] == input@[pos + 1]);
        if width >= 3 {
            assert(bytes[2] == input@[pos + 2]);
        }
        if width == 4 {
            assert(bytes[3] == input@[pos + 3]);
        }
        assert(cp == sequence_code_point(bytes, width as nat));
    }
    let min: u32 = if width == 2 {
        0x80
    } else if width == 3 {
        0x800
    } else {
        0x10000
    };
    if cp < min {
        return (Err(DecodeError::new(DecodeErrorKind::InvalidData, "Invalid UTF-8 sequence")), width);
    }
    match char_from_u32(cp) {
        Some(c) => (Ok(Some(c)), width),
        None => (Err(DecodeError::new(DecodeErrorKind::InvalidData, "Invalid UTF-8 sequence")), width),
    }
}

/// UTF-8 encoded input held in memory, read char by char.
#[derive(Debug)]
pub struct UTF8Input {
    input: Vec<u8>,
    pos: usize,
}

impl UTF8Input {
    #[verifier::type_invariant]
    spec fn wf(&self) -> bool {
        self.pos <= self.input@.len()
    }

    /// The bytes that are not read yet.
    pub closed spec fn remaining(&self) -> Seq<u8> {
        self.input@.skip(self.pos as int)
    }

    /// Creates a new `UTF8Input` over the given bytes.
    pub fn new(input: Vec<u8>) -> (r: Self)
        ensures
            r.remaining() == input@,
    {
        let r = Self { input, pos: 0 };
        assert(r.input@.skip(0) =~= r.input@);
        r
    }

    /// Retrieves the next character: `Ok(Some(c))` for a decoded char, `Ok(None)` at the
    /// end of the input, or an error for an incomplete or invalid UTF-8 sequence.
    pub fn next_char(&mut self) -> (c: Result<Option<char>, DecodeError>)
        ensures
            decoded_view(c) == decode_next(old(self).remaining()).0,
            final(self).remaining() == old(self).remaining().skip(decode_next(old(self).remaining()).1 as int),
    {
        proof { use_type_invariant(&*self); }
        let (c, used) = decode_at(&self.input, self.pos);
        assert(self.pos + used <= self.input@.len());
        assert(self.input@.len() == self.input.len());
        proof {
            let bytes = self.input@.skip(self.pos as int);
            assert(self.input@.skip(self.pos + used) =~= bytes.skip(used as int));
        }
        self.pos = self.pos + used;
        c
    }

    /// Reads the remaining chars up to the end of the input, stopping at the first error,
    /// as iterating over the input and collecting the chars does.
    pub fn read_chars(&mut self) -> (r: Result<Vec<char>, DecodeError>)
        ensures
            match r {
                Ok(cs) => decode_all(old(self).remaining()) == Ok::<Seq<char>, (DecodeErrorKind, Seq<char>)>(cs@),
                Err(e) => decode_all(old(self).remaining()) == Err::<Seq<char>, (DecodeErrorKind, Seq<char>)>((e.kind, e.message@)),
            },
    {
        let ghost orig = self.remaining();
        let mut cs: Vec<char> = Vec::new();
        proof {
            match decode_all(orig) {
                Ok(rest) => assert(cs@ + rest =~= rest),
                Err(_) => {},
            }
        }
        loop
            invariant
                orig == old(self).remaining(),
                match decode_all(self.remaining()) {
                    Ok(rest) => decode_all(orig) == Ok::<Seq<char>, (DecodeErrorKind, Seq<char>)>(cs@ + rest),
                    Err(e) => decode_all(orig) == Err::<Seq<char>, (DecodeErrorKind, Seq<char>)>(e),
                },
            decreases self.remaining().len(),
        {
            let ghost before = self.remaining();
            match self.next_char() {
                Ok(Some(c)) => {
                    let ghost n = decode_next(before).1;
                    proof {
                        if before[0] > 0x7F && sequence_width(before[0]) > 0 {
                            lemma_first_bad_complete(before, sequence_width(before[0]) as int, 1);
                        }
                    }
                    assert(0 < n <= before.len());
                    let ghost old_cs = cs@;
                    cs.push(c);
                    proof {
                        match decode_all(self.remaining()) {
                            Ok(rest) => {
                                assert(old_cs + (seq![c] + rest) =~= cs@ + rest);
                            },
                            Err(_) => {},
                        }
                    }
                },
                Ok(None) => {
                    assert(cs@ + Seq::<char>::empty() =~= cs@);
                    return Ok(cs);
                },
                Err(e) => {
                    return Err(e);
                },
            }
        }
    }
}

/// Decoding all of `bytes` char by char: the chars read up to the end of the input,
/// or the first error met.
pub open spec fn decode_all(bytes: Seq<u8>) -> Result<Seq<char>, (DecodeErrorKind, Seq<char>)>
    decreases bytes.len(),
{
    let (r, n) = decode_next(bytes);
    match r {
        Ok(Some(c)) => if 0 < n <= bytes.len() {
            match decode_all(bytes.skip(n as int)) {
                Ok(rest) => Ok(seq![c] + rest),
                Err(e) => Err(e),
            }
        } else {
            Ok(seq![])
        },
        Ok(None) => Ok(seq![]),
        Err(e) => Err(e),
    }
}

/// Decoding the UTF-8 encoding of a char, followed by any bytes, reads back that char
/// and takes exactly the bytes of its encoding.
pub proof fn lemma_decode_encoded_char(c: char, rest: Seq<u8>)
    ensures
        decode_next(encode_scalar(c as u32) + rest) == (
            Ok::<Option<char>, (DecodeErrorKind, Seq<char>)>(Some(c)),
            encode_scalar(c as u32).len(),
        ),
{
    let v = c as u32;
    char_is_scalar(c);
    char_u32_cast(c, v);
    let e = encode_scalar(v);
    let bytes = e + rest;
    reveal_with_fuel(first_bad, 5);
    if has_width_1_encoding(v) {
        let b0 = leading_byte_width_1(v);
        assert(b0 <= 0x7F && b0 as u32 == v) by (bit_vector)
            requires
                v <= 0x7F,
                b0 == (v & 0x7F) as u8,
        ;
        assert(bytes[0] == b0);
    } else if has_width_2_encoding(v) {
        let b0 = leading_byte_width_2(v);
        let b1 = last_continuation_byte(v);
        assert(0xC0 <= b0 <= 0xDF && code_point_2(b0, b1) == v && 0x80 <= b1 <= 0xBF) by (bit_vector)
            requires
                0x80 <= v <= 0x7FF,
                b0 == 0xC0 | ((v >> 6) & 0x1F) as u8,
                b1 == 0x80 | (v & 0x3F) as u8,
        ;
        assert(bytes[0] == b0 && bytes[1] == b1);
        assert(first_bad(bytes, 2, 1) == 2);
    } else if has_width_3_encoding(v) {
        let b0 = leading_byte_width_3(v);
        let b1 = second_last_continuation_byte(v);
        let b2 = last_continuation_byte(v);
        assert(0xE0 <= b0 <= 0xEF && code_point_3(b0, b1, b2) == v && 0x80 <= b1 <= 0xBF
            && 0x80 <= b2 <= 0xBF) by (bit_vector)
            requires
                0x800 <= v <= 0xFFFF,
                b0 == 0xE0 | ((v >> 12) & 0x0F) as u8,
                b1 == 0x80 | ((v >> 6) & 0x3F) as u8,
                b2 == 0x80 | (v & 0x3F) as u8,
        ;
        assert(bytes[0] == b0 && bytes[1] == b1 && bytes[2] == b2);
        assert(first_bad(bytes, 3, 1) == 3);
    } else {
        let b0 = leading_byte_width_4(v);
        let b1 = third_last_continuation_byte(v);
        let b2 = second_last_continuation_byte(v);
        let b3 = last_continuation_byte(v);
        assert(0xF0 <= b0 <= 0xF7 && code_point_4(b0, b1, b2, b3) == v && 0x80 <= b1 <= 0xBF
            && 0x80 <= b2 <= 0xBF && 0x80 <= b3 <= 0xBF) by (bit_vector)
            requires
                0x10000 <= v <= 0x10FFFF,
                b0 == 0xF0 | ((v >> 18) & 0x7) as u8,
                b1 == 0x80 | ((v >> 12) & 0x3F) as u8,
                b2 == 0x80 | ((v >> 6) & 0x3F) as u8,
                b3 == 0x80 | (v & 0x3F) as u8,
        ;
        assert(bytes[0] == b0 && bytes[1] == b1 && bytes[2] == b2 && bytes[3] == b3);
        assert(first_bad(bytes, 4, 1) == 4);
    }
}

/// Reading the UTF-8 encoding of a text char by char gives back the text.
pub proof fn lemma_decode_all_encoded(chars: Seq<char>)
    ensures
        decode_all(encode_utf8(chars)) == Ok::<Seq<char>, (DecodeErrorKind, Seq<char>)>(chars),
    decreases chars.len(),
{
    if chars.len() == 0 {
        assert(encode_utf8(chars) =~= Seq::<u8>::empty());
        assert(chars =~= Seq::<char>::empty());
    } else {
        let c = chars[0];
        let rest = encode_utf8(chars.drop_first());
        let bytes = encode_utf8(chars);
        assert(bytes == encode_scalar(c as u32) + rest);
        lemma_decode_encoded_char(c, rest);
        let n = encode_scalar(c as u32).len();
        assert(bytes.skip(n as int) =~= rest);
        lemma_decode_all_encoded(chars.drop_first());
        assert(1 <= n <= 4);
        assert(bytes.len() == n + rest.len());
        assert(decode_next(bytes).1 == n);
        assert(decode_all(bytes.skip(n as int)) == Ok::<Seq<char>, (DecodeErrorKind, Seq<char>)>(chars.drop_first()));
        assert(seq![c] + chars.drop_first() =~= chars);
        assert(decode_all(bytes) == Ok::<Seq<char>, (DecodeErrorKind, Seq<char>)>(seq![c] + chars.drop_first()));
    }
}

/// A source of Roan code: UTF-8 input, read char by char, and the path of the file it
/// comes from, if any.
#[derive(Debug)]
pub struct Source {
    reader: UTF8Input,
    path: Option<PathBuf>,
}

impl Source {
    /// The bytes of the source that are not read yet.
    pub closed spec fn remaining(&self) -> Seq<u8> {
        self.reader.remaining()
    }

    /// The path of the source, if any.
    pub closed spec fn spec_path(&self) -> Option<PathBuf> {
        self.path
    }

    /// Creates a new `Source` from a `String`, with an optional path.
    pub fn from_string(string: String, path: Option<PathBuf>) -> (source: Self)
        ensures
            source.remaining() == encode_utf8(string@),
            source.spec_path() == path,
    {
        let bytes = string.as_str().as_bytes();
        let source = Self { reader: UTF8Input::new(copy_bytes(bytes)), path };
        source
    }

    /// Creates a new `Source` from a byte slice, with no path.
    pub fn from_bytes(source: &[u8]) -> (s: Self)
        ensures
            s.remaining() == source@,
            s.spec_path() is None,
    {
        Self { reader: UTF8Input::new(copy_bytes(source)), path: None }
    }

    /// Sets or updates the path of this `Source`.
    pub fn with_path(self, new_path: PathBuf) -> (source: Self)
        ensures
            source.remaining() == self.remaining(),
            source.spec_path() == Some(new_path),
    {
        Source { reader: self.reader, path: Some(new_path) }
    }

    /// Returns the path associated with this `Source`, if any.
    pub fn path(&self) -> (path: Option<&PathBuf>)
        ensures
            match path {
                Some(p) => self.spec_path() == Some(*p),
                None => self.spec_path() is None,
            },
    {
        match &self.path {
            Some(p) => Some(p),
            None => None,
        }
    }

    /// Retrieves the next character from the source.
    pub fn next_char(&mut self) -> (c: Result<Option<char>, DecodeError>)
        ensures
            decoded_view(c) == decode_next(old(self).remaining()).0,
            final(self).remaining() == old(self).remaining().skip(decode_next(old(self).remaining()).1 as int),
            final(self).spec_path() == old(self).spec_path(),
    {
        self.reader.next_char()
    }

    /// Reads the remaining chars of the source up to its end, stopping at the first error.
    pub fn read_chars(&mut self) -> (r: Result<Vec<char>, DecodeError>)
        ensures
            match r {
                Ok(cs) => decode_all(old(self).remaining()) == Ok::<Seq<char>, (DecodeErrorKind, Seq<char>)>(cs@),
                Err(e) => decode_all(old(self).remaining()) == Err::<Seq<char>, (DecodeErrorKind, Seq<char>)>((e.kind, e.message@)),
            },
            final(self).spec_path() == old(self).spec_path(),
    {
        self.reader.read_chars()
    }
}

impl ReadChar for UTF8Input {
    fn next_char(&mut self) -> (c: Result<Option<char>, DecodeError>)
        ensures
            decoded_view(c) == decode_next(old(self).remaining()).0,
            final(self).remaining() == old(self).remaining().skip(decode_next(old(self).remaining()).1 as int),
    {
        UTF8Input::next_char(self)
    }
}

impl ReadChar for Source {
    fn next_char(&mut self) -> (c: Result<Option<char>, DecodeError>)
        ensures
            decoded_view(c) == decode_next(old(self).remaining()).0,
            final(self).remaining() == old(self).remaining().skip(decode_next(old(self).remaining()).1 as int),
            final(self).spec_path() == old(self).spec_path(),
    {
        Source::next_char(self)
    }
}

/// A copy of the bytes.
fn copy_bytes(bytes: &[u8]) -> (v: Vec<u8>)
    ensures
        v@ == bytes@,
{
    let mut v: Vec<u8> = Vec::new();
    let mut i: usize = 0;
    while i < bytes.len()
        invariant
            i <= bytes@.len(),
            v@ == bytes@.take(i as int),
        decreases bytes@.len() - i,
    {
        v.push(bytes[i]);
        assert(v@ =~= bytes@.take(i + 1));
        i = i + 1;
    }
    assert(bytes@.take(bytes@.len() as int) =~= bytes@);
    v
}

} // verus!
