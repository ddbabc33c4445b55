use vstd::prelude::*;
use crate::interpreter::types::ResolvedType;

verus! {

/// The kinds of Roan values.
#[derive(Debug, Clone, Copy, PartialEq, Eq)]
pub enum ValueKind {
    Int,
    Float,
    Bool,
    String,
    Char,
    Object,
    Vec,
    Struct,
    Null,
    Void,
}

/// A built-in method of Roan values, named by the kind of value it belongs to and its name.
#[derive(Debug, Clone, Copy, PartialEq, Eq)]
pub enum BuiltinMethod {
    VecLen,
    VecNext,
    StringLen,
    StringSplit,
    StringChars,
    StringContains,
    StringStartsWith,
    StringEndsWith,
    StringReplace,
    StringTrim,
    StringTrimStart,
    StringTrimEnd,
    StringToUppercase,
    StringToLowercase,
    StringReverse,
    StringCharAt,
    StringCharCodeAt,
    StringSlice,
    StringIndexOf,
    StringLastIndexOf,
    CharIsAlphabetic,
    CharIsAlphanumeric,
    CharIsAscii,
    CharIsAsciiAlphabetic,
    CharIsAsciiAlphanumeric,
    CharIsAsciiControl,
    CharIsAsciiDigit,
    CharIsAsciiGraphic,
    CharIsAsciiLowercase,
    CharIsAsciiPunctuation,
    CharIsAsciiUppercase,
    CharIsAsciiWhitespace,
    CharIsControl,
    CharIsDigit,
    CharIsLowercase,
    CharIsNumeric,
    CharIsUppercase,
    CharIsWhitespace,
    CharToAsciiLowercase,
    CharToAsciiUppercase,
    CharToLowercase,
    CharToUppercase,
    CharIsDigitInBase,
    CharEscapeDefault,
    CharEscapeUnicode,
    CharFromDigit,
    CharLenUtf8,
    CharToString,
    CharToInt,
}

/// The built-in method of the given name on values of the given kind: vectors have `len`
/// and `next`, strings and chars the methods of `methods::strings` and `methods::chars`
/// listed here, and no other kind has any.
pub open spec fn method_table(kind: ValueKind, name: Seq<char>) -> Option<BuiltinMethod> {
    match kind {
        ValueKind::Vec => if name == "len"@ {
            Some(BuiltinMethod::VecLen)
        } else if name == "next"@ {
            Some(BuiltinMethod::VecNext)
        } else {
            None
        },
        ValueKind::String => if name == "len"@ {
            Some(BuiltinMethod::StringLen)
        } else if name == "split"@ {
            Some(BuiltinMethod::StringSplit)
        } else if name == "chars"@ {
            Some(BuiltinMethod::StringChars)
        } else if name == "contains"@ {
            Some(BuiltinMethod::StringContains)
        } else if name == "starts_with"@ {
            Some(BuiltinMethod::StringStartsWith)
        } else if name == "ends_with"@ {
            Some(BuiltinMethod::StringEndsWith)
        } else if name == "replace"@ {
            Some(BuiltinMethod::StringReplace)
        } else if name == "trim"@ {
            Some(BuiltinMethod::StringTrim)
        } else if name == "trim_start"@ {
            Some(BuiltinMethod::StringTrimStart)
        } else if name == "trim_end"@ {
            Some(BuiltinMethod::StringTrimEnd)
        } else if name == "to_uppercase"@ {
            Some(BuiltinMethod::StringToUppercase)
        } else if name == "to_lowercase"@ {
            Some(BuiltinMethod::StringToLowercase)
        } else if name == "reverse"@ {
            Some(BuiltinMethod::StringReverse)
        } else if name == "char_at"@ {
            Some(BuiltinMethod::StringCharAt)
        } else if name == "char_code_at"@ {
            Some(BuiltinMethod::StringCharCodeAt)
        } else if name == "slice"@ {
            Some(BuiltinMethod::StringSlice)
        } else if name == "index_of"@ {
            Some(BuiltinMethod::StringIndexOf)
        } else if name == "last_index_of"@ {
            Some(BuiltinMethod::StringLastIndexOf)
        } else {
            None
        },
        ValueKind::Char => if name == "is_alphabetic"@ {
            Some(BuiltinMethod::CharIsAlphabetic)
        } else if name == "is_alphanumeric"@ {
            Some(BuiltinMethod::CharIsAlphanumeric)
        } else if name == "is_ascii"@ {
            Some(BuiltinMethod::CharIsAscii)
        } else if name == "is_ascii_alphabetic"@ {
            Some(BuiltinMethod::CharIsAsciiAlphabetic)
        } else if name == "is_ascii_alphanumeric"@ {
            Some(BuiltinMethod::CharIsAsciiAlphanumeric)
        } else if name == "is_ascii_control"@ {
            Some(BuiltinMethod::CharIsAsciiControl)
        } else if name == "is_ascii_digit"@ {
            Some(BuiltinMethod::CharIsAsciiDigit)
        } else if name == "is_ascii_graphic"@ {
            Some(BuiltinMethod::CharIsAsciiGraphic)
        } else if name == "is_ascii_lowercase"@ {
            Some(BuiltinMethod::CharIsAsciiLowercase)
        } else if name == "is_ascii_punctuation"@ {
            Some(BuiltinMethod::CharIsAsciiPunctuation)
        } else if name == "is_ascii_uppercase"@ {
            Some(BuiltinMethod::CharIsAsciiUppercase)
        } else if name == "is_ascii_whitespace"@ {
            Some(BuiltinMethod::CharIsAsciiWhitespace)
        } else if name == "is_control"@ {
            Some(BuiltinMethod::CharIsControl)
        } else if name == "is_digit"@ {
            Some(BuiltinMethod::CharIsDigit)
        } else if name == "is_lowercase"@ {
            Some(BuiltinMethod::CharIsLowercase)
        } else if name == "is_numeric"@ {
            Some(BuiltinMethod::CharIsNumeric)
        } else if name == "is_uppercase"@ {
            Some(BuiltinMethod::CharIsUppercase)
        } else if name == "is_whitespace"@ {
            Some(BuiltinMethod::CharIsWhitespace)
        } else if name == "to_ascii_lowercase"@ {
            Some(BuiltinMethod::CharToAsciiLowercase)
        } else if name == "to_ascii_uppercase"@ {
            Some(BuiltinMethod::CharToAsciiUppercase)
        } else if name == "to_lowercase"@ {
            Some(BuiltinMethod::CharToLowercase)
        } else if name == "to_uppercase"@ {
            Some(BuiltinMethod::CharToUppercase)
        } else if name == "is_digit_in_base"@ {
            Some(BuiltinMethod::CharIsDigitInBase)
        } else if name == "escape_default"@ {
            Some(BuiltinMethod::CharEscapeDefault)
        } else if name == "escape_unicode"@ {
            Some(BuiltinMethod::CharEscapeUnicode)
        } else if name == "from_digit"@ {
            Some(BuiltinMethod::CharFromDigit)
        } else if name == "len_utf8"@ {
            Some(BuiltinMethod::CharLenUtf8)
        } else if name == "to_string"@ {
            Some(BuiltinMethod::CharToString)
        } else if name == "to_int"@ {
            Some(BuiltinMethod::CharToInt)
        } else {
            None
        },
        _ => None,
    }
}

/// The kind of value a built-in method belongs to.
pub open spec fn method_kind(m: BuiltinMethod) -> ValueKind {
    match m {
        BuiltinMethod::VecLen | BuiltinMethod::VecNext => ValueKind::Vec,
        BuiltinMethod::StringLen | BuiltinMethod::StringSplit | BuiltinMethod::StringChars
        | BuiltinMethod::StringContains | BuiltinMethod::StringStartsWith | BuiltinMethod::StringEndsWith
        | BuiltinMethod::StringReplace | BuiltinMethod::StringTrim | BuiltinMethod::StringTrimStart
        | BuiltinMethod::StringTrimEnd | BuiltinMethod::StringToUppercase | BuiltinMethod::StringToLowercase
        | BuiltinMethod::StringReverse | BuiltinMethod::StringCharAt | BuiltinMethod::StringCharCodeAt
        | BuiltinMethod::StringSlice | BuiltinMethod::StringIndexOf | BuiltinMethod::StringLastIndexOf => ValueKind::String,
        _ => ValueKind::Char,
    }
}

/// A method found for a kind of value belongs to that kind; only vectors, strings and
/// chars have built-in methods.
pub proof fn lemma_methods_belong_to_their_kind(kind: ValueKind, name: Seq<char>)
    ensures
        method_table(kind, name) matches Some(m) ==> method_kind(m) == kind,
        !(kind == ValueKind::Vec || kind == ValueKind::String || kind == ValueKind::Char)
            ==> method_table(kind, name) is None,
{
}

/// The built-in method of the given name on values of the given kind, if there is one.
pub fn builtin_method(kind: ValueKind, name: &str) -> (m: Option<BuiltinMethod>)
    ensures
        m == method_table(kind, name@),
{
    let n = name.to_owned();
    match kind {
        ValueKind::Vec => if n == "len".to_owned() {
            Some(BuiltinMethod::VecLen)
        } else if n == "next".to_owned() {
            Some(BuiltinMethod::VecNext)
        } else {
            None
        },
        ValueKind::String => if n == "len".to_owned() {
            Some(BuiltinMethod::StringLen)
        } else if n == "split".to_owned() {
            Some(BuiltinMethod::StringSplit)
        } else if n == "chars".to_owned() {
            Some(BuiltinMethod::StringChars)
        } else if n == "contains".to_owned() {
            Some(BuiltinMethod::StringContains)
        } else if n == "starts_with".to_owned() {
            Some(BuiltinMethod::StringStartsWith)
        } else if n == "ends_with".to_owned() {
            Some(BuiltinMethod::StringEndsWith)
        } else if n == "replace".to_owned() {
            Some(BuiltinMethod::StringReplace)
        } else if n == "trim".to_owned() {
            Some(BuiltinMethod::StringTrim)
        } else if n == "trim_start".to_owned() {
            Some(BuiltinMethod::StringTrimStart)
        } else if n == "trim_end".to_owned() {
            Some(BuiltinMethod::StringTrimEnd)
        } else if n == "to_uppercase".to_owned() {
            Some(BuiltinMethod::StringToUppercase)
        } else if n == "to_lowercase".to_owned() {
            Some(BuiltinMethod::StringToLowercase)
        } else if n == "reverse".to_owned() {
            Some(BuiltinMethod::StringReverse)
        } else if n == "char_at".to_owned() {
            Some(BuiltinMethod::StringCharAt)
        } else if n == "char_code_at".to_owned() {
            Some(BuiltinMethod::StringCharCodeAt)
        } else if n == "slice".to_owned() {
            Some(BuiltinMethod::StringSlice)
        } else if n == "index_of".to_owned() {
            Some(BuiltinMethod::StringIndexOf)
        } else if n == "last_index_of".to_owned() {
            Some(BuiltinMethod::StringLastIndexOf)
        } else {
            None
        },
        ValueKind::Char => if n == "is_alphabetic".to_owned() {
            Some(BuiltinMethod::CharIsAlphabetic)
        } else if n == "is_alphanumeric".to_owned() {
            Some(BuiltinMethod::CharIsAlphanumeric)
        } else if n == "is_ascii".to_owned() {
            Some(BuiltinMethod::CharIsAscii)
        } else if n == "is_ascii_alphabetic".to_owned() {
            Some(BuiltinMethod::CharIsAsciiAlphabetic)
        } else if n == "is_ascii_alphanumeric".to_owned() {
            Some(BuiltinMethod::CharIsAsciiAlphanumeric)
        } else if n == "is_ascii_control".to_owned() {
            Some(BuiltinMethod::CharIsAsciiControl)
        } else if n == "is_ascii_digit".to_owned() {
            Some(BuiltinMethod::CharIsAsciiDigit)
        } else if n == "is_ascii_graphic".to_owned() {
            Some(BuiltinMethod::CharIsAsciiGraphic)
        } else if n == "is_ascii_lowercase".to_owned() {
            Some(BuiltinMethod::CharIsAsciiLowercase)
        } else if n == "is_ascii_punctuation".to_owned() {
            Some(BuiltinMethod::CharIsAsciiPunctuation)
        } else if n == "is_ascii_uppercase".to_owned() {
            Some(BuiltinMethod::CharIsAsciiUppercase)
        } else if n == "is_ascii_whitespace".to_owned() {
            Some(BuiltinMethod::CharIsAsciiWhitespace)
        } else if n == "is_control".to_owned() {
            Some(BuiltinMethod::CharIsControl)
        } else if n == "is_digit".to_owned() {
            Some(BuiltinMethod::CharIsDigit)
        } else if n == "is_lowercase".to_owned() {
            Some(BuiltinMethod::CharIsLowercase)
        } else if n == "is_numeric".to_owned() {
            Some(BuiltinMethod::CharIsNumeric)
        } else if n == "is_uppercase".to_owned() {
            Some(BuiltinMethod::CharIsUppercase)
        } else if n == "is_whitespace".to_owned() {
            Some(BuiltinMethod::CharIsWhitespace)
        } else if n == "to_ascii_lowercase".to_owned() {
            Some(BuiltinMethod::CharToAsciiLowercase)
        } else if n == "to_ascii_uppercase".to_owned() {
            Some(BuiltinMethod::CharToAsciiUppercase)
        } else if n == "to_lowercase".to_owned() {
            Some(BuiltinMethod::CharToLowercase)
        } else if n == "to_uppercase".to_owned() {
            Some(BuiltinMethod::CharToUppercase)
        } else if n == "is_digit_in_base".to_owned() {
            Some(BuiltinMethod::CharIsDigitInBase)
        } else if n == "escape_default".to_owned() {
            Some(BuiltinMethod::CharEscapeDefault)
        } else if n == "escape_unicode".to_owned() {
            Some(BuiltinMethod::CharEscapeUnicode)
        } else if n == "from_digit".to_owned() {
            Some(BuiltinMethod::CharFromDigit)
        } else if n == "len_utf8".to_owned() {
            Some(BuiltinMethod::CharLenUtf8)
        } else if n == "to_string".to_owned() {
            Some(BuiltinMethod::CharToString)
        } else if n == "to_int".to_owned() {
            Some(BuiltinMethod::CharToInt)
        } else {
            None
        },
        _ => None,
    }
}

/// The kind of value whose methods a static type offers: each primitive type, objects and
/// vectors offer those of their own kind; every other type (null, void, structs, `any`)
/// those of null.
pub open spec fn kind_of_type(t: ResolvedType) -> ValueKind {
    match t {
        ResolvedType::Int => ValueKind::Int,
        ResolvedType::Float => ValueKind::Float,
        ResolvedType::Bool => ValueKind::Bool,
        ResolvedType::String => ValueKind::String,
        ResolvedType::Char => ValueKind::Char,
        ResolvedType::Object(_) => ValueKind::Object,
        ResolvedType::Vector(_) => ValueKind::Vec,
        _ => ValueKind::Null,
    }
}

/// The kind of value whose methods a static type offers.
pub fn value_kind_of(t: &ResolvedType) -> (k: ValueKind)
    ensures
        k == kind_of_type(*t),
{
    match t {
        ResolvedType::Int => ValueKind::Int,
        ResolvedType::Float => ValueKind::Float,
        ResolvedType::Bool => ValueKind::Bool,
        ResolvedType::String => ValueKind::String,
        ResolvedType::Char => ValueKind::Char,
        ResolvedType::Object(_) => ValueKind::Object,
        ResolvedType::Vector(_) => ValueKind::Vec,
        _ => ValueKind::Null,
    }
}

} // verus!
