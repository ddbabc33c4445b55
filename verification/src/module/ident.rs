use vstd::prelude::*;
use crate::text::{
    chars_of, char_vecs_view, join, join_strings, lemma_split_from_nonempty, push_str, split_chars,
    split_on, string_from_chars, string_views,
};

use crate::methods::strings::{lemma_join_first, lemma_join_split, split_pieces};

verus! {

/// A module identifier: a main name and, separated from it by `::`, further parts.
#[derive(Debug)]
pub struct ModuleIdentifier {
    pub main_name: String,
    pub rest: Option<Vec<String>>,
}

/// The identifier that a specification denotes: its first `::`-separated part as the
/// main name, the other parts (if there are any) as the rest.
pub open spec fn identifier_parts(spec: Seq<char>) -> (Seq<char>, Option<Seq<Seq<char>>>) {
    let parts = split_on(spec, "::"@);
    if parts.len() == 1 {
        (parts[0], None)
    } else {
        (parts[0], Some(parts.skip(1)))
    }
}

/// The file a module identifier names, given the path separator: the rest joined by
/// the separator with `.roan` appended, or `lib.roan` when there is no rest.
pub open spec fn identifier_file_name(rest: Option<Seq<Seq<char>>>, sep: Seq<char>) -> Seq<char> {
    match rest {
        Some(parts) => join(parts, sep) + ".roan"@,
        None => "lib.roan"@,
    }
}

/// The platform's main path separator.
///
/// Reads `std::path::MAIN_SEPARATOR_STR`, documented as the separator char
/// `std::path::MAIN_SEPARATOR` written as a string; the contract states that it is one
/// char, and not which one the platform uses.
#[verifier::external_body]
fn main_separator() -> (sep: &'static str)
    ensures
        sep@.len() == 1,
{
    std::path::MAIN_SEPARATOR_STR
}

/// Parsing an identifier loses nothing: the main name, followed by each further part after
/// a `::`, gives back the specification.
pub proof fn lemma_identifier_round_trip(spec: Seq<char>)
    ensures
        identifier_parts(spec).1 is None ==> identifier_parts(spec).0 == spec,
        identifier_parts(spec).1 matches Some(rest)
            ==> rest.len() >= 1 && identifier_parts(spec).0 + "::"@ + join(rest, "::"@) == spec,
{
    reveal_strlit("::");
    let parts = split_on(spec, "::"@);
    lemma_split_from_nonempty(spec, "::"@, 0);
    lemma_join_split(spec, "::"@);
    assert(split_pieces(spec, "::"@) == parts);
    assert(parts =~= seq![parts[0]] + parts.skip(1));
    if parts.len() == 1 {
        assert(join(parts, "::"@) == parts[0]);
    } else {
        lemma_join_first(parts[0], parts.skip(1), "::"@);
    }
}

impl ModuleIdentifier {
    /// The rest of the identifier, taken as char sequences.
    pub open spec fn rest_view(&self) -> Option<Seq<Seq<char>>> {
        match self.rest {
            Some(r) => Some(string_views(r@)),
            None => None,
        }
    }

    /// The file name of the module with `sep` as path separator.
    pub fn file_name_with_separator(&self, sep: &str) -> (name: String)
        ensures
            name@ == identifier_file_name(self.rest_view(), sep@),
    {
        match &self.rest {
            Some(rest) => {
                let mut name = join_strings(rest, sep);
                push_str(&mut name, ".roan");
                name
            },
            None => "lib.roan".to_owned(),
        }
    }

    /// File name is always the last part of the identifier. If only one part is present
    /// file name defaults to `lib.roan`; otherwise the parts after the main name are
    /// joined by the platform's path separator and `.roan` is appended.
    pub fn file_name(&self) -> (name: String)
        ensures
            self.rest is None ==> name@ == "lib.roan"@,
            self.rest is Some ==> exists|sep: char| name@ == identifier_file_name(self.rest_view(), seq![sep]),
    {
        let sep = main_separator();
        assert(sep@ == seq![sep@[0]]);
        self.file_name_with_separator(sep)
    }

    /// Parses a module identifier: a main name and sub names separated by `::`.
    ///
    /// "std::io" -> build/deps/std/io.roan
    ///
    /// "std::io::file" -> build/deps/std/io/file.roan
    ///
    /// "some_dep" -> build/deps/some_dep/lib.roan
    ///
    /// "std" -> build/deps/std/lib.roan
    pub fn parse_module_identifier(spec: &str) -> (id: Option<ModuleIdentifier>)
        ensures
            id matches Some(m) && m.main_name@ == identifier_parts(spec@).0
                && m.rest_view() == identifier_parts(spec@).1,
    {
        let chars = chars_of(spec);
        let sep: Vec<char> = vec![':', ':'];
        assert(sep@ =~= "::"@) by {
            reveal_strlit("::");
        }
        let parts = split_chars(&chars, &sep);
        proof {
            lemma_split_from_nonempty(chars@, sep@, 0);
        }
        let main_name = string_from_chars(parts[0].as_slice());
        if parts.len() == 1 {
            Some(ModuleIdentifier { main_name, rest: None })
        } else {
            let mut rest: Vec<String> = Vec::new();
            let mut i: usize = 1;
            while i < parts.len()
                invariant
                    1 <= i <= parts@.len(),
                    string_views(rest@) == char_vecs_view(parts@).subrange(1, i as int),
                decreases parts@.len() - i,
            {
                let part = string_from_chars(parts[i].as_slice());
                let ghost before = rest@;
                rest.push(part);
                assert(string_views(rest@) =~= string_views(before).push(part@));
                assert(char_vecs_view(parts@).subrange(1, i + 1) =~= char_vecs_view(parts@).subrange(1, i as int).push(parts@[i as int]@));
                i = i + 1;
            }
            assert(char_vecs_view(parts@).subrange(1, parts@.len() as int) =~= split_on(chars@, "::"@).skip(1));
            Some(ModuleIdentifier { main_name, rest: Some(rest) })
        }
    }
}

} // verus!
