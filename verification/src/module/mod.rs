use vstd::prelude::*;
use vstd::string::*;
use vstd::utf8::*;
use std::path::PathBuf;

pub mod ident;
pub mod cache;

verus! {

broadcast use {vstd::utf8::encode_utf8_valid_utf8, vstd::utf8::is_char_boundary_start_end_of_seq};

/// Whether the text starts and ends with a double quote and holds at least two bytes.
pub open spec fn quoted(bytes: Seq<u8>) -> bool {
    bytes.len() >= 2 && bytes[0] == 0x22 && bytes.last() == 0x22
}

/// Removes surrounding double quotes from a string slice if present.
pub fn remove_surrounding_quotes(s: &str) -> (r: &str)
    ensures
        quoted(s.spec_bytes()) ==> r.spec_bytes() == s.spec_bytes().subrange(1, s.spec_bytes().len() - 1),
        !quoted(s.spec_bytes()) ==> r == s,
{
    let bytes = s.as_bytes();
    let n = bytes.len();
    if n >= 2 && bytes[0] == 0x22 && bytes[n - 1] == 0x22 {
        let ghost b = s.spec_bytes();
        proof {
            assert(valid_utf8(b));
            assert(length_of_first_scalar(b) == 1);
            assert(is_char_boundary(b, 1)) by {
                reveal_with_fuel(is_char_boundary, 2);
            }
            is_char_boundary_iff_not_is_continuation_byte(b, n - 1);
        }
        let (_, tail) = s.split_at(1);
        proof {
            let t = tail.spec_bytes();
            assert(t =~= b.subrange(1, n as int));
            if n - 2 < t.len() {
                is_char_boundary_iff_not_is_continuation_byte(t, n - 2);
                assert(t[n - 2] == b[n - 1]);
            }
        }
        let (inner, _) = tail.split_at(n - 2);
        assert(inner.spec_bytes() =~= b.subrange(1, n - 1));
        inner
    } else {
        s
    }
}

/// A module loader that loads modules from the filesystem, below a root directory.
#[derive(Clone, Debug)]
pub struct FsModuleLoader {
    root: PathBuf,
}

impl FsModuleLoader {
    /// The root directory of the loader.
    pub closed spec fn spec_root(&self) -> PathBuf {
        self.root
    }

    /// A loader for the root directory, given in canonical form (the filesystem is what
    /// makes a path canonical, so the caller does that).
    pub fn with_canonical_root(root: PathBuf) -> (loader: Self)
        ensures
            loader.spec_root() == root,
    {
        Self { root }
    }

    /// The root directory of the loader.
    pub fn root(&self) -> (root: &PathBuf)
        ensures
            *root == self.spec_root(),
    {
        &self.root
    }
}

} // verus!
