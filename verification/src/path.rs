use vstd::prelude::*;
use crate::text::{chars_of, string_from_chars};
use crate::frame::lossy_text;
use std::path::PathBuf;

verus! {

/// Whether the text starts with the `\\?\` prefix of a Windows verbatim path.
pub open spec fn has_verbatim_prefix(text: Seq<char>) -> bool {
    text.len() >= 4 && text.take(4) == "\\\\?\\"@
}

/// The text of a path without its `\\?\` prefix, if it has one.
pub open spec fn without_verbatim_prefix(text: Seq<char>) -> Seq<char> {
    if has_verbatim_prefix(text) {
        text.skip(4)
    } else {
        text
    }
}

/// Removing the verbatim prefix takes off exactly the four chars `\\?\` from a text that
/// starts with them, and leaves any other text as it is.
pub proof fn lemma_remove_prefix(text: Seq<char>)
    ensures
        has_verbatim_prefix(text) ==> "\\\\?\\"@ + without_verbatim_prefix(text) == text,
        !has_verbatim_prefix(text) ==> without_verbatim_prefix(text) == text,
        without_verbatim_prefix(text).len() == text.len() || without_verbatim_prefix(text).len() + 4 == text.len(),
{
    reveal_strlit("\\\\?\\");
    if has_verbatim_prefix(text) {
        assert(text.take(4) + text.skip(4) =~= text);
    }
}

/// Removes the `\\?\` prefix that Windows puts before a canonical path, so that the path
/// reads as users write it.
pub fn remove_prefix(path_text: &str) -> (r: String)
    ensures
        r@ == without_verbatim_prefix(path_text@),
{
    proof {
        reveal_strlit("\\\\?\\");
    }
    let cs = chars_of(path_text);
    if cs.len() >= 4 && cs[0] == '\\' && cs[1] == '\\' && cs[2] == '?' && cs[3] == '\\' {
        assert(cs@.take(4) =~= "\\\\?\\"@);
        let mut rest: Vec<char> = Vec::new();
        let mut i: usize = 4;
        while i < cs.len()
            invariant
                4 <= i <= cs@.len(),
                rest@ == cs@.subrange(4, i as int),
            decreases cs@.len() - i,
        {
            rest.push(cs[i]);
            assert(rest@ =~= cs@.subrange(4, i + 1));
            i = i + 1;
        }
        assert(rest@ =~= cs@.skip(4));
        string_from_chars(rest.as_slice())
    } else {
        assert(!has_verbatim_prefix(cs@)) by {
            if has_verbatim_prefix(cs@) {
                assert(cs@.take(4)[0] == cs@[0] && cs@.take(4)[1] == cs@[1]);
                assert(cs@.take(4)[2] == cs@[2] && cs@.take(4)[3] == cs@[3]);
            }
        }
        string_from_chars(cs.as_slice())
    }
}

/// Whether the text is a plain file name: not empty, without a separator (`/` or a backslash)
/// or a drive colon, and not `.` or `..`. Every platform reads such a name as a single
/// relative component.
pub open spec fn plain_name(text: Seq<char>) -> bool {
    &&& text.len() > 0
    &&& !text.contains('/')
    &&& !text.contains('\\')
    &&& !text.contains(':')
    &&& text != "."@
    &&& text != ".."@
}

/// Whether the text of `joined` is the text of `root` extended by the text of `name`:
/// it starts with the root's text and ends with the name's.
pub open spec fn extends_with(joined: PathBuf, root: PathBuf, name: PathBuf) -> bool {
    let j = lossy_text(joined);
    let r = lossy_text(root);
    let n = lossy_text(name);
    &&& r.len() <= j.len()
    &&& n.len() <= j.len()
    &&& j.take(r.len() as int) == r
    &&& j.skip(j.len() - n.len()) == n
}

/// `Path::is_relative`: whether the path is relative. What counts as relative is the
/// platform's rule (on Windows a path needs a drive and a root to be absolute); the
/// contract states only what holds on every platform: a plain file name is relative.
#[verifier::external_body]
fn path_is_relative(path: &PathBuf) -> (relative: bool)
    ensures
        plain_name(lossy_text(*path)) ==> relative,
{
    path.is_relative()
}

/// `Path::join`: the root with the path appended (`PathBuf::push` on a copy of the root).
/// Which separator goes between, and what an absolute or drive-relative path replaces, is
/// the platform's rule; the contract states only what holds on every platform: pushing a
/// plain file name extends the root, so the joined text starts with the root's text and
/// ends with the name's.
#[verifier::external_body]
fn path_join(root: &PathBuf, path: &PathBuf) -> (joined: PathBuf)
    ensures
        plain_name(lossy_text(*path)) ==> extends_with(joined, *root, *path),
{
    root.join(path)
}

/// The path made absolute against the root, given whether it is relative: an absolute
/// path is kept as it is, a relative one is joined onto the root (for a plain file name,
/// the result's text is the root's extended by the name).
pub fn absolute_against(path: PathBuf, root: PathBuf, relative: bool) -> (r: PathBuf)
    ensures
        !relative ==> r == path,
        relative && plain_name(lossy_text(path)) ==> extends_with(r, root, path),
{
    if relative {
        path_join(&root, &path)
    } else {
        path
    }
}

/// The path made absolute against the root, without touching the filesystem: a plain
/// file name is joined onto the root, so the result's text is the root's extended by the
/// name. (Which other paths count as relative, and how they join, is the platform's rule.)
pub fn normalize_without_canonicalize(path: PathBuf, root: PathBuf) -> (r: PathBuf)
    ensures
        plain_name(lossy_text(path)) ==> extends_with(r, root, path),
{
    let relative = path_is_relative(&path);
    absolute_against(path, root, relative)
}

} // verus!
