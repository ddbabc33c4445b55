use vstd::prelude::*;
use crate::text::push_str;

verus! {

/// A hyperlink for terminals that understand the OSC 8 escape sequence.
#[derive(Clone, Debug, Eq, Hash, PartialEq)]
pub struct Link<'a> {
    pub text: &'a str,
    pub url: &'a str,
}

/// The escape sequence that shows `text` as a link to `url`: `ESC ] 8 ; ; url ESC \`, then
/// the text, then `ESC ] 8 ; ; ESC \` to close the link.
pub open spec fn link_text(text: Seq<char>, url: Seq<char>) -> Seq<char> {
    "\u{1b}]8;;"@ + url + "\u{1b}\\"@ + text + "\u{1b}]8;;\u{1b}\\"@
}

impl<'a> Link<'a> {
    /// A link showing `text` that leads to `url`.
    pub fn new(text: &'a str, url: &'a str) -> (link: Self)
        ensures
            link.text == text,
            link.url == url,
    {
        Self { text, url }
    }

    /// The escape sequence that a terminal shows as the link.
    pub fn to_string(&self) -> (s: String)
        ensures
            s@ == link_text(self.text@, self.url@),
    {
        let mut s = String::new();
        push_str(&mut s, "\u{1b}]8;;");
        push_str(&mut s, self.url);
        push_str(&mut s, "\u{1b}\\");
        push_str(&mut s, self.text);
        push_str(&mut s, "\u{1b}]8;;\u{1b}\\");
        s
    }
}

} // verus!
