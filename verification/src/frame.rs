use vstd::prelude::*;
use std::path::PathBuf;
use crate::span::TextSpan;
use crate::style::{line_view, Segment, Style};
use crate::text::{decimal, u64_to_decimal};

verus! {

/// The standard library's owned path type, carried through unchanged.
#[verifier::external_type_specification]
#[verifier::external_body]
pub struct ExPathBuf(PathBuf);

/// `PathBuf::clone`: the standard library's `Clone` gives a copy of the path, which is
/// what this states.
pub assume_specification[ <PathBuf as Clone>::clone ](path: &PathBuf) -> (copy: PathBuf)
    ensures
        copy == *path,
;

/// The text of a path as `Path::to_string_lossy` gives it: the path's Unicode text, with
/// each invalid sequence replaced by U+FFFD.
pub uninterp spec fn lossy_text(path: PathBuf) -> Seq<char>;

/// The path as text, with non-Unicode sequences replaced.
///
/// Calls `Path::to_string_lossy` and takes the owned string; the contract only names
/// the result, which depends on the path alone.
#[verifier::external_body]
fn path_text(path: &PathBuf) -> (text: String)
    ensures
        text@ == lossy_text(*path),
{
    path.to_string_lossy().into_owned()
}

/// A frame represents a single function call.
///
/// It provides info of which function is being executed. This helps in debugging and error reporting.
#[derive(Debug, Clone)]
pub struct Frame {
    /// The name of the function being executed.
    pub name: String,
    /// The span of the function in the source code.
    pub span: TextSpan,
    /// The path of the file where the function is defined.
    pub path: String,
}

/// The stack-trace line of a frame: `   at name path:line:column`, decorated.
pub open spec fn frame_line(f: Frame) -> Seq<(Seq<char>, Style)> {
    seq![
        ("   "@, Style::Plain),
        ("at"@, Style::Dimmed),
        (" "@, Style::Plain),
        (f.name@, Style::Bold),
        (" "@, Style::Plain),
        (f.path@, Style::Cyan),
        (":"@, Style::Dimmed),
        (decimal(f.span.start.line as nat), Style::Yellow),
        (":"@, Style::Dimmed),
        (decimal(f.span.start.column as nat), Style::DimmedYellow),
    ]
}

impl Frame {
    /// Creates a new `Frame` with the specified name, span, and path.
    pub fn new(name: &str, span: TextSpan, path: &str) -> (frame: Self)
        ensures
            frame.name@ == name@,
            frame.span == span,
            frame.path@ == path@,
    {
        Self { name: name.to_owned(), span, path: path.to_owned() }
    }

    /// A copy of this frame.
    pub fn duplicate(&self) -> (frame: Self)
        ensures
            frame == *self,
    {
        Frame { name: self.name.clone(), span: self.span.duplicate(), path: self.path.clone() }
    }

    /// If path is None returns "unknown" otherwise returns the path.
    pub fn path_or_unknown(path: Option<PathBuf>) -> (text: String)
        ensures
            path is None ==> text@ == "unknown"@,
            path matches Some(p) ==> text@ == lossy_text(p),
    {
        match path {
            Some(p) => path_text(&p),
            None => "unknown".to_owned(),
        }
    }

    /// The frame as one line of a stack trace: `   at name path:line:column`.
    pub fn render(&self) -> (segs: Vec<Segment>)
        ensures
            line_view(segs) == frame_line(*self),
    {
        let mut segs: Vec<Segment> = Vec::new();
        segs.push(Segment::new("   ", Style::Plain));
        segs.push(Segment::new("at", Style::Dimmed));
        segs.push(Segment::new(" ", Style::Plain));
        segs.push(Segment::owned(self.name.clone(), Style::Bold));
        segs.push(Segment::new(" ", Style::Plain));
        segs.push(Segment::owned(self.path.clone(), Style::Cyan));
        segs.push(Segment::new(":", Style::Dimmed));
        segs.push(Segment::owned(u64_to_decimal(self.span.start.line as u64), Style::Yellow));
        segs.push(Segment::new(":", Style::Dimmed));
        segs.push(Segment::owned(u64_to_decimal(self.span.start.column as u64), Style::DimmedYellow));
        assert(line_view(segs) =~= frame_line(*self));
        segs
    }
}

} // verus!
