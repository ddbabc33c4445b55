use vstd::prelude::*;

verus! {

/// How a piece of terminal output is decorated.
#[derive(Debug, Clone, Copy, PartialEq, Eq)]
pub enum Style {
    Plain,
    Bold,
    Dimmed,
    Cyan,
    Yellow,
    DimmedYellow,
    BrightRed,
    BrightCyan,
}

/// A piece of terminal output together with its decoration.
#[derive(Debug, Clone, PartialEq, Eq)]
pub struct Segment {
    pub text: String,
    pub style: Style,
}

impl Segment {
    /// A segment holding a copy of `text`.
    pub fn new(text: &str, style: Style) -> (seg: Segment)
        ensures
            seg.text@ == text@,
            seg.style == style,
    {
        Segment { text: text.to_owned(), style }
    }

    /// A segment holding `text`.
    pub fn owned(text: String, style: Style) -> (seg: Segment)
        ensures
            seg.text == text,
            seg.style == style,
    {
        Segment { text, style }
    }
}

impl View for Segment {
    type V = (Seq<char>, Style);

    open spec fn view(&self) -> (Seq<char>, Style) {
        (self.text@, self.style)
    }
}

/// The view of one line of segments.
pub open spec fn line_view(line: Vec<Segment>) -> Seq<(Seq<char>, Style)> {
    line@.map_values(|g: Segment| g@)
}

/// The views of several lines of segments.
pub open spec fn lines_view(lines: Seq<Vec<Segment>>) -> Seq<Seq<(Seq<char>, Style)>> {
    lines.map_values(|l: Vec<Segment>| line_view(l))
}

} // verus!
