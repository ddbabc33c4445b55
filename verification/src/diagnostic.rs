use vstd::prelude::*;
use crate::error::{error_message, error_span, get_span_from_err, RoanError};
use crate::frame::{frame_line, Frame};
use crate::span::TextSpan;
use crate::style::{line_view, lines_view, Segment, Style};
use crate::text::{join, join_strings, string_views, chars_of, decimal, decimal_len, lines_of, nth_line, push_str, repeat_char, string_from_chars, trim_end, trim_end_chars, u64_to_decimal};

verus! {

/// The severity of a diagnostic message.
#[derive(Debug, Clone, Copy, PartialEq, Eq)]
pub enum Level {
    Error,
    Warn,
    Info,
    Debug,
    Trace,
}

/// The lowercase name of a level, as printed in front of a diagnostic.
pub open spec fn level_name(level: Level) -> Seq<char> {
    match level {
        Level::Error => "error"@,
        Level::Warn => "warn"@,
        Level::Info => "info"@,
        Level::Debug => "debug"@,
        Level::Trace => "trace"@,
    }
}

impl Level {
    /// The lowercase name of the level.
    pub fn name(&self) -> (name: &'static str)
        ensures
            name@ == level_name(*self),
    {
        match self {
            Level::Error => "error",
            Level::Warn => "warn",
            Level::Info => "info",
            Level::Debug => "debug",
            Level::Trace => "trace",
        }
    }
}

/// Represents a diagnostic message, which includes information about an error or warning
/// and can be pretty-printed to the console.
#[derive(Debug, Clone, PartialEq, Eq)]
pub struct Diagnostic {
    /// The title or summary of the diagnostic message.
    pub title: String,
    /// An optional detailed description of the diagnostic message.
    pub text: Option<String>,
    /// The severity level of the diagnostic message (e.g., Error, Warning).
    pub level: Level,
    /// The location in the source code where the error or warning occurred.
    pub location: Option<TextSpan>,
    /// An optional hint that provides additional guidance on resolving the issue.
    pub hint: Option<String>,
    /// The content of the source code related to the diagnostic.
    pub content: Option<String>,
}

/// A diagnostic with its texts taken as char sequences.
pub struct DiagnosticView {
    pub title: Seq<char>,
    pub text: Option<Seq<char>>,
    pub level: Level,
    pub location: Option<TextSpan>,
    pub hint: Option<Seq<char>>,
    pub content: Option<Seq<char>>,
}

/// The view of an optional string.
pub open spec fn opt_view(s: Option<String>) -> Option<Seq<char>> {
    match s {
        Some(t) => Some(t@),
        None => None,
    }
}

impl View for Diagnostic {
    type V = DiagnosticView;

    open spec fn view(&self) -> DiagnosticView {
        DiagnosticView {
            title: self.title@,
            text: opt_view(self.text),
            level: self.level,
            location: self.location,
            hint: opt_view(self.hint),
            content: opt_view(self.content),
        }
    }
}

/// The line of the source `content` that `loc` starts on, or an empty line when the
/// content has fewer lines.
pub open spec fn source_line(loc: TextSpan, content: Seq<char>) -> Seq<char> {
    let k = loc.start.line - 1;
    if 0 <= k < lines_of(content).len() {
        lines_of(content)[k]
    } else {
        seq![]
    }
}

/// What a diagnostic prints about its location: a `--->` pointer, the source line
/// framed by the numbers of its neighbouring lines, and a `^` marker under the span.
pub open spec fn location_lines(loc: TextSpan, content: Seq<char>) -> Seq<Seq<(Seq<char>, Style)>> {
    let ln = loc.start.line as nat;
    let col = loc.start.column as nat;
    let pointer = seq![("--->"@, Style::Cyan), (" "@, Style::Plain), (decimal(ln) + ":"@ + decimal(col), Style::Plain)];
    let before: Seq<Seq<(Seq<char>, Style)>> = if ln > 1 { seq![seq![(decimal((ln - 1) as nat) + " |"@, Style::Cyan)]] } else { seq![] };
    let current = seq![(decimal(ln) + " |"@, Style::Cyan), ("    "@, Style::Plain), (trim_end(source_line(loc, content)), Style::Plain)];
    let marker = seq![
        (Seq::new((col + 6 + decimal(ln).len()) as nat, |_i: int| ' '), Style::Plain),
        (Seq::new((loc.end.column - loc.start.column) as nat, |_i: int| '^'), Style::BrightRed),
    ];
    let after: Seq<Seq<(Seq<char>, Style)>> = if ln > 1 { seq![seq![(decimal(ln + 1) + " |"@, Style::Cyan)]] } else { seq![] };
    seq![pointer] + before + seq![current, marker] + after
}

/// The hint line of a diagnostic, if it has a hint.
pub open spec fn hint_lines(d: DiagnosticView) -> Seq<Seq<(Seq<char>, Style)>> {
    match d.hint {
        Some(h) => seq![seq![("Hint: "@, Style::BrightCyan), (h, Style::BrightCyan)]],
        None => seq![],
    }
}

/// Everything a diagnostic prints, line by line: the level and title, the source
/// excerpt when it has both a location and the source content, its text and its hint.
pub open spec fn diagnostic_lines(d: DiagnosticView) -> Seq<Seq<(Seq<char>, Style)>> {
    let head = seq![seq![(level_name(d.level), Style::BrightRed), (": "@, Style::Dimmed), (d.title, Style::Plain)]];
    let excerpt = match (d.location, d.content) {
        (Some(loc), Some(content)) => location_lines(loc, content),
        _ => seq![],
    };
    let text: Seq<Seq<(Seq<char>, Style)>> = match d.text {
        Some(t) => seq![seq![(t, Style::Plain)]],
        None => seq![],
    };
    head + excerpt + text + hint_lines(d)
}

/// The arithmetic of printing a location stays in range: the span starts on a line
/// numbered from 1, does not end left of where it starts, and the marker's padding fits a `u32`.
pub open spec fn printable_location(loc: TextSpan) -> bool {
    &&& 1 <= loc.start.line < u32::MAX
    &&& loc.start.column <= loc.end.column
    &&& loc.start.column + 6 + decimal(loc.start.line as nat).len() <= u32::MAX
}

/// A diagnostic can be printed when any location it shows together with content is printable.
pub open spec fn printable(d: DiagnosticView) -> bool {
    (d.location is Some && d.content is Some) ==> printable_location(d.location->0)
}

fn push_line(lines: &mut Vec<Vec<Segment>>, line: Vec<Segment>)
    ensures
        lines_view(final(lines)@) == lines_view(old(lines)@).push(line_view(line)),
{
    lines.push(line);
    assert(lines_view(lines@) =~= lines_view(old(lines)@).push(line_view(line)));
}

fn cat2(a: &str, b: &str) -> (s: String)
    ensures
        s@ == a@ + b@,
{
    let mut s = a.to_owned();
    push_str(&mut s, b);
    s
}

impl Diagnostic {
    /// The lines of the source excerpt for `loc` in `content`.
    fn location_lines(loc: &TextSpan, content: &String, lines: &mut Vec<Vec<Segment>>)
        requires
            printable_location(*loc),
        ensures
            lines_view(final(lines)@) == lines_view(old(lines)@) + location_lines(*loc, content@),
    {
        let ln = loc.start.line;
        let col = loc.start.column;
        let ln_text = u64_to_decimal(ln as u64);
        let col_text = u64_to_decimal(col as u64);

        let mut pointer: Vec<Segment> = Vec::new();
        pointer.push(Segment::new("--->", Style::Cyan));
        pointer.push(Segment::new(" ", Style::Plain));
        let mut at = cat2(ln_text.as_str(), ":");
        push_str(&mut at, col_text.as_str());
        pointer.push(Segment::owned(at, Style::Plain));
        assert(line_view(pointer) =~= location_lines(*loc, content@)[0]);
        push_line(lines, pointer);

        if ln > 1 {
            let prev = u64_to_decimal((ln - 1) as u64);
            let mut before: Vec<Segment> = Vec::new();
            before.push(Segment::owned(cat2(prev.as_str(), " |"), Style::Cyan));
            assert(line_view(before) =~= seq![(decimal((ln - 1) as nat) + " |"@, Style::Cyan)]);
            push_line(lines, before);
        }

        let chars = chars_of(content.as_str());
        let line = match nth_line(&chars, (ln - 1) as usize) {
            Some(l) => l,
            None => Vec::new(),
        };
        assert(line@ == source_line(*loc, content@));
        let trimmed = trim_end_chars(&line);
        let mut current: Vec<Segment> = Vec::new();
        current.push(Segment::owned(cat2(ln_text.as_str(), " |"), Style::Cyan));
        current.push(Segment::new("    ", Style::Plain));
        current.push(Segment::owned(string_from_chars(trimmed.as_slice()), Style::Plain));
        assert(line_view(current) =~= seq![(decimal(ln as nat) + " |"@, Style::Cyan), ("    "@, Style::Plain), (trim_end(source_line(*loc, content@)), Style::Plain)]);
        push_line(lines, current);

        let width = decimal_len(ln as u64);
        let pad = repeat_char(' ', (col as usize) + 6 + width);
        let deco = repeat_char('^', (loc.end.column - loc.start.column) as usize);
        let mut marker: Vec<Segment> = Vec::new();
        marker.push(Segment::owned(pad, Style::Plain));
        marker.push(Segment::owned(deco, Style::BrightRed));
        assert(line_view(marker) =~= seq![
            (Seq::new((col + 6 + decimal(ln as nat).len()) as nat, |_i: int| ' '), Style::Plain),
            (Seq::new((loc.end.column - loc.start.column) as nat, |_i: int| '^'), Style::BrightRed),
        ]);
        push_line(lines, marker);

        if ln > 1 {
            let next = u64_to_decimal((ln + 1) as u64);
            let mut after: Vec<Segment> = Vec::new();
            after.push(Segment::owned(cat2(next.as_str(), " |"), Style::Cyan));
            assert(line_view(after) =~= seq![(decimal((ln + 1) as nat) + " |"@, Style::Cyan)]);
            push_line(lines, after);
        }
        assert(lines_view(lines@) =~= lines_view(old(lines)@) + location_lines(*loc, content@));
    }

    fn add_hint_lines(&self, lines: &mut Vec<Vec<Segment>>)
        ensures
            lines_view(final(lines)@) == lines_view(old(lines)@) + hint_lines(self@),
    {
        if let Some(hint) = &self.hint {
            let mut line: Vec<Segment> = Vec::new();
            line.push(Segment::new("Hint: ", Style::BrightCyan));
            line.push(Segment::owned(hint.clone(), Style::BrightCyan));
            assert(line_view(line) =~= seq![("Hint: "@, Style::BrightCyan), (hint@, Style::BrightCyan)]);
            push_line(lines, line);
        }
        assert(lines_view(lines@) =~= lines_view(old(lines)@) + hint_lines(self@));
    }

    /// The hint line, if the diagnostic has a hint: `Hint: ` followed by the hint.
    pub fn hint_lines(&self) -> (lines: Vec<Vec<Segment>>)
        ensures
            lines_view(lines@) == hint_lines(self@),
    {
        let mut lines: Vec<Vec<Segment>> = Vec::new();
        self.add_hint_lines(&mut lines);
        assert(lines_view(Seq::<Vec<Segment>>::empty()) =~= Seq::empty());
        assert(Seq::<Seq<(Seq<char>, Style)>>::empty() + hint_lines(self@) =~= hint_lines(self@));
        lines
    }

    /// The diagnostic in a human-readable form, line by line, each line made of
    /// decorated segments: the level and title, then (when it has both a location and
    /// the source content) the source line with the span marked, then its text and hint.
    pub fn render(&self) -> (lines: Vec<Vec<Segment>>)
        requires
            printable(self@),
        ensures
            lines_view(lines@) == diagnostic_lines(self@),
    {
        let mut lines: Vec<Vec<Segment>> = Vec::new();
        let mut head: Vec<Segment> = Vec::new();
        head.push(Segment::new(self.level.name(), Style::BrightRed));
        head.push(Segment::new(": ", Style::Dimmed));
        head.push(Segment::owned(self.title.clone(), Style::Plain));
        assert(line_view(head) =~= seq![(level_name(self.level), Style::BrightRed), (": "@, Style::Dimmed), (self.title@, Style::Plain)]);
        push_line(&mut lines, head);
        let ghost after_head = lines_view(lines@);
        if let Some(location) = &self.location {
            if let Some(content) = &self.content {
                Self::location_lines(location, content, &mut lines);
            }
        }
        let ghost after_excerpt = lines_view(lines@);
        if let Some(text) = &self.text {
            let mut line: Vec<Segment> = Vec::new();
            line.push(Segment::owned(text.clone(), Style::Plain));
            assert(line_view(line) =~= seq![(text@, Style::Plain)]);
            push_line(&mut lines, line);
        }
        let ghost after_text = lines_view(lines@);
        self.add_hint_lines(&mut lines);
        proof {
            let d = self@;
            let head_v = seq![seq![(level_name(d.level), Style::BrightRed), (": "@, Style::Dimmed), (d.title, Style::Plain)]];
            assert(after_head =~= head_v);
            let excerpt = match (d.location, d.content) {
                (Some(loc), Some(content)) => location_lines(loc, content),
                _ => Seq::<Seq<(Seq<char>, Style)>>::empty(),
            };
            assert(after_excerpt =~= head_v + excerpt);
            let text: Seq<Seq<(Seq<char>, Style)>> = match d.text {
                Some(t) => seq![seq![(t, Style::Plain)]],
                None => seq![],
            };
            assert(after_text =~= head_v + excerpt + text);
        }
        assert(lines_view(lines@) =~= diagnostic_lines(self@));
        lines
    }
}

/// The hint a diagnostic for the error gives, if any.
pub open spec fn error_hint(err: RoanError) -> Option<Seq<char>> {
    match err {
        RoanError::ExpectedToken(_, hint, _) => Some(hint@),
        RoanError::InvalidPropertyAccess(_) => Some("Only string literals or call expressions are allowed"@),
        RoanError::InvalidBreakOrContinue(_) => Some("Break and continue statements can only be used inside loops"@),
        RoanError::LoopBreak(_) => Some("Break and continue statements can only be used inside loops"@),
        RoanError::LoopContinue(_) => Some("Break and continue statements can only be used inside loops"@),
        RoanError::InvalidSpread(_) => Some("Spread operator can only be used in function calls or vectors"@),
        RoanError::StructAlreadyImplementsTrait(_, _, _) => Some("Struct already implements this trait"@),
        _ => None,
    }
}

/// The title of the diagnostic for a trait impl that misses methods.
pub open spec fn missing_methods_title(name: Seq<char>, methods: Seq<Seq<char>>) -> Seq<char> {
    "Trait "@ + name + " doesn't implement these methods: "@ + join(methods, ", "@)
}

/// The diagnostic that reports an error; `None` for a thrown error, which is reported
/// as its message followed by the stack of frames instead.
pub open spec fn error_diagnostic(err: RoanError, content: Option<Seq<char>>) -> Option<DiagnosticView> {
    match err {
        RoanError::Throw(_, _) => None,
        RoanError::Io(_) => Some(DiagnosticView {
            title: "IO error"@,
            text: Some(error_message(err)),
            level: Level::Error,
            location: None,
            hint: None,
            content: None,
        }),
        RoanError::ResolverError(_) | RoanError::ModuleError(_) => Some(DiagnosticView {
            title: error_message(err),
            text: None,
            level: Level::Error,
            location: None,
            hint: None,
            content: None,
        }),
        RoanError::TraitMethodNotImplemented(name, methods, span) => Some(DiagnosticView {
            title: missing_methods_title(name@, string_views(methods@)),
            text: None,
            level: Level::Error,
            location: Some(span),
            hint: Some("Method not implemented"@),
            content: content,
        }),
        _ => Some(DiagnosticView {
            title: error_message(err),
            text: None,
            level: Level::Error,
            location: error_span(err),
            hint: error_hint(err),
            content: content,
        }),
    }
}

/// The first line of a thrown error: `error: ` and its message.
pub open spec fn thrown_head(msg: Seq<char>) -> Seq<(Seq<char>, Style)> {
    seq![("error"@, Style::BrightRed), (": "@, Style::Dimmed), (msg, Style::Plain)]
}

/// Everything printed for an error: a thrown error's message and its stack of frames,
/// or else the lines of its diagnostic.
pub open spec fn error_lines(err: RoanError, content: Option<Seq<char>>) -> Seq<Seq<(Seq<char>, Style)>> {
    match err {
        RoanError::Throw(msg, frames) => seq![thrown_head(msg@)] + frames@.map_values(|f: Frame| frame_line(f)),
        _ => diagnostic_lines(error_diagnostic(err, content)->0),
    }
}

/// Every error but a thrown one is reported by a diagnostic at the error level, which
/// opens with that level and its title; an error that is not one of the few with a title
/// of their own is titled by its message and points at its own span, with the source
/// content given.
pub proof fn lemma_error_reports(err: RoanError, content: Option<Seq<char>>)
    ensures
        !(err is Throw) ==> (error_diagnostic(err, content) matches Some(d) && d.level == Level::Error),
        !(err is Throw || err is Io || err is ResolverError || err is ModuleError || err is TraitMethodNotImplemented)
            ==> (error_diagnostic(err, content) matches Some(d)
                && d.title == error_message(err) && d.location == error_span(err) && d.content == content),
        !(err is Throw) ==> error_lines(err, content).len() >= 1
            && error_lines(err, content)[0] == seq![(level_name(Level::Error), Style::BrightRed), (": "@, Style::Dimmed),
                (error_diagnostic(err, content)->0.title, Style::Plain)],
{
    if !(err is Throw) {
        let d = error_diagnostic(err, content)->0;
        let lines = diagnostic_lines(d);
        assert(lines[0] == seq![(level_name(d.level), Style::BrightRed), (": "@, Style::Dimmed), (d.title, Style::Plain)]);
    }
}

/// A thrown error prints its message, then one line per frame of its stack, in order.
pub proof fn lemma_thrown_error_lines(msg: String, frames: Vec<Frame>, content: Option<Seq<char>>)
    ensures
        error_lines(RoanError::Throw(msg, frames), content).len() == frames@.len() + 1,
        error_lines(RoanError::Throw(msg, frames), content)[0] == thrown_head(msg@),
        forall|i: int| 0 <= i < frames@.len()
            ==> #[trigger] error_lines(RoanError::Throw(msg, frames), content)[i + 1] == frame_line(frames@[i]),
{
}

/// The hint for the error, if any.
fn hint_for(err: &RoanError) -> (hint: Option<String>)
    ensures
        opt_view(hint) == error_hint(*err),
{
    match err {
        RoanError::ExpectedToken(_, hint, _) => Some(hint.clone()),
        RoanError::InvalidPropertyAccess(_) => Some("Only string literals or call expressions are allowed".to_owned()),
        RoanError::InvalidBreakOrContinue(_) => Some("Break and continue statements can only be used inside loops".to_owned()),
        RoanError::LoopBreak(_) => Some("Break and continue statements can only be used inside loops".to_owned()),
        RoanError::LoopContinue(_) => Some("Break and continue statements can only be used inside loops".to_owned()),
        RoanError::InvalidSpread(_) => Some("Spread operator can only be used in function calls or vectors".to_owned()),
        RoanError::StructAlreadyImplementsTrait(_, _, _) => Some("Struct already implements this trait".to_owned()),
        _ => None,
    }
}

/// The diagnostic that reports an error, with `content` as the source it points into;
/// `None` for a thrown error.
pub fn diagnostic_for_error(err: &RoanError, content: Option<String>) -> (d: Option<Diagnostic>)
    ensures
        match d {
            Some(d) => error_diagnostic(*err, opt_view(content)) == Some(d@),
            None => error_diagnostic(*err, opt_view(content)) is None,
        },
{
    match err {
        RoanError::Throw(_, _) => None,
        RoanError::Io(_) => Some(Diagnostic {
            title: "IO error".to_owned(),
            text: Some(err.message()),
            level: Level::Error,
            location: None,
            hint: None,
            content: None,
        }),
        RoanError::ResolverError(_) | RoanError::ModuleError(_) => Some(Diagnostic {
            title: err.message(),
            text: None,
            level: Level::Error,
            location: None,
            hint: None,
            content: None,
        }),
        RoanError::TraitMethodNotImplemented(name, methods, span) => {
            let mut title = "Trait ".to_owned();
            push_str(&mut title, name.as_str());
            push_str(&mut title, " doesn't implement these methods: ");
            let joined = join_strings(methods, ", ");
            push_str(&mut title, joined.as_str());
            Some(Diagnostic {
                title,
                text: None,
                level: Level::Error,
                location: Some(span.duplicate()),
                hint: Some("Method not implemented".to_owned()),
                content,
            })
        },
        _ => Some(Diagnostic {
            title: err.message(),
            text: None,
            level: Level::Error,
            location: get_span_from_err(err),
            hint: hint_for(err),
            content,
        }),
    }
}

/// The lines that report an error, each made of decorated segments: a thrown error's
/// message followed by its stack of frames, or else the rendered diagnostic.
pub fn render_error(err: &RoanError, content: Option<String>) -> (lines: Vec<Vec<Segment>>)
    requires
        content is Some && error_span(*err) is Some ==> printable_location(error_span(*err)->0),
    ensures
        lines_view(lines@) == error_lines(*err, opt_view(content)),
{
    match err {
        RoanError::Throw(msg, frames) => {
            let mut lines: Vec<Vec<Segment>> = Vec::new();
            let mut head: Vec<Segment> = Vec::new();
            head.push(Segment::new("error", Style::BrightRed));
            head.push(Segment::new(": ", Style::Dimmed));
            head.push(Segment::owned(msg.clone(), Style::Plain));
            assert(line_view(head) =~= thrown_head(msg@));
            push_line(&mut lines, head);
            let mut i: usize = 0;
            while i < frames.len()
                invariant
                    i <= frames@.len(),
                    lines_view(lines@) == seq![thrown_head(msg@)] + frames@.take(i as int).map_values(|f: Frame| frame_line(f)),
                decreases frames@.len() - i,
            {
                let line = frames[i].render();
                push_line(&mut lines, line);
                assert(frames@.take(i + 1).map_values(|f: Frame| frame_line(f))
                    =~= frames@.take(i as int).map_values(|f: Frame| frame_line(f)).push(frame_line(frames@[i as int])));
                i = i + 1;
            }
            assert(frames@.take(frames@.len() as int) =~= frames@);
            lines
        },
        _ => diagnostic_for_error(err, content).unwrap().render(),
    }
}

} // verus!
