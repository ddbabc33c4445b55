use vstd::prelude::*;
use crate::text::{decimal, push_str, u64_to_decimal};

verus! {

/// Represents a position in a text, consisting of line, column, and byte index.
#[derive(Debug, Clone, Copy, PartialEq, Eq, Hash)]
pub struct Position {
    /// The current line number (starting from 1).
    pub line: u32,
    /// The current column number (starting from 1).
    pub column: u32,
    /// The current byte index in the text (starting from 0).
    pub index: usize,
}

impl Position {
    /// Creates a new `Position` with the given line, column, and index.
    pub fn new(line: u32, column: u32, index: usize) -> (pos: Self)
        ensures
            pos.line == line,
            pos.column == column,
            pos.index == index,
    {
        Self { line, column, index }
    }

    /// Increments the line number, resets the column to 1, and increments the index by 1.
    pub fn increment_line(&mut self)
        requires
            old(self).line < u32::MAX,
            old(self).index < usize::MAX,
        ensures
            final(self).line == old(self).line + 1,
            final(self).column == 1,
            final(self).index == old(self).index + 1,
    {
        self.line = self.line + 1;
        self.column = 1;
        self.index = self.index + 1;
    }

    /// Increments the column number and the index by 1.
    pub fn increment_column(&mut self)
        requires
            old(self).column < u32::MAX,
            old(self).index < usize::MAX,
        ensures
            final(self).line == old(self).line,
            final(self).column == old(self).column + 1,
            final(self).index == old(self).index + 1,
    {
        self.column = self.column + 1;
        self.index = self.index + 1;
    }

    /// Returns the current line number (1-based).
    pub fn line(&self) -> (l: u32)
        ensures
            l == self.line,
    {
        self.line
    }

    /// Returns the current column number (1-based).
    pub fn column(&self) -> (c: u32)
        ensures
            c == self.column,
    {
        self.column
    }

    /// Returns the current byte index (0-based).
    pub fn index(&self) -> (i: usize)
        ensures
            i == self.index,
    {
        self.index
    }
}

impl Position {
    /// Formats the position as `line:column (index: byte_index)`.
    pub fn to_string(&self) -> (s: String)
        ensures
            s@ == decimal(self.line as nat) + ":"@ + decimal(self.column as nat) + " (index: "@
                + decimal(self.index as nat) + ")"@,
    {
        let mut s = u64_to_decimal(self.line as u64);
        push_str(&mut s, ":");
        let c = u64_to_decimal(self.column as u64);
        push_str(&mut s, c.as_str());
        push_str(&mut s, " (index: ");
        let i = u64_to_decimal(self.index as u64);
        push_str(&mut s, i.as_str());
        push_str(&mut s, ")");
        s
    }
}

impl Default for Position {
    /// The start of a text: line 1, column 1, index 0.
    fn default() -> (pos: Self)
        ensures
            pos.line == 1,
            pos.column == 1,
            pos.index == 0,
    {
        Self::new(1, 1, 0)
    }
}

} // verus!
