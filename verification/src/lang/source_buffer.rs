//! Source locations and the character buffer that the tokenizer reads from.

use vstd::prelude::*;
use vstd::string::StringExecFns;
use crate::text::chars_of;
use crate::text::nat_digits;
use crate::text::nat_to_chars;
use crate::text::string_of;

verus! {

/// A place in a source text: the path of the text, and a line and a column
/// that both count from one.
#[derive(Debug)]
pub struct SourceLocation {
    path: String,
    line: u32,
    column: u32,
}

/// What a source location holds, as plain values.
pub struct LocationView {
    pub path: Seq<char>,
    pub line: nat,
    pub column: nat,
}

impl View for SourceLocation {
    type V = LocationView;

    closed spec fn view(&self) -> LocationView {
        LocationView { path: self.path@, line: self.line as nat, column: self.column as nat }
    }
}

impl Clone for SourceLocation {
    fn clone(&self) -> (r: Self)
        ensures
            r@ == self@,
    {
        SourceLocation { path: self.path.clone(), line: self.line, column: self.column }
    }
}

/// The location after the character `c` has been read at `location`: a new
/// line starts a line at column one, any other character moves one column on.
/// Both counters stop at the largest 32-bit value.
pub open spec fn location_after(location: LocationView, c: char) -> LocationView {
    if c == '\n' {
        LocationView {
            path: location.path,
            line: if location.line < u32::MAX {
                location.line + 1
            } else {
                location.line
            },
            column: 1,
        }
    } else {
        LocationView {
            path: location.path,
            line: location.line,
            column: if location.column < u32::MAX {
                location.column + 1
            } else {
                location.column
            },
        }
    }
}

/// The location after all the characters of `text` have been read, one after
/// the other, starting at `location`.
pub open spec fn location_after_all(location: LocationView, text: Seq<char>) -> LocationView
    decreases text.len(),
{
    if text.len() == 0 {
        location
    } else {
        location_after(location_after_all(location, text.drop_last()), text.last())
    }
}

/// The text of a location: the path, then the line and the column in
/// parentheses.
pub open spec fn location_text(location: LocationView) -> Seq<char> {
    location.path + " ("@ + nat_digits(location.line, 10) + ", "@ + nat_digits(
        location.column,
        10,
    ) + ")"@
}

impl SourceLocation {
    /// The text of the location.
    pub fn to_string(&self) -> (r: String)
        ensures
            r@ == location_text(self@),
    {
        let mut out = self.path.clone();
        out.append(" (");
        out.append(string_of(&nat_to_chars(self.line as u64, 10)).as_str());
        out.append(", ");
        out.append(string_of(&nat_to_chars(self.column as u64, 10)).as_str());
        out.append(")");
        out
    }

    /// The location that stands for no particular source.
    pub fn new() -> (r: SourceLocation)
        ensures
            r@ == (LocationView { path: "unspecified"@, line: 1, column: 1 }),
    {
        SourceLocation { path: String::from_str("unspecified"), line: 1, column: 1 }
    }

    /// The start of the text at `path`.
    pub fn new_from_path(path: &String) -> (r: Self)
        ensures
            r@ == (LocationView { path: path@, line: 1, column: 1 }),
    {
        SourceLocation { path: path.clone(), line: 1, column: 1 }
    }

    /// The given place in the text at `path`.
    pub fn new_from_info(path: &String, line: u32, column: u32) -> (r: Self)
        ensures
            r@ == (LocationView { path: path@, line: line as nat, column: column as nat }),
    {
        SourceLocation { path: path.clone(), line, column }
    }

    pub fn path(&self) -> (r: &String)
        ensures
            r@ == self@.path,
    {
        &self.path
    }

    pub fn line(&self) -> (r: u32)
        ensures
            r == self@.line,
    {
        self.line
    }

    pub fn column(&self) -> (r: u32)
        ensures
            r == self@.column,
    {
        self.column
    }

    /// Whether two locations name the same place.
    pub fn same_as(&self, other: &SourceLocation) -> (r: bool)
        ensures
            r == (self@ == other@),
    {
        self.path == other.path && self.line == other.line && self.column == other.column
    }
}

/// A source text that is read one character at a time, with the location of
/// the next character.
pub struct SourceBuffer {
    chars: Vec<char>,
    position: usize,
    location: SourceLocation,
}

impl SourceBuffer {
    /// The invariant of the buffer: the cursor is within the text.
    pub closed spec fn wf(&self) -> bool {
        self.position <= self.chars@.len()
    }

    /// The characters that have not been read yet.
    pub closed spec fn remaining(&self) -> Seq<char> {
        self.chars@.skip(self.position as int)
    }

    /// The location of the next character.
    pub closed spec fn spec_location(&self) -> LocationView {
        self.location@
    }

    /// A buffer over `source` that starts at line one, column one of `path`.
    pub fn new(path: &String, source: &String) -> (r: Self)
        ensures
            r.wf(),
            r.remaining() == source@,
            r.spec_location() == (LocationView { path: path@, line: 1, column: 1 }),
    {
        let chars = chars_of(source.as_str());
        assert(chars@.skip(0) == chars@);
        SourceBuffer { chars, position: 0, location: SourceLocation::new_from_path(path) }
    }

    pub fn location(&self) -> (r: &SourceLocation)
        ensures
            r@ == self.spec_location(),
    {
        &self.location
    }

    /// The next character, if there is one, without reading it.
    pub fn peek_next(&mut self) -> (r: Option<char>)
        requires
            old(self).wf(),
        ensures
            *final(self) == *old(self),
            r == if old(self).remaining().len() > 0 {
                Some(old(self).remaining()[0])
            } else {
                None
            },
    {
        if self.position < self.chars.len() {
            Some(self.chars[self.position])
        } else {
            None
        }
    }

    /// Reads the next character, if there is one, and moves the location past it.
    pub fn next(&mut self) -> (r: Option<char>)
        requires
            old(self).wf(),
        ensures
            final(self).wf(),
            old(self).remaining().len() == 0 ==> r is None && *final(self) == *old(self),
            old(self).remaining().len() > 0 ==> {
                &&& r == Some(old(self).remaining()[0])
                &&& final(self).remaining() == old(self).remaining().skip(1)
                &&& final(self).spec_location() == location_after(
                    old(self).spec_location(),
                    old(self).remaining()[0],
                )
            },
    {
        if self.position < self.chars.len() {
            let c = self.chars[self.position];
            self.position += 1;
            self.increment_location(c);
            assert(self.chars@.skip(self.position as int) == self.chars@.skip(
                self.position as int - 1,
            ).skip(1));
            Some(c)
        } else {
            None
        }
    }

    fn increment_location(&mut self, next: char)
        ensures
            final(self).chars == old(self).chars,
            final(self).position == old(self).position,
            final(self).location@ == location_after(old(self).location@, next),
    {
        if next == '\n' {
            if self.location.line < u32::MAX {
                self.location.line += 1;
            }
            self.location.column = 1;
        } else {
            if self.location.column < u32::MAX {
                self.location.column += 1;
            }
        }
    }
}

} // verus!
