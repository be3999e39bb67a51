//! The three owner categories — user, group, other — as a sum type of
//! exactly three variants, each carrying the permission triad it owns. The
//! tag is fixed at construction and only decides the rendering position in
//! the full permission; every operation forwards to the wrapped triad.

use crate::triad::ModeParser;
use vstd::prelude::*;

verus! {

/// One owner category and its permission triad.
#[derive(Debug, PartialEq, Eq)]
pub enum OwnersKind {
    User(ModeParser),
    Group(ModeParser),
    Other(ModeParser),
}

impl OwnersKind {
    /// The wrapped triad.
    pub open spec fn inner_spec(self) -> ModeParser {
        match self {
            OwnersKind::User(m) => m,
            OwnersKind::Group(m) => m,
            OwnersKind::Other(m) => m,
        }
    }

    /// Both values carry the same owner tag.
    pub open spec fn same_kind(self, other: Self) -> bool {
        &&& ((self matches OwnersKind::User(_)) <==> (other matches OwnersKind::User(_)))
        &&& ((self matches OwnersKind::Group(_)) <==> (other matches OwnersKind::Group(_)))
        &&& ((self matches OwnersKind::Other(_)) <==> (other matches OwnersKind::Other(_)))
    }

    /// The wrapped triad keeps its digit in step with its characters.
    pub open spec fn wf(self) -> bool {
        self.inner_spec().wf()
    }

    /// The wrapped triad, open for mutation through the returned reference.
    fn get_mode_parser(&mut self) -> (r: &mut ModeParser)
        ensures
            *r == old(self).inner_spec(),
            final(self).inner_spec() == *final(r),
            final(self).same_kind(*old(self)),
    {
        match self {
            OwnersKind::User(m) => m,
            OwnersKind::Group(m) => m,
            OwnersKind::Other(m) => m,
        }
    }

    /// The read character of this owner, `r` or `-` in a canonically built
    /// triad.
    pub fn get_read(&self) -> (r: char)
        ensures
            r == self.inner_spec().chars_spec()[0],
    {
        match self {
            OwnersKind::User(m) => m.get_read(),
            OwnersKind::Group(m) => m.get_read(),
            OwnersKind::Other(m) => m.get_read(),
        }
    }

    /// The write character of this owner, `w` or `-` in a canonically
    /// built triad.
    pub fn get_write(&self) -> (r: char)
        ensures
            r == self.inner_spec().chars_spec()[1],
    {
        match self {
            OwnersKind::User(m) => m.get_write(),
            OwnersKind::Group(m) => m.get_write(),
            OwnersKind::Other(m) => m.get_write(),
        }
    }

    /// The execute character of this owner, `x` or `-` in a canonically
    /// built triad.
    pub fn get_execute(&self) -> (r: char)
        ensures
            r == self.inner_spec().chars_spec()[2],
    {
        match self {
            OwnersKind::User(m) => m.get_execute(),
            OwnersKind::Group(m) => m.get_execute(),
            OwnersKind::Other(m) => m.get_execute(),
        }
    }

    /// Assigns a new read character to this owner's triad — verbatim — and
    /// re-derives its digit.
    pub fn set_read(&mut self, read: char)
        ensures
            final(self).same_kind(*old(self)),
            final(self).inner_spec().chars_spec() == old(self).inner_spec().chars_spec().update(
                0,
                read,
            ),
            final(self).wf(),
    {
        self.get_mode_parser().set_read(read);
    }

    /// Assigns a new write character to this owner's triad — verbatim —
    /// and re-derives its digit.
    pub fn set_write(&mut self, write: char)
        ensures
            final(self).same_kind(*old(self)),
            final(self).inner_spec().chars_spec() == old(self).inner_spec().chars_spec().update(
                1,
                write,
            ),
            final(self).wf(),
    {
        self.get_mode_parser().set_write(write);
    }

    /// Assigns a new execute character to this owner's triad — verbatim —
    /// and re-derives its digit.
    pub fn set_execute(&mut self, execute: char)
        ensures
            final(self).same_kind(*old(self)),
            final(self).inner_spec().chars_spec() == old(self).inner_spec().chars_spec().update(
                2,
                execute,
            ),
            final(self).wf(),
    {
        self.get_mode_parser().set_execute(execute);
    }

    /// The octal digit of this owner's triad.
    pub fn get_partial_mode(&self) -> (r: u32)
        ensures
            r == self.inner_spec().partial_spec(),
    {
        match self {
            OwnersKind::User(m) => m.get_partial_mode(),
            OwnersKind::Group(m) => m.get_partial_mode(),
            OwnersKind::Other(m) => m.get_partial_mode(),
        }
    }

    /// The three permission characters of this owner as a string.
    pub fn render(&self) -> (r: String)
        ensures
            r@ == self.inner_spec().chars_spec(),
    {
        match self {
            OwnersKind::User(m) => m.render(),
            OwnersKind::Group(m) => m.render(),
            OwnersKind::Other(m) => m.render(),
        }
    }
}

} // verus!
