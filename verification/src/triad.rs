//! One owner category's permission characters. The struct stores the three
//! characters verbatim — deliberately loosely, any character is accepted —
//! together with the octal digit their current rendering spells, which every
//! setter re-derives through the permission table.

use crate::strutil::push_char;
use crate::tables::{triad_digit_of, triad_of_digit};
use vstd::prelude::*;

verus! {

/// The character of `s` at position `i`, with `-` standing in for positions
/// past the end.
pub open spec fn char_or_dash(s: Seq<char>, i: int) -> char {
    if 0 <= i < s.len() {
        s[i]
    } else {
        '-'
    }
}

/// One owner category's read, write and execute characters, together with
/// the octal permission digit they currently spell.
#[derive(Debug, PartialEq, Eq)]
pub struct ModeParser {
    partial_mode: u32,
    read: char,
    write: char,
    execute: char,
}

/// The digit of three permission characters, by exact match against the
/// eight canonical triads.
fn triad_chars_digit(read: char, write: char, execute: char) -> (d: u32)
    ensures
        d == triad_digit_of(seq![read, write, execute]),
{
    if read == '-' && write == '-' && execute == 'x' {
        1
    } else if read == '-' && write == 'w' && execute == '-' {
        2
    } else if read == '-' && write == 'w' && execute == 'x' {
        3
    } else if read == 'r' && write == '-' && execute == '-' {
        4
    } else if read == 'r' && write == '-' && execute == 'x' {
        5
    } else if read == 'r' && write == 'w' && execute == '-' {
        6
    } else if read == 'r' && write == 'w' && execute == 'x' {
        7
    } else {
        0
    }
}

impl ModeParser {
    /// The three permission characters, in read, write, execute order.
    pub closed spec fn chars_spec(&self) -> Seq<char> {
        seq![self.read, self.write, self.execute]
    }

    /// The stored octal digit.
    pub closed spec fn partial_spec(&self) -> u32 {
        self.partial_mode
    }

    /// The stored digit is the table lookup of the three characters; every
    /// constructor establishes this and every character setter restores it.
    pub open spec fn wf(&self) -> bool {
        self.partial_spec() == triad_digit_of(self.chars_spec())
    }

    /// Builds a parser from the first three characters of `perm`;
    /// characters past the end of a short string default to `-`.
    pub fn from_perm(perm: &str) -> (r: Self)
        ensures
            r.chars_spec() == seq![
                char_or_dash(perm@, 0),
                char_or_dash(perm@, 1),
                char_or_dash(perm@, 2),
            ],
            r.wf(),
    {
        let n = perm.unicode_len();
        let read = if n > 0 {
            perm.get_char(0)
        } else {
            '-'
        };
        let write = if n > 1 {
            perm.get_char(1)
        } else {
            '-'
        };
        let execute = if n > 2 {
            perm.get_char(2)
        } else {
            '-'
        };
        let partial_mode = triad_chars_digit(read, write, execute);
        ModeParser { partial_mode, read, write, execute }
    }

    /// Builds the canonical triad of a permission digit, with the digit
    /// stored beside its three characters.
    pub fn from_digit(d: u32) -> (r: Self)
        requires
            d < 8,
        ensures
            r.chars_spec() == triad_of_digit(d as int),
            r.partial_spec() == d,
            r.wf(),
    {
        let (read, write, execute): (char, char, char) = if d == 1 {
            ('-', '-', 'x')
        } else if d == 2 {
            ('-', 'w', '-')
        } else if d == 3 {
            ('-', 'w', 'x')
        } else if d == 4 {
            ('r', '-', '-')
        } else if d == 5 {
            ('r', '-', 'x')
        } else if d == 6 {
            ('r', 'w', '-')
        } else if d == 7 {
            ('r', 'w', 'x')
        } else {
            ('-', '-', '-')
        };
        ModeParser { partial_mode: d, read, write, execute }
    }

    /// Overwrites the stored digit without touching the characters.
    pub fn set_partial_mode(&mut self, partial_mode: u32)
        ensures
            final(self).chars_spec() == old(self).chars_spec(),
            final(self).partial_spec() == partial_mode,
    {
        self.partial_mode = partial_mode;
    }

    /// The stored octal digit of this owner category.
    pub fn get_partial_mode(&self) -> (r: u32)
        ensures
            r == self.partial_spec(),
    {
        self.partial_mode
    }

    /// Re-derives the stored digit from the current three characters.
    fn reset_partial_mode(&mut self)
        ensures
            final(self).chars_spec() == old(self).chars_spec(),
            final(self).wf(),
    {
        let digit = triad_chars_digit(self.read, self.write, self.execute);
        self.set_partial_mode(digit);
    }

    /// Stores `read` as the read character — verbatim, whatever it is —
    /// and re-derives the digit.
    pub fn set_read(&mut self, read: char)
        ensures
            final(self).chars_spec() == old(self).chars_spec().update(0, read),
            final(self).wf(),
    {
        self.read = read;
        self.reset_partial_mode();
        proof {
            assert(self.chars_spec() =~= old(self).chars_spec().update(0, read));
        }
    }

    /// Stores `write` as the write character — verbatim — and re-derives
    /// the digit.
    pub fn set_write(&mut self, write: char)
        ensures
            final(self).chars_spec() == old(self).chars_spec().update(1, write),
            final(self).wf(),
    {
        self.write = write;
        self.reset_partial_mode();
        proof {
            assert(self.chars_spec() =~= old(self).chars_spec().update(1, write));
        }
    }

    /// Stores `execute` as the execute character — verbatim — and
    /// re-derives the digit.
    pub fn set_execute(&mut self, execute: char)
        ensures
            final(self).chars_spec() == old(self).chars_spec().update(2, execute),
            final(self).wf(),
    {
        self.execute = execute;
        self.reset_partial_mode();
        proof {
            assert(self.chars_spec() =~= old(self).chars_spec().update(2, execute));
        }
    }

    /// The read character, `r` or `-` in a canonically built triad.
    pub fn get_read(&self) -> (r: char)
        ensures
            r == self.chars_spec()[0],
    {
        self.read
    }

    /// The write character, `w` or `-` in a canonically built triad.
    pub fn get_write(&self) -> (r: char)
        ensures
            r == self.chars_spec()[1],
    {
        self.write
    }

    /// The execute character, `x` or `-` in a canonically built triad.
    pub fn get_execute(&self) -> (r: char)
        ensures
            r == self.chars_spec()[2],
    {
        self.execute
    }

    /// The three permission characters as a string.
    pub fn render(&self) -> (r: String)
        ensures
            r@ == self.chars_spec(),
    {
        let mut s = String::new();
        push_char(&mut s, self.read);
        push_char(&mut s, self.write);
        push_char(&mut s, self.execute);
        proof {
            assert(s@ =~= self.chars_spec());
        }
        s
    }
}

} // verus!
