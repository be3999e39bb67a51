//! The aggregate permission object and its builder. A `FullPermission` is
//! decomposed from a numeric mode — the first three octal digits of its
//! six-digit form give the file kind, the last three the user, group and
//! other permission digits — and recomposes the mode on demand from
//! whatever the triads currently hold. The builder assembles the same six
//! octal digits from validated symbolic pieces, in call order.

use crate::errors::FullPermissionError;
use crate::octal::{
    lemma_octal_value3, lemma_octal_value_push, octal_padded, octal_string, octal_value,
    octal_value_u32, octal_digits_to_u32,
};
use crate::owners::OwnersKind;
use crate::tables::{
    digit_char_of, is_canonical_kind_value, is_kind_symbol, is_triad_pattern,
    kind_digits_of_symbol, kind_symbol_of_code, kind_symbol_of_value, kind_value_of_symbol,
    lemma_kind_tables_agree, lemma_triad_table_total, triad_digit_of, triad_of_digit,
    triad_of_digit_str,
};
use crate::triad::ModeParser;
use vstd::arithmetic::div_mod::{
    lemma_div_denominator, lemma_fundamental_div_mod, lemma_fundamental_div_mod_converse,
};
use vstd::prelude::*;

verus! {

/// The least value whose octal form no longer fits in six digits.
pub open spec fn mode_limit() -> int {
    0o1000000
}

/// A mode is in range when its zero-padded octal form has exactly six
/// digits, that is, when it is below the sixth power of eight.
pub open spec fn mode_in_range(m: int) -> bool {
    0 <= m < mode_limit()
}

/// The value of the three leading octal digits of a six-digit mode: its
/// file-kind code.
pub open spec fn mode_kind_value(m: int) -> int {
    m / 512
}

/// The fourth octal digit of a six-digit mode: the user permission digit.
pub open spec fn mode_user_digit(m: int) -> int {
    (m / 64) % 8
}

/// The fifth octal digit of a six-digit mode: the group permission digit.
pub open spec fn mode_group_digit(m: int) -> int {
    (m / 8) % 8
}

/// The last octal digit of a six-digit mode: the other permission digit.
pub open spec fn mode_other_digit(m: int) -> int {
    m % 8
}

/// The diagnostic message carried by the error for an out-of-range mode:
/// a fixed sentence naming the offending octal rendering.
pub open spec fn invalid_mode_message(m: nat) -> Seq<char> {
    "the mode that was provided is not valid 6 digit decimal number that can be parsed correctly into octal mode :"@
        + octal_padded(m, 6)
}

/// What the decomposition of an in-range mode `m` yields: the file-kind
/// symbol of the leading code value, and for each owner category the
/// canonical triad of its digit, with the digit itself stored beside it.
pub open spec fn is_parse_of(fp: FullPermission, m: int) -> bool {
    &&& fp.wf()
    &&& fp.file_type_spec() == kind_symbol_of_value(mode_kind_value(m))
    &&& fp.user_spec().inner_spec().chars_spec() == triad_of_digit(mode_user_digit(m))
    &&& fp.user_spec().inner_spec().partial_spec() == mode_user_digit(m)
    &&& fp.group_spec().inner_spec().chars_spec() == triad_of_digit(mode_group_digit(m))
    &&& fp.group_spec().inner_spec().partial_spec() == mode_group_digit(m)
    &&& fp.other_spec().inner_spec().chars_spec() == triad_of_digit(mode_other_digit(m))
    &&& fp.other_spec().inner_spec().partial_spec() == mode_other_digit(m)
}

/// A file permission: one file-kind symbol and the three owner categories,
/// each holding its permission triad.
#[derive(Debug, PartialEq, Eq)]
pub struct FullPermission {
    file_type: char,
    user: OwnersKind,
    group: OwnersKind,
    other: OwnersKind,
}

/// The file-kind symbol of a numeric kind-code value.
fn kind_symbol_from_value(v: u32) -> (r: char)
    ensures
        r == kind_symbol_of_value(v as int),
{
    if v == 0o040 {
        'd'
    } else if v == 0o120 {
        'l'
    } else if v == 0o020 {
        'c'
    } else if v == 0o060 {
        'b'
    } else if v == 0o010 {
        'p'
    } else if v == 0o140 {
        's'
    } else {
        '-'
    }
}

/// The numeric kind-code value of a file-kind symbol.
fn kind_value_from_symbol(c: char) -> (r: u32)
    ensures
        r == kind_value_of_symbol(c),
{
    if c == 'd' {
        0o040
    } else if c == 'l' {
        0o120
    } else if c == 'c' {
        0o020
    } else if c == 'b' {
        0o060
    } else if c == 'p' {
        0o010
    } else if c == 's' {
        0o140
    } else {
        0o100
    }
}

impl FullPermission {
    /// The file-kind symbol.
    pub closed spec fn file_type_spec(self) -> char {
        self.file_type
    }

    /// The user owner.
    pub closed spec fn user_spec(self) -> OwnersKind {
        self.user
    }

    /// The group owner.
    pub closed spec fn group_spec(self) -> OwnersKind {
        self.group
    }

    /// The other owner.
    pub closed spec fn other_spec(self) -> OwnersKind {
        self.other
    }

    /// The invariant of a decomposed permission: the file-kind symbol is
    /// one of the seven recognized symbols, each owner field carries its
    /// own tag, and each triad keeps its digit in step with its
    /// characters.
    pub open spec fn wf(self) -> bool {
        &&& is_kind_symbol(self.file_type_spec())
        &&& (self.user_spec() matches OwnersKind::User(_))
        &&& (self.group_spec() matches OwnersKind::Group(_))
        &&& (self.other_spec() matches OwnersKind::Other(_))
        &&& self.user_spec().wf()
        &&& self.group_spec().wf()
        &&& self.other_spec().wf()
    }

    /// The numeric mode the current state recomposes to: the file-kind
    /// code value shifted past the three permission digits.
    pub open spec fn mode_spec(self) -> int {
        kind_value_of_symbol(self.file_type_spec()) * 512 + self.user_spec().inner_spec().partial_spec()
            * 64 + self.group_spec().inner_spec().partial_spec() * 8
            + self.other_spec().inner_spec().partial_spec()
    }

    /// The ten-character symbolic rendering: the file-kind symbol followed
    /// by the user, group and other triads.
    pub open spec fn symbolic_spec(self) -> Seq<char> {
        seq![self.file_type_spec()] + self.user_spec().inner_spec().chars_spec()
            + self.group_spec().inner_spec().chars_spec()
            + self.other_spec().inner_spec().chars_spec()
    }

    /// Decomposes a numeric mode. A mode whose octal form is not exactly
    /// six digits long is rejected with an error naming that octal form;
    /// an in-range mode is split into its file-kind code and three
    /// permission digits, each looked up in its table.
    pub fn new(mode: u32) -> (r: Result<FullPermission, FullPermissionError>)
        ensures
            mode_in_range(mode as int) ==> (r matches Ok(fp) && is_parse_of(fp, mode as int)),
            !mode_in_range(mode as int) ==> (r matches Err(e) && e.message_spec()
                == invalid_mode_message(mode as nat)),
    {
        if mode >= 0o1000000 {
            let oc = octal_string(mode, 6);
            let mut message =
                "the mode that was provided is not valid 6 digit decimal number that can be parsed correctly into octal mode :".to_owned();
            message.append(oc.as_str());
            return Err(FullPermissionError::new(message));
        }
        let file_type = kind_symbol_from_value(mode / 512);
        let user = OwnersKind::User(ModeParser::from_digit((mode / 64) % 8));
        let group = OwnersKind::Group(ModeParser::from_digit((mode / 8) % 8));
        let other = OwnersKind::Other(ModeParser::from_digit(mode % 8));
        Ok(FullPermission { file_type, user, group, other })
    }

    /// The character representing the file kind, such as `-` for a
    /// regular file.
    pub fn get_file_type(&self) -> (r: char)
        ensures
            r == self.file_type_spec(),
    {
        self.file_type
    }

    /// The user owner, open for mutation through the returned reference.
    pub fn get_user(&mut self) -> (r: &mut OwnersKind)
        ensures
            *r == old(self).user_spec(),
            final(self).user_spec() == *final(r),
            final(self).file_type_spec() == old(self).file_type_spec(),
            final(self).group_spec() == old(self).group_spec(),
            final(self).other_spec() == old(self).other_spec(),
    {
        &mut self.user
    }

    /// The group owner, open for mutation through the returned reference.
    pub fn get_group(&mut self) -> (r: &mut OwnersKind)
        ensures
            *r == old(self).group_spec(),
            final(self).group_spec() == *final(r),
            final(self).file_type_spec() == old(self).file_type_spec(),
            final(self).user_spec() == old(self).user_spec(),
            final(self).other_spec() == old(self).other_spec(),
    {
        &mut self.group
    }

    /// The other owner, open for mutation through the returned reference.
    pub fn get_other(&mut self) -> (r: &mut OwnersKind)
        ensures
            *r == old(self).other_spec(),
            final(self).other_spec() == *final(r),
            final(self).file_type_spec() == old(self).file_type_spec(),
            final(self).user_spec() == old(self).user_spec(),
            final(self).group_spec() == old(self).group_spec(),
    {
        &mut self.other
    }

    /// Recomposes the numeric mode from the current file-kind symbol and
    /// the three owners' digits. Recomputed on every call, so it always
    /// reflects the latest mutation.
    pub fn get_mode(&self) -> (r: u32)
        requires
            self.wf(),
        ensures
            r as int == self.mode_spec(),
    {
        let num = kind_value_from_symbol(self.file_type);
        let user = self.user.get_partial_mode();
        let group = self.group.get_partial_mode();
        let other = self.other.get_partial_mode();
        num * 512 + user * 64 + group * 8 + other
    }

    /// The recomposed mode as a six-digit octal string — for display only.
    pub fn mode_as_octal(&self) -> (r: String)
        requires
            self.wf(),
        ensures
            r@ == octal_padded(self.mode_spec() as nat, 6),
    {
        octal_string(self.get_mode(), 6)
    }

    /// The ten-character symbolic rendering, such as `-rw-r--r--`.
    pub fn render_symbolic(&self) -> (r: String)
        ensures
            r@ == self.symbolic_spec(),
    {
        let mut s = String::new();
        crate::strutil::push_char(&mut s, self.file_type);
        let user = self.user.render();
        s.append(user.as_str());
        let group = self.group.render();
        s.append(group.as_str());
        let other = self.other.render();
        s.append(other.as_str());
        proof {
            assert(s@ =~= self.symbolic_spec());
        }
        s
    }
}

/// Accumulates the six octal digits of a mode — three for a validated
/// file-kind symbol, one for each validated owner triad — in call order,
/// then reads them as a base-8 number and decomposes that mode.
#[derive(Debug, PartialEq, Eq)]
pub struct FullPermissionBuilder {
    mode: Vec<u8>,
}

/// The digit of a triad string, by exact match against the eight canonical
/// triads; anything else gives 0.
fn triad_digit_from_str(perm: &str) -> (d: u8)
    ensures
        d as int == triad_digit_of(perm@),
{
    if perm.unicode_len() == 3 {
        let c0 = perm.get_char(0);
        let c1 = perm.get_char(1);
        let c2 = perm.get_char(2);
        proof {
            assert(perm@ =~= seq![perm@[0], perm@[1], perm@[2]]);
        }
        if c0 == '-' && c1 == '-' && c2 == 'x' {
            1
        } else if c0 == '-' && c1 == 'w' && c2 == '-' {
            2
        } else if c0 == '-' && c1 == 'w' && c2 == 'x' {
            3
        } else if c0 == 'r' && c1 == '-' && c2 == '-' {
            4
        } else if c0 == 'r' && c1 == '-' && c2 == 'x' {
            5
        } else if c0 == 'r' && c1 == 'w' && c2 == '-' {
            6
        } else if c0 == 'r' && c1 == 'w' && c2 == 'x' {
            7
        } else {
            0
        }
    } else {
        0
    }
}

impl FullPermissionBuilder {
    /// The octal digits accumulated so far, in call order.
    pub closed spec fn digits_spec(self) -> Seq<u8> {
        self.mode@
    }

    /// Every accumulated digit is an octal digit.
    pub open spec fn wf(self) -> bool {
        forall|i: int| 0 <= i < self.digits_spec().len() ==> self.digits_spec()[i] < 8
    }

    /// An empty builder: no digits accumulated, which reads as mode 0.
    pub fn new() -> (r: Self)
        ensures
            r.digits_spec() == Seq::<u8>::empty(),
            r.wf(),
    {
        FullPermissionBuilder { mode: Vec::new() }
    }

    /// Appends the three digits of the file-kind code of `file_type`,
    /// which must be one of the seven symbols `-dlcbps`.
    pub fn file_type(&mut self, file_type: char) -> (r: &mut Self)
        requires
            old(self).wf(),
            is_kind_symbol(file_type),
        ensures
            (*r).digits_spec() == old(self).digits_spec() + kind_digits_of_symbol(file_type),
            (*r).wf(),
            *final(self) == *final(r),
    {
        let (d0, d1, d2): (u8, u8, u8) = if file_type == 'd' {
            (0, 4, 0)
        } else if file_type == 'l' {
            (1, 2, 0)
        } else if file_type == 'c' {
            (0, 2, 0)
        } else if file_type == 'b' {
            (0, 6, 0)
        } else if file_type == 'p' {
            (0, 1, 0)
        } else if file_type == 's' {
            (1, 4, 0)
        } else {
            (1, 0, 0)
        };
        self.mode.push(d0);
        self.mode.push(d1);
        self.mode.push(d2);
        proof {
            assert(self.digits_spec() =~= old(self).digits_spec() + kind_digits_of_symbol(
                file_type,
            ));
        }
        self
    }

    /// Appends the digit of the user triad, which must have the shape
    /// `[r-][w-][x-]`.
    pub fn user(&mut self, user: &str) -> (r: &mut Self)
        requires
            old(self).wf(),
            is_triad_pattern(user@),
        ensures
            (*r).digits_spec() == old(self).digits_spec().push(triad_digit_of(user@) as u8),
            (*r).wf(),
            *final(self) == *final(r),
    {
        let d = triad_digit_from_str(user);
        proof {
            assert(d < 8);
        }
        self.mode.push(d);
        proof {
            assert forall|i: int| 0 <= i < self.digits_spec().len() implies self.digits_spec()[i]
                < 8 by {
                if i < self.digits_spec().len() - 1 {
                    assert(self.digits_spec()[i] == old(self).digits_spec()[i]);
                }
            }
        }
        self
    }

    /// Appends the digit of the group triad, which must have the shape
    /// `[r-][w-][x-]`.
    pub fn group(&mut self, group: &str) -> (r: &mut Self)
        requires
            old(self).wf(),
            is_triad_pattern(group@),
        ensures
            (*r).digits_spec() == old(self).digits_spec().push(triad_digit_of(group@) as u8),
            (*r).wf(),
            *final(self) == *final(r),
    {
        let d = triad_digit_from_str(group);
        proof {
            assert(d < 8);
        }
        self.mode.push(d);
        proof {
            assert forall|i: int| 0 <= i < self.digits_spec().len() implies self.digits_spec()[i]
                < 8 by {
                if i < self.digits_spec().len() - 1 {
                    assert(self.digits_spec()[i] == old(self).digits_spec()[i]);
                }
            }
        }
        self
    }

    /// Appends the digit of the other triad, which must have the shape
    /// `[r-][w-][x-]`.
    pub fn other(&mut self, other: &str) -> (r: &mut Self)
        requires
            old(self).wf(),
            is_triad_pattern(other@),
        ensures
            (*r).digits_spec() == old(self).digits_spec().push(triad_digit_of(other@) as u8),
            (*r).wf(),
            *final(self) == *final(r),
    {
        let d = triad_digit_from_str(other);
        proof {
            assert(d < 8);
        }
        self.mode.push(d);
        proof {
            assert forall|i: int| 0 <= i < self.digits_spec().len() implies self.digits_spec()[i]
                < 8 by {
                if i < self.digits_spec().len() - 1 {
                    assert(self.digits_spec()[i] == old(self).digits_spec()[i]);
                }
            }
        }
        self
    }

    /// Reads the accumulated octal digits as a base-8 number; an empty
    /// accumulation or one too large for `u32` reads as 0.
    fn get_mode(&self) -> (r: u32)
        requires
            self.wf(),
        ensures
            r as int == octal_value_u32(self.digits_spec()),
    {
        proof {
            assert forall|k: int| 0 <= k < self.mode@.len() implies self.mode@[k] < 8 by {
                assert(self.digits_spec()[k] < 8);
            }
        }
        octal_digits_to_u32(&self.mode)
    }

    /// Decomposes the accumulated mode. With all four components set once,
    /// in any order, the six digits are in range and this succeeds; an
    /// empty builder reads as mode 0 and yields `----------`.
    pub fn build(&self) -> (r: Result<FullPermission, FullPermissionError>)
        requires
            self.wf(),
        ensures
            mode_in_range(octal_value_u32(self.digits_spec())) ==> (r matches Ok(fp)
                && is_parse_of(fp, octal_value_u32(self.digits_spec()))),
            !mode_in_range(octal_value_u32(self.digits_spec())) ==> (r matches Err(e)
                && e.message_spec() == invalid_mode_message(
                octal_value_u32(self.digits_spec()) as nat,
            )),
    {
        FullPermission::new(self.get_mode())
    }
}

// ---------------------------------------------------------------------------
// Laws.
// ---------------------------------------------------------------------------

/// A mode is in range — accepted by `FullPermission::new` — exactly when
/// its zero-padded octal rendering has six characters: the form in which
/// the mode invariant is usually stated.
pub proof fn lemma_mode_in_range_iff_six_digits(m: nat)
    ensures
        mode_in_range(m as int) <==> octal_padded(m, 6).len() == 6,
{
    assert(crate::octal::exp8(0) == 1);
    assert(crate::octal::exp8(1) == 8);
    assert(crate::octal::exp8(2) == 64);
    assert(crate::octal::exp8(3) == 512);
    assert(crate::octal::exp8(4) == 4096);
    assert(crate::octal::exp8(5) == 32768);
    assert(crate::octal::exp8(6) == 262144);
    if m < 262144 {
        crate::octal::lemma_octal_padded_len(m, 6);
    } else {
        crate::octal::lemma_octal_digits_len_ge(m, 6);
    }
}

/// The six characters of an in-range mode's octal rendering are exactly
/// the digit characters of its kind-code value's three digits and of its
/// three permission digits — the digit groups of the data model.
pub proof fn lemma_octal_digit_groups(m: nat)
    requires
        mode_in_range(m as int),
    ensures
        octal_padded(m, 6) == seq![
            digit_char_of(mode_kind_value(m as int) / 64),
            digit_char_of((mode_kind_value(m as int) / 8) % 8),
            digit_char_of(mode_kind_value(m as int) % 8),
            digit_char_of(mode_user_digit(m as int)),
            digit_char_of(mode_group_digit(m as int)),
            digit_char_of(mode_other_digit(m as int)),
        ],
{
    assert(crate::octal::exp8(0) == 1);
    assert(crate::octal::exp8(1) == 8);
    assert(crate::octal::exp8(2) == 64);
    assert(crate::octal::exp8(3) == 512);
    assert(crate::octal::exp8(4) == 4096);
    assert(crate::octal::exp8(5) == 32768);
    assert(crate::octal::exp8(6) == 262144);
    crate::octal::lemma_octal_padded_peel(m, 6);
    crate::octal::lemma_octal_padded_peel(m / 8, 5);
    crate::octal::lemma_octal_padded_peel(m / 8 / 8, 4);
    crate::octal::lemma_octal_padded_peel(m / 8 / 8 / 8, 3);
    crate::octal::lemma_octal_padded_peel(m / 8 / 8 / 8 / 8, 2);
    assert(octal_padded(m / 8 / 8 / 8 / 8 / 8, 1) == seq![
        digit_char_of((m / 8 / 8 / 8 / 8 / 8) as int),
    ]);
    lemma_div_denominator(m as int, 8, 8);
    lemma_div_denominator(m as int, 64, 8);
    lemma_div_denominator(m as int, 512, 8);
    lemma_div_denominator(m as int, 4096, 8);
    lemma_div_denominator(mode_kind_value(m as int), 8, 8);
    assert(octal_padded(m, 6) =~= seq![
        digit_char_of(mode_kind_value(m as int) / 64),
        digit_char_of((mode_kind_value(m as int) / 8) % 8),
        digit_char_of(mode_kind_value(m as int) % 8),
        digit_char_of(mode_user_digit(m as int)),
        digit_char_of(mode_group_digit(m as int)),
        digit_char_of(mode_other_digit(m as int)),
    ]);
}

/// Decomposing an in-range mode by slicing its six octal digit characters
/// through the string tables — the way the data model reads it — agrees
/// with the numeric decomposition that `FullPermission::new` is specified
/// with.
pub proof fn lemma_parse_matches_octal_slicing(m: nat)
    requires
        mode_in_range(m as int),
    ensures
        kind_symbol_of_code(octal_padded(m, 6).subrange(0, 3)) == kind_symbol_of_value(
            mode_kind_value(m as int),
        ),
        triad_of_digit_str(octal_padded(m, 6).subrange(3, 4)) == triad_of_digit(
            mode_user_digit(m as int),
        ),
        triad_of_digit_str(octal_padded(m, 6).subrange(4, 5)) == triad_of_digit(
            mode_group_digit(m as int),
        ),
        triad_of_digit_str(octal_padded(m, 6).subrange(5, 6)) == triad_of_digit(
            mode_other_digit(m as int),
        ),
{
    lemma_octal_digit_groups(m);
    let kv = mode_kind_value(m as int);
    assert(0 <= kv < 512);
    assert(octal_padded(m, 6).subrange(0, 3) =~= seq![
        digit_char_of(kv / 64),
        digit_char_of((kv / 8) % 8),
        digit_char_of(kv % 8),
    ]);
    lemma_kind_tables_agree(kv);
    assert(octal_padded(m, 6).subrange(3, 4) =~= seq![digit_char_of(mode_user_digit(m as int))]);
    assert(octal_padded(m, 6).subrange(4, 5) =~= seq![digit_char_of(mode_group_digit(m as int))]);
    assert(octal_padded(m, 6).subrange(5, 6) =~= seq![digit_char_of(mode_other_digit(m as int))]);
}

/// The three permission digits and the kind value of a mode composed from
/// its parts are those parts.
proof fn lemma_mode_digits(kv: int, d1: int, d2: int, d3: int)
    requires
        0 <= kv < 512,
        0 <= d1 < 8,
        0 <= d2 < 8,
        0 <= d3 < 8,
    ensures
        mode_kind_value(kv * 512 + d1 * 64 + d2 * 8 + d3) == kv,
        mode_user_digit(kv * 512 + d1 * 64 + d2 * 8 + d3) == d1,
        mode_group_digit(kv * 512 + d1 * 64 + d2 * 8 + d3) == d2,
        mode_other_digit(kv * 512 + d1 * 64 + d2 * 8 + d3) == d3,
{
    let m = kv * 512 + d1 * 64 + d2 * 8 + d3;
    lemma_fundamental_div_mod_converse(m, 512, kv, d1 * 64 + d2 * 8 + d3);
    lemma_fundamental_div_mod_converse(m, 64, kv * 8 + d1, d2 * 8 + d3);
    lemma_fundamental_div_mod_converse(kv * 8 + d1, 8, kv, d1);
    lemma_fundamental_div_mod_converse(m, 8, kv * 64 + d1 * 8 + d2, d3);
    lemma_fundamental_div_mod_converse(kv * 64 + d1 * 8 + d2, 8, kv * 8 + d1, d2);
}

/// ROUND TRIP, numeric: a permission decomposed from an in-range mode whose
/// leading three octal digits name one of the seven file kinds recomposes
/// to exactly that mode — parsing and then reading the mode back is the
/// identity there. (A mode whose kind code is unrecognized — 0, say —
/// falls back to the regular-file code `100` on the way back and does not
/// round-trip; such modes are excluded here.)
pub proof fn lemma_mode_round_trip(fp: FullPermission, m: int)
    requires
        mode_in_range(m),
        is_canonical_kind_value(mode_kind_value(m)),
        is_parse_of(fp, m),
    ensures
        fp.mode_spec() == m,
{
    lemma_fundamental_div_mod(m, 512);
    lemma_fundamental_div_mod(m, 64);
    lemma_fundamental_div_mod(m, 8);
    lemma_fundamental_div_mod(m / 64, 8);
    lemma_fundamental_div_mod(m / 8, 8);
    lemma_fundamental_div_mod_converse(m / 64, 8, m / 512, (m / 64) % 8);
    lemma_fundamental_div_mod_converse(m / 8, 8, m / 64, (m / 8) % 8);
}

/// ROUND TRIP, symbolic: building a permission from a file-kind symbol and
/// three triad strings of the valid shape, then rendering it symbolically,
/// reproduces the ten input characters. The first requirement spells out
/// the digits the builder accumulates for these inputs; the permission is
/// any result meeting `build`'s postcondition for them.
pub proof fn lemma_symbolic_round_trip(
    k: char,
    t1: Seq<char>,
    t2: Seq<char>,
    t3: Seq<char>,
    fp: FullPermission,
)
    requires
        is_kind_symbol(k),
        is_triad_pattern(t1),
        is_triad_pattern(t2),
        is_triad_pattern(t3),
        is_parse_of(
            fp,
            octal_value_u32(
                kind_digits_of_symbol(k) + seq![
                    triad_digit_of(t1) as u8,
                    triad_digit_of(t2) as u8,
                    triad_digit_of(t3) as u8,
                ],
            ),
        ),
    ensures
        fp.symbolic_spec() == seq![k] + t1 + t2 + t3,
        mode_in_range(
            octal_value_u32(
                kind_digits_of_symbol(k) + seq![
                    triad_digit_of(t1) as u8,
                    triad_digit_of(t2) as u8,
                    triad_digit_of(t3) as u8,
                ],
            ),
        ),
{
    lemma_triad_table_total(t1);
    lemma_triad_table_total(t2);
    lemma_triad_table_total(t3);
    let d1 = triad_digit_of(t1) as u8;
    let d2 = triad_digit_of(t2) as u8;
    let d3 = triad_digit_of(t3) as u8;
    let digits = kind_digits_of_symbol(k) + seq![d1, d2, d3];
    let kd = kind_digits_of_symbol(k);
    assert(digits =~= seq![kd[0], kd[1], kd[2]].push(d1).push(d2).push(d3));
    lemma_octal_value3(kd[0], kd[1], kd[2]);
    lemma_octal_value_push(seq![kd[0], kd[1], kd[2]], d1);
    lemma_octal_value_push(seq![kd[0], kd[1], kd[2]].push(d1), d2);
    lemma_octal_value_push(seq![kd[0], kd[1], kd[2]].push(d1).push(d2), d3);
    let kv = kind_value_of_symbol(k);
    assert(64 * kd[0] + 8 * kd[1] + kd[2] == kv);
    assert(octal_value(digits) == kv * 512 + d1 * 64 + d2 * 8 + d3);
    let m = octal_value(digits);
    assert(mode_in_range(m));
    assert(octal_value_u32(digits) == m);
    lemma_mode_digits(kv, d1 as int, d2 as int, d3 as int);
    assert(kind_symbol_of_value(kv) == k);
    assert(fp.symbolic_spec() =~= seq![k] + t1 + t2 + t3);
}

} // verus!
