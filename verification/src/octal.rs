//! Octal renderings and octal values. A numeric mode is displayed as its
//! octal digits, zero-padded on the left to six characters; the builder
//! reads a sequence of accumulated octal digits back into a number, with
//! the lenient rule that a value too large for `u32` collapses to 0.

use crate::strutil::push_char;
use crate::tables::digit_char_of;
use vstd::prelude::*;

verus! {

/// The octal digit characters of `n`, most significant first, without
/// padding; 0 renders as the single digit `0`.
pub open spec fn octal_digits(n: nat) -> Seq<char>
    decreases n,
{
    if n < 8 {
        seq![digit_char_of(n as int)]
    } else {
        octal_digits(n / 8) + seq![digit_char_of((n % 8) as int)]
    }
}

/// The octal rendering of `n`, zero-padded on the left to at least `width`
/// characters — what the `{:0width$o}` format writes.
pub open spec fn octal_padded(n: nat, width: nat) -> Seq<char> {
    let ds = octal_digits(n);
    if ds.len() >= width {
        ds
    } else {
        Seq::new((width - ds.len()) as nat, |i: int| '0') + ds
    }
}

/// The `width`-th power of 8: the least value whose plain octal rendering
/// is longer than `width` digits.
pub open spec fn exp8(width: nat) -> nat
    decreases width,
{
    if width == 0 {
        1
    } else {
        8 * exp8((width - 1) as nat)
    }
}

/// The value of a sequence of octal digit values, read most significant
/// first; the empty sequence reads as 0.
pub open spec fn octal_value(ds: Seq<u8>) -> int
    decreases ds.len(),
{
    if ds.len() == 0 {
        0
    } else {
        octal_value(ds.drop_last()) * 8 + ds.last()
    }
}

/// A number below the `width`-th power of 8 has at most `width` octal
/// digits.
pub proof fn lemma_octal_digits_len_le(n: nat, width: nat)
    requires
        1 <= width,
        n < exp8(width),
    ensures
        octal_digits(n).len() <= width,
    decreases width,
{
    if n < 8 {
    } else {
        assert(exp8(width) == 8 * exp8((width - 1) as nat));
        assert(n / 8 < exp8((width - 1) as nat)) by (nonlinear_arith)
            requires
                n < 8 * exp8((width - 1) as nat),
                n >= 8;
        lemma_octal_digits_len_le(n / 8, (width - 1) as nat);
    }
}

/// A number below the `width`-th power of 8 pads to exactly `width` octal
/// digits.
pub proof fn lemma_octal_padded_len(n: nat, width: nat)
    requires
        1 <= width,
        n < exp8(width),
    ensures
        octal_padded(n, width).len() == width,
{
    lemma_octal_digits_len_le(n, width);
}

/// Every power of 8 is positive.
pub proof fn lemma_exp8_pos(width: nat)
    ensures
        exp8(width) >= 1,
    decreases width,
{
    if width > 0 {
        lemma_exp8_pos((width - 1) as nat);
    }
}

/// A number at least the `width`-th power of 8 has more than `width` octal
/// digits.
pub proof fn lemma_octal_digits_len_ge(n: nat, width: nat)
    requires
        n >= exp8(width),
    ensures
        octal_digits(n).len() >= width + 1,
    decreases width,
{
    if width == 0 {
    } else {
        lemma_exp8_pos((width - 1) as nat);
        assert(n / 8 >= exp8((width - 1) as nat)) by (nonlinear_arith)
            requires
                n >= 8 * exp8((width - 1) as nat),
                exp8((width - 1) as nat) >= 1;
        lemma_octal_digits_len_ge(n / 8, (width - 1) as nat);
    }
}

/// Peeling the last digit: with at least two columns of padding, the
/// padded rendering of `n` is the padded rendering of `n / 8`, one column
/// narrower, with the digit character of `n % 8` appended.
pub proof fn lemma_octal_padded_peel(n: nat, width: nat)
    requires
        2 <= width,
        n < exp8(width),
    ensures
        octal_padded(n, width) == octal_padded(n / 8, (width - 1) as nat).push(
            digit_char_of((n % 8) as int),
        ),
{
    if n < 8 {
        assert(octal_digits(n) == seq![digit_char_of(n as int)]);
        assert(octal_digits(n / 8) == seq![digit_char_of(0)]);
        assert(octal_padded(n, width) =~= octal_padded(n / 8, (width - 1) as nat).push(
            digit_char_of((n % 8) as int),
        ));
    } else {
        lemma_exp8_pos((width - 1) as nat);
        assert(n / 8 < exp8((width - 1) as nat)) by (nonlinear_arith)
            requires
                n < 8 * exp8((width - 1) as nat),
                n >= 8;
        lemma_octal_digits_len_le(n / 8, (width - 1) as nat);
        assert(octal_digits(n) == octal_digits(n / 8) + seq![digit_char_of((n % 8) as int)]);
        assert(octal_padded(n, width) =~= octal_padded(n / 8, (width - 1) as nat).push(
            digit_char_of((n % 8) as int),
        ));
    }
}

/// The value of a three-digit sequence, written out.
pub proof fn lemma_octal_value3(a: u8, b: u8, c: u8)
    ensures
        octal_value(seq![a, b, c]) == 64 * a + 8 * b + c,
{
    let s = seq![a, b, c];
    assert(seq![a].drop_last() =~= Seq::<u8>::empty());
    assert(octal_value(Seq::<u8>::empty()) == 0);
    assert(octal_value(seq![a]) == a);
    assert(seq![a, b].drop_last() =~= seq![a]);
    assert(octal_value(seq![a, b]) == 8 * a + b);
    assert(s.drop_last() =~= seq![a, b]);
    assert(octal_value(s) == (8 * a + b) * 8 + c);
}

/// Appending one digit multiplies the value by 8 and adds the digit.
pub proof fn lemma_octal_value_push(ds: Seq<u8>, d: u8)
    ensures
        octal_value(ds.push(d)) == octal_value(ds) * 8 + d,
{
    assert(ds.push(d).drop_last() =~= ds);
    assert(ds.push(d).last() == d);
}

/// The value of a digit sequence never shrinks as digits are appended:
/// every digit multiplies the nonnegative prefix value by 8 before adding
/// a nonnegative digit.
pub proof fn lemma_octal_value_monotone(ds: Seq<u8>, i: int)
    requires
        0 <= i <= ds.len(),
    ensures
        0 <= octal_value(ds.take(i)) <= octal_value(ds),
    decreases ds.len() - i,
{
    if i == ds.len() {
        assert(ds.take(i) =~= ds);
        lemma_octal_value_nonneg(ds);
    } else {
        lemma_octal_value_monotone(ds, i + 1);
        assert(ds.take(i + 1).drop_last() =~= ds.take(i));
        assert(octal_value(ds.take(i + 1)) == octal_value(ds.take(i)) * 8 + ds.take(i + 1).last());
        lemma_octal_value_nonneg(ds.take(i));
    }
}

/// The value of a digit sequence is nonnegative.
pub proof fn lemma_octal_value_nonneg(ds: Seq<u8>)
    ensures
        octal_value(ds) >= 0,
    decreases ds.len(),
{
    if ds.len() > 0 {
        lemma_octal_value_nonneg(ds.drop_last());
    }
}

/// The character of a single octal digit value.
fn digit_char(d: u32) -> (c: char)
    requires
        d < 8,
    ensures
        c == digit_char_of(d as int),
{
    if d == 0 {
        '0'
    } else if d == 1 {
        '1'
    } else if d == 2 {
        '2'
    } else if d == 3 {
        '3'
    } else if d == 4 {
        '4'
    } else if d == 5 {
        '5'
    } else if d == 6 {
        '6'
    } else {
        '7'
    }
}

/// The plain octal digits of `n`, most significant first.
fn octal_digits_string(n: u32) -> (r: String)
    ensures
        r@ == octal_digits(n as nat),
    decreases n,
{
    if n < 8 {
        let mut s = String::new();
        push_char(&mut s, digit_char(n));
        s
    } else {
        let mut s = octal_digits_string(n / 8);
        push_char(&mut s, digit_char(n % 8));
        s
    }
}

/// The octal rendering of `n`, zero-padded on the left to at least `width`
/// characters.
pub fn octal_string(n: u32, width: usize) -> (r: String)
    ensures
        r@ == octal_padded(n as nat, width as nat),
{
    let digits = octal_digits_string(n);
    let len = digits.as_str().unicode_len();
    let mut s = String::new();
    let mut i: usize = len;
    while i < width
        invariant
            len == octal_digits(n as nat).len(),
            len <= i,
            i <= width || i == len,
            s@ =~= Seq::new((i - len) as nat, |j: int| '0'),
        decreases width - i,
    {
        s.append("0");
        proof {
            reveal_strlit("0");
            assert(s@ =~= Seq::new((i + 1 - len) as nat, |j: int| '0'));
        }
        i = i + 1;
    }
    s.append(digits.as_str());
    proof {
        assert(s@ =~= octal_padded(n as nat, width as nat));
    }
    s
}

/// The value of the accumulated octal digits as the builder reads it: the
/// base-8 number they spell where it fits in `u32`, and 0 where it
/// overflows — the lenient `unwrap_or(0)` of a failed string-to-number
/// parse.
pub open spec fn octal_value_u32(ds: Seq<u8>) -> int {
    if octal_value(ds) <= u32::MAX {
        octal_value(ds)
    } else {
        0
    }
}

/// Reads a sequence of octal digit values, most significant first, as a
/// base-8 number; a value that does not fit in `u32` collapses to 0, and
/// the empty sequence reads as 0.
pub fn octal_digits_to_u32(ds: &Vec<u8>) -> (r: u32)
    requires
        forall|k: int| 0 <= k < ds@.len() ==> ds@[k] < 8,
    ensures
        r == octal_value_u32(ds@),
{
    let mut v: u32 = 0;
    let mut i: usize = 0;
    let n = ds.len();
    while i < n
        invariant
            n == ds@.len(),
            0 <= i <= n,
            forall|k: int| 0 <= k < ds@.len() ==> ds@[k] < 8,
            v == octal_value(ds@.take(i as int)),
        decreases n - i,
    {
        let d = ds[i];
        proof {
            assert(ds@.take(i + 1).drop_last() =~= ds@.take(i as int));
            assert(octal_value(ds@.take(i + 1)) == octal_value(ds@.take(i as int)) * 8 + d);
        }
        if v > (u32::MAX - d as u32) / 8 {
            proof {
                lemma_octal_value_monotone(ds@, i + 1);
                assert(octal_value(ds@) > u32::MAX);
            }
            return 0;
        }
        v = v * 8 + d as u32;
        i = i + 1;
    }
    proof {
        assert(ds@.take(n as int) =~= ds@);
    }
    v
}

} // verus!
