//! The two finite lookup tables at the bottom of the crate: the file-kind
//! table, between a three-digit octal code and a one-character symbol, and
//! the permission table, between a single octal digit and a three-character
//! `rwx`-style triad. Both tables match their input exactly and fall back to
//! a default (`-` respectively `---`/`0`) on anything else.

use vstd::prelude::*;

verus! {

// ---------------------------------------------------------------------------
// The file-kind table.
// ---------------------------------------------------------------------------

/// The seven recognized file-kind symbols: regular file, directory, symlink,
/// character device, block device, fifo, socket.
pub open spec fn is_kind_symbol(c: char) -> bool {
    c == '-' || c == 'd' || c == 'l' || c == 'c' || c == 'b' || c == 'p' || c == 's'
}

/// Exact match of a sequence against three given characters.
pub open spec fn is_chars3(s: Seq<char>, a: char, b: char, c: char) -> bool {
    s.len() == 3 && s[0] == a && s[1] == b && s[2] == c
}

/// The file-kind table on octal code strings: `040` is a directory, `120` a
/// symlink, `020` a character device, `060` a block device, `010` a fifo,
/// `140` a socket; every other string (in particular `100`) is a regular
/// file `-`.
pub open spec fn kind_symbol_of_code(s: Seq<char>) -> char {
    if is_chars3(s, '0', '4', '0') {
        'd'
    } else if is_chars3(s, '1', '2', '0') {
        'l'
    } else if is_chars3(s, '0', '2', '0') {
        'c'
    } else if is_chars3(s, '0', '6', '0') {
        'b'
    } else if is_chars3(s, '0', '1', '0') {
        'p'
    } else if is_chars3(s, '1', '4', '0') {
        's'
    } else {
        '-'
    }
}

/// The reverse file-kind table: a symbol maps to its three-digit octal code;
/// every character outside the six special symbols maps to `100`, the code
/// of a regular file.
pub open spec fn kind_code_of_symbol(c: char) -> Seq<char> {
    if c == 'd' {
        seq!['0', '4', '0']
    } else if c == 'l' {
        seq!['1', '2', '0']
    } else if c == 'c' {
        seq!['0', '2', '0']
    } else if c == 'b' {
        seq!['0', '6', '0']
    } else if c == 'p' {
        seq!['0', '1', '0']
    } else if c == 's' {
        seq!['1', '4', '0']
    } else {
        seq!['1', '0', '0']
    }
}

/// The file-kind table on the numeric value of the three leading octal
/// digits of a mode: `0o040` is a directory, and so on, with every
/// unrecognized value falling back to the regular file symbol.
pub open spec fn kind_symbol_of_value(v: int) -> char {
    if v == 0o040 {
        'd'
    } else if v == 0o120 {
        'l'
    } else if v == 0o020 {
        'c'
    } else if v == 0o060 {
        'b'
    } else if v == 0o010 {
        'p'
    } else if v == 0o140 {
        's'
    } else {
        '-'
    }
}

/// The numeric value of the octal code a symbol maps to: the reverse
/// file-kind table read as a number.
pub open spec fn kind_value_of_symbol(c: char) -> int {
    if c == 'd' {
        0o040
    } else if c == 'l' {
        0o120
    } else if c == 'c' {
        0o020
    } else if c == 'b' {
        0o060
    } else if c == 'p' {
        0o010
    } else if c == 's' {
        0o140
    } else {
        0o100
    }
}

/// The three octal digits of the code a symbol maps to, as digit values.
pub open spec fn kind_digits_of_symbol(c: char) -> Seq<u8> {
    if c == 'd' {
        seq![0u8, 4u8, 0u8]
    } else if c == 'l' {
        seq![1u8, 2u8, 0u8]
    } else if c == 'c' {
        seq![0u8, 2u8, 0u8]
    } else if c == 'b' {
        seq![0u8, 6u8, 0u8]
    } else if c == 'p' {
        seq![0u8, 1u8, 0u8]
    } else if c == 's' {
        seq![1u8, 4u8, 0u8]
    } else {
        seq![1u8, 0u8, 0u8]
    }
}

/// The seven numeric kind values that the file-kind table recognizes.
pub open spec fn is_canonical_kind_value(v: int) -> bool {
    v == 0o100 || v == 0o040 || v == 0o120 || v == 0o020 || v == 0o060 || v == 0o010
        || v == 0o140
}

// ---------------------------------------------------------------------------
// The permission-triad table.
// ---------------------------------------------------------------------------

/// The canonical triad of a permission digit: bit 4 is read, bit 2 write,
/// bit 1 execute. A value outside 1 to 7 (in particular 0) gives `---`.
pub open spec fn triad_of_digit(d: int) -> Seq<char> {
    if d == 1 {
        seq!['-', '-', 'x']
    } else if d == 2 {
        seq!['-', 'w', '-']
    } else if d == 3 {
        seq!['-', 'w', 'x']
    } else if d == 4 {
        seq!['r', '-', '-']
    } else if d == 5 {
        seq!['r', '-', 'x']
    } else if d == 6 {
        seq!['r', 'w', '-']
    } else if d == 7 {
        seq!['r', 'w', 'x']
    } else {
        seq!['-', '-', '-']
    }
}

/// The permission digit of a triad, by exact match against the eight
/// canonical triads; every other sequence (including `---` itself) gives 0.
pub open spec fn triad_digit_of(s: Seq<char>) -> int {
    if is_chars3(s, '-', '-', 'x') {
        1
    } else if is_chars3(s, '-', 'w', '-') {
        2
    } else if is_chars3(s, '-', 'w', 'x') {
        3
    } else if is_chars3(s, 'r', '-', '-') {
        4
    } else if is_chars3(s, 'r', '-', 'x') {
        5
    } else if is_chars3(s, 'r', 'w', '-') {
        6
    } else if is_chars3(s, 'r', 'w', 'x') {
        7
    } else {
        0
    }
}

/// The shape of a valid triad string: three characters, the first `r` or
/// `-`, the second `w` or `-`, the third `x` or `-`. The strings of this
/// shape are exactly the eight canonical triads.
pub open spec fn is_triad_pattern(s: Seq<char>) -> bool {
    s.len() == 3 && (s[0] == 'r' || s[0] == '-') && (s[1] == 'w' || s[1] == '-') && (s[2] == 'x'
        || s[2] == '-')
}

/// The character of an octal digit value; values outside 0 to 7 never
/// arise and are mapped to `0`.
pub open spec fn digit_char_of(d: int) -> char {
    if d == 1 {
        '1'
    } else if d == 2 {
        '2'
    } else if d == 3 {
        '3'
    } else if d == 4 {
        '4'
    } else if d == 5 {
        '5'
    } else if d == 6 {
        '6'
    } else if d == 7 {
        '7'
    } else {
        '0'
    }
}

/// The digit value of a character: `1` to `7` give their value, everything
/// else (including `0`) gives 0, mirroring the lenient table lookup.
pub open spec fn char_digit_value(c: char) -> int {
    if c == '1' {
        1
    } else if c == '2' {
        2
    } else if c == '3' {
        3
    } else if c == '4' {
        4
    } else if c == '5' {
        5
    } else if c == '6' {
        6
    } else if c == '7' {
        7
    } else {
        0
    }
}

/// The triad a one-character digit string maps to: a single character is
/// looked up in the permission table, anything of another length falls back
/// to `---`.
pub open spec fn triad_of_digit_str(s: Seq<char>) -> Seq<char> {
    if s.len() == 1 {
        triad_of_digit(char_digit_value(s[0]))
    } else {
        triad_of_digit(0)
    }
}

/// The seven octal codes that the file-kind table recognizes (counting
/// `100`, the code of a regular file).
pub open spec fn is_canonical_kind_code(s: Seq<char>) -> bool {
    ||| is_chars3(s, '1', '0', '0')
    ||| is_chars3(s, '0', '4', '0')
    ||| is_chars3(s, '1', '2', '0')
    ||| is_chars3(s, '0', '2', '0')
    ||| is_chars3(s, '0', '6', '0')
    ||| is_chars3(s, '0', '1', '0')
    ||| is_chars3(s, '1', '4', '0')
}

// ---------------------------------------------------------------------------
// Table laws.
// ---------------------------------------------------------------------------

/// TABLE TOTALITY for triads: each of the eight canonical triads — exactly
/// the strings of the shape `[r-][w-][x-]` — maps to a digit below 8, and
/// that digit maps back to the same triad.
pub proof fn lemma_triad_table_total(t: Seq<char>)
    requires
        is_triad_pattern(t),
    ensures
        0 <= triad_digit_of(t) < 8,
        triad_of_digit(triad_digit_of(t)) == t,
{
    if t[0] == 'r' {
        if t[1] == 'w' {
            if t[2] == 'x' {
                assert(t =~= seq!['r', 'w', 'x']);
            } else {
                assert(t =~= seq!['r', 'w', '-']);
            }
        } else {
            if t[2] == 'x' {
                assert(t =~= seq!['r', '-', 'x']);
            } else {
                assert(t =~= seq!['r', '-', '-']);
            }
        }
    } else {
        if t[1] == 'w' {
            if t[2] == 'x' {
                assert(t =~= seq!['-', 'w', 'x']);
            } else {
                assert(t =~= seq!['-', 'w', '-']);
            }
        } else {
            if t[2] == 'x' {
                assert(t =~= seq!['-', '-', 'x']);
            } else {
                assert(t =~= seq!['-', '-', '-']);
            }
        }
    }
}

/// TABLE TOTALITY for file kinds: each of the seven symbols maps to its
/// code — as a string and as a value — and that code maps back to the
/// same symbol.
pub proof fn lemma_kind_table_total(c: char)
    requires
        is_kind_symbol(c),
    ensures
        kind_symbol_of_code(kind_code_of_symbol(c)) == c,
        kind_symbol_of_value(kind_value_of_symbol(c)) == c,
        is_canonical_kind_code(kind_code_of_symbol(c)),
        is_canonical_kind_value(kind_value_of_symbol(c)),
{
}

/// The file-kind table on code strings and the one on code values agree:
/// reading a kind value's three octal digit characters through the string
/// table gives the same symbol as reading the value itself through the
/// value table.
pub proof fn lemma_kind_tables_agree(kv: int)
    requires
        0 <= kv < 512,
    ensures
        kind_symbol_of_code(
            seq![
                digit_char_of(kv / 64),
                digit_char_of((kv / 8) % 8),
                digit_char_of(kv % 8),
            ],
        ) == kind_symbol_of_value(kv),
{
    let a = kv / 64;
    let b = (kv / 8) % 8;
    let e = kv % 8;
    vstd::arithmetic::div_mod::lemma_fundamental_div_mod(kv, 8);
    vstd::arithmetic::div_mod::lemma_fundamental_div_mod(kv / 8, 8);
    vstd::arithmetic::div_mod::lemma_div_denominator(kv, 8, 8);
    assert(kv == 64 * a + 8 * b + e);
    assert(0 <= a < 8 && 0 <= b < 8 && 0 <= e < 8);
}

/// DEFAULT FALLBACK for triads: any string that is not one of the eight
/// canonical triads maps to digit 0, the digit of `---`.
pub proof fn lemma_triad_default(t: Seq<char>)
    requires
        !is_triad_pattern(t),
    ensures
        triad_digit_of(t) == 0,
{
}

/// DEFAULT FALLBACK for file-kind codes: any string that is not one of the
/// seven canonical codes maps to the regular-file symbol `-`; so does any
/// numeric kind value outside the seven canonical values.
pub proof fn lemma_kind_default(s: Seq<char>, v: int)
    requires
        !is_canonical_kind_code(s),
        !is_canonical_kind_value(v),
    ensures
        kind_symbol_of_code(s) == '-',
        kind_symbol_of_value(v) == '-',
{
}

// ---------------------------------------------------------------------------
// Executable lookups.
// ---------------------------------------------------------------------------

/// Looks a three-digit octal file-kind code up in the file-kind table and
/// returns its symbol; any unrecognized string gives `-`.
pub fn file_type_number_to_symbol(file_type: &str) -> (r: char)
    ensures
        r == kind_symbol_of_code(file_type@),
{
    if file_type.unicode_len() == 3 {
        let c0 = file_type.get_char(0);
        let c1 = file_type.get_char(1);
        let c2 = file_type.get_char(2);
        if c0 == '0' && c1 == '4' && c2 == '0' {
            'd'
        } else if c0 == '1' && c1 == '2' && c2 == '0' {
            'l'
        } else if c0 == '0' && c1 == '2' && c2 == '0' {
            'c'
        } else if c0 == '0' && c1 == '6' && c2 == '0' {
            'b'
        } else if c0 == '0' && c1 == '1' && c2 == '0' {
            'p'
        } else if c0 == '1' && c1 == '4' && c2 == '0' {
            's'
        } else {
            '-'
        }
    } else {
        '-'
    }
}

/// Renders a file-kind symbol as its three-digit octal code; any character
/// outside the seven symbols is treated as a regular file and gives `100`.
pub fn symbol_to_file_type_number(symbol_type: char) -> (r: String)
    ensures
        r@ == kind_code_of_symbol(symbol_type),
{
    proof {
        reveal_strlit("040");
        reveal_strlit("120");
        reveal_strlit("020");
        reveal_strlit("060");
        reveal_strlit("010");
        reveal_strlit("140");
        reveal_strlit("100");
    }
    let code: &str = if symbol_type == 'd' {
        "040"
    } else if symbol_type == 'l' {
        "120"
    } else if symbol_type == 'c' {
        "020"
    } else if symbol_type == 'b' {
        "060"
    } else if symbol_type == 'p' {
        "010"
    } else if symbol_type == 's' {
        "140"
    } else {
        "100"
    };
    proof {
        assert(code@ =~= kind_code_of_symbol(symbol_type));
    }
    code.to_owned()
}

/// Looks a one-character octal digit string up in the permission table and
/// returns its triad; `0`, any other character and any other length give
/// `---`.
pub fn digit_to_permission(num: &str) -> (r: String)
    ensures
        r@ == triad_of_digit_str(num@),
{
    proof {
        reveal_strlit("---");
        reveal_strlit("--x");
        reveal_strlit("-w-");
        reveal_strlit("-wx");
        reveal_strlit("r--");
        reveal_strlit("r-x");
        reveal_strlit("rw-");
        reveal_strlit("rwx");
    }
    let perm: &str = if num.unicode_len() == 1 {
        let c = num.get_char(0);
        if c == '1' {
            "--x"
        } else if c == '2' {
            "-w-"
        } else if c == '3' {
            "-wx"
        } else if c == '4' {
            "r--"
        } else if c == '5' {
            "r-x"
        } else if c == '6' {
            "rw-"
        } else if c == '7' {
            "rwx"
        } else {
            "---"
        }
    } else {
        "---"
    };
    proof {
        assert(perm@ =~= triad_of_digit_str(num@));
    }
    perm.to_owned()
}

/// Matches a three-character triad against the eight canonical triads and
/// returns its digit as a one-character string; any other input gives `0`.
pub fn permission_to_digit(perm: &str) -> (r: String)
    ensures
        r@ == seq![digit_char_of(triad_digit_of(perm@))],
{
    proof {
        reveal_strlit("0");
        reveal_strlit("1");
        reveal_strlit("2");
        reveal_strlit("3");
        reveal_strlit("4");
        reveal_strlit("5");
        reveal_strlit("6");
        reveal_strlit("7");
    }
    let digit: &str = if perm.unicode_len() == 3 {
        let c0 = perm.get_char(0);
        let c1 = perm.get_char(1);
        let c2 = perm.get_char(2);
        if c0 == '-' && c1 == '-' && c2 == 'x' {
            "1"
        } else if c0 == '-' && c1 == 'w' && c2 == '-' {
            "2"
        } else if c0 == '-' && c1 == 'w' && c2 == 'x' {
            "3"
        } else if c0 == 'r' && c1 == '-' && c2 == '-' {
            "4"
        } else if c0 == 'r' && c1 == '-' && c2 == 'x' {
            "5"
        } else if c0 == 'r' && c1 == 'w' && c2 == '-' {
            "6"
        } else if c0 == 'r' && c1 == 'w' && c2 == 'x' {
            "7"
        } else {
            "0"
        }
    } else {
        "0"
    };
    proof {
        assert(digit@ =~= seq![digit_char_of(triad_digit_of(perm@))]);
    }
    digit.to_owned()
}

} // verus!
