//! Verified text primitives: decimal and hexadecimal digits, fixed-width
//! renderings, and character-level string comparison.
use vstd::prelude::*;
use vstd::string::StrSliceExecFns;
use vstd::string::StringExecFns;

verus! {

/// The decimal digit character for `d` (meaningful for `0 <= d <= 9`).
pub open spec fn spec_digit_char(d: int) -> char {
    if d == 0 { '0' }
    else if d == 1 { '1' }
    else if d == 2 { '2' }
    else if d == 3 { '3' }
    else if d == 4 { '4' }
    else if d == 5 { '5' }
    else if d == 6 { '6' }
    else if d == 7 { '7' }
    else if d == 8 { '8' }
    else { '9' }
}

pub open spec fn is_digit(c: char) -> bool {
    c == '0' || c == '1' || c == '2' || c == '3' || c == '4' || c == '5' || c == '6' || c == '7'
        || c == '8' || c == '9'
}

/// The numeric value of a decimal digit character (meaningful when `is_digit(c)`).
pub open spec fn digit_val(c: char) -> int {
    if c == '0' { 0 }
    else if c == '1' { 1 }
    else if c == '2' { 2 }
    else if c == '3' { 3 }
    else if c == '4' { 4 }
    else if c == '5' { 5 }
    else if c == '6' { 6 }
    else if c == '7' { 7 }
    else if c == '8' { 8 }
    else { 9 }
}

pub proof fn lemma_digit_char_val(d: int)
    requires
        0 <= d <= 9,
    ensures
        is_digit(spec_digit_char(d)),
        digit_val(spec_digit_char(d)) == d,
{
}

/// A one-character string slice holding the decimal digit `d`.
pub fn digit_str(d: u8) -> (s: &'static str)
    requires
        d <= 9,
    ensures
        s@ =~= seq![spec_digit_char(d as int)],
{
    proof {
        reveal_strlit("0");
        reveal_strlit("1");
        reveal_strlit("2");
        reveal_strlit("3");
        reveal_strlit("4");
        reveal_strlit("5");
        reveal_strlit("6");
        reveal_strlit("7");
        reveal_strlit("8");
        reveal_strlit("9");
    }
    match d {
        0 => "0",
        1 => "1",
        2 => "2",
        3 => "3",
        4 => "4",
        5 => "5",
        6 => "6",
        7 => "7",
        8 => "8",
        _ => "9",
    }
}

/// The shortest decimal rendering of `n` (meaningful for `n >= 0`).
pub open spec fn dec_chars(n: int) -> Seq<char>
    recommends
        n >= 0,
    decreases n,
{
    if n < 10 {
        seq![spec_digit_char(n)]
    } else {
        dec_chars(n / 10).push(spec_digit_char(n % 10))
    }
}

/// Appends the decimal rendering of `n` to `s`.
pub fn push_dec(s: &mut String, n: u16)
    ensures
        final(s)@ == old(s)@ + dec_chars(n as int),
    decreases n,
{
    if n < 10 {
        s.append(digit_str(n as u8));
        assert(s@ =~= old(s)@ + dec_chars(n as int));
    } else {
        push_dec(s, n / 10);
        s.append(digit_str((n % 10) as u8));
        assert(s@ =~= old(s)@ + dec_chars(n as int));
    }
}

/// A two-digit, zero-padded decimal rendering (meaningful for `0 <= v <= 99`).
pub open spec fn two_digit_chars(v: int) -> Seq<char> {
    seq![spec_digit_char(v / 10), spec_digit_char(v % 10)]
}

/// A four-digit, zero-padded decimal rendering (meaningful for `0 <= v <= 9999`).
pub open spec fn four_digit_chars(v: int) -> Seq<char> {
    seq![
        spec_digit_char(v / 1000),
        spec_digit_char(v / 100 % 10),
        spec_digit_char(v / 10 % 10),
        spec_digit_char(v % 10),
    ]
}

pub fn push_two_digits(s: &mut String, v: u8)
    requires
        v <= 99,
    ensures
        final(s)@ == old(s)@ + two_digit_chars(v as int),
{
    s.append(digit_str(v / 10));
    s.append(digit_str(v % 10));
    assert(s@ =~= old(s)@ + two_digit_chars(v as int));
}

pub fn push_four_digits(s: &mut String, v: u16)
    requires
        v <= 9999,
    ensures
        final(s)@ == old(s)@ + four_digit_chars(v as int),
{
    s.append(digit_str((v / 1000) as u8));
    s.append(digit_str((v / 100 % 10) as u8));
    s.append(digit_str((v / 10 % 10) as u8));
    s.append(digit_str((v % 10) as u8));
    assert(s@ =~= old(s)@ + four_digit_chars(v as int));
}

/// Reads a decimal digit character back into its value.
pub fn read_digit(c: char) -> (r: Option<u8>)
    ensures
        r is Some <==> is_digit(c),
        r matches Some(d) ==> d == digit_val(c) && d <= 9,
{
    match c {
        '0' => Some(0),
        '1' => Some(1),
        '2' => Some(2),
        '3' => Some(3),
        '4' => Some(4),
        '5' => Some(5),
        '6' => Some(6),
        '7' => Some(7),
        '8' => Some(8),
        '9' => Some(9),
        _ => None,
    }
}

/// The lowercase hexadecimal digit character for `d` (meaningful for `0 <= d <= 15`).
pub open spec fn spec_hex_char(d: int) -> char {
    if d < 10 {
        spec_digit_char(d)
    } else if d == 10 { 'a' }
    else if d == 11 { 'b' }
    else if d == 12 { 'c' }
    else if d == 13 { 'd' }
    else if d == 14 { 'e' }
    else { 'f' }
}

pub open spec fn is_hex_digit(c: char) -> bool {
    is_digit(c) || c == 'a' || c == 'b' || c == 'c' || c == 'd' || c == 'e' || c == 'f'
        || c == 'A' || c == 'B' || c == 'C' || c == 'D' || c == 'E' || c == 'F'
}

/// The numeric value of a hexadecimal digit character, either case
/// (meaningful when `is_hex_digit(c)`).
pub open spec fn hex_digit_val(c: char) -> int {
    if is_digit(c) { digit_val(c) }
    else if c == 'a' || c == 'A' { 10 }
    else if c == 'b' || c == 'B' { 11 }
    else if c == 'c' || c == 'C' { 12 }
    else if c == 'd' || c == 'D' { 13 }
    else if c == 'e' || c == 'E' { 14 }
    else { 15 }
}

pub proof fn lemma_hex_char_val(d: int)
    requires
        0 <= d <= 15,
    ensures
        is_hex_digit(spec_hex_char(d)),
        hex_digit_val(spec_hex_char(d)) == d,
{
}

/// A one-character string slice holding the lowercase hexadecimal digit `d`.
pub fn hex_str(d: u8) -> (s: &'static str)
    requires
        d <= 15,
    ensures
        s@ =~= seq![spec_hex_char(d as int)],
{
    proof {
        reveal_strlit("a");
        reveal_strlit("b");
        reveal_strlit("c");
        reveal_strlit("d");
        reveal_strlit("e");
        reveal_strlit("f");
    }
    if d <= 9 {
        digit_str(d)
    } else {
        match d {
            10 => "a",
            11 => "b",
            12 => "c",
            13 => "d",
            14 => "e",
            _ => "f",
        }
    }
}

/// Reads a hexadecimal digit character, either case, back into its value.
pub fn read_hex_digit(c: char) -> (r: Option<u8>)
    ensures
        r is Some <==> is_hex_digit(c),
        r matches Some(d) ==> d == hex_digit_val(c) && d <= 15,
{
    match c {
        '0' => Some(0),
        '1' => Some(1),
        '2' => Some(2),
        '3' => Some(3),
        '4' => Some(4),
        '5' => Some(5),
        '6' => Some(6),
        '7' => Some(7),
        '8' => Some(8),
        '9' => Some(9),
        'a' | 'A' => Some(10),
        'b' | 'B' => Some(11),
        'c' | 'C' => Some(12),
        'd' | 'D' => Some(13),
        'e' | 'E' => Some(14),
        'f' | 'F' => Some(15),
        _ => None,
    }
}

/// Sixteen to the power `w`.
pub open spec fn pow16(w: nat) -> int
    decreases w,
{
    if w == 0 {
        1
    } else {
        16 * pow16((w - 1) as nat)
    }
}

/// The `w`-digit, zero-padded lowercase hexadecimal rendering of the low
/// `4 * w` bits of `v` (meaningful for `v >= 0`).
pub open spec fn hex_chars(v: int, w: nat) -> Seq<char>
    decreases w,
{
    if w == 0 {
        Seq::empty()
    } else {
        hex_chars(v / 16, (w - 1) as nat).push(spec_hex_char(v % 16))
    }
}

/// The value of a sequence of hexadecimal digit characters, most significant
/// first (meaningful when `all_hex(s)`).
pub open spec fn hex_seq_val(s: Seq<char>) -> int
    decreases s.len(),
{
    if s.len() == 0 {
        0
    } else {
        hex_seq_val(s.drop_last()) * 16 + hex_digit_val(s.last())
    }
}

pub open spec fn all_hex(s: Seq<char>) -> bool {
    forall|i: int| 0 <= i < s.len() ==> is_hex_digit(#[trigger] s[i])
}

pub proof fn lemma_pow16_pos(w: nat)
    ensures
        pow16(w) >= 1,
    decreases w,
{
    if w > 0 {
        lemma_pow16_pos((w - 1) as nat);
    }
}

pub proof fn lemma_hex_chars_len(v: int, w: nat)
    ensures
        hex_chars(v, w).len() == w,
        all_hex(hex_chars(v, w)),
    decreases w,
{
    if w > 0 {
        lemma_hex_chars_len(v / 16, (w - 1) as nat);
        if v >= 0 {
            lemma_hex_char_val(v % 16);
        }
    }
}

/// Reading a `w`-digit hexadecimal rendering back yields the value rendered.
pub proof fn lemma_hex_roundtrip(v: int, w: nat)
    requires
        0 <= v < pow16(w),
    ensures
        hex_seq_val(hex_chars(v, w)) == v,
    decreases w,
{
    if w == 0 {
        assert(v == 0);
    } else {
        let p = pow16((w - 1) as nat);
        lemma_pow16_pos((w - 1) as nat);
        assert(v / 16 < p) by (nonlinear_arith)
            requires
                0 <= v,
                v < 16 * p,
                p >= 1,
        {}
        assert(v / 16 >= 0) by (nonlinear_arith)
            requires
                v >= 0,
        {}
        lemma_hex_roundtrip(v / 16, (w - 1) as nat);
        let s = hex_chars(v, w);
        assert(s.drop_last() =~= hex_chars(v / 16, (w - 1) as nat));
        lemma_hex_char_val(v % 16);
        vstd::arithmetic::div_mod::lemma_fundamental_div_mod(v, 16);
    }
}

/// The value of `w` hexadecimal digit characters is below sixteen to the `w`.
pub proof fn lemma_hex_seq_val_bound(s: Seq<char>)
    requires
        all_hex(s),
    ensures
        0 <= hex_seq_val(s) < pow16(s.len()),
    decreases s.len(),
{
    if s.len() > 0 {
        assert(all_hex(s.drop_last())) by {
            assert(forall|i: int|
                0 <= i < s.len() - 1 ==> s.drop_last()[i] == #[trigger] s[i]);
        }
        lemma_hex_seq_val_bound(s.drop_last());
        let h = hex_seq_val(s.drop_last());
        let p = pow16(s.drop_last().len());
        assert(0 <= hex_digit_val(s.last()) <= 15);
        assert(h * 16 + hex_digit_val(s.last()) < p * 16) by (nonlinear_arith)
            requires
                h < p,
                hex_digit_val(s.last()) <= 15,
        {}
        assert(h * 16 >= 0) by (nonlinear_arith)
            requires
                h >= 0,
        {}
        assert(pow16(s.len()) == 16 * p);
    }
}

/// Appends the `w`-digit hexadecimal rendering of `v` to `s`.
pub fn push_hex(s: &mut String, v: u64, w: u8)
    ensures
        final(s)@ == old(s)@ + hex_chars(v as int, w as nat),
    decreases w,
{
    if w == 0 {
        assert(s@ =~= old(s)@ + hex_chars(v as int, 0));
    } else {
        push_hex(s, v / 16, w - 1);
        s.append(hex_str((v % 16) as u8));
        assert(v as int / 16 == (v / 16) as int);
        assert(s@ =~= old(s)@ + hex_chars(v as int, w as nat));
    }
}

/// Character-for-character string equality.
pub fn str_eq(a: &str, b: &str) -> (r: bool)
    ensures
        r == (a@ == b@),
{
    let alen = a.unicode_len();
    let blen = b.unicode_len();
    if alen != blen {
        return false;
    }
    let mut i: usize = 0;
    while i < alen
        invariant
            i <= alen,
            alen == a@.len(),
            blen == b@.len(),
            alen == blen,
            forall|j: int| 0 <= j < i ==> a@[j] == b@[j],
        decreases alen - i,
    {
        if a.get_char(i) != b.get_char(i) {
            return false;
        }
        i += 1;
    }
    proof {
        assert(a@ =~= b@);
    }
    true
}

} // verus!
