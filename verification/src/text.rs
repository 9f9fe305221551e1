//! Building display text: decimal and hexadecimal numbers, padding.
use vstd::prelude::*;
use vstd::string::*;

verus! {

/// The character of the decimal digit `d` (`d < 10`).
pub open spec fn digit_char(d: nat) -> char {
    if d == 0 { '0' }
    else if d == 1 { '1' }
    else if d == 2 { '2' }
    else if d == 3 { '3' }
    else if d == 4 { '4' }
    else if d == 5 { '5' }
    else if d == 6 { '6' }
    else if d == 7 { '7' }
    else if d == 8 { '8' }
    else { '9' }
}

/// The lowercase hexadecimal digit of `d` (`d < 16`).
pub open spec fn hex_char(d: nat) -> char {
    if d < 10 { digit_char(d) }
    else if d == 10 { 'a' }
    else if d == 11 { 'b' }
    else if d == 12 { 'c' }
    else if d == 13 { 'd' }
    else if d == 14 { 'e' }
    else { 'f' }
}

/// The decimal representation of `n`, without leading zeros.
pub open spec fn decimal(n: nat) -> Seq<char>
    decreases n,
{
    if n < 10 {
        seq![digit_char(n)]
    } else {
        decimal(n / 10) + seq![digit_char(n % 10)]
    }
}

/// The decimal representation of a signed integer, with a leading `-` when negative.
pub open spec fn signed_decimal(i: int) -> Seq<char> {
    if i < 0 { seq!['-'] + decimal((-i) as nat) } else { decimal(i as nat) }
}

/// A signed integer with an explicit sign: `+` for zero and positive values.
pub open spec fn plus_signed_decimal(i: int) -> Seq<char> {
    if i < 0 { seq!['-'] + decimal((-i) as nat) } else { seq!['+'] + decimal(i as nat) }
}

/// `0x` followed by two lowercase hexadecimal digits of a byte.
pub open spec fn hex_byte(b: u8) -> Seq<char> {
    seq!['0', 'x', hex_char((b / 16) as nat), hex_char((b % 16) as nat)]
}

/// `count` spaces.
pub open spec fn spaces(count: nat) -> Seq<char>
    decreases count,
{
    if count == 0 { seq![] } else { spaces((count - 1) as nat) + seq![' '] }
}

/// `s` right-aligned in a field of `width` characters.
pub open spec fn pad_left(s: Seq<char>, width: nat) -> Seq<char> {
    if s.len() < width { spaces((width - s.len()) as nat) + s } else { s }
}

/// `s` left-aligned in a field of `width` characters.
pub open spec fn pad_right(s: Seq<char>, width: nat) -> Seq<char> {
    if s.len() < width { s + spaces((width - s.len()) as nat) } else { s }
}

/// The one-character string of a decimal digit.
pub fn digit_str(d: u64) -> (r: &'static str)
    requires
        d < 10,
    ensures
        r@ == seq![digit_char(d as nat)],
{
    if d == 0 { proof { reveal_strlit("0"); } "0" }
    else if d == 1 { proof { reveal_strlit("1"); } "1" }
    else if d == 2 { proof { reveal_strlit("2"); } "2" }
    else if d == 3 { proof { reveal_strlit("3"); } "3" }
    else if d == 4 { proof { reveal_strlit("4"); } "4" }
    else if d == 5 { proof { reveal_strlit("5"); } "5" }
    else if d == 6 { proof { reveal_strlit("6"); } "6" }
    else if d == 7 { proof { reveal_strlit("7"); } "7" }
    else if d == 8 { proof { reveal_strlit("8"); } "8" }
    else { proof { reveal_strlit("9"); } "9" }
}

/// The one-character string of a lowercase hexadecimal digit.
fn hex_str(d: u8) -> (r: &'static str)
    requires
        d < 16,
    ensures
        r@ == seq![hex_char(d as nat)],
{
    if d < 10 { digit_str(d as u64) }
    else if d == 10 { proof { reveal_strlit("a"); } "a" }
    else if d == 11 { proof { reveal_strlit("b"); } "b" }
    else if d == 12 { proof { reveal_strlit("c"); } "c" }
    else if d == 13 { proof { reveal_strlit("d"); } "d" }
    else if d == 14 { proof { reveal_strlit("e"); } "e" }
    else { proof { reveal_strlit("f"); } "f" }
}

/// Appends the decimal representation of `n`.
pub fn push_decimal(s: &mut String, n: u64)
    ensures
        final(s)@ == old(s)@ + decimal(n as nat),
    decreases n,
{
    if n >= 10 {
        push_decimal(s, n / 10);
    }
    let d = n % 10;
    s.append(digit_str(d));
    proof {
        if n >= 10 {
            assert(old(s)@ + decimal((n / 10) as nat) + seq![digit_char((n % 10) as nat)]
                =~= old(s)@ + decimal(n as nat));
        } else {
            assert(d == n);
        }
    }
}

/// Appends the decimal representation of a signed integer.
pub fn push_signed(s: &mut String, i: i64)
    ensures
        final(s)@ == old(s)@ + signed_decimal(i as int),
{
    if i < 0 {
        proof { reveal_strlit("-"); }
        s.append("-");
        let magnitude: u64 = if i == i64::MIN { 9223372036854775808u64 } else { (-i) as u64 };
        push_decimal(s, magnitude);
        assert(s@ =~= old(s)@ + signed_decimal(i as int));
    } else {
        push_decimal(s, i as u64);
    }
}

/// Appends a signed integer with an explicit `+` or `-` sign.
pub fn push_plus_signed(s: &mut String, i: i64)
    ensures
        final(s)@ == old(s)@ + plus_signed_decimal(i as int),
{
    if i < 0 {
        push_signed(s, i);
    } else {
        proof { reveal_strlit("+"); }
        s.append("+");
        push_decimal(s, i as u64);
        assert(s@ =~= old(s)@ + plus_signed_decimal(i as int));
    }
}

/// Appends `0x` and the byte in two lowercase hexadecimal digits.
pub fn push_hex_byte(s: &mut String, b: u8)
    ensures
        final(s)@ == old(s)@ + hex_byte(b),
{
    proof { reveal_strlit("0x"); }
    s.append("0x");
    s.append(hex_str(b / 16));
    s.append(hex_str(b % 16));
    assert(s@ =~= old(s)@ + hex_byte(b));
}

/// Appends `count` spaces.
pub fn push_spaces(s: &mut String, count: usize)
    ensures
        final(s)@ == old(s)@ + spaces(count as nat),
    decreases count,
{
    if count > 0 {
        push_spaces(s, count - 1);
        proof { reveal_strlit(" "); }
        s.append(" ");
        assert(s@ =~= old(s)@ + spaces(count as nat));
    } else {
        assert(s@ =~= old(s)@ + spaces(count as nat));
    }
}

/// Appends `text` right-aligned in a field of `width` characters.
pub fn push_padded(s: &mut String, text: &str, width: usize)
    ensures
        final(s)@ == old(s)@ + pad_left(text@, width as nat),
{
    let len = text.unicode_len();
    if len < width {
        push_spaces(s, width - len);
    } else {
        assert(s@ =~= old(s)@);
    }
    s.append(text);
    assert(s@ =~= old(s)@ + pad_left(text@, width as nat));
}

/// Appends `text` left-aligned in a field of `width` characters.
pub fn push_padded_right(s: &mut String, text: &str, width: usize)
    ensures
        final(s)@ == old(s)@ + pad_right(text@, width as nat),
{
    let len = text.unicode_len();
    s.append(text);
    if len < width {
        push_spaces(s, width - len);
    }
    assert(s@ =~= old(s)@ + pad_right(text@, width as nat));
}

/// A fresh string holding the text of a literal.
pub fn text_of(lit: &str) -> (r: String)
    ensures
        r@ == lit@,
{
    String::from_str(lit)
}

} // verus!
