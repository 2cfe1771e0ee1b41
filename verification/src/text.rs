//! Small text helpers shared by the editor's components: building
//! `String`s from character vectors, classifying control characters,
//! and rendering small numbers in decimal for status messages.

use vstd::prelude::*;

verus! {

/// Relies on `String::push`: appends the given character to the end of
/// the string's character sequence.
#[verifier::external_body]
pub(crate) fn push_char(s: &mut String, c: char)
    ensures
        final(s)@ == old(s)@.push(c),
{
    s.push(c);
}

/// Builds a `String` holding exactly the given characters.
pub fn string_of(chars: &Vec<char>) -> (s: String)
    ensures
        s@ == chars@,
{
    let mut s = String::new();
    let mut i: usize = 0;
    while i < chars.len()
        invariant
            i <= chars@.len(),
            s@ == chars@.subrange(0, i as int),
        decreases chars@.len() - i,
    {
        push_char(&mut s, chars[i]);
        proof {
            assert(chars@.subrange(0, i as int).push(chars@[i as int]) =~= chars@.subrange(
                0,
                i + 1,
            ));
        }
        i = i + 1;
    }
    proof {
        assert(chars@.subrange(0, chars@.len() as int) =~= chars@);
    }
    s
}

/// Builds a `String` holding the characters of `chars` between `start`
/// (inclusive) and `end` (exclusive).
pub fn string_of_range(chars: &Vec<char>, start: usize, end: usize) -> (s: String)
    requires
        start <= end <= chars@.len(),
    ensures
        s@ == chars@.subrange(start as int, end as int),
{
    let mut s = String::new();
    let mut i: usize = start;
    while i < end
        invariant
            start <= i <= end <= chars@.len(),
            s@ == chars@.subrange(start as int, i as int),
        decreases end - i,
    {
        push_char(&mut s, chars[i]);
        proof {
            assert(chars@.subrange(start as int, i as int).push(chars@[i as int])
                =~= chars@.subrange(start as int, i + 1));
        }
        i = i + 1;
    }
    s
}

/// Whether `c` falls in the Unicode control-code category: the range
/// below U+0020 together with U+007F through U+009F.
pub open spec fn spec_is_control(c: char) -> bool {
    (c as u32) < 0x20 || (0x7f <= (c as u32) && (c as u32) <= 0x9f)
}

/// Reports whether `c` is a control character, by the same ranges that
/// define the Unicode control-code category.
pub fn is_control_char(c: char) -> (r: bool)
    ensures
        r == spec_is_control(c),
{
    let u = c as u32;
    u < 0x20 || (0x7f <= u && u <= 0x9f)
}

/// The byte a terminal sends for Ctrl plus the key `c`: the low five
/// bits of the character's code.
pub open spec fn spec_to_ctrl_byte(c: char) -> u8 {
    ((c as u32) & 0x1f) as u8
}

/// Maps a key character to the byte its Ctrl chord produces.
pub fn to_ctrl_byte(c: char) -> (r: u8)
    ensures
        r == spec_to_ctrl_byte(c),
{
    let u = c as u32;
    let masked = u & 0x1f;
    assert(u & 0x1f < 0x20) by (bit_vector);
    masked as u8
}

/// The digit character for a value below ten.
pub open spec fn spec_digit(d: int) -> char {
    if d == 0 {
        '0'
    } else if d == 1 {
        '1'
    } else if d == 2 {
        '2'
    } else if d == 3 {
        '3'
    } else if d == 4 {
        '4'
    } else if d == 5 {
        '5'
    } else if d == 6 {
        '6'
    } else if d == 7 {
        '7'
    } else if d == 8 {
        '8'
    } else {
        '9'
    }
}

/// The decimal representation of a non-negative number, most
/// significant digit first, with no leading zeros.
pub open spec fn spec_decimal(n: int) -> Seq<char>
    decreases n,
{
    if n < 10 {
        seq![spec_digit(n)]
    } else {
        spec_decimal(n / 10).push(spec_digit(n % 10))
    }
}

fn digit_char(d: u8) -> (r: char)
    requires
        d < 10,
    ensures
        r == spec_digit(d as int),
{
    if d == 0 {
        '0'
    } else if d == 1 {
        '1'
    } else if d == 2 {
        '2'
    } else if d == 3 {
        '3'
    } else if d == 4 {
        '4'
    } else if d == 5 {
        '5'
    } else if d == 6 {
        '6'
    } else if d == 7 {
        '7'
    } else if d == 8 {
        '8'
    } else {
        '9'
    }
}

/// Writes `n` in decimal.
pub fn decimal_u8(n: u8) -> (s: String)
    ensures
        s@ == spec_decimal(n as int),
{
    let mut s = String::new();
    if n >= 100 {
        push_char(&mut s, digit_char(n / 100));
    }
    if n >= 10 {
        push_char(&mut s, digit_char((n / 10) % 10));
    }
    push_char(&mut s, digit_char(n % 10));
    proof {
        let ni = n as int;
        if ni >= 100 {
            assert(ni / 10 / 10 == ni / 100) by (nonlinear_arith);
            assert(ni / 10 >= 10) by (nonlinear_arith)
                requires ni >= 100;
            assert(ni / 100 < 10) by (nonlinear_arith)
                requires ni <= 255;
            assert(spec_decimal(ni / 100) =~= seq![spec_digit(ni / 100)]);
            assert(spec_decimal(ni / 10) =~= seq![
                spec_digit(ni / 100),
                spec_digit((ni / 10) % 10),
            ]);
            assert(spec_decimal(ni) =~= s@);
        } else if ni >= 10 {
            assert(ni / 10 < 10) by (nonlinear_arith)
                requires ni < 100;
            assert((ni / 10) % 10 == ni / 10) by (nonlinear_arith)
                requires 0 <= ni / 10 < 10;
            assert(spec_decimal(ni / 10) =~= seq![spec_digit(ni / 10)]);
            assert(spec_decimal(ni) =~= s@);
        } else {
            assert(spec_decimal(ni) =~= s@);
        }
    }
    s
}

} // verus!
