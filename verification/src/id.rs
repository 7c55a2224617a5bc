//! Identifiers of records: 128-bit numbers drawn at random and written as 32
//! hexadecimal digits.

use vstd::prelude::*;
use crate::text::string_of;

verus! {

/// Trusted: `rand::random` returns a number drawn at random, of which
/// nothing can be said beforehand.
#[verifier::external_body]
pub(crate) fn random_number() -> (n: u128) {
    rand::random::<u128>()
}

/// The hexadecimal digit of a value below 16, in lower case.
pub open spec fn hex_digit(d: int) -> char {
    if d == 0 {
        '0'
    } else if d == 1 {
        '1'
    } else if d == 2 {
        '2'
    } else if d == 3 {
        '3'
    } else if d == 4 {
        '4'
    } else if d == 5 {
        '5'
    } else if d == 6 {
        '6'
    } else if d == 7 {
        '7'
    } else if d == 8 {
        '8'
    } else if d == 9 {
        '9'
    } else if d == 10 {
        'a'
    } else if d == 11 {
        'b'
    } else if d == 12 {
        'c'
    } else if d == 13 {
        'd'
    } else if d == 14 {
        'e'
    } else {
        'f'
    }
}

/// The last `width` hexadecimal digits of a number, most significant first.
pub open spec fn hex(n: nat, width: nat) -> Seq<char>
    decreases width,
{
    if width == 0 {
        Seq::empty()
    } else {
        hex(n / 16, (width - 1) as nat).push(hex_digit((n % 16) as int))
    }
}

/// The hexadecimal digit of a value below 16.
fn digit_char(d: u8) -> (c: char)
    requires
        d < 16,
    ensures
        c == hex_digit(d as int),
{
    match d {
        0 => '0',
        1 => '1',
        2 => '2',
        3 => '3',
        4 => '4',
        5 => '5',
        6 => '6',
        7 => '7',
        8 => '8',
        9 => '9',
        10 => 'a',
        11 => 'b',
        12 => 'c',
        13 => 'd',
        14 => 'e',
        _ => 'f',
    }
}

/// The identifier that a number makes: its 32 hexadecimal digits, with
/// leading zeros.
pub fn identifier(n: u128) -> (id: String)
    ensures
        id@ == hex(n as nat, 32),
        id@.len() == 32,
{
    let mut low: Vec<char> = Vec::new();
    let mut m: u128 = n;
    let mut k: usize = 0;
    assert(hex(m as nat, 32) + low@.reverse() =~= hex(n as nat, 32));
    while k < 32
        invariant
            k <= 32,
            low.len() == k,
            hex(n as nat, 32) == hex(m as nat, (32 - k) as nat) + low@.reverse(),
        decreases 32 - k,
    {
        let ghost before = low@;
        let d = (m % 16) as u8;
        let c = digit_char(d);
        low.push(c);
        proof {
            assert(low@.reverse() =~= seq![c] + before.reverse());
            assert(hex((m / 16) as nat, (31 - k) as nat).push(c) + before.reverse() =~= hex(
                (m / 16) as nat,
                (31 - k) as nat,
            ) + low@.reverse());
        }
        m = m / 16;
        k += 1;
    }
    assert(hex(m as nat, 0) + low@.reverse() =~= low@.reverse());
    let mut digits: Vec<char> = Vec::new();
    let mut i: usize = 32;
    while i > 0
        invariant
            i <= 32,
            low.len() == 32,
            digits.len() == 32 - i,
            forall|j: int| 0 <= j < digits.len() ==> digits@[j] == low@[31 - j],
        decreases i,
    {
        i -= 1;
        digits.push(low[i]);
    }
    assert(digits@ =~= low@.reverse());
    string_of(&digits)
}

} // verus!
