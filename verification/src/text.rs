//! Numbers as text.

use vstd::prelude::*;

verus! {

/// The character of the digit `d`.
pub open spec fn digit_of(d: nat) -> char {
    if d == 0 {
        '0'
    } else if d == 1 {
        '1'
    } else if d == 2 {
        '2'
    } else if d == 3 {
        '3'
    } else if d == 4 {
        '4'
    } else if d == 5 {
        '5'
    } else if d == 6 {
        '6'
    } else if d == 7 {
        '7'
    } else if d == 8 {
        '8'
    } else {
        '9'
    }
}

/// The number `n` in decimal digits, without leading zeros.
pub open spec fn decimal_of(n: nat) -> Seq<char>
    decreases n,
{
    if n < 10 {
        seq![digit_of(n)]
    } else {
        decimal_of(n / 10).push(digit_of(n % 10))
    }
}

/// The number `n` in decimal digits, with leading zeros up to `width`
/// digits where it has fewer.
pub open spec fn padded_of(n: nat, width: nat) -> Seq<char>
    decreases width,
{
    if width <= 1 {
        decimal_of(n)
    } else if n < 10 {
        padded_of(0, (width - 1) as nat).push(digit_of(n))
    } else {
        padded_of(n / 10, (width - 1) as nat).push(digit_of(n % 10))
    }
}

/// A number of thousandths as a decimal fraction with three places.
pub open spec fn thousandths_of(n: nat) -> Seq<char> {
    decimal_of(n / 1000) + seq!['.'] + padded_of(n % 1000, 3)
}

/// A number of thousandths as a decimal fraction with two places, the
/// third place rounded, five upwards.
pub open spec fn rounded_hundredths_of(n: nat) -> Seq<char> {
    decimal_of((n + 5) / 10 / 100) + seq!['.'] + padded_of((n + 5) / 10 % 100, 2)
}

/// `count` spaces.
pub open spec fn spaces_of(count: nat) -> Seq<char> {
    Seq::new(count, |i: int| ' ')
}

/// The digit `d` as text.
pub fn digit_text(d: u64) -> (text: &'static str)
    requires
        d < 10,
    ensures
        text@ == seq![digit_of(d as nat)],
{
    proof {
        reveal_strlit("0");
        reveal_strlit("1");
        reveal_strlit("2");
        reveal_strlit("3");
        reveal_strlit("4");
        reveal_strlit("5");
        reveal_strlit("6");
        reveal_strlit("7");
        reveal_strlit("8");
        reveal_strlit("9");
    }
    let text = if d == 0 {
        "0"
    } else if d == 1 {
        "1"
    } else if d == 2 {
        "2"
    } else if d == 3 {
        "3"
    } else if d == 4 {
        "4"
    } else if d == 5 {
        "5"
    } else if d == 6 {
        "6"
    } else if d == 7 {
        "7"
    } else if d == 8 {
        "8"
    } else {
        "9"
    };
    assert(text@ =~= seq![digit_of(d as nat)]);
    text
}

/// The number `n` in decimal digits.
pub fn decimal_text(n: u64) -> (text: String)
    ensures
        text@ == decimal_of(n as nat),
    decreases n,
{
    if n < 10 {
        digit_text(n).to_owned()
    } else {
        let mut text = decimal_text(n / 10);
        text.append(digit_text(n % 10));
        text
    }
}

/// The number `n` in decimal digits, with leading zeros up to `width`
/// digits.
pub fn padded_text(n: u64, width: u32) -> (text: String)
    ensures
        text@ == padded_of(n as nat, width as nat),
    decreases width,
{
    if width <= 1 {
        decimal_text(n)
    } else if n < 10 {
        let mut text = padded_text(0, width - 1);
        text.append(digit_text(n));
        text
    } else {
        let mut text = padded_text(n / 10, width - 1);
        text.append(digit_text(n % 10));
        text
    }
}

/// A number of thousandths as a decimal fraction with three places.
pub fn thousandths_text(n: u64) -> (text: String)
    ensures
        text@ == thousandths_of(n as nat),
{
    proof {
        reveal_strlit(".");
    }
    let mut text = decimal_text(n / 1000);
    text.append(".");
    let places = padded_text(n % 1000, 3);
    text.append(places.as_str());
    assert(text@ =~= thousandths_of(n as nat));
    text
}

/// A number of thousandths as a decimal fraction with two places, the
/// third place rounded, five upwards.
pub fn rounded_hundredths_text(n: u64) -> (text: String)
    ensures
        text@ == rounded_hundredths_of(n as nat),
{
    proof {
        reveal_strlit(".");
    }
    let hundredths: u64 = ((n as u128 + 5) / 10) as u64;
    let mut text = decimal_text(hundredths / 100);
    text.append(".");
    let places = padded_text(hundredths % 100, 2);
    text.append(places.as_str());
    assert(text@ =~= rounded_hundredths_of(n as nat));
    text
}

/// `count` spaces.
pub fn spaces_text(count: usize) -> (text: String)
    ensures
        text@ == spaces_of(count as nat),
{
    proof {
        reveal_strlit(" ");
    }
    let mut text = String::new();
    let mut i: usize = 0;
    while i < count
        invariant
            0 <= i <= count,
            text@ == spaces_of(i as nat),
            " "@ == seq![' '],
        decreases count - i,
    {
        text.append(" ");
        i = i + 1;
        assert(text@ =~= spaces_of(i as nat));
    }
    text
}

} // verus!
