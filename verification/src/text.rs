//! Small text tools: the `String` operations that the editor needs, and
//! decimal numbers written out digit by digit.

use vstd::prelude::*;

verus! {

/// `String::push` appends one character, as its documentation says.
pub assume_specification[ String::push ](s: &mut String, ch: char)
    ensures
        final(s)@ == old(s)@.push(ch),
;

/// `String::pop` removes the last character and returns it, or returns
/// `None` on an empty string, as its documentation says.
pub assume_specification[ String::pop ](s: &mut String) -> (last: Option<char>)
    ensures
        old(s)@.len() == 0 ==> last.is_none() && final(s)@ == old(s)@,
        old(s)@.len() > 0 ==> last == Some(old(s)@.last()) && final(s)@ == old(s)@.drop_last(),
;

/// `String::clear` removes all contents, as its documentation says.
pub assume_specification[ String::clear ](s: &mut String)
    ensures
        final(s)@ == Seq::<char>::empty(),
;

/// An optional text, as plain characters.
pub open spec fn option_text(text: Option<String>) -> Option<Seq<char>> {
    match text {
        Some(t) => Some(t@),
        None => None,
    }
}

/// The character that stands for the digit `d`.
pub open spec fn digit_char(d: int) -> char
    recommends
        0 <= d <= 9,
{
    if d == 0 {
        '0'
    } else if d == 1 {
        '1'
    } else if d == 2 {
        '2'
    } else if d == 3 {
        '3'
    } else if d == 4 {
        '4'
    } else if d == 5 {
        '5'
    } else if d == 6 {
        '6'
    } else if d == 7 {
        '7'
    } else if d == 8 {
        '8'
    } else {
        '9'
    }
}

/// The number that the digit `c` stands for, if it is a decimal digit.
pub open spec fn digit_value(c: char) -> Option<int> {
    if c == '0' {
        Some(0)
    } else if c == '1' {
        Some(1)
    } else if c == '2' {
        Some(2)
    } else if c == '3' {
        Some(3)
    } else if c == '4' {
        Some(4)
    } else if c == '5' {
        Some(5)
    } else if c == '6' {
        Some(6)
    } else if c == '7' {
        Some(7)
    } else if c == '8' {
        Some(8)
    } else if c == '9' {
        Some(9)
    } else {
        None
    }
}

/// `n` in decimal, without leading zeros; zero is "0".
pub open spec fn decimal(n: nat) -> Seq<char>
    decreases n,
{
    if n < 10 {
        seq![digit_char(n as int)]
    } else {
        decimal(n / 10).push(digit_char((n % 10) as int))
    }
}

/// `n` in decimal, with a leading zero where it has one digit only.
pub open spec fn decimal2(n: nat) -> Seq<char> {
    if n < 10 {
        seq!['0', digit_char(n as int)]
    } else {
        decimal(n)
    }
}

pub fn digit_of(d: u8) -> (c: char)
    requires
        d <= 9,
    ensures
        c == digit_char(d as int),
{
    match d {
        0 => '0',
        1 => '1',
        2 => '2',
        3 => '3',
        4 => '4',
        5 => '5',
        6 => '6',
        7 => '7',
        8 => '8',
        _ => '9',
    }
}

pub fn value_of_digit(c: char) -> (d: Option<u8>)
    ensures
        d.is_some() == digit_value(c).is_some(),
        d matches Some(v) ==> digit_value(c) == Some(v as int),
{
    match c {
        '0' => Some(0),
        '1' => Some(1),
        '2' => Some(2),
        '3' => Some(3),
        '4' => Some(4),
        '5' => Some(5),
        '6' => Some(6),
        '7' => Some(7),
        '8' => Some(8),
        '9' => Some(9),
        _ => None,
    }
}

/// Appends `n` in decimal.
pub fn push_decimal(out: &mut String, n: u64)
    ensures
        final(out)@ == old(out)@ + decimal(n as nat),
    decreases n,
{
    if n < 10 {
        out.push(digit_of(n as u8));
    } else {
        push_decimal(out, n / 10);
        out.push(digit_of((n % 10) as u8));
    }
}

/// Appends `n` in decimal, at least two digits wide.
pub fn push_decimal2(out: &mut String, n: u64)
    ensures
        final(out)@ == old(out)@ + decimal2(n as nat),
{
    if n < 10 {
        out.push('0');
        out.push(digit_of(n as u8));
    } else {
        push_decimal(out, n);
    }
}

/// `n` in decimal, with a minus sign before it where it is negative.
pub open spec fn signed_decimal(n: int) -> Seq<char> {
    if n < 0 {
        seq!['-'] + decimal((-n) as nat)
    } else {
        decimal(n as nat)
    }
}

/// Appends `n` in decimal, with its sign where it is negative.
pub fn push_signed_decimal(out: &mut String, n: i32)
    ensures
        final(out)@ == old(out)@ + signed_decimal(n as int),
{
    if n < 0 {
        out.push('-');
        push_decimal(out, (-(n as i64)) as u64);
    } else {
        push_decimal(out, n as u64);
    }
}

/// Appends `n` in decimal, with its sign where it is negative.
pub fn push_signed_decimal64(out: &mut String, n: i64)
    ensures
        final(out)@ == old(out)@ + signed_decimal(n as int),
{
    if n < 0 {
        out.push('-');
        push_decimal(out, (-(n as i128)) as u64);
    } else {
        push_decimal(out, n as u64);
    }
}

/// Whether `a` comes before `b` in the order of the dictionary, or is equal
/// to it, from position `from` on. Characters count by their code.
pub open spec fn text_le(a: Seq<char>, b: Seq<char>, from: int) -> bool
    decreases a.len() - from,
{
    if from >= a.len() {
        true
    } else if from >= b.len() {
        false
    } else if a[from] != b[from] {
        (a[from] as u32) < (b[from] as u32)
    } else {
        text_le(a, b, from + 1)
    }
}

/// Whether `a` comes before `b` in the order of the dictionary, or is equal
/// to it.
pub fn is_text_le(a: &str, b: &str) -> (le: bool)
    ensures
        le == text_le(a@, b@, 0),
{
    let a_len = a.unicode_len();
    let b_len = b.unicode_len();
    let mut i: usize = 0;
    while i < a_len
        invariant
            a_len == a@.len(),
            b_len == b@.len(),
            i <= a_len,
            text_le(a@, b@, 0) == text_le(a@, b@, i as int),
        decreases a_len - i,
    {
        if i >= b_len {
            return false;
        }
        let x = a.get_char(i);
        let y = b.get_char(i);
        if x != y {
            return (x as u32) < (y as u32);
        }
        i += 1;
    }
    true
}

/// Whether the two texts hold the same characters.
pub fn same_text(a: &str, b: &str) -> (same: bool)
    ensures
        same == (a@ == b@),
{
    let n = a.unicode_len();
    if n != b.unicode_len() {
        return false;
    }
    let mut i: usize = 0;
    while i < n
        invariant
            n == a@.len(),
            n == b@.len(),
            i <= n,
            a@.take(i as int) == b@.take(i as int),
        decreases n - i,
    {
        if a.get_char(i) != b.get_char(i) {
            return false;
        }
        i += 1;
    }
    assert(a@ =~= a@.take(n as int));
    assert(b@ =~= b@.take(n as int));
    true
}

} // verus!
