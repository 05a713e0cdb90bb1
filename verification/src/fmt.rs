//! Numbers as text.
use vstd::prelude::*;
use vstd::string::*;

verus! {

/// `String::push` appends the given character to the end of the string.
pub assume_specification[ String::push ](s: &mut String, ch: char)
    ensures
        final(s)@ == old(s)@.push(ch),
;

/// The character of a decimal digit.
pub open spec fn digit(d: nat) -> char
    recommends
        d < 10,
{
    ((48 + d) as u8) as char
}

/// The decimal digits of a number, without leading zeros.
pub open spec fn decimal(n: nat) -> Seq<char>
    decreases n,
{
    if n < 10 {
        seq![digit(n)]
    } else {
        decimal(n / 10).push(digit(n % 10))
    }
}

/// A number below a thousand as three digits, with leading zeros.
pub open spec fn pad3(n: nat) -> Seq<char>
    recommends
        n < 1000,
{
    seq![digit(n / 100), digit((n / 10) % 10), digit(n % 10)]
}

/// A number with a separator before each of its last three groups of three
/// digits: `1,234,567`. What stands before the third separator from the
/// right is written in one piece.
pub open spec fn thousands(n: nat, sep: char) -> Seq<char> {
    if n < 1_000 {
        decimal(n)
    } else if n < 1_000_000 {
        decimal(n / 1_000).push(sep) + pad3(n % 1_000)
    } else if n < 1_000_000_000 {
        decimal(n / 1_000_000).push(sep) + pad3((n / 1_000) % 1_000).push(sep) + pad3(n % 1_000)
    } else {
        decimal(n / 1_000_000_000).push(sep) + pad3((n / 1_000_000) % 1_000).push(sep) + pad3(
            (n / 1_000) % 1_000,
        ).push(sep) + pad3(n % 1_000)
    }
}

/// `text` behind as many spaces as bring it to `width` characters.
pub open spec fn right_aligned(text: Seq<char>, width: nat) -> Seq<char> {
    if text.len() >= width {
        text
    } else {
        Seq::new((width - text.len()) as nat, |i: int| ' ') + text
    }
}

fn digit_char(d: u128) -> (c: char)
    requires
        d < 10,
    ensures
        c == digit(d as nat),
{
    (48 + d as u8) as char
}

/// Appends the decimal digits of `n`.
pub fn push_decimal(out: &mut String, n: u128)
    ensures
        final(out)@ == old(out)@ + decimal(n as nat),
    decreases n,
{
    if n >= 10 {
        push_decimal(out, n / 10);
    }
    out.push(digit_char(n % 10));
    assert(out@ =~= old(out)@ + decimal(n as nat));
}

/// Appends `n`, which is below a thousand, as three digits.
pub fn push_pad3(out: &mut String, n: u128)
    requires
        n < 1000,
    ensures
        final(out)@ == old(out)@ + pad3(n as nat),
{
    out.push(digit_char(n / 100));
    out.push(digit_char((n / 10) % 10));
    out.push(digit_char(n % 10));
    assert(out@ =~= old(out)@ + pad3(n as nat));
}

/// The decimal digits of `n`.
pub fn decimal_string(n: u128) -> (r: String)
    ensures
        r@ == decimal(n as nat),
{
    let mut out = String::new();
    push_decimal(&mut out, n);
    assert(out@ =~= decimal(n as nat));
    out
}

/// Formats a number with thousands separators.
pub fn fmt_thousands_sep(n: usize, sep: char) -> (r: String)
    ensures
        r@ == thousands(n as nat, sep),
{
    let n: u128 = n as u128;
    let mut output = String::new();
    if n >= 1_000_000_000 {
        push_decimal(&mut output, n / 1_000_000_000);
        output.push(sep);
        push_pad3(&mut output, (n / 1_000_000) % 1_000);
        output.push(sep);
        push_pad3(&mut output, (n / 1_000) % 1_000);
        output.push(sep);
        push_pad3(&mut output, n % 1_000);
    } else if n >= 1_000_000 {
        push_decimal(&mut output, n / 1_000_000);
        output.push(sep);
        push_pad3(&mut output, (n / 1_000) % 1_000);
        output.push(sep);
        push_pad3(&mut output, n % 1_000);
    } else if n >= 1_000 {
        push_decimal(&mut output, n / 1_000);
        output.push(sep);
        push_pad3(&mut output, n % 1_000);
    } else {
        push_decimal(&mut output, n);
    }
    assert(output@ =~= thousands(n as nat, sep));
    output
}

/// `text` behind as many spaces as bring it to `width` characters.
pub fn pad_left(text: &str, width: usize) -> (r: String)
    ensures
        r@ == right_aligned(text@, width as nat),
{
    let len = text.unicode_len();
    let mut out = String::new();
    let mut i: usize = len;
    while i < width
        invariant
            len == text@.len(),
            len <= i || out@.len() == 0,
            i >= len,
            len < width ==> i <= width && out@ == Seq::new((i - len) as nat, |k: int| ' '),
            len >= width ==> out@.len() == 0,
        decreases width - i,
    {
        out.push(' ');
        i += 1;
        assert(out@ =~= Seq::new((i - len) as nat, |k: int| ' '));
    }
    out.append(text);
    assert(out@ =~= right_aligned(text@, width as nat));
    out
}

} // verus!
