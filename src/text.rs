//! Small text-building helpers shared by the error messages.
use vstd::prelude::*;
use vstd::string::StringExecFns;

verus! {

/// The character that renders one fuse value.
pub open spec fn bit_char(b: bool) -> char {
    if b {
        '1'
    } else {
        '0'
    }
}

/// A sequence of fuse values rendered as `0` and `1` characters.
pub open spec fn bits_text(bits: Seq<bool>) -> Seq<char>
    decreases bits.len(),
{
    if bits.len() == 0 {
        Seq::empty()
    } else {
        bits_text(bits.drop_last()).push(bit_char(bits.last()))
    }
}

/// The ASCII character of a decimal digit.
pub open spec fn digit_char(d: nat) -> char {
    if d == 0 { '0' }
    else if d == 1 { '1' }
    else if d == 2 { '2' }
    else if d == 3 { '3' }
    else if d == 4 { '4' }
    else if d == 5 { '5' }
    else if d == 6 { '6' }
    else if d == 7 { '7' }
    else if d == 8 { '8' }
    else { '9' }
}

/// The decimal rendering of a natural number, without leading zeros.
pub open spec fn decimal_text(n: nat) -> Seq<char>
    decreases n,
{
    if n < 10 {
        seq![digit_char(n)]
    } else {
        decimal_text(n / 10).push(digit_char(n % 10))
    }
}

/// Renders one fuse value as `"1"` or `"0"`.
pub fn b2s(b: bool) -> (r: &'static str)
    ensures
        r@ == seq![bit_char(b)],
{
    proof {
        reveal_strlit("1");
        reveal_strlit("0");
    }
    if b {
        "1"
    } else {
        "0"
    }
}

fn digit_str(d: usize) -> (r: &'static str)
    requires
        d < 10,
    ensures
        r@ == seq![digit_char(d as nat)],
{
    proof {
        reveal_strlit("0");
        reveal_strlit("1");
        reveal_strlit("2");
        reveal_strlit("3");
        reveal_strlit("4");
        reveal_strlit("5");
        reveal_strlit("6");
        reveal_strlit("7");
        reveal_strlit("8");
        reveal_strlit("9");
    }
    if d == 0 { "0" }
    else if d == 1 { "1" }
    else if d == 2 { "2" }
    else if d == 3 { "3" }
    else if d == 4 { "4" }
    else if d == 5 { "5" }
    else if d == 6 { "6" }
    else if d == 7 { "7" }
    else if d == 8 { "8" }
    else { "9" }
}

/// Appends the decimal rendering of `n` to `s`.
pub fn push_decimal(s: &mut String, n: usize)
    ensures
        final(s)@ == old(s)@ + decimal_text(n as nat),
    decreases n,
{
    if n >= 10 {
        push_decimal(s, n / 10);
    }
    let d = digit_str(n % 10);
    s.append(d);
    proof {
        if n >= 10 {
            assert(decimal_text(n as nat) == decimal_text((n / 10) as nat).push(digit_char((n % 10) as nat)));
        }
        assert(final(s)@ =~= old(s)@ + decimal_text(n as nat));
    }
}

/// Appends the `0`/`1` rendering of every fuse value in `bits` to `s`.
pub fn push_bits(s: &mut String, bits: &Vec<bool>)
    ensures
        final(s)@ == old(s)@ + bits_text(bits@),
{
    let mut i: usize = 0;
    while i < bits.len()
        invariant
            i <= bits.len(),
            s@ == old(s)@ + bits_text(bits@.subrange(0, i as int)),
        decreases bits.len() - i,
    {
        let c = b2s(bits[i]);
        s.append(c);
        proof {
            let p = bits@.subrange(0, i as int + 1);
            assert(p.drop_last() =~= bits@.subrange(0, i as int));
            assert(s@ =~= old(s)@ + bits_text(p));
        }
        i = i + 1;
    }
    assert(bits@.subrange(0, bits.len() as int) =~= bits@);
}

} // verus!
