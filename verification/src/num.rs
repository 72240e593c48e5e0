use vstd::prelude::*;

verus! {

/// The ASCII digit for `d` in `0..10`.
pub open spec fn digit_char(d: nat) -> char {
    if d == 0 { '0' }
    else if d == 1 { '1' }
    else if d == 2 { '2' }
    else if d == 3 { '3' }
    else if d == 4 { '4' }
    else if d == 5 { '5' }
    else if d == 6 { '6' }
    else if d == 7 { '7' }
    else if d == 8 { '8' }
    else { '9' }
}

/// The decimal digits of a natural number, most significant first, without
/// leading zeros (`0` is written `"0"`).
pub open spec fn dec_nat(n: nat) -> Seq<char>
    decreases n,
{
    if n < 10 {
        seq![digit_char(n)]
    } else {
        dec_nat(n / 10).push(digit_char(n % 10))
    }
}

/// The decimal text of an integer: a `-` sign for negative values, then
/// the digits of its magnitude.
pub open spec fn dec(i: int) -> Seq<char> {
    if i < 0 {
        seq!['-'] + dec_nat((-i) as nat)
    } else {
        dec_nat(i as nat)
    }
}

/// Decimal text of `v`, as `itoa::Buffer::format` writes it.
///
/// `itoa` prints an integer primitive as its plain decimal representation
/// (the same text as `Display`): an optional `-`, then the digits with no
/// leading zeros. The contract states exactly that text.
#[verifier::external_body]
pub(crate) fn decimal(v: i128) -> (r: String)
    ensures
        r@ == dec(v as int),
{
    itoa::Buffer::new().format(v).to_string()
}

/// Appends the decimal text of `v` to `out`.
pub fn push_dec(out: &mut String, v: i128)
    ensures
        final(out)@ == old(out)@ + dec(v as int),
{
    let t = decimal(v);
    out.append(t.as_str());
}

} // verus!
