//! Decimal rendering of integers, used to substitute the current year into
//! license templates.
use vstd::prelude::*;

verus! {

/// The decimal digit character for `d`.
pub open spec fn digit_char(d: int) -> char
    recommends
        0 <= d < 10,
{
    seq!['0', '1', '2', '3', '4', '5', '6', '7', '8', '9'][d]
}

/// The decimal digits of `n`, most significant first, no sign and no leading
/// zero (except for `n == 0` itself).
pub open spec fn spec_dec_nat(n: nat) -> Seq<char>
    decreases n,
{
    if n < 10 {
        seq![digit_char(n as int)]
    } else {
        spec_dec_nat(n / 10) + seq![digit_char((n % 10) as int)]
    }
}

/// The decimal rendering of `y`, with a leading minus sign when negative.
pub open spec fn spec_dec_int(y: int) -> Seq<char> {
    if y < 0 {
        seq!['-'] + spec_dec_nat((-y) as nat)
    } else {
        spec_dec_nat(y as nat)
    }
}

/// Every character of `spec_dec_nat` is a decimal digit.
pub proof fn lemma_dec_nat_digits(n: nat)
    ensures
        spec_dec_nat(n).len() >= 1,
        forall|k: int|
            0 <= k < spec_dec_nat(n).len() ==> exists|d: int|
                0 <= d < 10 && #[trigger] spec_dec_nat(n)[k] == digit_char(d),
    decreases n,
{
    if n < 10 {
        assert(spec_dec_nat(n)[0] == digit_char(n as int));
    } else {
        lemma_dec_nat_digits(n / 10);
        assert forall|k: int| 0 <= k < spec_dec_nat(n).len() implies exists|d: int|
            0 <= d < 10 && #[trigger] spec_dec_nat(n)[k] == digit_char(d) by {
            if k < spec_dec_nat(n / 10).len() {
                assert(spec_dec_nat(n)[k] == spec_dec_nat(n / 10)[k]);
            } else {
                assert(spec_dec_nat(n)[k] == digit_char((n % 10) as int));
            }
        }
    }
}

/// A four-digit year renders as exactly four characters.
pub proof fn lemma_dec_four_digits(y: int)
    requires
        1000 <= y <= 9999,
    ensures
        spec_dec_int(y).len() == 4,
{
    let n = y as nat;
    assert(spec_dec_nat(n / 10 / 10 / 10).len() == 1);
    assert(spec_dec_nat(n / 10 / 10).len() == 2);
    assert(spec_dec_nat(n / 10).len() == 3);
    assert(spec_dec_nat(n).len() == 4);
}

/// The one-character string for a decimal digit.
fn digit_str(d: u32) -> (r: &'static str)
    requires
        d < 10,
    ensures
        r@ == seq![digit_char(d as int)],
{
    proof {
        reveal_strlit("0");
        reveal_strlit("1");
        reveal_strlit("2");
        reveal_strlit("3");
        reveal_strlit("4");
        reveal_strlit("5");
        reveal_strlit("6");
        reveal_strlit("7");
        reveal_strlit("8");
        reveal_strlit("9");
    }
    match d {
        0 => "0",
        1 => "1",
        2 => "2",
        3 => "3",
        4 => "4",
        5 => "5",
        6 => "6",
        7 => "7",
        8 => "8",
        _ => {
            assert(d == 9);
            "9"
        },
    }
}

/// Renders `n` in decimal.
pub fn u32_dec(n: u32) -> (r: String)
    ensures
        r@ == spec_dec_nat(n as nat),
    decreases n,
{
    if n < 10 {
        String::from_str(digit_str(n))
    } else {
        let mut s = u32_dec(n / 10);
        s.append(digit_str(n % 10));
        s
    }
}

/// Renders `y` in decimal, with a minus sign when negative.
pub fn i32_dec(y: i32) -> (r: String)
    ensures
        r@ == spec_dec_int(y as int),
{
    if y >= 0 {
        u32_dec(y as u32)
    } else {
        let m: u32 = (-(y as i64)) as u32;
        assert(m == -(y as int));
        let mut s = String::from_str("-");
        let digits = u32_dec(m);
        s.append(digits.as_str());
        proof {
            reveal_strlit("-");
            assert(("-")@ =~= seq!['-']);
        }
        s
    }
}

} // verus!
