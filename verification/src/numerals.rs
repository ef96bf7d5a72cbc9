//! Decimal notation for machine integers.
//!
//! Register names (`$t7`), data labels (`str_3`) and branch labels
//! (`__and_2`) all embed a decimal numeral. `dec_rep` is the mathematical
//! definition of that numeral and `append_dec` produces it executably.

use vstd::prelude::*;

verus! {

/// The digit character for a single decimal digit value.
pub open spec fn digit_char(d: nat) -> char {
    if d == 0 {
        '0'
    } else if d == 1 {
        '1'
    } else if d == 2 {
        '2'
    } else if d == 3 {
        '3'
    } else if d == 4 {
        '4'
    } else if d == 5 {
        '5'
    } else if d == 6 {
        '6'
    } else if d == 7 {
        '7'
    } else if d == 8 {
        '8'
    } else {
        '9'
    }
}

/// The usual base-ten numeral of `n`, most significant digit first,
/// without leading zeros (except for `n == 0` itself).
pub open spec fn dec_rep(n: nat) -> Seq<char>
    decreases n,
{
    if n < 10 {
        seq![digit_char(n)]
    } else {
        dec_rep(n / 10) + seq![digit_char(n % 10)]
    }
}

/// A one-character string slice for each decimal digit.
fn digit_str(d: u64) -> (r: &'static str)
    requires
        d < 10,
    ensures
        r@ == seq![digit_char(d as nat)],
{
    proof {
        reveal_strlit("0");
        reveal_strlit("1");
        reveal_strlit("2");
        reveal_strlit("3");
        reveal_strlit("4");
        reveal_strlit("5");
        reveal_strlit("6");
        reveal_strlit("7");
        reveal_strlit("8");
        reveal_strlit("9");
    }
    match d {
        0 => "0",
        1 => "1",
        2 => "2",
        3 => "3",
        4 => "4",
        5 => "5",
        6 => "6",
        7 => "7",
        8 => "8",
        _ => "9",
    }
}

/// Appends the decimal numeral of `n` to `out`.
pub fn append_dec(out: &mut String, n: u64)
    ensures
        final(out)@ == old(out)@ + dec_rep(n as nat),
    decreases n,
{
    if n >= 10 {
        append_dec(out, n / 10);
    }
    let d = digit_str(n % 10);
    out.append(d);
    proof {
        if n >= 10 {
            assert(final(out)@ == old(out)@ + dec_rep((n / 10) as nat) + seq![
                digit_char((n % 10) as nat),
            ]);
            assert(old(out)@ + dec_rep(n as nat) == old(out)@ + dec_rep((n / 10) as nat) + seq![
                digit_char((n % 10) as nat),
            ]);
        } else {
            assert(dec_rep(n as nat) == seq![digit_char(n as nat)]);
            assert(final(out)@ == old(out)@ + dec_rep(n as nat));
        }
    }
}

/// The string `prefix` followed by the decimal numeral of `n`.
pub open spec fn with_dec(prefix: Seq<char>, n: nat) -> Seq<char> {
    prefix + dec_rep(n)
}

/// Builds `prefix` followed by the numeral of `n`, e.g. `$t0` or `str_2`.
pub fn prefixed_dec(prefix: &str, n: u64) -> (r: String)
    ensures
        r@ == with_dec(prefix@, n as nat),
{
    let mut out = String::from_str(prefix);
    append_dec(&mut out, n);
    out
}

} // verus!
