//! Decimal text of integers (what `{}` formatting writes for them).
use vstd::prelude::*;

verus! {

pub open spec fn digit_char(d: int) -> char {
    ((d + 48) as u8) as char
}

/// The decimal digits of `n`, most significant first, without leading zeros.
pub open spec fn digits(n: nat) -> Seq<char>
    decreases n,
{
    if n < 10 {
        seq![digit_char(n as int)]
    } else {
        digits(n / 10).push(digit_char((n % 10) as int))
    }
}

/// The decimal text of `n`, with a leading `-` when negative.
pub open spec fn decimal(n: int) -> Seq<char> {
    if n < 0 {
        seq!['-'] + digits((-n) as nat)
    } else {
        digits(n as nat)
    }
}

pub proof fn lemma_digits(n: nat)
    ensures
        digits(n).len() >= 1,
        forall|i: int| 0 <= i < digits(n).len() ==> '0' <= #[trigger] digits(n)[i] <= '9',
    decreases n,
{
    if n >= 10 {
        lemma_digits(n / 10);
    }
}

/// Decimal text contains only digits and the minus sign, and is not empty.
pub proof fn lemma_decimal(n: int)
    ensures
        decimal(n).len() >= 1,
        forall|i: int|
            0 <= i < decimal(n).len() ==> ('0' <= #[trigger] decimal(n)[i] <= '9' || decimal(
                n,
            )[i] == '-'),
{
    if n < 0 {
        lemma_digits((-n) as nat);
        assert forall|i: int| 0 <= i < decimal(n).len() implies ('0' <= #[trigger] decimal(n)[i]
            <= '9' || decimal(n)[i] == '-') by {
            if i > 0 {
                assert(decimal(n)[i] == digits((-n) as nat)[i - 1]);
            }
        }
    } else {
        lemma_digits(n as nat);
    }
}

fn digit_exec(d: u64) -> (c: char)
    requires
        d < 10,
    ensures
        c == digit_char(d as int),
{
    let b = (d as u8) + 48;
    b as char
}

/// The decimal digits of `n`.
pub fn digits_exec(n: u64) -> (v: Vec<char>)
    ensures
        v@ == digits(n as nat),
    decreases n,
{
    if n < 10 {
        let mut v = Vec::new();
        v.push(digit_exec(n));
        assert(v@ =~= digits(n as nat));
        v
    } else {
        let mut v = digits_exec(n / 10);
        v.push(digit_exec(n % 10));
        v
    }
}

/// The decimal text of `n`.
pub fn decimal_i64(n: i64) -> (v: Vec<char>)
    ensures
        v@ == decimal(n as int),
{
    if n < 0 {
        let m: u64 = if n == i64::MIN {
            9223372036854775808u64
        } else {
            (-n) as u64
        };
        let d = digits_exec(m);
        let mut v = Vec::new();
        v.push('-');
        crate::text::extend_chars(&mut v, &d);
        assert(v@ =~= decimal(n as int));
        v
    } else {
        digits_exec(n as u64)
    }
}

/// The decimal text of `n`.
pub fn decimal_u64(n: u64) -> (v: Vec<char>)
    ensures
        v@ == decimal(n as int),
{
    digits_exec(n)
}

} // verus!
