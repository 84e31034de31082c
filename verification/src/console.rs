//! Text the kernel puts on the console: decimal numbers.
use vstd::prelude::*;

verus! {

/// The decimal digits of `n > 0`, most significant first (empty for 0).
pub open spec fn digits(n: nat) -> Seq<u8>
    decreases n,
{
    if n == 0 {
        Seq::empty()
    } else {
        digits(n / 10).push((48 + n % 10) as u8)
    }
}

/// The decimal representation of `n`: "0" for zero, else its digits.
pub open spec fn decimal(n: nat) -> Seq<u8> {
    if n == 0 {
        seq![48u8]
    } else {
        digits(n)
    }
}

/// The ASCII decimal representation of `n`.
pub fn decimal_digits(n: usize) -> (r: Vec<u8>)
    ensures
        r@ == decimal(n as nat),
{
    if n == 0 {
        let mut v: Vec<u8> = Vec::new();
        v.push(48u8);
        assert(v@ =~= seq![48u8]);
        return v;
    }
    let mut out: Vec<u8> = Vec::new();
    let mut num: usize = n;
    while num > 0
        invariant
            digits(n as nat) == digits(num as nat) + out@,
        decreases num,
    {
        let d: u8 = 48u8 + (num % 10) as u8;
        proof {
            assert(digits(num as nat) == digits((num / 10) as nat).push(d));
        }
        let ghost before = out@;
        out.insert(0, d);
        assert(out@ =~= seq![d] + before);
        assert(digits((num / 10) as nat).push(d) + before =~= digits((num / 10) as nat) + out@);
        num = num / 10;
    }
    assert(digits(0) =~= Seq::<u8>::empty());
    assert(out@ =~= Seq::<u8>::empty() + out@);
    out
}

} // verus!
