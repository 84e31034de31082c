//! Bytes for the 16550 UART: each line feed goes out as CR LF.
use vstd::prelude::*;

verus! {

/// `s` with a carriage return (13) put before every line feed (10).
pub open spec fn crlf(s: Seq<u8>) -> Seq<u8>
    decreases s.len(),
{
    if s.len() == 0 {
        Seq::empty()
    } else if s.last() == 10 {
        crlf(s.drop_last()) + seq![13u8, 10u8]
    } else {
        crlf(s.drop_last()).push(s.last())
    }
}

/// The bytes to send for `s`.
pub fn expand_newlines(s: &[u8]) -> (r: Vec<u8>)
    ensures
        r@ == crlf(s@),
{
    let mut out: Vec<u8> = Vec::new();
    let mut i: usize = 0;
    while i < s.len()
        invariant
            0 <= i <= s.len(),
            out@ == crlf(s@.take(i as int)),
        decreases s.len() - i,
    {
        let b = s[i];
        proof {
            assert(s@.take(i + 1).drop_last() =~= s@.take(i as int));
            assert(s@.take(i + 1).last() == b);
        }
        let ghost before = out@;
        if b == 10u8 {
            out.push(13u8);
            out.push(10u8);
            assert(out@ =~= before + seq![13u8, 10u8]);
        } else {
            out.push(b);
        }
        i = i + 1;
    }
    assert(s@.take(s.len() as int) =~= s@);
    out
}

} // verus!
