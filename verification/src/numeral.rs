//! Decimal rendering of worker exit codes for the fallback page.

use vstd::prelude::*;

verus! {

/// The decimal digits of `n`, most significant first, as ASCII bytes.
pub open spec fn dec_digits(n: nat) -> Seq<u8>
    decreases n,
{
    if n < 10 {
        seq![(48 + n) as u8]
    } else {
        dec_digits(n / 10) + seq![(48 + n % 10) as u8]
    }
}

/// The decimal rendering of a signed number: a `-` sign where negative,
/// then the digits of the magnitude.
pub open spec fn dec_signed(n: int) -> Seq<u8> {
    if n < 0 {
        seq![45u8] + dec_digits((-n) as nat)
    } else {
        dec_digits(n as nat)
    }
}

fn push_dec_digits(out: &mut Vec<u8>, m: u64)
    ensures
        final(out)@ == old(out)@ + dec_digits(m as nat),
    decreases m,
{
    if m < 10 {
        out.push((48 + m) as u8);
        proof {
            assert(final(out)@ =~= old(out)@ + dec_digits(m as nat));
        }
    } else {
        let q = m / 10;
        let r = m % 10;
        proof {
            assert(q < m);
            assert(r < 10);
        }
        push_dec_digits(out, q);
        out.push((48 + r) as u8);
        proof {
            assert(dec_digits(m as nat) == dec_digits((m as nat) / 10) + seq![
                (48 + (m as nat) % 10) as u8,
            ]);
            assert(q as nat == (m as nat) / 10);
            assert(r as nat == (m as nat) % 10);
            assert(final(out)@ =~= old(out)@ + dec_digits(m as nat));
        }
    }
}

/// Appends the decimal rendering of `n` to `out`.
pub fn push_dec_signed(out: &mut Vec<u8>, n: i32)
    ensures
        final(out)@ == old(out)@ + dec_signed(n as int),
{
    if n < 0 {
        out.push(45);
        let m: u64 = (-(n as i64)) as u64;
        proof {
            assert(m as nat == (-(n as int)) as nat);
        }
        push_dec_digits(out, m);
        proof {
            assert(final(out)@ =~= old(out)@ + dec_signed(n as int));
        }
    } else {
        push_dec_digits(out, n as u64);
    }
}

} // verus!
