use vstd::prelude::*;

verus! {

/// The ASCII decimal digits of `n`, most significant first, with no leading
/// zeros (a single `0` for zero).
pub open spec fn spec_dec_digits(n: int) -> Seq<u8>
    decreases n,
{
    if n < 10 {
        seq![(48 + n) as u8]
    } else {
        spec_dec_digits(n / 10).push((48 + n % 10) as u8)
    }
}

/// Appends the decimal digits of `n` to `out`.
pub fn push_dec_u64(n: u64, out: &mut Vec<u8>)
    ensures
        final(out)@ == old(out)@ + spec_dec_digits(n as int),
    decreases n,
{
    if n < 10 {
        out.push(48 + (n as u8));
        proof {
            assert(final(out)@ =~= old(out)@ + spec_dec_digits(n as int));
        }
    } else {
        push_dec_u64(n / 10, out);
        out.push(48 + ((n % 10) as u8));
        proof {
            assert(final(out)@ =~= old(out)@ + spec_dec_digits(n as int));
        }
    }
}

/// The ASCII byte of one lower-case hexadecimal digit.
pub open spec fn spec_hex_digit(d: int) -> u8 {
    if d < 10 {
        (48 + d) as u8
    } else {
        (87 + d) as u8
    }
}

/// The lower-case hexadecimal rendering of the low `digits` hex digits of
/// `n`, most significant first, zero-padded to exactly that width.
pub open spec fn spec_hex_digits(n: int, digits: nat) -> Seq<u8>
    decreases digits,
{
    if digits == 0 {
        Seq::empty()
    } else {
        spec_hex_digits(n / 16, (digits - 1) as nat).push(spec_hex_digit(n % 16))
    }
}

/// Appends exactly `digits` lower-case hex digits of `n` to `out`, most
/// significant first, zero-padded.
pub fn push_hex_u64(n: u64, digits: u8, out: &mut Vec<u8>)
    ensures
        final(out)@ == old(out)@ + spec_hex_digits(n as int, digits as nat),
    decreases digits,
{
    if digits == 0 {
        proof {
            assert(final(out)@ =~= old(out)@ + spec_hex_digits(n as int, 0));
        }
        return ;
    }
    push_hex_u64(n / 16, digits - 1, out);
    let d: u8 = (n % 16) as u8;
    if d < 10 {
        out.push(48 + d);
    } else {
        out.push(87 + d);
    }
    proof {
        assert(final(out)@ =~= old(out)@ + spec_hex_digits(n as int, digits as nat));
    }
}

} // verus!
