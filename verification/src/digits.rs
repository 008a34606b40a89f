//! Decimal rendering and scanning of unsigned numbers, used by the token
//! payload serializer.  Numbers are kept as ASCII digit bytes, most
//! significant digit first, with no leading zeros.

use vstd::prelude::*;

verus! {

/// The ASCII digit bytes of `n`, most significant first.  Defined for
/// every integer so it is total; a negative argument clamps to `0`.
pub open spec fn dec_digits(n: int) -> Seq<u8>
    decreases n,
{
    if n < 10 {
        seq![(0x30 + if n < 0 { 0int } else { n }) as u8]
    } else {
        dec_digits(n / 10).push((0x30 + n % 10) as u8)
    }
}

/// Is `b` an ASCII digit?
pub open spec fn is_digit(b: u8) -> bool {
    0x30 <= b <= 0x39
}

/// The number a sequence of ASCII digit bytes denotes.
pub open spec fn digits_val(s: Seq<u8>) -> int
    decreases s.len(),
{
    if s.len() == 0 {
        0
    } else {
        digits_val(s.drop_last()) * 10 + (s.last() - 0x30)
    }
}

/// Index of the first non-digit byte of `s` at or after `i`.
pub open spec fn scan_digits_end(s: Seq<u8>, i: int) -> int
    decreases s.len() - i,
{
    if i < 0 || i >= s.len() || !is_digit(s[i]) {
        i
    } else {
        scan_digits_end(s, i + 1)
    }
}

/// Every byte of a decimal rendering is a digit, there is at least one,
/// and the rendering denotes the number it was made from.
pub proof fn lemma_dec_digits_wf(n: int)
    requires
        0 <= n,
    ensures
        dec_digits(n).len() >= 1,
        forall|i: int| 0 <= i < dec_digits(n).len() ==> is_digit(#[trigger] dec_digits(n)[i]),
        digits_val(dec_digits(n)) == n,
    decreases n,
{
    if n < 10 {
        let s = dec_digits(n);
        assert(s =~= seq![(0x30 + n) as u8]);
        assert(s.drop_last() =~= Seq::<u8>::empty());
        assert(digits_val(s) == digits_val(s.drop_last()) * 10 + (s.last() - 0x30));
    } else {
        lemma_dec_digits_wf(n / 10);
        let s = dec_digits(n);
        assert(s.drop_last() =~= dec_digits(n / 10));
        assert(digits_val(s) == (n / 10) * 10 + n % 10);
    }
}

/// Appends the decimal rendering of `n` to `out`.
pub fn push_dec_u128(out: &mut Vec<u8>, n: u128)
    ensures
        final(out)@ == old(out)@ + dec_digits(n as int),
    decreases n,
{
    if n >= 10 {
        push_dec_u128(out, n / 10);
        out.push(0x30u8 + (n % 10) as u8);
        assert(out@ =~= old(out)@ + dec_digits(n as int));
    } else {
        out.push(0x30u8 + n as u8);
        assert(out@ =~= old(out)@ + dec_digits(n as int));
    }
}

/// A digit-only sequence denotes a non-negative number, and appending
/// digits never shrinks the denoted number.
proof fn lemma_digits_val_bounds(s: Seq<u8>)
    requires
        forall|k: int| 0 <= k < s.len() ==> is_digit(#[trigger] s[k]),
    ensures
        digits_val(s) >= 0,
        s.len() > 0 ==> digits_val(s) >= digits_val(s.drop_last()),
    decreases s.len(),
{
    if s.len() > 0 {
        lemma_digits_val_bounds(s.drop_last());
    }
}

/// Scans the digit run of `s` that starts at `i`.  Returns the denoted
/// value and the index just past the run, or `None` if the run is empty
/// or its value does not fit in `u128`.
pub fn scan_u128(s: &Vec<u8>, i: usize) -> (r: Option<(u128, usize)>)
    requires
        i <= s@.len(),
    ensures
        ({
            let j = scan_digits_end(s@, i as int);
            let v = digits_val(s@.subrange(i as int, j));
            match r {
                Some((rv, rj)) => rj == j && rv == v && i < j <= s@.len(),
                None => j == i || v > u128::MAX,
            }
        }),
{
    let ghost end = scan_digits_end(s@, i as int);
    proof {
        lemma_scan_digits_end_bounds(s@, i as int);
    }
    let mut j: usize = i;
    let mut acc: u128 = 0;
    let mut overflowed: bool = false;
    while j < s.len() && s[j] >= 0x30 && s[j] <= 0x39
        invariant
            i <= j <= s@.len(),
            end == scan_digits_end(s@, j as int),
            end == scan_digits_end(s@, i as int),
            i <= end <= s@.len(),
            forall|m: int| i <= m < j ==> is_digit(#[trigger] s@[m]),
            !overflowed ==> acc == digits_val(s@.subrange(i as int, j as int)),
            overflowed ==> digits_val(s@.subrange(i as int, j as int)) > u128::MAX,
        decreases s@.len() - j,
    {
        proof {
            assert(is_digit(s@[j as int]));
            assert(scan_digits_end(s@, j as int) == scan_digits_end(s@, j + 1));
        }
        let d: u8 = s[j] - 0x30;
        let ghost pre = s@.subrange(i as int, j as int);
        let ghost cur = s@.subrange(i as int, j + 1);
        proof {
            assert(cur.drop_last() =~= pre);
            lemma_digits_val_bounds(cur);
        }
        if !overflowed {
            if acc > (u128::MAX - d as u128) / 10 {
                overflowed = true;
                proof {
                    assert(digits_val(cur) == digits_val(pre) * 10 + d);
                    assert(digits_val(pre) * 10 + d > u128::MAX) by (nonlinear_arith)
                        requires
                            digits_val(pre) == acc,
                            acc > (u128::MAX - d as u128) / 10,
                            d <= 9,
                    ;
                }
            } else {
                proof {
                    assert(acc * 10 + d <= u128::MAX) by (nonlinear_arith)
                        requires
                            acc <= (u128::MAX - d as u128) / 10,
                            d <= 9,
                    ;
                }
                acc = acc * 10 + d as u128;
            }
        } else {
            proof {
                assert(digits_val(cur) == digits_val(pre) * 10 + d);
                lemma_digits_val_bounds(pre);
            }
        }
        j = j + 1;
    }
    proof {
        assert(j == end);
    }
    if j == i {
        None
    } else if overflowed {
        None
    } else {
        Some((acc, j))
    }
}

/// The scan end lies between `i` and the length of `s`, and everything
/// before it (from `i` on) is a digit.
pub proof fn lemma_scan_digits_end_bounds(s: Seq<u8>, i: int)
    requires
        0 <= i <= s.len(),
    ensures
        i <= scan_digits_end(s, i) <= s.len(),
        forall|m: int| i <= m < scan_digits_end(s, i) ==> is_digit(#[trigger] s[m]),
        scan_digits_end(s, i) < s.len() ==> !is_digit(s[scan_digits_end(s, i)]),
    decreases s.len() - i,
{
    if i < s.len() && is_digit(s[i]) {
        lemma_scan_digits_end_bounds(s, i + 1);
    }
}

/// A digit run of rendered digits scans exactly to its end: if the bytes
/// from `i` are `dec_digits(n)` followed by a non-digit (or the end), the
/// scanner stops there and reads back `n`.
pub proof fn lemma_scan_of_dec_digits(s: Seq<u8>, i: int, n: int)
    requires
        0 <= n,
        0 <= i,
        i + dec_digits(n).len() <= s.len(),
        s.subrange(i, i + dec_digits(n).len() as int) == dec_digits(n),
        i + dec_digits(n).len() < s.len() ==> !is_digit(s[i + dec_digits(n).len()]),
    ensures
        scan_digits_end(s, i) == i + dec_digits(n).len(),
        digits_val(s.subrange(i, i + dec_digits(n).len() as int)) == n,
{
    let d = dec_digits(n);
    lemma_dec_digits_wf(n);
    assert forall|m: int| i <= m < i + d.len() implies is_digit(#[trigger] s[m]) by {
        assert(s[m] == s.subrange(i, i + d.len() as int)[m - i]);
    }
    lemma_scan_run(s, i, i + d.len());
}

/// If the bytes of `s` from `i` up to `j` are digits and the byte at `j`
/// (if any) is not, the scan from `i` ends at `j`.
proof fn lemma_scan_run(s: Seq<u8>, i: int, j: int)
    requires
        0 <= i <= j <= s.len(),
        forall|m: int| i <= m < j ==> is_digit(#[trigger] s[m]),
        j < s.len() ==> !is_digit(s[j]),
    ensures
        scan_digits_end(s, i) == j,
    decreases j - i,
{
    if i < j {
        lemma_scan_run(s, i + 1, j);
    }
}

} // verus!
