//! URL-safe base64 without padding, as used for the segments of a session
//! token.  Encoding and decoding are verified inverses; decoding accepts
//! only the canonical spelling of a byte sequence (trailing bits must be
//! zero), so every byte sequence has exactly one accepted spelling.

use vstd::prelude::*;

verus! {

/// The alphabet byte for a six-bit value.
pub open spec fn b64_char(v: int) -> u8 {
    if v < 26 {
        (0x41 + v) as u8
    } else if v < 52 {
        (0x61 + (v - 26)) as u8
    } else if v < 62 {
        (0x30 + (v - 52)) as u8
    } else if v == 62 {
        0x2D
    } else {
        0x5F
    }
}

/// The six-bit value of an alphabet byte, or `-1` for a byte outside the
/// alphabet.
pub open spec fn b64_val(b: u8) -> int {
    if 0x41 <= b <= 0x5A {
        b - 0x41
    } else if 0x61 <= b <= 0x7A {
        b - 0x61 + 26
    } else if 0x30 <= b <= 0x39 {
        b - 0x30 + 52
    } else if b == 0x2D {
        62
    } else if b == 0x5F {
        63
    } else {
        -1
    }
}

/// Is `b` a byte of the alphabet?
pub open spec fn is_b64_byte(b: u8) -> bool {
    b64_val(b) >= 0
}

/// The canonical unpadded encoding of a byte sequence.
pub open spec fn b64_encode(s: Seq<u8>) -> Seq<u8>
    decreases s.len(),
{
    if s.len() == 0 {
        Seq::empty()
    } else if s.len() == 1 {
        seq![b64_char(s[0] as int / 4), b64_char(s[0] as int % 4 * 16)]
    } else if s.len() == 2 {
        seq![
            b64_char(s[0] as int / 4),
            b64_char(s[0] as int % 4 * 16 + s[1] as int / 16),
            b64_char(s[1] as int % 16 * 4),
        ]
    } else {
        seq![
            b64_char(s[0] as int / 4),
            b64_char(s[0] as int % 4 * 16 + s[1] as int / 16),
            b64_char(s[1] as int % 16 * 4 + s[2] as int / 64),
            b64_char(s[2] as int % 64),
        ] + b64_encode(s.skip(3))
    }
}

/// Decodes a canonical unpadded encoding; `None` for anything else.
pub open spec fn b64_decode(s: Seq<u8>) -> Option<Seq<u8>>
    decreases s.len(),
{
    if s.len() == 0 {
        Some(Seq::empty())
    } else if s.len() == 1 {
        None
    } else if s.len() == 2 {
        if is_b64_byte(s[0]) && is_b64_byte(s[1]) && b64_val(s[1]) % 16 == 0 {
            Some(seq![(b64_val(s[0]) * 4 + b64_val(s[1]) / 16) as u8])
        } else {
            None
        }
    } else if s.len() == 3 {
        if is_b64_byte(s[0]) && is_b64_byte(s[1]) && is_b64_byte(s[2]) && b64_val(s[2]) % 4
            == 0 {
            Some(
                seq![
                    (b64_val(s[0]) * 4 + b64_val(s[1]) / 16) as u8,
                    (b64_val(s[1]) % 16 * 16 + b64_val(s[2]) / 4) as u8,
                ],
            )
        } else {
            None
        }
    } else {
        if is_b64_byte(s[0]) && is_b64_byte(s[1]) && is_b64_byte(s[2]) && is_b64_byte(s[3]) {
            match b64_decode(s.skip(4)) {
                Some(rest) => Some(
                    seq![
                        (b64_val(s[0]) * 4 + b64_val(s[1]) / 16) as u8,
                        (b64_val(s[1]) % 16 * 16 + b64_val(s[2]) / 4) as u8,
                        (b64_val(s[2]) % 4 * 64 + b64_val(s[3])) as u8,
                    ] + rest,
                ),
                None => None,
            }
        } else {
            None
        }
    }
}

/// Values below 64 map into the alphabet and back.
proof fn lemma_char_val(v: int)
    requires
        0 <= v < 64,
    ensures
        is_b64_byte(b64_char(v)),
        b64_val(b64_char(v)) == v,
        b64_char(v) < 128,
{
}

/// Alphabet bytes map to their value and back.
proof fn lemma_val_char(b: u8)
    requires
        is_b64_byte(b),
    ensures
        0 <= b64_val(b) < 64,
        b64_char(b64_val(b)) == b,
{
}

/// The alphabet has no dot, so a dot always separates token segments.
pub proof fn lemma_b64_no_dot(b: u8)
    ensures
        is_b64_byte(b) ==> b != 0x2E && b < 128,
{
}

/// Every byte of an encoding is an alphabet byte.
pub proof fn lemma_encode_bytes_in_alphabet(s: Seq<u8>)
    ensures
        forall|i: int|
            0 <= i < b64_encode(s).len() ==> is_b64_byte(#[trigger] b64_encode(s)[i]),
    decreases s.len(),
{
    if s.len() == 0 {
    } else if s.len() == 1 {
        lemma_char_val(s[0] as int / 4);
        lemma_char_val(s[0] as int % 4 * 16);
    } else if s.len() == 2 {
        lemma_char_val(s[0] as int / 4);
        lemma_char_val(s[0] as int % 4 * 16 + s[1] as int / 16);
        lemma_char_val(s[1] as int % 16 * 4);
    } else {
        lemma_char_val(s[0] as int / 4);
        lemma_char_val(s[0] as int % 4 * 16 + s[1] as int / 16);
        lemma_char_val(s[1] as int % 16 * 4 + s[2] as int / 64);
        lemma_char_val(s[2] as int % 64);
        lemma_encode_bytes_in_alphabet(s.skip(3));
        let e = b64_encode(s);
        assert forall|i: int| 0 <= i < e.len() implies is_b64_byte(#[trigger] e[i]) by {
            if i >= 4 {
                assert(e[i] == b64_encode(s.skip(3))[i - 4]);
            }
        }
    }
}

/// Decoding inverts encoding: the canonical spelling of `s` decodes to `s`.
pub proof fn lemma_decode_of_encode(s: Seq<u8>)
    ensures
        b64_decode(b64_encode(s)) == Some(s),
    decreases s.len(),
{
    let e = b64_encode(s);
    if s.len() == 0 {
        assert(b64_decode(e) == Some(Seq::<u8>::empty()));
        assert(Seq::<u8>::empty() =~= s);
    } else if s.len() == 1 {
        lemma_char_val(s[0] as int / 4);
        lemma_char_val(s[0] as int % 4 * 16);
        assert(b64_decode(e).unwrap() =~= s);
    } else if s.len() == 2 {
        lemma_char_val(s[0] as int / 4);
        lemma_char_val(s[0] as int % 4 * 16 + s[1] as int / 16);
        lemma_char_val(s[1] as int % 16 * 4);
        assert(b64_decode(e).unwrap() =~= s);
    } else {
        lemma_char_val(s[0] as int / 4);
        lemma_char_val(s[0] as int % 4 * 16 + s[1] as int / 16);
        lemma_char_val(s[1] as int % 16 * 4 + s[2] as int / 64);
        lemma_char_val(s[2] as int % 64);
        lemma_decode_of_encode(s.skip(3));
        assert(e.len() >= 4);
        assert(e.skip(4) =~= b64_encode(s.skip(3)));
        let rest = s.skip(3);
        assert(b64_decode(e.skip(4)) == Some(rest));
        assert(b64_decode(e).unwrap() =~= s);
    }
}

/// Decoding accepts only the canonical spelling: whatever decodes to `s`
/// is `b64_encode(s)`.
pub proof fn lemma_encode_of_decode(t: Seq<u8>, s: Seq<u8>)
    requires
        b64_decode(t) == Some(s),
    ensures
        b64_encode(s) == t,
    decreases t.len(),
{
    if t.len() == 0 {
        assert(b64_encode(s) =~= t);
    } else if t.len() == 1 {
    } else if t.len() == 2 {
        lemma_val_char(t[0]);
        lemma_val_char(t[1]);
        assert(b64_encode(s) =~= t);
    } else if t.len() == 3 {
        lemma_val_char(t[0]);
        lemma_val_char(t[1]);
        lemma_val_char(t[2]);
        assert(b64_encode(s) =~= t);
    } else {
        let v0 = b64_val(t[0]);
        let v1 = b64_val(t[1]);
        let v2 = b64_val(t[2]);
        let v3 = b64_val(t[3]);
        lemma_val_char(t[0]);
        lemma_val_char(t[1]);
        lemma_val_char(t[2]);
        lemma_val_char(t[3]);
        let rest = b64_decode(t.skip(4)).unwrap();
        lemma_encode_of_decode(t.skip(4), rest);
        assert(s =~= seq![
            (v0 * 4 + v1 / 16) as u8,
            (v1 % 16 * 16 + v2 / 4) as u8,
            (v2 % 4 * 64 + v3) as u8,
        ] + rest);
        assert(s.len() >= 3);
        assert(s.skip(3) =~= rest);
        assert(s[0] == (v0 * 4 + v1 / 16) as u8);
        assert(s[1] == (v1 % 16 * 16 + v2 / 4) as u8);
        assert(s[2] == (v2 % 4 * 64 + v3) as u8);
        assert(s[0] as int / 4 == v0 && s[0] % 4 == v1 / 16) by (nonlinear_arith)
            requires
                s[0] == v0 * 4 + v1 / 16,
                0 <= v0 < 64,
                0 <= v1 < 64,
        ;
        assert(s[1] / 16 == v1 % 16 && s[1] % 16 == v2 / 4) by (nonlinear_arith)
            requires
                s[1] == v1 % 16 * 16 + v2 / 4,
                0 <= v1 < 64,
                0 <= v2 < 64,
        ;
        assert(s[2] / 64 == v2 % 4 && s[2] as int % 64 == v3) by (nonlinear_arith)
            requires
                s[2] == v2 % 4 * 64 + v3,
                0 <= v2 < 64,
                0 <= v3 < 64,
        ;
        assert(b64_encode(s) =~= t);
    }
}

/// The alphabet byte for a six-bit value.
fn b64_char_of(v: u8) -> (r: u8)
    requires
        v < 64,
    ensures
        r == b64_char(v as int),
{
    if v < 26 {
        0x41 + v
    } else if v < 52 {
        0x61 + (v - 26)
    } else if v < 62 {
        0x30 + (v - 52)
    } else if v == 62 {
        0x2D
    } else {
        0x5F
    }
}

/// The six-bit value of an alphabet byte, `None` outside the alphabet.
fn b64_val_of(b: u8) -> (r: Option<u8>)
    ensures
        match r {
            Some(v) => is_b64_byte(b) && v == b64_val(b) && v < 64,
            None => !is_b64_byte(b),
        },
{
    if 0x41 <= b && b <= 0x5A {
        Some(b - 0x41)
    } else if 0x61 <= b && b <= 0x7A {
        Some(b - 0x61 + 26)
    } else if 0x30 <= b && b <= 0x39 {
        Some(b - 0x30 + 52)
    } else if b == 0x2D {
        Some(62)
    } else if b == 0x5F {
        Some(63)
    } else {
        None
    }
}

/// Appends the canonical encoding of `s` to `out`.
pub fn b64_encode_push(out: &mut Vec<u8>, s: &Vec<u8>)
    ensures
        final(out)@ == old(out)@ + b64_encode(s@),
{
    let ghost whole = s@;
    let mut i: usize = 0;
    proof {
        assert(whole.skip(0) =~= whole);
    }
    while s.len() - i >= 3
        invariant
            i <= s@.len(),
            s@ == whole,
            out@ + b64_encode(whole.skip(i as int)) == old(out)@ + b64_encode(whole),
        decreases s@.len() - i,
    {
        let b0 = s[i];
        let b1 = s[i + 1];
        let b2 = s[i + 2];
        let ghost rem = whole.skip(i as int);
        proof {
            assert(rem.len() >= 3);
            assert(rem[0] == b0 && rem[1] == b1 && rem[2] == b2);
            assert(rem.skip(3) =~= whole.skip(i + 3));
        }
        out.push(b64_char_of(b0 / 4));
        out.push(b64_char_of(b0 % 4 * 16 + b1 / 16));
        out.push(b64_char_of(b1 % 16 * 4 + b2 / 64));
        out.push(b64_char_of(b2 % 64));
        i = i + 3;
        proof {
            assert(out@ + b64_encode(whole.skip(i as int)) =~= old(out)@ + b64_encode(whole));
        }
    }
    let ghost rem = whole.skip(i as int);
    if s.len() - i == 1 {
        let b0 = s[i];
        proof {
            assert(rem.len() == 1 && rem[0] == b0);
        }
        out.push(b64_char_of(b0 / 4));
        out.push(b64_char_of(b0 % 4 * 16));
        proof {
            assert(out@ =~= old(out)@ + b64_encode(whole));
        }
    } else if s.len() - i == 2 {
        let b0 = s[i];
        let b1 = s[i + 1];
        proof {
            assert(rem.len() == 2 && rem[0] == b0 && rem[1] == b1);
        }
        out.push(b64_char_of(b0 / 4));
        out.push(b64_char_of(b0 % 4 * 16 + b1 / 16));
        out.push(b64_char_of(b1 % 16 * 4));
        proof {
            assert(out@ =~= old(out)@ + b64_encode(whole));
        }
    } else {
        proof {
            assert(rem.len() == 0);
            assert(out@ =~= old(out)@ + b64_encode(whole));
        }
    }
}

/// Decodes `s[from..]`; `None` unless it is the canonical encoding of
/// some byte sequence, which is returned.
pub fn b64_decode_range(s: &Vec<u8>, from: usize) -> (r: Option<Vec<u8>>)
    requires
        from <= s@.len(),
    ensures
        match r {
            Some(v) => b64_decode(s@.skip(from as int)) == Some(v@),
            None => b64_decode(s@.skip(from as int)) is None,
        },
{
    let ghost whole = s@.skip(from as int);
    let mut out: Vec<u8> = Vec::new();
    let mut i: usize = from;
    proof {
        assert(whole.skip(0) =~= whole);
        assert(out@ + whole =~= whole);
    }
    while s.len() - i >= 4
        invariant
            from <= i <= s@.len(),
            whole == s@.skip(from as int),
            b64_decode(whole) == match b64_decode(s@.skip(i as int)) {
                Some(rest) => Some(out@ + rest),
                None => None::<Seq<u8>>,
            },
        decreases s@.len() - i,
    {
        let ghost rem = s@.skip(i as int);
        let ghost out0 = out@;
        proof {
            assert(rem.len() >= 4);
            assert(rem[0] == s@[i as int] && rem[1] == s@[i + 1] && rem[2] == s@[i + 2]
                && rem[3] == s@[i + 3]);
            assert(rem.skip(4) =~= s@.skip(i + 4));
        }
        let v0 = match b64_val_of(s[i]) {
            Some(v) => v,
            None => {
                return None;
            },
        };
        let v1 = match b64_val_of(s[i + 1]) {
            Some(v) => v,
            None => {
                return None;
            },
        };
        let v2 = match b64_val_of(s[i + 2]) {
            Some(v) => v,
            None => {
                return None;
            },
        };
        let v3 = match b64_val_of(s[i + 3]) {
            Some(v) => v,
            None => {
                return None;
            },
        };
        let b0 = v0 * 4 + v1 / 16;
        let b1 = v1 % 16 * 16 + v2 / 4;
        let b2 = v2 % 4 * 64 + v3;
        out.push(b0);
        out.push(b1);
        out.push(b2);
        i = i + 4;
        proof {
            let group = seq![
                (b64_val(rem[0]) * 4 + b64_val(rem[1]) / 16) as u8,
                (b64_val(rem[1]) % 16 * 16 + b64_val(rem[2]) / 4) as u8,
                (b64_val(rem[2]) % 4 * 64 + b64_val(rem[3])) as u8,
            ];
            assert(group =~= seq![b0, b1, b2]);
            assert(out@ =~= out0 + group);
            match b64_decode(s@.skip(i as int)) {
                Some(rest) => {
                    assert(b64_decode(rem) == Some(group + rest));
                    assert(out0 + (group + rest) =~= out@ + rest);
                },
                None => {
                    assert(b64_decode(rem) is None);
                },
            }
        }
    }
    let ghost rem = s@.skip(i as int);
    let left = s.len() - i;
    if left == 0 {
        proof {
            assert(rem.len() == 0);
            assert(b64_decode(rem) == Some(Seq::<u8>::empty()));
            assert(out@ + Seq::<u8>::empty() =~= out@);
        }
        Some(out)
    } else if left == 1 {
        proof {
            assert(rem.len() == 1);
        }
        None
    } else if left == 2 {
        let ghost out0 = out@;
        proof {
            assert(rem.len() == 2);
            assert(rem[0] == s@[i as int] && rem[1] == s@[i + 1]);
        }
        let v0 = match b64_val_of(s[i]) {
            Some(v) => v,
            None => {
                return None;
            },
        };
        let v1 = match b64_val_of(s[i + 1]) {
            Some(v) => v,
            None => {
                return None;
            },
        };
        if v1 % 16 != 0 {
            return None;
        }
        let b0 = v0 * 4 + v1 / 16;
        out.push(b0);
        proof {
            let group = seq![(b64_val(rem[0]) * 4 + b64_val(rem[1]) / 16) as u8];
            assert(group =~= seq![b0]);
            assert(b64_decode(rem) == Some(group));
            assert(out0 + group =~= out@);
        }
        Some(out)
    } else {
        let ghost out0 = out@;
        proof {
            assert(rem.len() == 3);
            assert(rem[0] == s@[i as int] && rem[1] == s@[i + 1] && rem[2] == s@[i + 2]);
        }
        let v0 = match b64_val_of(s[i]) {
            Some(v) => v,
            None => {
                return None;
            },
        };
        let v1 = match b64_val_of(s[i + 1]) {
            Some(v) => v,
            None => {
                return None;
            },
        };
        let v2 = match b64_val_of(s[i + 2]) {
            Some(v) => v,
            None => {
                return None;
            },
        };
        if v2 % 4 != 0 {
            return None;
        }
        let b0 = v0 * 4 + v1 / 16;
        let b1 = v1 % 16 * 16 + v2 / 4;
        out.push(b0);
        out.push(b1);
        proof {
            let group = seq![
                (b64_val(rem[0]) * 4 + b64_val(rem[1]) / 16) as u8,
                (b64_val(rem[1]) % 16 * 16 + b64_val(rem[2]) / 4) as u8,
            ];
            assert(group =~= seq![b0, b1]);
            assert(b64_decode(rem) == Some(group));
            assert(out0 + group =~= out@);
        }
        Some(out)
    }
}

} // verus!
