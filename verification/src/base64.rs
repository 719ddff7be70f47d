//! Base64 (RFC 4648) encoding and decoding of byte sequences, with a
//! proof that decoding inverts encoding. This is the textual body of
//! the PEM artifacts the identity provider persists.

use vstd::prelude::*;

verus! {

/// The code point of sextet `v` in the base64 alphabet.
pub open spec fn b64_char(v: u8) -> u8
    recommends
        v < 64,
{
    if v < 26 {
        (v + 65) as u8  // 'A'..'Z'
    } else if v < 52 {
        (v + 71) as u8  // 'a'..'z'
    } else if v < 62 {
        (v - 52 + 48) as u8  // '0'..'9'
    } else if v == 62 {
        43u8  // '+'
    } else {
        47u8  // '/'
    }
}

/// The sextet a code point stands for, or `None` outside the alphabet.
pub open spec fn b64_val(c: u8) -> Option<u8> {
    if 65 <= c && c <= 90 {
        Some((c - 65) as u8)
    } else if 97 <= c && c <= 122 {
        Some((c - 97 + 26) as u8)
    } else if 48 <= c && c <= 57 {
        Some((c - 48 + 52) as u8)
    } else if c == 43 {
        Some(62u8)
    } else if c == 47 {
        Some(63u8)
    } else {
        None
    }
}

/// The '=' padding character.
pub open spec fn pad_char() -> u8 {
    61u8
}

/// The four code points of one full three-byte group.
pub open spec fn enc3(b0: u8, b1: u8, b2: u8) -> Seq<u8> {
    seq![
        b64_char(b0 >> 2),
        b64_char(((b0 & 3) << 4) | (b1 >> 4)),
        b64_char(((b1 & 15) << 2) | (b2 >> 6)),
        b64_char(b2 & 63),
    ]
}

/// The three bytes of one full four-sextet block.
pub open spec fn dec3(v0: u8, v1: u8, v2: u8, v3: u8) -> Seq<u8> {
    seq![
        ((v0 << 2) | (v1 >> 4)) as u8,
        (((v1 & 15) << 4) | (v2 >> 2)) as u8,
        (((v2 & 3) << 6) | v3) as u8,
    ]
}

/// The base64 encoding of `s`: full groups of three, then one padded
/// block for a one- or two-byte tail.
pub open spec fn spec_b64_encode(s: Seq<u8>) -> Seq<u8>
    decreases s.len(),
{
    if s.len() == 0 {
        Seq::empty()
    } else if s.len() == 1 {
        seq![b64_char(s[0] >> 2), b64_char((s[0] & 3) << 4), pad_char(), pad_char()]
    } else if s.len() == 2 {
        seq![
            b64_char(s[0] >> 2),
            b64_char(((s[0] & 3) << 4) | (s[1] >> 4)),
            b64_char((s[1] & 15) << 2),
            pad_char(),
        ]
    } else {
        enc3(s[0], s[1], s[2]) + spec_b64_encode(s.skip(3))
    }
}

/// The bytes `t` encodes, or `None` where `t` is not well-formed
/// base64: blocks of four code points, padding only in a final block.
pub open spec fn spec_b64_decode(t: Seq<u8>) -> Option<Seq<u8>>
    decreases t.len(),
{
    if t.len() == 0 {
        Some(Seq::empty())
    } else if t.len() < 4 {
        None
    } else {
        match (b64_val(t[0]), b64_val(t[1])) {
            (Some(v0), Some(v1)) => if t[2] == pad_char() {
                if t.len() == 4 && t[3] == pad_char() {
                    Some(seq![((v0 << 2) | (v1 >> 4)) as u8])
                } else {
                    None
                }
            } else {
                match b64_val(t[2]) {
                    Some(v2) => if t[3] == pad_char() {
                        if t.len() == 4 {
                            Some(
                                seq![
                                    ((v0 << 2) | (v1 >> 4)) as u8,
                                    (((v1 & 15) << 4) | (v2 >> 2)) as u8,
                                ],
                            )
                        } else {
                            None
                        }
                    } else {
                        match b64_val(t[3]) {
                            Some(v3) => match spec_b64_decode(t.skip(4)) {
                                Some(rest) => Some(dec3(v0, v1, v2, v3) + rest),
                                None => None,
                            },
                            None => None,
                        }
                    },
                    None => None,
                }
            },
            _ => None,
        }
    }
}

/// Decoding a code point of the alphabet gives back its sextet.
proof fn lemma_b64_char_inverts(v: u8)
    requires
        v < 64,
    ensures
        b64_val(b64_char(v)) == Some(v),
{
}

/// Every character the encoder emits — alphabet or padding — lies at
/// or above code point 43; in particular none is a line break.
proof fn lemma_b64_char_low_bound(v: u8)
    ensures
        b64_char(v) >= 43,
        b64_char(v) != 10,
        b64_char(v) != 13,
{
}

/// Alphabet characters are never the padding character.
proof fn lemma_b64_char_not_pad(v: u8)
    requires
        v < 64,
    ensures
        b64_char(v) != pad_char(),
{
}

/// Bounds of the sextets of one group: each is below 64.
proof fn lemma_sextet_bounds()
    by (bit_vector)
    ensures
        forall|b0: u8, b1: u8, b2: u8|
            #![auto]
            (b0 >> 2) < 64 && (((b0 & 3) << 4) | (b1 >> 4)) < 64 && (((b1 & 15) << 2) | (b2 >> 6))
                < 64 && (b2 & 63) < 64,
{
}

/// Reassembling the sextets of one group gives back its three bytes.
proof fn lemma_group_recombines()
    by (bit_vector)
    ensures
        forall|b0: u8, b1: u8, b2: u8|
            #![auto]
            (((b0 >> 2) << 2) | ((((b0 & 3) << 4) | (b1 >> 4)) >> 4)) == b0 && ((((((b0 & 3) << 4)
                | (b1 >> 4)) & 15) << 4) | ((((b1 & 15) << 2) | (b2 >> 6)) >> 2)) == b1 && (((((b1
                & 15) << 2) | (b2 >> 6)) & 3) << 6) | (b2 & 63) == b2,
{
}

/// No character of an encoding is a line break (they all lie at or
/// above code point 43).
pub proof fn lemma_encode_no_eol(s: Seq<u8>)
    ensures
        forall|i: int|
            0 <= i < spec_b64_encode(s).len() ==> #[trigger] spec_b64_encode(s)[i] >= 43,
    decreases s.len(),
{
    if s.len() == 0 {
    } else if s.len() == 1 || s.len() == 2 {
        assert forall|i: int| 0 <= i < spec_b64_encode(s).len() implies #[trigger] spec_b64_encode(
            s,
        )[i] >= 43 by {
            lemma_b64_char_low_bound(s[0] >> 2);
            lemma_b64_char_low_bound((s[0] & 3) << 4);
            if s.len() == 2 {
                lemma_b64_char_low_bound(((s[0] & 3) << 4) | (s[1] >> 4));
                lemma_b64_char_low_bound((s[1] & 15) << 2);
            }
        }
    } else {
        lemma_encode_no_eol(s.skip(3));
        assert forall|i: int| 0 <= i < spec_b64_encode(s).len() implies #[trigger] spec_b64_encode(
            s,
        )[i] >= 43 by {
            lemma_b64_char_low_bound(s[0] >> 2);
            lemma_b64_char_low_bound(((s[0] & 3) << 4) | (s[1] >> 4));
            lemma_b64_char_low_bound(((s[1] & 15) << 2) | (s[2] >> 6));
            lemma_b64_char_low_bound(s[2] & 63);
            if i >= 4 {
                assert(spec_b64_encode(s)[i] == spec_b64_encode(s.skip(3))[i - 4]);
            }
        }
    }
}

/// The round-trip law of the codec: decoding an encoding yields the
/// original bytes, for every byte sequence.
pub proof fn lemma_b64_round_trip(s: Seq<u8>)
    ensures
        spec_b64_decode(spec_b64_encode(s)) == Some(s),
    decreases s.len(),
{
    lemma_sextet_bounds();
    lemma_group_recombines();
    if s.len() == 0 {
    } else if s.len() == 1 {
        let b0 = s[0];
        let t = spec_b64_encode(s);
        assert(b0 >> 2 < 64 && ((b0 & 3) << 4) < 64) by (bit_vector);
        lemma_b64_char_inverts(b0 >> 2);
        lemma_b64_char_inverts((b0 & 3) << 4);
        assert((b0 & 3) << 4 == ((b0 & 3) << 4) | (0u8 >> 4)) by (bit_vector);
        assert(((b0 >> 2) << 2) | (((b0 & 3) << 4) >> 4) == b0) by (bit_vector);
        assert(spec_b64_decode(t) == Some(seq![b0]));
        assert(s =~= seq![b0]);
    } else if s.len() == 2 {
        let b0 = s[0];
        let b1 = s[1];
        let t = spec_b64_encode(s);
        let v0 = b0 >> 2;
        let v1 = ((b0 & 3) << 4) | (b1 >> 4);
        let v2 = (b1 & 15) << 2;
        assert(b0 >> 2 < 64 && (((b0 & 3) << 4) | (b1 >> 4)) < 64) by (bit_vector);
        lemma_b64_char_inverts(v0);
        lemma_b64_char_inverts(v1);
        assert(((b1 & 15) << 2) < 64) by (bit_vector);
        lemma_b64_char_inverts(v2);
        lemma_b64_char_not_pad(v2);
        assert((b1 & 15) << 2 == ((b1 & 15) << 2) | (0u8 >> 6)) by (bit_vector);
        assert(spec_b64_decode(t) == Some(seq![((v0 << 2) | (v1 >> 4)) as u8, (((v1 & 15) << 4) | (
        v2 >> 2)) as u8]));
        assert(s =~= seq![b0, b1]);
    } else {
        let b0 = s[0];
        let b1 = s[1];
        let b2 = s[2];
        let t = spec_b64_encode(s);
        let rest = spec_b64_encode(s.skip(3));
        let v0 = b0 >> 2;
        let v1 = ((b0 & 3) << 4) | (b1 >> 4);
        let v2 = ((b1 & 15) << 2) | (b2 >> 6);
        let v3 = b2 & 63;
        lemma_b64_char_inverts(v0);
        lemma_b64_char_inverts(v1);
        lemma_b64_char_inverts(v2);
        lemma_b64_char_inverts(v3);
        lemma_b64_char_not_pad(v2);
        lemma_b64_char_not_pad(v3);
        assert(t == enc3(b0, b1, b2) + rest);
        assert(t.len() == 4 + rest.len());
        assert(t[0] == b64_char(v0) && t[1] == b64_char(v1) && t[2] == b64_char(v2) && t[3]
            == b64_char(v3));
        assert(t.skip(4) =~= rest);
        lemma_b64_round_trip(s.skip(3));
        assert(spec_b64_decode(t) == Some(dec3(v0, v1, v2, v3) + s.skip(3)));
        assert(dec3(v0, v1, v2, v3) == seq![b0, b1, b2]);
        assert(dec3(v0, v1, v2, v3) + s.skip(3) =~= s);
    }
}

/// The code point of sextet `v`.
fn encode_sextet(v: u8) -> (r: u8)
    requires
        v < 64,
    ensures
        r == b64_char(v),
{
    if v < 26 {
        v + 65
    } else if v < 52 {
        v + 71
    } else if v < 62 {
        v - 52 + 48
    } else if v == 62 {
        43
    } else {
        47
    }
}

/// The sextet of code point `c`, or `None` outside the alphabet.
fn decode_sextet(c: u8) -> (r: Option<u8>)
    ensures
        r == b64_val(c),
        r matches Some(v) ==> v < 64,
{
    if 65 <= c && c <= 90 {
        Some(c - 65)
    } else if 97 <= c && c <= 122 {
        Some(c - 97 + 26)
    } else if 48 <= c && c <= 57 {
        Some(c - 48 + 52)
    } else if c == 43 {
        Some(62)
    } else if c == 47 {
        Some(63)
    } else {
        None
    }
}

/// Base64-encode `data`.
pub fn base64_encode(data: &Vec<u8>) -> (r: Vec<u8>)
    ensures
        r@ == spec_b64_encode(data@),
{
    let n = data.len();
    let mut out: Vec<u8> = Vec::new();
    let mut i: usize = 0;
    proof {
        assert(data@.skip(0) == data@);
    }
    while n - i >= 3
        invariant
            i <= n,
            n == data@.len(),
            spec_b64_encode(data@) == out@ + spec_b64_encode(data@.skip(i as int)),
        decreases n - i,
    {
        let ghost prefix = out@;
        let ghost tail = data@.skip(i as int);
        let b0 = data[i];
        let b1 = data[i + 1];
        let b2 = data[i + 2];
        assert((b0 >> 2) < 64 && (((b0 & 3) << 4) | (b1 >> 4)) < 64 && (((b1 & 15) << 2) | (b2
            >> 6)) < 64 && (b2 & 63) < 64) by (bit_vector);
        out.push(encode_sextet(b0 >> 2));
        out.push(encode_sextet(((b0 & 3) << 4) | (b1 >> 4)));
        out.push(encode_sextet(((b1 & 15) << 2) | (b2 >> 6)));
        out.push(encode_sextet(b2 & 63));
        proof {
            assert(tail.len() >= 3);
            assert(tail[0] == b0 && tail[1] == b1 && tail[2] == b2);
            assert(spec_b64_encode(tail) == enc3(b0, b1, b2) + spec_b64_encode(tail.skip(3)));
            assert(tail.skip(3) =~= data@.skip(i + 3));
            assert(out@ =~= prefix + enc3(b0, b1, b2));
            assert(out@ + spec_b64_encode(data@.skip(i + 3)) =~= prefix + spec_b64_encode(tail));
        }
        i = i + 3;
    }
    let ghost tail = data@.skip(i as int);
    if i == n {
        proof {
            assert(tail =~= Seq::<u8>::empty());
            assert(out@ =~= out@ + spec_b64_encode(tail));
        }
    } else if n - i == 1 {
        let ghost prefix = out@;
        let b0 = data[i];
        assert((b0 >> 2) < 64 && ((b0 & 3) << 4) < 64) by (bit_vector);
        out.push(encode_sextet(b0 >> 2));
        out.push(encode_sextet((b0 & 3) << 4));
        out.push(61);
        out.push(61);
        proof {
            assert(tail.len() == 1 && tail[0] == b0);
            assert(out@ =~= prefix + spec_b64_encode(tail));
        }
    } else {
        let ghost prefix = out@;
        let b0 = data[i];
        let b1 = data[i + 1];
        assert((b0 >> 2) < 64 && (((b0 & 3) << 4) | (b1 >> 4)) < 64 && ((b1 & 15) << 2) < 64)
            by (bit_vector);
        out.push(encode_sextet(b0 >> 2));
        out.push(encode_sextet(((b0 & 3) << 4) | (b1 >> 4)));
        out.push(encode_sextet((b1 & 15) << 2));
        out.push(61);
        proof {
            assert(tail.len() == 2 && tail[0] == b0 && tail[1] == b1);
            assert(out@ =~= prefix + spec_b64_encode(tail));
        }
    }
    out
}

/// Base64-decode `data`. Returns the decoded bytes exactly where
/// `data` is well-formed base64, and `None` otherwise.
pub fn base64_decode(data: &Vec<u8>) -> (r: Option<Vec<u8>>)
    ensures
        r matches Some(v) ==> spec_b64_decode(data@) == Some(v@),
        r is None ==> spec_b64_decode(data@) is None,
{
    let n = data.len();
    let mut out: Vec<u8> = Vec::new();
    let mut i: usize = 0;
    proof {
        assert(data@.skip(0) == data@);
    }
    while n - i > 4
        invariant
            i <= n,
            n == data@.len(),
            spec_b64_decode(data@) == (match spec_b64_decode(data@.skip(i as int)) {
                Some(rest) => Some(out@ + rest),
                None => None::<Seq<u8>>,
            }),
        decreases n - i,
    {
        let ghost prefix = out@;
        let ghost tail = data@.skip(i as int);
        proof {
            assert(tail.len() > 4);
            assert(tail[0] == data@[i as int] && tail[1] == data@[i + 1] && tail[2] == data@[i + 2]
                && tail[3] == data@[i + 3]);
        }
        let c0 = data[i];
        let c1 = data[i + 1];
        let c2 = data[i + 2];
        let c3 = data[i + 3];
        let v0 = match decode_sextet(c0) {
            Some(v) => v,
            None => {
                return None;
            },
        };
        let v1 = match decode_sextet(c1) {
            Some(v) => v,
            None => {
                return None;
            },
        };
        if c2 == 61 || c3 == 61 {
            // padding in a block that is not the last: malformed
            return None;
        }
        let v2 = match decode_sextet(c2) {
            Some(v) => v,
            None => {
                return None;
            },
        };
        let v3 = match decode_sextet(c3) {
            Some(v) => v,
            None => {
                return None;
            },
        };
        out.push((v0 << 2) | (v1 >> 4));
        out.push(((v1 & 15) << 4) | (v2 >> 2));
        out.push(((v2 & 3) << 6) | v3);
        proof {
            assert(tail.skip(4) =~= data@.skip(i + 4));
            assert(spec_b64_decode(tail) == (match spec_b64_decode(tail.skip(4)) {
                Some(rest) => Some(dec3(v0, v1, v2, v3) + rest),
                None => None::<Seq<u8>>,
            }));
            assert(out@ =~= prefix + dec3(v0, v1, v2, v3));
            if spec_b64_decode(data@.skip(i + 4)) is Some {
                let rest = spec_b64_decode(data@.skip(i + 4)).unwrap();
                assert(prefix + (dec3(v0, v1, v2, v3) + rest) =~= out@ + rest);
            }
        }
        i = i + 4;
    }
    let ghost tail = data@.skip(i as int);
    if i == n {
        proof {
            assert(tail =~= Seq::<u8>::empty());
        }
        return Some(out);
    }
    if n - i < 4 {
        proof {
            assert(0 < tail.len() < 4);
        }
        return None;
    }
    // exactly one final block of four
    let ghost prefix = out@;
    proof {
        assert(tail.len() == 4);
        assert(tail[0] == data@[i as int] && tail[1] == data@[i + 1] && tail[2] == data@[i + 2]
            && tail[3] == data@[i + 3]);
    }
    let c0 = data[i];
    let c1 = data[i + 1];
    let c2 = data[i + 2];
    let c3 = data[i + 3];
    let v0 = match decode_sextet(c0) {
        Some(v) => v,
        None => {
            return None;
        },
    };
    let v1 = match decode_sextet(c1) {
        Some(v) => v,
        None => {
            return None;
        },
    };
    if c2 == 61 {
        if c3 == 61 {
            out.push((v0 << 2) | (v1 >> 4));
            proof {
                assert(spec_b64_decode(tail) == Some(seq![((v0 << 2) | (v1 >> 4)) as u8]));
                assert(out@ =~= prefix + seq![((v0 << 2) | (v1 >> 4)) as u8]);
            }
            return Some(out);
        }
        return None;
    }
    let v2 = match decode_sextet(c2) {
        Some(v) => v,
        None => {
            return None;
        },
    };
    if c3 == 61 {
        out.push((v0 << 2) | (v1 >> 4));
        out.push(((v1 & 15) << 4) | (v2 >> 2));
        proof {
            assert(spec_b64_decode(tail) == Some(seq![((v0 << 2) | (v1 >> 4)) as u8, (((v1 & 15)
                << 4) | (v2 >> 2)) as u8]));
            assert(out@ =~= prefix + seq![((v0 << 2) | (v1 >> 4)) as u8, (((v1 & 15) << 4) | (v2
                >> 2)) as u8]);
        }
        return Some(out);
    }
    let v3 = match decode_sextet(c3) {
        Some(v) => v,
        None => {
            return None;
        },
    };
    out.push((v0 << 2) | (v1 >> 4));
    out.push(((v1 & 15) << 4) | (v2 >> 2));
    out.push(((v2 & 3) << 6) | v3);
    proof {
        assert(b64_val(tail[0]) == Some(v0));
        assert(b64_val(tail[1]) == Some(v1));
        assert(tail[2] != pad_char() && b64_val(tail[2]) == Some(v2));
        assert(tail[3] != pad_char() && b64_val(tail[3]) == Some(v3));
        assert(tail.skip(4) =~= Seq::<u8>::empty());
        assert(spec_b64_decode(tail.skip(4)) == Some(Seq::<u8>::empty()));
        assert(spec_b64_decode(tail) == Some(dec3(v0, v1, v2, v3) + Seq::<u8>::empty()));
        assert(dec3(v0, v1, v2, v3) + Seq::<u8>::empty() =~= dec3(v0, v1, v2, v3));
        assert(out@ =~= prefix + dec3(v0, v1, v2, v3));
    }
    Some(out)
}

} // verus!
