//! Percent-decoding and parsing of encoded forms: the inverse direction of
//! [`crate::encoder`]. Decoding maps `+` back to space and a `%` followed by
//! two hex digits back to the escaped byte; anything else, including a
//! malformed escape, passes through unchanged. Parsing splits an encoded form
//! on `&`, splits each non-empty segment at its first `=`, and decodes both
//! sides.

use vstd::prelude::*;

use crate::encoder::{
    enc_byte, enc_bytes, enc_form, enc_pair, is_unreserved, lemma_enc_pair_props, spec_hex_upper,
    Pair, EQ_BYTE, SEP_BYTE,
};

verus! {

/// An ASCII hex digit, either case.
pub open spec fn is_hex_digit(b: u8) -> bool {
    (0x30 <= b && b <= 0x39) || (0x41 <= b && b <= 0x46) || (0x61 <= b && b <= 0x66)
}

/// The value of an ASCII hex digit.
pub open spec fn hex_val(b: u8) -> nat
    recommends
        is_hex_digit(b),
{
    if 0x30 <= b && b <= 0x39 {
        (b - 0x30) as nat
    } else if 0x41 <= b && b <= 0x46 {
        (b - 0x37) as nat
    } else {
        (b - 0x57) as nat
    }
}

/// The decoding of a byte sequence: `+` becomes space, a valid `%XX` escape
/// becomes its byte, and every other byte (including a malformed escape)
/// passes through.
pub open spec fn dec_bytes(s: Seq<u8>) -> Seq<u8>
    decreases s.len(),
{
    if s.len() == 0 {
        seq![]
    } else if s[0] == 0x25 && s.len() >= 3 && is_hex_digit(s[1]) && is_hex_digit(s[2]) {
        seq![(hex_val(s[1]) * 16 + hex_val(s[2])) as u8] + dec_bytes(s.skip(3))
    } else if s[0] == 0x2b {
        seq![0x20u8] + dec_bytes(s.drop_first())
    } else {
        seq![s[0]] + dec_bytes(s.drop_first())
    }
}

/// The position of the first occurrence of `b` in `s`, or `s.len()` when `b`
/// does not occur.
pub open spec fn first_idx(s: Seq<u8>, b: u8) -> nat
    decreases s.len(),
{
    if s.len() == 0 {
        0
    } else if s[0] == b {
        0
    } else {
        1 + first_idx(s.drop_first(), b)
    }
}

/// One parsed segment: the decoded bytes before the first `=` and the
/// decoded bytes after it, or the whole decoded segment with an empty value
/// when the segment holds no `=`.
pub open spec fn split_pair(seg: Seq<u8>) -> Pair {
    let i = first_idx(seg, EQ_BYTE);
    if i < seg.len() {
        (dec_bytes(seg.take(i as int)), dec_bytes(seg.skip(i + 1 as int)))
    } else {
        (dec_bytes(seg), seq![])
    }
}

/// The pairs of an encoded form: split on `&`, empty segments skipped, each
/// remaining segment split at its first `=` and decoded.
pub open spec fn parse_form(s: Seq<u8>) -> Seq<Pair>
    decreases s.len(),
{
    if s.len() == 0 {
        seq![]
    } else {
        let i = first_idx(s, SEP_BYTE);
        let rest = if i < s.len() {
            parse_form(s.skip(i + 1 as int))
        } else {
            seq![]
        };
        if i == 0 {
            rest
        } else {
            seq![split_pair(s.take(i as int))] + rest
        }
    }
}

/// `first_idx` is in bounds, everything before it differs from `b`, and it
/// points at `b` whenever `b` occurs at all.
pub proof fn lemma_first_idx_props(s: Seq<u8>, b: u8)
    ensures
        first_idx(s, b) <= s.len(),
        forall|t: int| 0 <= t < first_idx(s, b) ==> s[t] != b,
        first_idx(s, b) < s.len() ==> s[first_idx(s, b) as int] == b,
    decreases s.len(),
{
    if s.len() > 0 && s[0] != b {
        lemma_first_idx_props(s.drop_first(), b);
        assert forall|t: int| 0 <= t < first_idx(s, b) implies s[t] != b by {
            if t > 0 {
                assert(s[t] == s.drop_first()[t - 1]);
            }
        }
        if first_idx(s, b) < s.len() {
            assert(s[first_idx(s, b) as int] == s.drop_first()[first_idx(s.drop_first(), b) as int]);
        }
    }
}

/// A position with nothing equal to `b` before it, and `b` at it unless it
/// is the end, is exactly `first_idx`.
pub proof fn lemma_first_idx_unique(s: Seq<u8>, b: u8, m: int)
    requires
        0 <= m <= s.len(),
        forall|t: int| 0 <= t < m ==> s[t] != b,
        m < s.len() ==> s[m] == b,
    ensures
        first_idx(s, b) == m,
{
    lemma_first_idx_props(s, b);
    let fi = first_idx(s, b) as int;
    if fi < m {
        assert(s[fi] != b);
        assert(s[fi] == b);
    } else if m < fi {
        assert(s[m] != b);
        assert(s[m] == b);
    }
}

/// Decoding undoes encoding: every byte class round-trips.
pub proof fn lemma_decode_encode(s: Seq<u8>)
    ensures
        dec_bytes(enc_bytes(s)) == s,
    decreases s.len(),
{
    if s.len() == 0 {
        assert(dec_bytes(enc_bytes(s)) =~= s);
    } else {
        let b = s[0];
        let e = enc_bytes(s);
        let tail = enc_bytes(s.drop_first());
        lemma_decode_encode(s.drop_first());
        assert(e == enc_byte(b) + tail);
        if is_unreserved(b) {
            assert(e[0] == b);
            assert(b != 0x25 && b != 0x2b);
            assert(e.drop_first() =~= tail);
            assert(dec_bytes(e) =~= seq![b] + s.drop_first());
            assert(dec_bytes(e) =~= s);
        } else if b == 0x20 {
            assert(e[0] == 0x2b);
            assert(e.drop_first() =~= tail);
            assert(dec_bytes(e) =~= seq![0x20u8] + s.drop_first());
            assert(dec_bytes(e) =~= s);
        } else {
            let h1 = spec_hex_upper(b as nat / 16);
            let h2 = spec_hex_upper(b as nat % 16);
            assert(e[0] == 0x25 && e[1] == h1 && e[2] == h2);
            assert(b as nat / 16 < 16 && b as nat % 16 < 16);
            assert(is_hex_digit(h1) && is_hex_digit(h2));
            assert(hex_val(h1) == b as nat / 16);
            assert(hex_val(h2) == b as nat % 16);
            assert(hex_val(h1) * 16 + hex_val(h2) == b as nat) by {
                assert((b as nat / 16) * 16 + b as nat % 16 == b as nat) by (nonlinear_arith);
            }
            assert(e.len() >= 3);
            assert(e.skip(3) =~= tail);
            assert(dec_bytes(e) =~= seq![b] + s.drop_first());
            assert(dec_bytes(e) =~= s);
        }
    }
}

/// Splitting an encoded pair at its `=` and decoding both sides recovers the
/// original key and value; re-encoding them therefore reproduces the encoded
/// pair exactly.
pub proof fn lemma_pair_reencode(k: Seq<u8>, v: Seq<u8>)
    ensures
        split_pair(enc_pair(k, v)) == (k, v),
        enc_pair(split_pair(enc_pair(k, v)).0, split_pair(enc_pair(k, v)).1) == enc_pair(k, v),
{
    let e = enc_pair(k, v);
    let ek = enc_bytes(k);
    let ev = enc_bytes(v);
    lemma_enc_pair_props(k, v);
    lemma_first_idx_unique(e, EQ_BYTE, ek.len() as int);
    assert(first_idx(e, EQ_BYTE) == ek.len());
    assert(ek.len() < e.len());
    assert(e.take(ek.len() as int) =~= ek);
    assert(e.skip(ek.len() + 1 as int) =~= ev);
    lemma_decode_encode(k);
    lemma_decode_encode(v);
    assert(split_pair(e) == (k, v));
}

/// Parsing an encoded form recovers exactly the pairs it was built from:
/// encode, decode, and re-encode round-trips to the identical byte string.
pub proof fn lemma_parse_encode_roundtrip(ps: Seq<Pair>)
    ensures
        parse_form(enc_form(ps)) == ps,
        enc_form(parse_form(enc_form(ps))) == enc_form(ps),
    decreases ps.len(),
{
    if ps.len() == 0 {
        assert(parse_form(enc_form(ps)) =~= ps);
    } else {
        let e = enc_form(ps);
        let k = ps[0].0;
        let v = ps[0].1;
        let ep0 = enc_pair(k, v);
        lemma_enc_pair_props(k, v);
        lemma_pair_reencode(k, v);
        assert(ep0.len() >= 1);
        if ps.len() == 1 {
            assert(e == ep0);
            lemma_first_idx_unique(e, SEP_BYTE, e.len() as int);
            assert(first_idx(e, SEP_BYTE) == e.len());
            assert(e.take(e.len() as int) =~= e);
            assert(ps[0] == (k, v));
            assert(parse_form(e) =~= ps);
        } else {
            let rest = enc_form(ps.drop_first());
            assert(e == ep0 + seq![SEP_BYTE] + rest);
            assert(e.len() == ep0.len() + 1 + rest.len());
            assert forall|t: int| 0 <= t < ep0.len() implies e[t] != SEP_BYTE by {
                assert(e[t] == ep0[t]);
            }
            assert(e[ep0.len() as int] == SEP_BYTE);
            lemma_first_idx_unique(e, SEP_BYTE, ep0.len() as int);
            assert(first_idx(e, SEP_BYTE) == ep0.len());
            assert(e.take(ep0.len() as int) =~= ep0);
            assert(e.skip(ep0.len() + 1 as int) =~= rest);
            lemma_parse_encode_roundtrip(ps.drop_first());
            assert(ps[0] == (k, v));
            assert(parse_form(e) =~= seq![ps[0]] + ps.drop_first());
            assert(parse_form(e) =~= ps);
        }
    }
}

/// The value of an ASCII hex digit, when the byte is one.
fn hex_nibble(b: u8) -> (r: Option<u8>)
    ensures
        r is Some <==> is_hex_digit(b),
        r is Some ==> r->0 as nat == hex_val(b),
{
    if 0x30 <= b && b <= 0x39 {
        Some(b - 0x30)
    } else if 0x41 <= b && b <= 0x46 {
        Some(b - 0x37)
    } else if 0x61 <= b && b <= 0x66 {
        Some(b - 0x57)
    } else {
        None
    }
}

/// Decodes the bytes of `s` between `from` and `to`.
pub fn decode_range(s: &[u8], from: usize, to: usize) -> (r: Vec<u8>)
    requires
        from <= to <= s@.len(),
    ensures
        r@ == dec_bytes(s@.subrange(from as int, to as int)),
{
    let ghost seg = s@.subrange(from as int, to as int);
    let mut out: Vec<u8> = Vec::new();
    let mut p = from;
    while p < to
        invariant
            from <= p <= to <= s@.len(),
            seg == s@.subrange(from as int, to as int),
            dec_bytes(seg) == out@ + dec_bytes(s@.subrange(p as int, to as int)),
        decreases to - p,
    {
        let ghost cur = s@.subrange(p as int, to as int);
        assert(cur.len() > 0);
        let b = s[p];
        assert(cur[0] == b);
        let mut step: usize = 1;
        if b == 0x25 && to - p >= 3 {
            let h1 = hex_nibble(s[p + 1]);
            let h2 = hex_nibble(s[p + 2]);
            assert(cur[1] == s@[p + 1] && cur[2] == s@[p + 2]);
            match (h1, h2) {
                (Some(x), Some(y)) => {
                    out.push(x * 16 + y);
                    step = 3;
                    assert(cur.skip(3) =~= s@.subrange(p + 3, to as int));
                    assert(dec_bytes(cur) == seq![(hex_val(cur[1]) * 16 + hex_val(cur[2])) as u8]
                        + dec_bytes(cur.skip(3)));
                },
                _ => {
                    out.push(b);
                    assert(cur.drop_first() =~= s@.subrange(p + 1, to as int));
                    assert(dec_bytes(cur) == seq![b] + dec_bytes(cur.drop_first()));
                },
            }
        } else if b == 0x2b {
            out.push(0x20);
            assert(cur.drop_first() =~= s@.subrange(p + 1, to as int));
            assert(dec_bytes(cur) == seq![0x20u8] + dec_bytes(cur.drop_first()));
        } else {
            out.push(b);
            assert(cur.drop_first() =~= s@.subrange(p + 1, to as int));
            assert(dec_bytes(cur) == seq![b] + dec_bytes(cur.drop_first()));
        }
        p = p + step;
        assert(dec_bytes(seg) == out@ + dec_bytes(s@.subrange(p as int, to as int)));
    }
    assert(s@.subrange(to as int, to as int) =~= Seq::<u8>::empty());
    assert(out@ =~= dec_bytes(seg));
    out
}

/// The pairs a vector of byte pairs stands for.
pub open spec fn pairs_view(r: Seq<(Vec<u8>, Vec<u8>)>) -> Seq<Pair> {
    r.map_values(|p: (Vec<u8>, Vec<u8>)| (p.0@, p.1@))
}

/// Splits an encoded form on `&`, skips empty segments, splits each segment
/// at its first `=`, and decodes both sides.
pub fn parse_pairs(input: &[u8]) -> (r: Vec<(Vec<u8>, Vec<u8>)>)
    ensures
        pairs_view(r@) == parse_form(input@),
{
    let ghost s = input@;
    let mut res: Vec<(Vec<u8>, Vec<u8>)> = Vec::new();
    let mut i: usize = 0;
    proof {
        assert(s.skip(0) =~= s);
        assert(pairs_view(res@) + parse_form(s) =~= parse_form(s));
    }
    while i < input.len()
        invariant
            i <= s.len(),
            input@ == s,
            parse_form(s) == pairs_view(res@) + parse_form(s.skip(i as int)),
        decreases s.len() - i,
    {
        let ghost tail = s.skip(i as int);
        let mut j = i;
        while j < input.len() && input[j] != 0x26
            invariant
                i <= j <= s.len(),
                input@ == s,
                forall|t: int| i <= t < j ==> s[t] != SEP_BYTE,
            decreases s.len() - j,
        {
            j = j + 1;
        }
        proof {
            assert forall|t: int| 0 <= t < j - i implies tail[t] != SEP_BYTE by {
                assert(tail[t] == s[i + t]);
            }
            if j < s.len() {
                assert(tail[j - i] == s[j as int]);
            }
            lemma_first_idx_unique(tail, SEP_BYTE, j - i);
        }
        if j > i {
            let ghost seg = tail.take((j - i) as int);
            proof {
                assert(seg =~= s.subrange(i as int, j as int));
            }
            let mut k = i;
            while k < j && input[k] != 0x3d
                invariant
                    i <= k <= j <= s.len(),
                    input@ == s,
                    forall|t: int| i <= t < k ==> s[t] != EQ_BYTE,
                decreases s.len() - k,
            {
                k = k + 1;
            }
            proof {
                assert forall|t: int| 0 <= t < k - i implies seg[t] != EQ_BYTE by {
                    assert(seg[t] == s[i + t]);
                }
                if k < j {
                    assert(seg[k - i] == s[k as int]);
                }
                lemma_first_idx_unique(seg, EQ_BYTE, k - i);
            }
            let key = decode_range(input, i, k);
            let val = if k < j {
                proof {
                    assert(seg.skip(k - i + 1) =~= s.subrange(k + 1, j as int));
                }
                decode_range(input, k + 1, j)
            } else {
                Vec::new()
            };
            proof {
                assert(seg.take((k - i) as int) =~= s.subrange(i as int, k as int));
                assert(split_pair(seg) == (key@, val@));
            }
            res.push((key, val));
            proof {
                assert(pairs_view(res@) =~= pairs_view(res@.drop_last()).push((key@, val@)));
            }
        }
        proof {
            if j < s.len() {
                assert(tail.skip((j - i) + 1) =~= s.skip(j + 1));
            }
        }
        if j < input.len() {
            i = j + 1;
        } else {
            i = j;
        }
        proof {
            assert(parse_form(s) =~= pairs_view(res@) + parse_form(s.skip(i as int)));
        }
    }
    assert(s.skip(s.len() as int) =~= Seq::<u8>::empty());
    assert(pairs_view(res@) =~= parse_form(s));
    res
}

} // verus!
