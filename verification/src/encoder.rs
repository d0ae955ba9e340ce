//! Percent-encoding of key/value pairs in the
//! `application/x-www-form-urlencoded` style: unreserved bytes pass through,
//! the space byte becomes `+`, every other byte becomes `%` followed by two
//! uppercase hex digits. Encoding operates on raw bytes, so multi-byte text
//! is encoded byte-wise.

use vstd::prelude::*;
use vstd::string::{StringExecFns, StringSliceAdditionalSpecFns};

verus! {

/// Separator byte between two encoded pairs: `&`.
pub const SEP_BYTE: u8 = 0x26;

/// Assignment byte between an encoded key and its value: `=`.
pub const EQ_BYTE: u8 = 0x3d;

/// A byte that the encoding passes through unchanged: ASCII letters, digits,
/// and `-`, `_`, `.`, `~`.
pub open spec fn is_unreserved(b: u8) -> bool {
    (0x41 <= b && b <= 0x5a) || (0x61 <= b && b <= 0x7a) || (0x30 <= b && b <= 0x39)
        || b == 0x2d || b == 0x5f || b == 0x2e || b == 0x7e
}

/// The uppercase hex digit for a value below 16.
pub open spec fn spec_hex_upper(x: nat) -> u8
    recommends
        x < 16,
{
    if x < 10 {
        (0x30 + x) as u8
    } else {
        (0x37 + x) as u8
    }
}

/// The encoding of a single byte.
pub open spec fn enc_byte(b: u8) -> Seq<u8> {
    if is_unreserved(b) {
        seq![b]
    } else if b == 0x20 {
        seq![0x2bu8]
    } else {
        seq![0x25u8, spec_hex_upper(b as nat / 16), spec_hex_upper(b as nat % 16)]
    }
}

/// The encoding of a byte sequence: each byte encoded in order.
pub open spec fn enc_bytes(s: Seq<u8>) -> Seq<u8>
    decreases s.len(),
{
    if s.len() == 0 {
        seq![]
    } else {
        enc_byte(s[0]) + enc_bytes(s.drop_first())
    }
}

/// The encoding of one pair: encoded key, `=`, encoded value.
pub open spec fn enc_pair(k: Seq<u8>, v: Seq<u8>) -> Seq<u8> {
    enc_bytes(k) + seq![EQ_BYTE] + enc_bytes(v)
}

/// A key/value pair as raw (unencoded) bytes.
pub type Pair = (Seq<u8>, Seq<u8>);

/// The encoding of a whole form: the encoded pairs in order, with exactly one
/// `&` between any two adjacent pairs and none at either end.
pub open spec fn enc_form(ps: Seq<Pair>) -> Seq<u8>
    decreases ps.len(),
{
    if ps.len() == 0 {
        seq![]
    } else if ps.len() == 1 {
        enc_pair(ps[0].0, ps[0].1)
    } else {
        enc_pair(ps[0].0, ps[0].1) + seq![SEP_BYTE] + enc_form(ps.drop_first())
    }
}

/// Appending a pair appends a separator (when the form was not empty) and the
/// pair's encoding.
pub proof fn lemma_enc_form_push(ps: Seq<Pair>, k: Seq<u8>, v: Seq<u8>)
    ensures
        enc_form(ps.push((k, v))) == if ps.len() == 0 {
            enc_pair(k, v)
        } else {
            enc_form(ps) + seq![SEP_BYTE] + enc_pair(k, v)
        },
    decreases ps.len(),
{
    let q = ps.push((k, v));
    if ps.len() == 0 {
        assert(q[0] == (k, v));
        assert(enc_form(q) == enc_pair(k, v));
    } else {
        assert(q.drop_first() =~= ps.drop_first().push((k, v)));
        lemma_enc_form_push(ps.drop_first(), k, v);
        assert(q[0] == ps[0]);
        assert(enc_form(q) =~= enc_form(ps) + seq![SEP_BYTE] + enc_pair(k, v));
    }
}

/// A non-empty form encodes to at least `2 * N - 1` bytes: one `=` per pair
/// and one `&` between adjacent pairs.
pub proof fn lemma_enc_form_len(ps: Seq<Pair>)
    ensures
        ps.len() == 0 ==> enc_form(ps).len() == 0,
        ps.len() >= 1 ==> enc_form(ps).len() >= 2 * ps.len() - 1,
    decreases ps.len(),
{
    if ps.len() > 1 {
        lemma_enc_form_len(ps.drop_first());
    }
}

/// Appending a byte to the input appends that byte's encoding to the output.
pub proof fn lemma_enc_bytes_snoc(s: Seq<u8>)
    requires
        s.len() > 0,
    ensures
        enc_bytes(s) == enc_bytes(s.drop_last()) + enc_byte(s.last()),
    decreases s.len(),
{
    if s.len() == 1 {
        assert(enc_bytes(s.drop_first()) == Seq::<u8>::empty());
        assert(enc_bytes(s.drop_last()) == Seq::<u8>::empty());
        assert(enc_bytes(s) =~= enc_bytes(s.drop_last()) + enc_byte(s.last()));
    } else {
        let t = s.drop_first();
        lemma_enc_bytes_snoc(t);
        assert(t.drop_last() =~= s.drop_last().drop_first());
        assert(s.drop_last()[0] == s[0]);
        assert(t.last() == s.last());
        assert(enc_bytes(s.drop_last()) == enc_byte(s[0]) + enc_bytes(t.drop_last()));
        assert(enc_bytes(s) =~= enc_bytes(s.drop_last()) + enc_byte(s.last()));
    }
}

/// Every byte of an encoded byte sequence is ASCII and is neither the
/// separator nor the assignment byte: those two are never unreserved and are
/// only ever emitted as `%26` and `%3D` escapes.
pub proof fn lemma_enc_byte_props(b: u8)
    ensures
        1 <= enc_byte(b).len() <= 3,
        forall|i: int|
            0 <= i < enc_byte(b).len() ==> (#[trigger] enc_byte(b)[i]) < 128
                && enc_byte(b)[i] != SEP_BYTE && enc_byte(b)[i] != EQ_BYTE,
{
    if !is_unreserved(b) && b != 0x20 {
        assert(b as nat / 16 < 16);
        assert(b as nat % 16 < 16);
    }
}

/// [`lemma_enc_byte_props`], lifted to byte sequences.
pub proof fn lemma_enc_bytes_props(s: Seq<u8>)
    ensures
        forall|i: int|
            0 <= i < enc_bytes(s).len() ==> (#[trigger] enc_bytes(s)[i]) < 128
                && enc_bytes(s)[i] != SEP_BYTE && enc_bytes(s)[i] != EQ_BYTE,
    decreases s.len(),
{
    if s.len() > 0 {
        lemma_enc_byte_props(s[0]);
        lemma_enc_bytes_props(s.drop_first());
        let head = enc_byte(s[0]);
        let tail = enc_bytes(s.drop_first());
        assert forall|i: int| 0 <= i < enc_bytes(s).len() implies (#[trigger] enc_bytes(s)[i])
            < 128 && enc_bytes(s)[i] != SEP_BYTE && enc_bytes(s)[i] != EQ_BYTE by {
            if i < head.len() {
                assert(enc_bytes(s)[i] == head[i]);
            } else {
                assert(enc_bytes(s)[i] == tail[i - head.len()]);
            }
        }
    }
}

/// An encoded pair is ASCII, holds no separator byte, and holds the
/// assignment byte exactly once: right after the encoded key.
pub proof fn lemma_enc_pair_props(k: Seq<u8>, v: Seq<u8>)
    ensures
        forall|i: int|
            0 <= i < enc_pair(k, v).len() ==> (#[trigger] enc_pair(k, v)[i]) < 128
                && enc_pair(k, v)[i] != SEP_BYTE,
        enc_pair(k, v)[enc_bytes(k).len() as int] == EQ_BYTE,
        forall|i: int|
            0 <= i < enc_pair(k, v).len() && i != enc_bytes(k).len() ==> (#[trigger] enc_pair(
                k,
                v,
            )[i]) != EQ_BYTE,
{
    lemma_enc_bytes_props(k);
    lemma_enc_bytes_props(v);
    let ek = enc_bytes(k);
    let ev = enc_bytes(v);
    assert forall|i: int| 0 <= i < enc_pair(k, v).len() implies (#[trigger] enc_pair(k, v)[i])
        < 128 && enc_pair(k, v)[i] != SEP_BYTE && (i != ek.len() ==> enc_pair(k, v)[i]
        != EQ_BYTE) by {
        if i < ek.len() {
            assert(enc_pair(k, v)[i] == ek[i]);
        } else if i > ek.len() {
            assert(enc_pair(k, v)[i] == ev[i - ek.len() - 1]);
        }
    }
}

/// A whole encoded form is ASCII.
pub proof fn lemma_enc_form_ascii(ps: Seq<Pair>)
    ensures
        forall|i: int| 0 <= i < enc_form(ps).len() ==> (#[trigger] enc_form(ps)[i]) < 128,
    decreases ps.len(),
{
    if ps.len() == 1 {
        lemma_enc_pair_props(ps[0].0, ps[0].1);
    } else if ps.len() > 1 {
        lemma_enc_pair_props(ps[0].0, ps[0].1);
        lemma_enc_form_ascii(ps.drop_first());
        let head = enc_pair(ps[0].0, ps[0].1) + seq![SEP_BYTE];
        let tail = enc_form(ps.drop_first());
        assert forall|i: int| 0 <= i < enc_form(ps).len() implies (#[trigger] enc_form(ps)[i])
            < 128 by {
            if i < head.len() {
                assert(enc_form(ps)[i] == head[i]);
            } else {
                assert(enc_form(ps)[i] == tail[i - head.len()]);
            }
        }
    }
}

/// How many times `b` occurs in `s`.
pub open spec fn count_byte(s: Seq<u8>, b: u8) -> nat
    decreases s.len(),
{
    if s.len() == 0 {
        0
    } else {
        (if s[0] == b {
            1nat
        } else {
            0nat
        }) + count_byte(s.drop_first(), b)
    }
}

/// Occurrence counts add up over concatenation.
pub proof fn lemma_count_byte_concat(a: Seq<u8>, c: Seq<u8>, b: u8)
    ensures
        count_byte(a + c, b) == count_byte(a, b) + count_byte(c, b),
    decreases a.len(),
{
    if a.len() == 0 {
        assert(a + c =~= c);
    } else {
        lemma_count_byte_concat(a.drop_first(), c, b);
        assert((a + c).drop_first() =~= a.drop_first() + c);
        assert((a + c)[0] == a[0]);
    }
}

/// A sequence without `b` holds zero occurrences of it.
pub proof fn lemma_count_byte_absent(s: Seq<u8>, b: u8)
    requires
        forall|t: int| 0 <= t < s.len() ==> s[t] != b,
    ensures
        count_byte(s, b) == 0,
    decreases s.len(),
{
    if s.len() > 0 {
        assert forall|t: int| 0 <= t < s.drop_first().len() implies s.drop_first()[t] != b by {
            assert(s.drop_first()[t] == s[t + 1]);
        }
        lemma_count_byte_absent(s.drop_first(), b);
    }
}

/// A form of `N >= 1` pairs holds exactly `N - 1` separator bytes outside of
/// percent escapes: one between each two adjacent pairs and none inside an
/// encoded pair, since any `&` of a key or value is escaped as `%26`.
pub proof fn lemma_separator_count(ps: Seq<Pair>)
    requires
        ps.len() >= 1,
    ensures
        count_byte(enc_form(ps), SEP_BYTE) == ps.len() - 1,
    decreases ps.len(),
{
    let ep = enc_pair(ps[0].0, ps[0].1);
    lemma_enc_pair_props(ps[0].0, ps[0].1);
    lemma_count_byte_absent(ep, SEP_BYTE);
    if ps.len() > 1 {
        lemma_separator_count(ps.drop_first());
        lemma_count_byte_concat(ep, seq![SEP_BYTE], SEP_BYTE);
        lemma_count_byte_concat(ep + seq![SEP_BYTE], enc_form(ps.drop_first()), SEP_BYTE);
        assert(seq![SEP_BYTE].drop_first() =~= Seq::<u8>::empty());
        assert(count_byte(Seq::<u8>::empty(), SEP_BYTE) == 0);
        assert(count_byte(seq![SEP_BYTE], SEP_BYTE) == 1);
    }
}

/// A form of `N` pairs holds exactly `N` assignment bytes outside of percent
/// escapes: one per pair, since any `=` of a key or value is escaped as
/// `%3D`. The pair count therefore always equals the number of `=`-joined
/// segments in the buffer.
pub proof fn lemma_assignment_count(ps: Seq<Pair>)
    ensures
        count_byte(enc_form(ps), EQ_BYTE) == ps.len(),
    decreases ps.len(),
{
    if ps.len() >= 1 {
        let k = ps[0].0;
        let v = ps[0].1;
        let ep = enc_pair(k, v);
        lemma_enc_bytes_props(k);
        lemma_enc_bytes_props(v);
        lemma_count_byte_absent(enc_bytes(k), EQ_BYTE);
        lemma_count_byte_absent(enc_bytes(v), EQ_BYTE);
        lemma_count_byte_concat(enc_bytes(k), seq![EQ_BYTE], EQ_BYTE);
        lemma_count_byte_concat(enc_bytes(k) + seq![EQ_BYTE], enc_bytes(v), EQ_BYTE);
        assert(seq![EQ_BYTE].drop_first() =~= Seq::<u8>::empty());
        assert(count_byte(Seq::<u8>::empty(), EQ_BYTE) == 0);
        assert(count_byte(seq![EQ_BYTE], EQ_BYTE) == 1);
        assert(count_byte(ep, EQ_BYTE) == 1);
        if ps.len() > 1 {
            lemma_assignment_count(ps.drop_first());
            lemma_count_byte_concat(ep, seq![SEP_BYTE], EQ_BYTE);
            lemma_count_byte_concat(ep + seq![SEP_BYTE], enc_form(ps.drop_first()), EQ_BYTE);
            assert(seq![SEP_BYTE].drop_first() =~= Seq::<u8>::empty());
            assert(count_byte(seq![SEP_BYTE], EQ_BYTE) == 0);
        }
    }
}

/// The characters spelled by a sequence of ASCII bytes.
pub open spec fn ascii_chars(s: Seq<u8>) -> Seq<char> {
    s.map_values(|b: u8| b as char)
}

/// Spelling bytes as characters distributes over concatenation.
pub proof fn lemma_ascii_chars_concat(a: Seq<u8>, b: Seq<u8>)
    ensures
        ascii_chars(a + b) == ascii_chars(a) + ascii_chars(b),
{
    assert(ascii_chars(a + b) =~= ascii_chars(a) + ascii_chars(b));
}

/// Relies on `String::from_utf8`: ASCII bytes are valid UTF-8 and decode to
/// exactly the characters with the same values.
#[verifier::external_body]
pub fn ascii_to_string(bytes: &[u8]) -> (r: String)
    requires
        forall|i: int| 0 <= i < bytes@.len() ==> bytes@[i] < 128,
    ensures
        r@ == ascii_chars(bytes@),
{
    String::from_utf8(bytes.to_vec()).unwrap_or_default()
}

/// The uppercase hex digit for a nibble.
fn hex_upper(x: u8) -> (r: u8)
    requires
        x < 16,
    ensures
        r == spec_hex_upper(x as nat),
{
    if x < 10 {
        0x30 + x
    } else {
        0x37 + x
    }
}

/// Appends the encoding of `src` to `out`.
pub fn encode_into(src: &[u8], out: &mut Vec<u8>)
    ensures
        final(out)@ == old(out)@ + enc_bytes(src@),
{
    let ghost base = out@;
    let mut i: usize = 0;
    while i < src.len()
        invariant
            i <= src@.len(),
            out@ == base + enc_bytes(src@.take(i as int)),
        decreases src@.len() - i,
    {
        let b = src[i];
        proof {
            assert(src@.take(i + 1).drop_last() =~= src@.take(i as int));
            assert(src@.take(i + 1).last() == b);
            lemma_enc_bytes_snoc(src@.take(i + 1));
        }
        if (0x41 <= b && b <= 0x5a) || (0x61 <= b && b <= 0x7a) || (0x30 <= b && b <= 0x39)
            || b == 0x2d || b == 0x5f || b == 0x2e || b == 0x7e {
            out.push(b);
        } else if b == 0x20 {
            out.push(0x2b);
        } else {
            out.push(0x25);
            out.push(hex_upper(b / 16));
            out.push(hex_upper(b % 16));
        }
        assert(out@ =~= base + enc_bytes(src@.take(i + 1)));
        i += 1;
    }
    assert(src@.take(src@.len() as int) =~= src@);
}

/// Appends one encoded pair to `out`, preceded by a `&` separator exactly
/// when `out` already holds prior content.
pub fn push_pair_bytes(key: &[u8], value: &[u8], out: &mut Vec<u8>)
    ensures
        final(out)@ == old(out)@ + (if old(out)@.len() > 0 {
            seq![SEP_BYTE]
        } else {
            Seq::<u8>::empty()
        }) + enc_pair(key@, value@),
{
    if out.len() > 0 {
        out.push(SEP_BYTE);
    }
    encode_into(key, out);
    out.push(EQ_BYTE);
    encode_into(value, out);
    assert(final(out)@ =~= old(out)@ + (if old(out)@.len() > 0 {
        seq![SEP_BYTE]
    } else {
        Seq::<u8>::empty()
    }) + enc_pair(key@, value@));
}

/// Appends one encoded pair of text key and text value to a growable byte
/// buffer, with a `&` separator exactly when the buffer is not empty.
pub fn push_pair(key: &str, value: &str, out: &mut Vec<u8>)
    ensures
        final(out)@ == old(out)@ + (if old(out)@.len() > 0 {
            seq![SEP_BYTE]
        } else {
            Seq::<u8>::empty()
        }) + enc_pair(key.spec_bytes(), value.spec_bytes()),
{
    push_pair_bytes(key.as_bytes(), value.as_bytes(), out);
}

/// Appends one encoded pair of text key and text value to a text sink, with
/// no separator: the streaming-format counterpart of [`push_pair`], built on
/// the same byte encoder.
pub fn format_pair(key: &str, value: &str, out: &mut String)
    ensures
        final(out)@ == old(out)@ + ascii_chars(enc_pair(key.spec_bytes(), value.spec_bytes())),
{
    let mut tmp: Vec<u8> = Vec::new();
    encode_into(key.as_bytes(), &mut tmp);
    tmp.push(EQ_BYTE);
    encode_into(value.as_bytes(), &mut tmp);
    proof {
        assert(tmp@ =~= enc_pair(key.spec_bytes(), value.spec_bytes()));
        lemma_enc_pair_props(key.spec_bytes(), value.spec_bytes());
    }
    let s = ascii_to_string(tmp.as_slice());
    out.append(s.as_str());
}

} // verus!
