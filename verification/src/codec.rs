//! Byte-path codec: a reversible encoding between raw path byte
//! sequences and printable text.
//!
//! Native deletion services operate on text-typed parameters, but
//! filesystem paths are untyped byte sequences. The codec passes safe
//! printable ASCII through unchanged and represents every other byte —
//! the escape marker itself included — as a fixed-width token: the
//! marker followed by two upper-case hexadecimal digits of the byte
//! value. Decoding reverses this exactly; a malformed or truncated
//! token is a hard error, never a best-effort substitution. The codec
//! never consults whether its input is valid text: it works on byte
//! values alone.

use vstd::prelude::*;

use crate::error::{EncodingError, Error};

verus! {

/// The escape marker: an ASCII percent sign.
pub const MARKER: u8 = 0x25;

/// A byte the codec passes through unchanged: printable ASCII that is
/// not the escape marker.
pub open spec fn is_passthrough(b: u8) -> bool {
    0x20 <= b <= 0x7e && b != MARKER
}

/// The upper-case hexadecimal digit for a value below sixteen.
pub open spec fn hex_digit(v: u8) -> u8
    recommends
        v < 16,
{
    if v < 10 {
        (0x30 + v) as u8
    } else {
        (0x41 + (v - 10)) as u8
    }
}

/// The token that encodes one byte: the byte itself when it may pass
/// through, the marker plus two hexadecimal digits otherwise.
pub open spec fn encode_byte(b: u8) -> Seq<u8> {
    if is_passthrough(b) {
        seq![b]
    } else {
        seq![MARKER, hex_digit(b / 16), hex_digit(b % 16)]
    }
}

/// The text encoding of a whole byte sequence.
pub open spec fn spec_encode(s: Seq<u8>) -> Seq<u8>
    decreases s.len(),
{
    if s.len() == 0 {
        Seq::empty()
    } else {
        encode_byte(s[0]) + spec_encode(s.skip(1))
    }
}

/// A byte the decoder accepts as a hexadecimal digit (either case).
pub open spec fn is_hex_digit(b: u8) -> bool {
    (0x30 <= b <= 0x39) || (0x41 <= b <= 0x46) || (0x61 <= b <= 0x66)
}

/// The numeric value of a hexadecimal digit byte.
pub open spec fn hex_value(b: u8) -> u8
    recommends
        is_hex_digit(b),
{
    if 0x30 <= b <= 0x39 {
        (b - 0x30) as u8
    } else if 0x41 <= b <= 0x46 {
        (b - 0x41 + 10) as u8
    } else {
        (b - 0x61 + 10) as u8
    }
}

/// The byte encoded by one marker token's two digits.
pub open spec fn token_byte(hi: u8, lo: u8) -> u8
    recommends
        is_hex_digit(hi),
        is_hex_digit(lo),
{
    (hex_value(hi) * 16 + hex_value(lo)) as u8
}

/// What decoding an encoded literal yields: `None` exactly when some
/// marker is not followed by two hexadecimal digits.
pub open spec fn spec_decode(s: Seq<u8>) -> Option<Seq<u8>>
    decreases s.len(),
{
    if s.len() == 0 {
        Some(Seq::empty())
    } else if s[0] == MARKER {
        if s.len() >= 3 && is_hex_digit(s[1]) && is_hex_digit(s[2]) {
            match spec_decode(s.skip(3)) {
                Some(rest) => Some(seq![token_byte(s[1], s[2])] + rest),
                None => None,
            }
        } else {
            None
        }
    } else {
        match spec_decode(s.skip(1)) {
            Some(rest) => Some(seq![s[0]] + rest),
            None => None,
        }
    }
}

/// Every byte of `s` is printable ASCII.
pub open spec fn all_printable(s: Seq<u8>) -> bool {
    forall|i: int| 0 <= i < s.len() ==> 0x20 <= #[trigger] s[i] <= 0x7e
}

/// Printable text stays printable under concatenation.
pub(crate) proof fn lemma_printable_append(a: Seq<u8>, b: Seq<u8>)
    requires
        all_printable(a),
        all_printable(b),
    ensures
        all_printable(a + b),
{
    assert forall|i: int| 0 <= i < (a + b).len() implies 0x20 <= #[trigger] (a + b)[i]
        <= 0x7e by {
        if i < a.len() {
            assert((a + b)[i] == a[i]);
        } else {
            assert((a + b)[i] == b[i - a.len()]);
        }
    }
}

/// Splitting the input anywhere splits the encoding accordingly.
proof fn lemma_encode_append(a: Seq<u8>, b: Seq<u8>)
    ensures
        spec_encode(a + b) == spec_encode(a) + spec_encode(b),
    decreases a.len(),
{
    if a.len() == 0 {
        assert(a + b =~= b);
        assert(spec_encode(a) + spec_encode(b) =~= spec_encode(b));
    } else {
        assert((a + b).skip(1) =~= a.skip(1) + b);
        lemma_encode_append(a.skip(1), b);
        assert(encode_byte(a[0]) + (spec_encode(a.skip(1)) + spec_encode(b)) =~= (encode_byte(a[0])
            + spec_encode(a.skip(1))) + spec_encode(b));
    }
}

/// Extending the input by one byte appends that byte's token.
proof fn lemma_encode_snoc(s: Seq<u8>, i: int)
    requires
        0 <= i < s.len(),
    ensures
        spec_encode(s.take(i + 1)) == spec_encode(s.take(i)) + encode_byte(s[i]),
{
    assert(s.take(i + 1) =~= s.take(i) + seq![s[i]]);
    lemma_encode_append(s.take(i), seq![s[i]]);
    assert(seq![s[i]].skip(1) =~= Seq::<u8>::empty());
    assert(spec_encode(Seq::<u8>::empty()) =~= Seq::<u8>::empty());
    assert(spec_encode(seq![s[i]]) =~= encode_byte(s[i]) + spec_encode(seq![s[i]].skip(1)));
    assert(encode_byte(s[i]) + Seq::<u8>::empty() =~= encode_byte(s[i]));
}

/// Encodes a path's bytes as printable text.
pub fn percent_encode(input: &Vec<u8>) -> (r: Vec<u8>)
    ensures
        r@ == spec_encode(input@),
{
    let mut out: Vec<u8> = Vec::new();
    let mut i: usize = 0;
    proof {
        assert(input@.take(0) =~= Seq::<u8>::empty());
    }
    while i < input.len()
        invariant
            i <= input@.len(),
            out@ == spec_encode(input@.take(i as int)),
        decreases input@.len() - i,
    {
        let b = input[i];
        proof {
            lemma_encode_snoc(input@, i as int);
        }
        if 0x20 <= b && b <= 0x7e && b != MARKER {
            out.push(b);
        } else {
            out.push(MARKER);
            out.push(to_hex_digit(b / 16));
            out.push(to_hex_digit(b % 16));
        }
        i = i + 1;
    }
    proof {
        assert(input@.take(input@.len() as int) =~= input@);
    }
    out
}

/// The upper-case hexadecimal digit for a value below sixteen.
fn to_hex_digit(v: u8) -> (r: u8)
    requires
        v < 16,
    ensures
        r == hex_digit(v),
{
    if v < 10 {
        0x30 + v
    } else {
        0x41 + (v - 10)
    }
}

/// Whether the decoder accepts this byte as a hexadecimal digit.
fn is_hex_digit_byte(b: u8) -> (r: bool)
    ensures
        r == is_hex_digit(b),
{
    (0x30 <= b && b <= 0x39) || (0x41 <= b && b <= 0x46) || (0x61 <= b && b <= 0x66)
}

/// The numeric value of a hexadecimal digit byte.
fn hex_digit_value(b: u8) -> (r: u8)
    requires
        is_hex_digit(b),
    ensures
        r == hex_value(b),
        r < 16,
{
    if 0x30 <= b && b <= 0x39 {
        b - 0x30
    } else if 0x41 <= b && b <= 0x46 {
        b - 0x41 + 10
    } else {
        b - 0x61 + 10
    }
}

/// Decodes an encoded literal back to the exact original bytes.
///
/// Returns the malformed-token error exactly when some marker in the
/// input is not followed by two hexadecimal digits.
pub fn percent_decode(input: &Vec<u8>) -> (r: Result<Vec<u8>, EncodingError>)
    ensures
        match r {
            Ok(out) => spec_decode(input@) == Some(out@),
            Err(e) => spec_decode(input@) is None && e == EncodingError::MalformedToken,
        },
{
    let mut out: Vec<u8> = Vec::new();
    let mut i: usize = 0;
    proof {
        assert(input@.skip(0) =~= input@);
        if spec_decode(input@) is Some {
            assert(out@ + spec_decode(input@).unwrap() =~= spec_decode(input@).unwrap());
        }
    }
    while i < input.len()
        invariant
            i <= input@.len(),
            match spec_decode(input@.skip(i as int)) {
                Some(tail) => spec_decode(input@) == Some(out@ + tail),
                None => spec_decode(input@) is None,
            },
        decreases input@.len() - i,
    {
        let ghost suffix = input@.skip(i as int);
        let b = input[i];
        assert(suffix[0] == b);
        if b == MARKER {
            if input.len() - i >= 3 && is_hex_digit_byte(input[i + 1]) && is_hex_digit_byte(
                input[i + 2],
            ) {
                assert(suffix[1] == input@[i + 1] && suffix[2] == input@[i + 2]);
                let hi = hex_digit_value(input[i + 1]);
                let lo = hex_digit_value(input[i + 2]);
                let decoded: u8 = hi * 16 + lo;
                proof {
                    assert(suffix.skip(3) =~= input@.skip(i + 3));
                    assert(decoded == token_byte(suffix[1], suffix[2]));
                    if spec_decode(suffix.skip(3)) is Some {
                        let tail3 = spec_decode(suffix.skip(3)).unwrap();
                        assert(spec_decode(suffix) == Some(seq![decoded] + tail3));
                        assert(out@ + (seq![decoded] + tail3) =~= (out@ + seq![decoded]) + tail3);
                    }
                }
                out.push(decoded);
                i = i + 3;
            } else {
                proof {
                    assert(spec_decode(suffix) is None);
                }
                return Err(EncodingError::MalformedToken);
            }
        } else {
            proof {
                assert(suffix.skip(1) =~= input@.skip(i + 1));
                if spec_decode(suffix.skip(1)) is Some {
                    let tail1 = spec_decode(suffix.skip(1)).unwrap();
                    assert(spec_decode(suffix) == Some(seq![b] + tail1));
                    assert(out@ + (seq![b] + tail1) =~= (out@ + seq![b]) + tail1);
                }
            }
            out.push(b);
            i = i + 1;
        }
    }
    proof {
        assert(input@.skip(input@.len() as int) =~= Seq::<u8>::empty());
        assert(out@ + Seq::<u8>::empty() =~= out@);
    }
    Ok(out)
}

/// The text form of each path in a batch, in order.
pub open spec fn spec_encoded_texts(ps: Seq<Seq<u8>>) -> Seq<Seq<u8>> {
    Seq::new(ps.len(), |i: int| spec_encode(ps[i]))
}

/// Converts a whole batch of paths to their text forms, in order. An
/// empty path cannot be represented as the text a strategy requires:
/// the first one found is rejected with a conversion error before any
/// other work happens.
pub fn encode_batch(paths: &Vec<Vec<u8>>) -> (r: Result<Vec<Vec<u8>>, Error>)
    ensures
        r is Ok <==> (forall|i: int|
            0 <= i < paths.deep_view().len() ==> (#[trigger] paths.deep_view()[i]).len() > 0),
        r matches Ok(texts) ==> texts.deep_view() == spec_encoded_texts(paths.deep_view()),
        r matches Err(e) ==> (exists|k: int|
            {
                &&& 0 <= k < paths.deep_view().len()
                &&& (#[trigger] paths.deep_view()[k]).len() == 0
                &&& (e matches Error::Conversion { path } && path@ == paths.deep_view()[k])
                &&& forall|j: int| 0 <= j < k ==> paths.deep_view()[j].len() > 0
            }),
{
    let ghost ps = paths.deep_view();
    let mut texts: Vec<Vec<u8>> = Vec::new();
    let mut i: usize = 0;
    while i < paths.len()
        invariant
            i <= ps.len(),
            ps == paths.deep_view(),
            ps.len() == paths@.len(),
            texts@.len() == i,
            forall|j: int| 0 <= j < i ==> (#[trigger] ps[j]).len() > 0,
            forall|j: int| 0 <= j < i ==> #[trigger] texts.deep_view()[j] == spec_encode(ps[j]),
        decreases ps.len() - i,
    {
        assert(paths[i as int]@ == ps[i as int]);
        if paths[i].len() == 0 {
            let e = Error::Conversion { path: Vec::new() };
            proof {
                assert(Seq::<u8>::empty() =~= ps[i as int]);
            }
            return Err(e);
        }
        let t = percent_encode(&paths[i]);
        let ghost old_texts = texts;
        texts.push(t);
        proof {
            assert(texts@[i as int].deep_view() =~= texts@[i as int]@);
            assert(forall|j: int|
                0 <= j < i ==> #[trigger] texts.deep_view()[j] == old_texts.deep_view()[j]);
        }
        i = i + 1;
    }
    proof {
        assert(texts.deep_view() =~= spec_encoded_texts(ps));
    }
    Ok(texts)
}

/// A hexadecimal digit the encoder emits decodes back to its value.
proof fn lemma_hex_digit_round_trip(v: u8)
    requires
        v < 16,
    ensures
        is_hex_digit(hex_digit(v)),
        hex_value(hex_digit(v)) == v,
{
}

/// Decoding inverts encoding exactly, for every byte sequence —
/// including sequences with no valid interpretation as text.
pub proof fn lemma_decode_encode(s: Seq<u8>)
    ensures
        spec_decode(spec_encode(s)) == Some(s),
    decreases s.len(),
{
    if s.len() == 0 {
        assert(spec_encode(s) =~= Seq::<u8>::empty());
    } else {
        let b = s[0];
        let e = spec_encode(s);
        lemma_decode_encode(s.skip(1));
        if is_passthrough(b) {
            assert(e[0] == b && b != MARKER);
            assert(e.skip(1) =~= spec_encode(s.skip(1)));
            assert(seq![b] + s.skip(1) =~= s);
        } else {
            lemma_hex_digit_round_trip(b / 16);
            lemma_hex_digit_round_trip(b % 16);
            assert(e[0] == MARKER && e[1] == hex_digit(b / 16) && e[2] == hex_digit(b % 16));
            assert(e.skip(3) =~= spec_encode(s.skip(1)));
            assert(token_byte(e[1], e[2]) == b);
            assert(seq![b] + s.skip(1) =~= s);
        }
    }
}

/// Encoding is injective: distinct byte sequences have distinct
/// encodings.
pub proof fn lemma_encode_injective(b1: Seq<u8>, b2: Seq<u8>)
    requires
        b1 != b2,
    ensures
        spec_encode(b1) != spec_encode(b2),
{
    lemma_decode_encode(b1);
    lemma_decode_encode(b2);
}

/// Everything the encoder emits is printable ASCII, whatever the
/// input bytes were.
pub proof fn lemma_encode_printable(s: Seq<u8>)
    ensures
        all_printable(spec_encode(s)),
    decreases s.len(),
{
    if s.len() > 0 {
        lemma_encode_printable(s.skip(1));
        assert(forall|i: int|
            0 <= i < encode_byte(s[0]).len() ==> 0x20 <= #[trigger] encode_byte(s[0])[i] <= 0x7e);
    }
}

} // verus!

