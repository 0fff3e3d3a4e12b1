//! Nibble-level rendering of byte buffers.
//!
//! The patch engine matches patterns against the hexadecimal rendering of a
//! module's bytes: each byte becomes two lowercase hex digits (its high
//! nibble, then its low nibble), so a pattern can wildcard half a byte.
//! This module gives that rendering an exact specification, executable
//! encode/decode functions proved against it, a round-trip lemma, and the
//! normalization applied to pattern and replacement text (spaces dropped,
//! ASCII letters lowercased).

use vstd::prelude::*;

use crate::errors::PatchError;

verus! {

/// The lowercase hex digit for a nibble value.
pub open spec fn hex_char_of_nibble(n: u8) -> u8
    recommends
        n < 16,
{
    if n < 10 {
        (48 + n) as u8
    } else {
        (87 + n) as u8
    }
}

/// The nibble value of a hex digit, accepting both cases; `None` for any
/// byte that is not a hex digit.
pub open spec fn nibble_of_hex_char(c: u8) -> Option<u8> {
    if 48 <= c && c <= 57 {
        Some((c - 48) as u8)
    } else if 97 <= c && c <= 102 {
        Some((c - 87) as u8)
    } else if 65 <= c && c <= 70 {
        Some((c - 55) as u8)
    } else {
        None
    }
}

/// Whether a byte is an ASCII hex digit (either case).
pub open spec fn is_hex_digit(c: u8) -> bool {
    nibble_of_hex_char(c) is Some
}

/// The hex rendering of a byte sequence: two lowercase digits per byte,
/// high nibble first.
pub open spec fn hex_encoding(bytes: Seq<u8>) -> Seq<u8> {
    Seq::new(
        bytes.len() * 2,
        |i: int|
            if i % 2 == 0 {
                hex_char_of_nibble((bytes[i / 2] / 16) as u8)
            } else {
                hex_char_of_nibble((bytes[i / 2] % 16) as u8)
            },
    )
}

/// Whether a character sequence decodes back to bytes: even length, every
/// character a hex digit.
pub open spec fn hex_decoding_ok(chars: Seq<u8>) -> bool {
    &&& chars.len() % 2 == 0
    &&& forall|i: int| 0 <= i < chars.len() ==> is_hex_digit(#[trigger] chars[i])
}

/// The bytes a hex character sequence decodes to.
pub open spec fn hex_decoded(chars: Seq<u8>) -> Seq<u8>
    recommends
        hex_decoding_ok(chars),
{
    Seq::new(
        chars.len() / 2,
        |i: int|
            (16 * nibble_of_hex_char(chars[2 * i]).unwrap() + nibble_of_hex_char(
                chars[2 * i + 1],
            ).unwrap()) as u8,
    )
}

/// A hex digit decodes back to the nibble it encodes.
pub proof fn lemma_nibble_roundtrip(n: u8)
    requires
        n < 16,
    ensures
        nibble_of_hex_char(hex_char_of_nibble(n)) == Some(n),
{
}

/// Encoding is always decodable, and decoding recovers the original bytes:
/// the hex rendering loses nothing.
pub proof fn lemma_hex_roundtrip(bytes: Seq<u8>)
    ensures
        hex_decoding_ok(hex_encoding(bytes)),
        hex_decoded(hex_encoding(bytes)) == bytes,
{
    let enc = hex_encoding(bytes);
    assert forall|i: int| 0 <= i < enc.len() implies is_hex_digit(#[trigger] enc[i]) by {
        let b = bytes[i / 2];
        if i % 2 == 0 {
            lemma_nibble_roundtrip((b / 16) as u8);
        } else {
            lemma_nibble_roundtrip((b % 16) as u8);
        }
    }
    assert forall|i: int| 0 <= i < bytes.len() implies hex_decoded(enc)[i] == bytes[i] by {
        let b = bytes[i];
        lemma_nibble_roundtrip((b / 16) as u8);
        lemma_nibble_roundtrip((b % 16) as u8);
        assert((2 * i) / 2 == i);
        assert((2 * i + 1) / 2 == i);
        assert(16 * (b / 16) + b % 16 == b);
    }
    assert(hex_decoded(enc) =~= bytes);
}

/// The hex digit for a nibble value.
fn hex_char(n: u8) -> (c: u8)
    requires
        n < 16,
    ensures
        c == hex_char_of_nibble(n),
{
    if n < 10 {
        48 + n
    } else {
        87 + n
    }
}

/// The nibble value of a hex digit, or `None` for any other byte.
fn nibble_of(c: u8) -> (r: Option<u8>)
    ensures
        r == nibble_of_hex_char(c),
{
    if 48 <= c && c <= 57 {
        Some(c - 48)
    } else if 97 <= c && c <= 102 {
        Some(c - 87)
    } else if 65 <= c && c <= 70 {
        Some(c - 55)
    } else {
        None
    }
}

/// Renders bytes as lowercase hex, two digits per byte.
pub fn encode_hex(bytes: &[u8]) -> (r: Vec<u8>)
    ensures
        r@ == hex_encoding(bytes@),
{
    let mut out: Vec<u8> = Vec::new();
    let mut i: usize = 0;
    while i < bytes.len()
        invariant
            i <= bytes@.len(),
            out@.len() == 2 * i,
            forall|j: int| 0 <= j < out@.len() ==> out@[j] == hex_encoding(bytes@)[j],
        decreases bytes@.len() - i,
    {
        let b = bytes[i];
        out.push(hex_char(b / 16));
        out.push(hex_char(b % 16));
        i = i + 1;
    }
    proof {
        assert(out@ =~= hex_encoding(bytes@));
    }
    out
}

/// Decodes a hex character buffer back to bytes; fails with
/// `CorruptPatchResult` exactly when the buffer has odd length or holds a
/// byte that is not a hex digit.
pub fn decode_hex(chars: &[u8]) -> (r: Result<Vec<u8>, PatchError>)
    ensures
        r is Ok <==> hex_decoding_ok(chars@),
        r matches Ok(v) ==> v@ == hex_decoded(chars@),
        r matches Err(e) ==> e == PatchError::CorruptPatchResult,
{
    if chars.len() % 2 != 0 {
        return Err(PatchError::CorruptPatchResult);
    }
    let mut out: Vec<u8> = Vec::new();
    let mut i: usize = 0;
    while i < chars.len()
        invariant
            chars@.len() % 2 == 0,
            i % 2 == 0,
            i <= chars@.len(),
            forall|j: int| 0 <= j < i ==> is_hex_digit(#[trigger] chars@[j]),
            out@.len() == i / 2,
            forall|j: int| 0 <= j < out@.len() ==> out@[j] == hex_decoded(chars@)[j],
        decreases chars@.len() - i,
    {
        let hi = match nibble_of(chars[i]) {
            Some(v) => v,
            None => {
                return Err(PatchError::CorruptPatchResult);
            },
        };
        let lo = match nibble_of(chars[i + 1]) {
            Some(v) => v,
            None => {
                return Err(PatchError::CorruptPatchResult);
            },
        };
        out.push(16 * hi + lo);
        i = i + 2;
    }
    proof {
        assert(out@ =~= hex_decoded(chars@));
    }
    Ok(out)
}

/// An ASCII uppercase letter lowered; every other byte unchanged.
pub open spec fn lower_byte(c: u8) -> u8 {
    if 65 <= c && c <= 90 {
        (c + 32) as u8
    } else {
        c
    }
}

/// Pattern and replacement text with every space dropped and every ASCII
/// letter lowercased, in order.
pub open spec fn normalized_hex_text(s: Seq<u8>) -> Seq<u8>
    decreases s.len(),
{
    if s.len() == 0 {
        Seq::empty()
    } else {
        let rest = normalized_hex_text(s.drop_last());
        if s.last() == 32 {
            rest
        } else {
            rest.push(lower_byte(s.last()))
        }
    }
}

/// Normalizes pattern or replacement text: drops spaces, lowercases ASCII
/// letters, keeps everything else as it stands.
pub fn normalize_hex_text(s: &[u8]) -> (r: Vec<u8>)
    ensures
        r@ == normalized_hex_text(s@),
{
    let mut out: Vec<u8> = Vec::new();
    let mut i: usize = 0;
    while i < s.len()
        invariant
            i <= s@.len(),
            out@ == normalized_hex_text(s@.subrange(0, i as int)),
        decreases s@.len() - i,
    {
        let c = s[i];
        proof {
            assert(s@.subrange(0, i as int + 1).drop_last() =~= s@.subrange(0, i as int));
            assert(s@.subrange(0, i as int + 1).last() == s@[i as int]);
        }
        if c != 32 {
            if 65 <= c && c <= 90 {
                out.push(c + 32);
            } else {
                out.push(c);
            }
        }
        i = i + 1;
    }
    proof {
        assert(s@.subrange(0, s@.len() as int) =~= s@);
    }
    out
}

} // verus!
