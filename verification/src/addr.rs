//! Address codec: conversion between a 32-byte public key and the textual
//! service address that encodes it.
//!
//! An address is the lowercase, unpadded base-32 encoding of 35 bytes —
//! `[32-byte pubkey][2-byte checksum][1-byte version]` — followed by a fixed
//! `.onion` domain suffix.  The version byte is 3, and the checksum is the
//! first two bytes of a domain-separated SHA3-256 digest over
//! `".onion checksum" || pubkey || version`.

use vstd::prelude::*;
use vstd::slice::slice_subrange;

use crate::push_bytes;
use crate::Pubkey;

verus! {

broadcast use vstd::array::group_array_axioms;

/// Why a textual address was rejected.
#[derive(Clone, Copy, Debug, PartialEq, Eq, Structural)]
pub enum DecodeError {
    /// The label before the first `.` is not valid lowercase unpadded base-32.
    InvalidEncoding,
    /// The label decodes to fewer than 35 bytes.
    InvalidLength,
    /// The version byte (byte 34) is not 3.
    UnsupportedVersion,
    /// The embedded checksum does not match the recomputed one.
    ChecksumMismatch,
}

/// Why a key could not be encoded as an address.
#[derive(Clone, Copy, Debug, PartialEq, Eq, Structural)]
pub enum EncodeError {
    /// The input is not exactly 32 bytes.
    InvalidLength,
}

/// The SHA3-256 digest (32 bytes) of a byte sequence.
pub uninterp spec fn sha3_256_of(data: Seq<u8>) -> Seq<u8>;

/// The lowercase, unpadded RFC 4648 base-32 encoding of a byte sequence.
pub uninterp spec fn b32_encode_of(data: Seq<u8>) -> Seq<char>;

/// What decoding a text as lowercase, unpadded RFC 4648 base-32 yields,
/// or `None` when the text is not such an encoding.
pub uninterp spec fn b32_decode_of(text: Seq<char>) -> Option<Seq<u8>>;

/// A character of the lowercase RFC 4648 base-32 alphabet (`a`-`z`, `2`-`7`).
pub open spec fn is_b32_lower_char(c: char) -> bool {
    ('a' <= c && c <= 'z') || ('2' <= c && c <= '7')
}

/// The domain-separation prefix `".onion checksum"` as bytes.
pub open spec fn checksum_prefix() -> Seq<u8> {
    seq![
        0x2eu8, 0x6fu8, 0x6eu8, 0x69u8, 0x6fu8, 0x6eu8, 0x20u8, 0x63u8,
        0x68u8, 0x65u8, 0x63u8, 0x6bu8, 0x73u8, 0x75u8, 0x6du8,
    ]
}

/// The service address version this codec speaks.
pub open spec fn address_version() -> u8 {
    3u8
}

/// The two checksum bytes for a public key: the first two bytes of the
/// SHA3-256 digest of `".onion checksum" || pk || version`.
pub open spec fn checksum_of(pk: Seq<u8>) -> Seq<u8> {
    sha3_256_of(checksum_prefix() + pk + seq![address_version()]).subrange(0, 2)
}

/// The 35 raw bytes behind an address: `pk || checksum || version`.
pub open spec fn address_bytes(pk: Seq<u8>) -> Seq<u8> {
    pk + checksum_of(pk) + seq![address_version()]
}

/// The fixed domain suffix appended to every encoded address.
pub open spec fn address_suffix() -> Seq<char> {
    seq!['.', 'o', 'n', 'i', 'o', 'n']
}

/// The full textual address for a 32-byte public key.
pub open spec fn spec_encode_address(pk: Seq<u8>) -> Seq<char> {
    b32_encode_of(address_bytes(pk)) + address_suffix()
}

/// The label of an address text: everything before the first `.`,
/// or the whole text when it has no `.`.
pub open spec fn address_label(s: Seq<char>) -> Seq<char>
    decreases s.len(),
{
    if s.len() == 0 {
        s
    } else if s[0] == '.' {
        Seq::empty()
    } else {
        seq![s[0]] + address_label(s.drop_first())
    }
}

/// What decoding an address text yields: the 32-byte key, or the error that
/// the first failing check raises.  The label must decode as base-32, hold at
/// least 35 bytes, carry version 3 at byte 34, and carry at bytes 32..34 the
/// checksum recomputed over its first 32 bytes.
pub open spec fn spec_decode_address(s: Seq<char>) -> Result<Seq<u8>, DecodeError> {
    match b32_decode_of(address_label(s)) {
        Option::None => Result::Err(DecodeError::InvalidEncoding),
        Option::Some(b) => {
            if b.len() < 35 {
                Result::Err(DecodeError::InvalidLength)
            } else if b[34] != address_version() {
                Result::Err(DecodeError::UnsupportedVersion)
            } else if b.subrange(32, 34) != checksum_of(b.subrange(0, 32)) {
                Result::Err(DecodeError::ChecksumMismatch)
            } else {
                Result::Ok(b.subrange(0, 32))
            }
        },
    }
}

/// Relies on `sha3::Sha3_256` (via `digest::Digest::digest`): the digest is a
/// function of the input bytes alone and is exactly 32 bytes long.
#[verifier::external_body]
fn sha3_256(data: &[u8]) -> (r: Vec<u8>)
    ensures
        r@ == sha3_256_of(data@),
        r@.len() == 32,
{
    <sha3::Sha3_256 as sha3::Digest>::digest(data).to_vec()
}

/// Relies on `base32::encode` with `Alphabet::Rfc4648Lower { padding: false }`:
/// the result is a function of the input alone and holds one character of the
/// lowercase RFC 4648 alphabet per 5 input bits (rounded up).  `base32::decode`
/// with the same alphabet inverts it: the decode table is the encode
/// alphabet's inverse, and the unpadded output length `floor(5c/8)` undoes
/// the encoder's `ceil(8n/5)`.
#[verifier::external_body]
fn b32_encode(data: &[u8]) -> (r: String)
    ensures
        r@ == b32_encode_of(data@),
        r@.len() == (data@.len() * 8 + 4) / 5,
        forall|i: int| 0 <= i < r@.len() ==> is_b32_lower_char(#[trigger] r@[i]),
        b32_decode_of(r@) == Option::Some(data@),
{
    base32::encode(base32::Alphabet::Rfc4648Lower { padding: false }, data)
}

/// Relies on `base32::decode` with `Alphabet::Rfc4648Lower { padding: false }`:
/// the result is a function of the input text alone; a successful decode of
/// `c` characters yields `floor(5c/8)` bytes (a padding character makes the
/// decode fail, so nothing is stripped first); and when the lengths align
/// bit-exactly — `5c == 8n`, whole 40-bit groups, no slack bits — the encoder
/// maps the bytes back to exactly that text, the decode table being the
/// encode alphabet's inverse.
#[verifier::external_body]
fn b32_decode(s: &str) -> (r: Option<Vec<u8>>)
    ensures
        match r {
            Option::Some(v) => b32_decode_of(s@) == Option::Some(v@) && v@.len() == s@.len() * 5
                / 8 && (s@.len() * 5 == v@.len() * 8 ==> b32_encode_of(v@) == s@),
            Option::None => b32_decode_of(s@) is None,
        },
{
    base32::decode(base32::Alphabet::Rfc4648Lower { padding: false }, s)
}

/// Computes the two checksum bytes for a 32-byte public key.
fn checksum(pk: &[u8]) -> (r: (u8, u8))
    requires
        pk@.len() == 32,
    ensures
        seq![r.0, r.1] == checksum_of(pk@),
{
    let mut preimage: Vec<u8> = vec![
        0x2eu8, 0x6fu8, 0x6eu8, 0x69u8, 0x6fu8, 0x6eu8, 0x20u8, 0x63u8,
        0x68u8, 0x65u8, 0x63u8, 0x6bu8, 0x73u8, 0x75u8, 0x6du8,
    ];
    proof {
        assert(preimage@ =~= checksum_prefix());
    }
    push_bytes(&mut preimage, pk);
    preimage.push(3u8);
    proof {
        assert(preimage@ =~= checksum_prefix() + pk@ + seq![address_version()]);
    }
    let digest = sha3_256(preimage.as_slice());
    let r = (digest[0], digest[1]);
    proof {
        assert(seq![r.0, r.1] =~= checksum_of(pk@));
    }
    r
}

/// Encodes a 32-byte public key as its bare lowercase base-32 label, with no
/// checksum and no domain suffix: the form the wire protocol uses to name a
/// peer in a query, and a renderer to abbreviate one.
pub fn pubkey_to_base32(pubkey: &[u8; 32]) -> (r: String)
    ensures
        r@ == b32_encode_of(pubkey@),
        r@.len() == 52,
        forall|i: int| 0 <= i < r@.len() ==> is_b32_lower_char(#[trigger] r@[i]),
{
    b32_encode(pubkey.as_slice())
}

/// Encodes a public key as a textual service address.
///
/// Fails exactly when the input is not 32 bytes; otherwise the result is the
/// lowercase base-32 encoding of `pk || checksum || version` with the domain
/// suffix appended — a 56-character label and the 6-character suffix, 62
/// characters in all.  Decoding the produced address yields the key back:
/// the codec round-trips on every 32-byte key.
pub fn pubkey_to_onion(pubkey: &[u8]) -> (r: Result<String, EncodeError>)
    ensures
        r is Ok <==> pubkey@.len() == 32,
        r matches Ok(s) ==> s@ == spec_encode_address(pubkey@),
        r matches Ok(s) ==> s@.len() == 62,
        r matches Ok(s) ==> spec_decode_address(s@) == Result::Ok::<Seq<u8>, DecodeError>(
            pubkey@,
        ),
{
    if pubkey.len() != 32 {
        return Result::Err(EncodeError::InvalidLength);
    }
    let (c0, c1) = checksum(pubkey);
    let mut raw: Vec<u8> = Vec::new();
    push_bytes(&mut raw, pubkey);
    raw.push(c0);
    raw.push(c1);
    raw.push(3u8);
    proof {
        assert(raw@ =~= address_bytes(pubkey@));
    }
    let label = b32_encode(raw.as_slice());
    let address = label.concat(".onion");
    proof {
        reveal_strlit(".onion");
        assert(".onion"@ =~= address_suffix());
        assert(address@ == spec_encode_address(pubkey@));
        assert(address@.len() == 62);
        let enc = b32_encode_of(address_bytes(pubkey@));
        assert(address@[enc.len() as int] == '.');
        lemma_address_label_prefix(address@, enc.len() as int);
        assert(address_label(address@) =~= enc);
        assert(raw@.subrange(0, 32) =~= pubkey@);
        assert(raw@.subrange(32, 34) =~= checksum_of(pubkey@));
        assert(spec_decode_address(address@) == Result::Ok::<Seq<u8>, DecodeError>(pubkey@));
    }
    Result::Ok(address)
}

/// When the first `i` characters of `s` are not `.` and the text either ends
/// at `i` or holds a `.` there, the label is exactly those `i` characters.
proof fn lemma_address_label_prefix(s: Seq<char>, i: int)
    requires
        0 <= i <= s.len(),
        forall|j: int| 0 <= j < i ==> s[j] != '.',
        i == s.len() || s[i] == '.',
    ensures
        address_label(s) == s.subrange(0, i),
    decreases i + 1,
{
    if i == 0 {
        if s.len() == 0 {
            assert(address_label(s) =~= s.subrange(0, 0));
        } else {
            assert(s[0] == '.');
            assert(address_label(s) =~= s.subrange(0, 0));
        }
    } else {
        assert(s[0] != '.');
        lemma_address_label_prefix(s.drop_first(), i - 1);
        assert(address_label(s) == seq![s[0]] + s.drop_first().subrange(0, i - 1));
        assert(s.subrange(0, i) =~= seq![s[0]] + s.drop_first().subrange(0, i - 1));
    }
}

/// Each rejection of the decoder, by the first check that fails: a label that
/// decodes to fewer than 35 bytes is `InvalidLength`, a version byte other
/// than 3 is `UnsupportedVersion`, and a stored checksum that differs from
/// the recomputed one is `ChecksumMismatch`.  (A label that is not base-32 at
/// all is `InvalidEncoding`, directly from the decoder's definition.)
pub proof fn lemma_decode_rejections(s: Seq<char>, b: Seq<u8>)
    requires
        b32_decode_of(address_label(s)) == Option::Some(b),
    ensures
        b.len() < 35 ==> spec_decode_address(s) == Result::Err::<Seq<u8>, DecodeError>(
            DecodeError::InvalidLength,
        ),
        b.len() >= 35 && b[34] != address_version() ==> spec_decode_address(s)
            == Result::Err::<Seq<u8>, DecodeError>(DecodeError::UnsupportedVersion),
        b.len() >= 35 && b[34] == address_version() && b.subrange(32, 34) != checksum_of(
            b.subrange(0, 32),
        ) ==> spec_decode_address(s) == Result::Err::<Seq<u8>, DecodeError>(
            DecodeError::ChecksumMismatch,
        ),
{
}

/// Decodes a textual service address into the public key it certifies.
///
/// The suffix from the first `.` on is ignored; the label before it must be
/// lowercase unpadded base-32 over at least 35 bytes, with version byte 3 and
/// a checksum that matches the recomputed one.  Each failing check raises its
/// own error, and on success the first 32 decoded bytes are the key.
///
/// On a canonical address — one whose label is the usual 56 characters, so
/// it decodes to exactly 35 bytes — encoding the recovered key returns that
/// very label with the `.onion` suffix: the codec round-trips in this
/// direction too.
pub fn onion_to_pubkey(onion: &str) -> (r: Result<Pubkey, DecodeError>)
    ensures
        match r {
            Result::Ok(pk) => spec_decode_address(onion@) == Result::Ok::<Seq<u8>, DecodeError>(
                pk@,
            ),
            Result::Err(e) => spec_decode_address(onion@) == Result::Err::<Seq<u8>, DecodeError>(
                e,
            ),
        },
        match r {
            Result::Ok(pk) => address_label(onion@).len() == 56 ==> spec_encode_address(pk@)
                == address_label(onion@) + address_suffix(),
            Result::Err(_) => true,
        },
{
    let n = onion.unicode_len();
    let mut i: usize = 0;
    while i < n && onion.get_char(i) != '.'
        invariant
            0 <= i <= n,
            n == onion@.len(),
            forall|j: int| 0 <= j < i ==> onion@[j] != '.',
        decreases n - i,
    {
        i = i + 1;
    }
    proof {
        lemma_address_label_prefix(onion@, i as int);
    }
    let label = onion.substring_char(0, i);
    let b = match b32_decode(label) {
        Option::Some(b) => b,
        Option::None => {
            return Result::Err(DecodeError::InvalidEncoding);
        },
    };
    if b.len() < 35 {
        return Result::Err(DecodeError::InvalidLength);
    }
    if b[34] != 3 {
        return Result::Err(DecodeError::UnsupportedVersion);
    }
    let (c0, c1) = checksum(slice_subrange(b.as_slice(), 0, 32));
    if b[32] != c0 || b[33] != c1 {
        proof {
            assert(b@.subrange(32, 34) =~= seq![b@[32], b@[33]]);
            assert(b@.subrange(32, 34) != checksum_of(b@.subrange(0, 32)));
        }
        return Result::Err(DecodeError::ChecksumMismatch);
    }
    proof {
        assert(b@.subrange(32, 34) =~= seq![b@[32], b@[33]]);
        assert(b@.subrange(32, 34) =~= checksum_of(b@.subrange(0, 32)));
    }
    let mut pk: [u8; 32] = [0u8; 32];
    let mut j: usize = 0;
    while j < 32
        invariant
            0 <= j <= 32,
            b@.len() >= 35,
            forall|k: int| 0 <= k < j ==> pk@[k] == b@[k],
        decreases 32 - j,
    {
        pk[j] = b[j];
        j = j + 1;
    }
    proof {
        assert(pk@ =~= b@.subrange(0, 32));
        let lab = address_label(onion@);
        if lab.len() == 56 {
            assert(b@.len() == 35);
            assert(address_bytes(pk@) =~= b@);
            assert(b32_encode_of(b@) == lab);
            assert(spec_encode_address(pk@) == lab + address_suffix());
        }
    }
    Result::Ok(Pubkey(pk))
}

} // verus!
