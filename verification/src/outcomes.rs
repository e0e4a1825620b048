//! What each outcome of decoding a header sector says of the sector's bytes.
//!
//! Each condition here is stated on the raw bytes of the sector: which magic numbers are
//! accepted, which version bytes are readable, which cipher codes are known, and which stored
//! copies are the byte-wise negations of their fields. The checks come in the order of the
//! fields: a failed check gives its error only when every earlier one passed.
use crate::header::{
    address_field, cipher_field, decodes_to, header_check, holds_header, spec_cipher_from_code,
    spec_magic_from_bytes, spec_state_flag_from_code, version_compatible, version_field, Cipher,
    DiskHeader, MagicNumber, ParseError, StateFlag, HEADER_BYTES_READ, VERSION_NUMBER,
};
use crate::le::{from_le16, from_le32, from_le64, le64, lemma_le16, lemma_le32, lemma_le64, negated};
use vstd::prelude::*;

verus! {

/// `"TFS fmt "`, the magic number of images with total TFS compatibility.
pub open spec fn total_magic_literal() -> Seq<u8> {
    seq![0x54u8, 0x46u8, 0x53u8, 0x20u8, 0x66u8, 0x6du8, 0x74u8, 0x20u8]
}

/// `"TFS fmt~"`, the magic number of images with partial TFS compatibility.
pub open spec fn partial_magic_literal() -> Seq<u8> {
    seq![0x54u8, 0x46u8, 0x53u8, 0x20u8, 0x66u8, 0x6du8, 0x74u8, 0x7eu8]
}

/// The sector starts with one of the two magic numbers.
pub open spec fn has_tfs_magic(b: Seq<u8>) -> bool {
    b.subrange(0, 8) == total_magic_literal() || b.subrange(0, 8) == partial_magic_literal()
}

/// The version bytes hold version 0, the only version this implementation reads.
pub open spec fn has_current_version(b: Seq<u8>) -> bool {
    b.subrange(8, 12) == seq![0u8, 0u8, 0u8, 0u8]
}

/// Bytes `copy..copy + (hi - lo)` are the byte-wise negation of bytes `lo..hi`.
pub open spec fn copy_is_negation(b: Seq<u8>, lo: int, hi: int, copy: int) -> bool {
    b.subrange(copy, copy + (hi - lo)) == negated(b.subrange(lo, hi))
}

/// The cipher code is 0 (no encryption) or 1 (SPECK), little endian.
pub open spec fn has_known_cipher(b: Seq<u8>) -> bool {
    b[65] == 0 && (b[64] == 0 || b[64] == 1)
}

/// Magic number and version pass.
pub open spec fn passes_version(b: Seq<u8>) -> bool {
    has_tfs_magic(b) && has_current_version(b) && copy_is_negation(b, 8, 12, 12)
}

/// Everything up to the cipher option passes.
pub open spec fn passes_cipher(b: Seq<u8>) -> bool {
    passes_version(b) && has_known_cipher(b) && copy_is_negation(b, 64, 66, 66)
}

/// Everything up to the state block address passes.
pub open spec fn passes_address(b: Seq<u8>) -> bool {
    passes_cipher(b) && copy_is_negation(b, 68, 84, 84) && copy_is_negation(b, 128, 136, 136)
}

/// Four little-endian bytes stand for 0 exactly when all are 0; two bytes stand for 0, 1, or a
/// code from `1 << 15` up exactly as their bytes say.
proof fn lemma_small_values(a: u8, b: u8, c: u8, d: u8)
    ensures
        ((a as u32) | ((b as u32) << 8u32) | ((c as u32) << 16u32) | ((d as u32) << 24u32) == 0)
            == (a == 0 && b == 0 && c == 0 && d == 0),
        (((a as u16) | ((b as u16) << 8u16)) == 0) == (a == 0 && b == 0),
        (((a as u16) | ((b as u16) << 8u16)) == 1) == (a == 1 && b == 0),
        (((a as u16) | ((b as u16) << 8u16)) >= 0x8000) == (b >= 0x80),
{
    assert(((a as u32) | ((b as u32) << 8u32) | ((c as u32) << 16u32) | ((d as u32) << 24u32)
        == 0) == (a == 0 && b == 0 && c == 0 && d == 0)) by (bit_vector);
    assert((((a as u16) | ((b as u16) << 8u16)) == 0) == (a == 0 && b == 0)) by (bit_vector);
    assert((((a as u16) | ((b as u16) << 8u16)) == 1) == (a == 1 && b == 0)) by (bit_vector);
    assert((((a as u16) | ((b as u16) << 8u16)) >= 0x8000) == (b >= 0x80)) by (bit_vector);
}

/// Two little-endian fields `x` and `y`, read from `sx` and `sy`, satisfy `x == !y` exactly when
/// `sy` is the byte-wise negation of `sx`.
proof fn lemma_negated_copy(sx: Seq<u8>, sy: Seq<u8>)
    ensures
        sx.len() == 4 && sy.len() == 4 ==> (from_le32(sx) == !from_le32(sy)) == (sy == negated(
            sx,
        )),
        sx.len() == 2 && sy.len() == 2 ==> (from_le16(sx) == !from_le16(sy)) == (sy == negated(
            sx,
        )),
        sx.len() == 8 && sy.len() == 8 ==> (from_le64(sx) == !from_le64(sy)) == (sy == negated(
            sx,
        )),
{
    if sx.len() == 4 && sy.len() == 4 {
        let x = from_le32(sx);
        let y = from_le32(sy);
        lemma_le32(x, sx);
        lemma_le32(y, sy);
        lemma_le32(!x, seq![]);
        assert((x == !y) == (!x == y)) by (bit_vector);
    }
    if sx.len() == 2 && sy.len() == 2 {
        let x = from_le16(sx);
        let y = from_le16(sy);
        lemma_le16(x, sx);
        lemma_le16(y, sy);
        lemma_le16(!x, seq![]);
        assert((x == !y) == (!x == y)) by (bit_vector);
    }
    if sx.len() == 8 && sy.len() == 8 {
        let x = from_le64(sx);
        let y = from_le64(sy);
        lemma_le64(x, sx);
        lemma_le64(y, sy);
        lemma_le64(!x, seq![]);
        assert((x == !y) == (!x == y)) by (bit_vector);
    }
}

/// Each check that decoding makes, stated on the sector's bytes.
pub proof fn lemma_checks_on_bytes(b: Seq<u8>)
    requires
        b.len() >= HEADER_BYTES_READ,
    ensures
        (spec_magic_from_bytes(b.subrange(0, 8)) is Err) == !has_tfs_magic(b),
        spec_magic_from_bytes(b.subrange(0, 8)) == Ok::<MagicNumber, ParseError>(
            MagicNumber::TotalCompatibility,
        ) <==> b.subrange(0, 8) == total_magic_literal(),
        spec_magic_from_bytes(b.subrange(0, 8)) == Ok::<MagicNumber, ParseError>(
            MagicNumber::PartialCompatibility,
        ) <==> b.subrange(0, 8) == partial_magic_literal(),
        version_compatible(version_field(b)) == has_current_version(b),
        (version_field(b) == !from_le32(b.subrange(12, 16))) == copy_is_negation(b, 8, 12, 12),
        spec_cipher_from_code(cipher_field(b)) == Ok::<Cipher, ParseError>(Cipher::Identity) <==> (
        b[64] == 0 && b[65] == 0),
        spec_cipher_from_code(cipher_field(b)) == Ok::<Cipher, ParseError>(Cipher::Speck128) <==> (
        b[64] == 1 && b[65] == 0),
        spec_cipher_from_code(cipher_field(b)) == Err::<Cipher, ParseError>(
            ParseError::UnknownCipher,
        ) <==> b[65] >= 0x80,
        spec_cipher_from_code(cipher_field(b)) == Err::<Cipher, ParseError>(
            ParseError::InvalidCipher,
        ) <==> (b[65] < 0x80 && !has_known_cipher(b)),
        (cipher_field(b) == !from_le16(b.subrange(66, 68))) == copy_is_negation(b, 64, 66, 66),
        (address_field(b) == !from_le64(b.subrange(136, 144))) == copy_is_negation(
            b,
            128,
            136,
            136,
        ),
        (spec_state_flag_from_code(b[144]) is Err) == (b[144] > 2),
        (b[144] == !b[145]) == (b[145] == !b[144]),
{
    let v = b.subrange(8, 12);
    let c = b.subrange(64, 66);
    lemma_small_values(v[0], v[1], v[2], v[3]);
    lemma_small_values(c[0], c[1], 0, 0);
    assert(v =~= seq![v[0], v[1], v[2], v[3]]);
    lemma_negated_copy(b.subrange(8, 12), b.subrange(12, 16));
    lemma_negated_copy(b.subrange(64, 66), b.subrange(66, 68));
    lemma_negated_copy(b.subrange(128, 136), b.subrange(136, 144));
    assert(b.subrange(12, 16) == b.subrange(12, 12 + (12 - 8)));
    let f = b[144];
    let g = b[145];
    assert((f == !g) == (g == !f)) by (bit_vector);
    assert(VERSION_NUMBER == 0);
}

/// What each outcome of decoding says of the sector: a sector without a magic number is of an
/// unknown format whatever else it holds; a version other than the current one is incompatible,
/// whatever its copy; and so on field by field, each check giving its error only when all earlier
/// ones passed. A sector passing every check decodes.
pub proof fn lemma_decode_outcomes(b: Seq<u8>, r: Result<DiskHeader, ParseError>)
    requires
        b.len() >= HEADER_BYTES_READ,
        decodes_to(b, r),
    ensures
        (r == Err::<DiskHeader, ParseError>(ParseError::UnknownFormat)) == !has_tfs_magic(b),
        (r == Err::<DiskHeader, ParseError>(ParseError::IncompatibleVersion)) == (has_tfs_magic(b)
            && !has_current_version(b)),
        (r == Err::<DiskHeader, ParseError>(ParseError::CorruptVersionNumber)) == (has_tfs_magic(b)
            && has_current_version(b) && !copy_is_negation(b, 8, 12, 12)),
        (r == Err::<DiskHeader, ParseError>(ParseError::UnknownCipher)) == (passes_version(b)
            && b[65] >= 0x80),
        (r == Err::<DiskHeader, ParseError>(ParseError::InvalidCipher)) == (passes_version(b)
            && b[65] < 0x80 && !has_known_cipher(b)),
        (r == Err::<DiskHeader, ParseError>(ParseError::CorruptCipher)) == (passes_version(b)
            && has_known_cipher(b) && !copy_is_negation(b, 64, 66, 66)),
        (r == Err::<DiskHeader, ParseError>(ParseError::CorruptEncryptionParameters)) == (
        passes_cipher(b) && !copy_is_negation(b, 68, 84, 84)),
        (r == Err::<DiskHeader, ParseError>(ParseError::CorruptStateBlockAddress)) == (
        passes_cipher(b) && copy_is_negation(b, 68, 84, 84) && !copy_is_negation(b, 128, 136, 136)),
        (r == Err::<DiskHeader, ParseError>(ParseError::UnknownStateFlag)) == (passes_address(b)
            && b[144] > 2),
        (r == Err::<DiskHeader, ParseError>(ParseError::CorruptStateFlag)) == (passes_address(b)
            && b[144] <= 2 && b[145] != !b[144]),
        (r is Ok) == (passes_address(b) && b[144] <= 2 && b[145] == !b[144]),
{
    lemma_checks_on_bytes(b);
    assert(b.subrange(84, 100) == b.subrange(84, 84 + (84 - 68)));
}

/// The header that an accepted sector decodes to, field by field from the sector's bytes.
pub proof fn lemma_decoded_fields(b: Seq<u8>, h: DiskHeader)
    requires
        b.len() >= HEADER_BYTES_READ,
        decodes_to(b, Ok::<DiskHeader, ParseError>(h)),
    ensures
        h.magic_number == (if b[7] == 0x7e {
            MagicNumber::PartialCompatibility
        } else {
            MagicNumber::TotalCompatibility
        }),
        h.version_number == VERSION_NUMBER,
        h.cipher == (if b[64] == 1 {
            Cipher::Speck128
        } else {
            Cipher::Identity
        }),
        h.encryption_parameters@ == b.subrange(68, 84),
        le64(h.state_block_address) == b.subrange(128, 136),
        h.consistency_flag == (if b[144] == 0 {
            StateFlag::Closed
        } else if b[144] == 1 {
            StateFlag::Open
        } else {
            StateFlag::Inconsistent
        }),
{
    lemma_checks_on_bytes(b);
    lemma_le64(h.state_block_address, b.subrange(128, 136));
    assert(b.subrange(0, 8)[7] == b[7]);
    assert(holds_header(b, h));
    assert(header_check(b) is Ok);
}

} // verus!
