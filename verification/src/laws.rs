//! Laws of the header format: what decoding gives back of an encoded header, what an accepted
//! sector says of its bytes, and which corruptions are caught.
use crate::driver::{
    spec_closed, spec_inner_sector, spec_open_sector, spec_opened, spec_visible_sectors, OpenError,
    HEADER_SECTORS,
};
use crate::header::{
    cipher_code, decodes_to, header_check, holds_header, is_default_header,
    lemma_holds_header_unique, magic_bytes, partial_compatibility_magic, spec_cipher_from_code,
    spec_encode, spec_magic_from_bytes, spec_state_flag_from_code, state_flag_code,
    total_compatibility_magic, version_compatible, zeros, Cipher, DiskHeader, MagicNumber,
    ParseError, StateFlag, HEADER_BYTES_READ, SECTOR_SIZE, VERSION_NUMBER,
};
use crate::outcomes::{partial_magic_literal, total_magic_literal};
use crate::le::{
    from_le16, from_le32, from_le64, le16, le32, le64, lemma_le16, lemma_le32, lemma_le64, negated,
};
use vstd::prelude::*;

verus! {

/// Where each field of a header lands in its encoded sector.
pub proof fn lemma_encode_fields(h: DiskHeader)
    ensures
        spec_encode(h).len() == SECTOR_SIZE,
        spec_encode(h).subrange(0, 8) == magic_bytes(h.magic_number),
        spec_encode(h).subrange(8, 12) == le32(h.version_number),
        spec_encode(h).subrange(12, 16) == le32(!VERSION_NUMBER),
        spec_encode(h).subrange(16, 64) == zeros(48),
        spec_encode(h).subrange(64, 66) == le16(cipher_code(h.cipher)),
        spec_encode(h).subrange(66, 68) == le16(!cipher_code(h.cipher)),
        spec_encode(h).subrange(68, 84) == h.encryption_parameters@,
        spec_encode(h).subrange(84, 100) == negated(h.encryption_parameters@),
        spec_encode(h).subrange(100, 128) == zeros(28),
        spec_encode(h).subrange(128, 136) == le64(h.state_block_address),
        spec_encode(h).subrange(136, 144) == le64(!h.state_block_address),
        spec_encode(h)[144] == state_flag_code(h.consistency_flag),
        spec_encode(h)[145] == !state_flag_code(h.consistency_flag),
        spec_encode(h).subrange(146, 512) == zeros(366),
{
    lemma_le32(h.version_number, seq![]);
    lemma_le32(!VERSION_NUMBER, seq![]);
    lemma_le16(cipher_code(h.cipher), seq![]);
    lemma_le16(!cipher_code(h.cipher), seq![]);
    lemma_le64(h.state_block_address, seq![]);
    lemma_le64(!h.state_block_address, seq![]);
    let b = spec_encode(h);
    assert(b.subrange(0, 8) =~= magic_bytes(h.magic_number));
    assert(b.subrange(8, 12) =~= le32(h.version_number));
    assert(b.subrange(12, 16) =~= le32(!VERSION_NUMBER));
    assert(b.subrange(16, 64) =~= zeros(48));
    assert(b.subrange(64, 66) =~= le16(cipher_code(h.cipher)));
    assert(b.subrange(66, 68) =~= le16(!cipher_code(h.cipher)));
    assert(b.subrange(68, 84) =~= h.encryption_parameters@);
    assert(b.subrange(84, 100) =~= negated(h.encryption_parameters@));
    assert(b.subrange(100, 128) =~= zeros(28));
    assert(b.subrange(128, 136) =~= le64(h.state_block_address));
    assert(b.subrange(136, 144) =~= le64(!h.state_block_address));
    assert(b.subrange(146, 512) =~= zeros(366));
}

/// The two magic numbers agree but in their last byte.
pub proof fn lemma_magic_numbers_differ_in_last_byte()
    ensures
        partial_compatibility_magic().len() == 8,
        total_compatibility_magic().len() == 8,
        forall|i: int|
            0 <= i < 7 ==> #[trigger] partial_compatibility_magic()[i]
                == total_compatibility_magic()[i],
        partial_compatibility_magic()[7] == 0x7e,
        total_compatibility_magic()[7] == 0x20,
{
}

/// Each magic number is read back from its own bytes.
pub proof fn lemma_magic_roundtrip(m: MagicNumber)
    ensures
        spec_magic_from_bytes(magic_bytes(m)) == Ok::<MagicNumber, ParseError>(m),
{
    lemma_magic_numbers_differ_in_last_byte();
    assert(partial_compatibility_magic()[7] != total_compatibility_magic()[7]);
}

/// Each cipher option is read back from its own code.
pub proof fn lemma_cipher_roundtrip(c: Cipher)
    ensures
        spec_cipher_from_code(cipher_code(c)) == Ok::<Cipher, ParseError>(c),
{
}

/// Each state flag is read back from its own code.
pub proof fn lemma_state_flag_roundtrip(f: StateFlag)
    ensures
        spec_state_flag_from_code(state_flag_code(f)) == Ok::<StateFlag, ParseError>(f),
{
}

/// Bitwise negation is its own inverse on the field widths of the header.
proof fn lemma_negation_inverse(v: u32, w: u32, c: u16, n: u16, a: u64, m: u64, f: u8, g: u8)
    ensures
        (v == !w) == (!v == w),
        (c == !n) == (!c == n),
        (a == !m) == (!a == m),
        (f == !g) == (!f == g),
{
    assert((v == !w) == (!v == w)) by (bit_vector);
    assert((c == !n) == (!c == n)) by (bit_vector);
    assert((a == !m) == (!a == m)) by (bit_vector);
    assert((f == !g) == (!f == g)) by (bit_vector);
}

/// The only version this implementation reads is its own.
pub proof fn lemma_compatible_version_is_current(v: u32)
    ensures
        version_compatible(v) <==> v == VERSION_NUMBER,
{
}

/// Decoding gives back an encoded header, provided its version is one this implementation
/// reads; an encoded header of any other version is refused as incompatible.
pub proof fn lemma_decode_encode(h: DiskHeader)
    ensures
        version_compatible(h.version_number) ==> decodes_to(
            spec_encode(h),
            Ok::<DiskHeader, ParseError>(h),
        ),
        !version_compatible(h.version_number) ==> decodes_to(
            spec_encode(h),
            Err::<DiskHeader, ParseError>(ParseError::IncompatibleVersion),
        ),
        version_compatible(h.version_number) ==> forall|r: Result<DiskHeader, ParseError>|
            #[trigger] decodes_to(spec_encode(h), r) ==> r == Ok::<DiskHeader, ParseError>(h),
{
    lemma_encode_fields(h);
    lemma_magic_roundtrip(h.magic_number);
    lemma_cipher_roundtrip(h.cipher);
    lemma_state_flag_roundtrip(h.consistency_flag);
    let v = h.version_number;
    let c = cipher_code(h.cipher);
    let a = h.state_block_address;
    let f = state_flag_code(h.consistency_flag);
    lemma_le32(v, seq![]);
    lemma_le32(!VERSION_NUMBER, seq![]);
    lemma_le16(c, seq![]);
    lemma_le16(!c, seq![]);
    lemma_le64(a, seq![]);
    lemma_le64(!a, seq![]);
    lemma_negation_inverse(v, !VERSION_NUMBER, c, !c, a, !a, f, !f);
    lemma_compatible_version_is_current(v);
    assert(!(!VERSION_NUMBER) == VERSION_NUMBER) by (bit_vector);
    assert(!(!c) == c) by (bit_vector);
    assert(!(!a) == a) by (bit_vector);
    assert(!(!f) == f) by (bit_vector);
    assert forall|r: Result<DiskHeader, ParseError>|
        version_compatible(h.version_number) && #[trigger] decodes_to(spec_encode(h), r) implies r
        == Ok::<DiskHeader, ParseError>(h) by {
        if let Ok(g) = r {
            lemma_holds_header_unique(spec_encode(h), g, h);
        }
    }
}

/// A sector that decodes to `h` agrees with the encoding of `h` on every byte that decoding
/// reads: accepted sectors and headers correspond one to one.
pub proof fn lemma_decode_determines_checked_bytes(b: Seq<u8>, h: DiskHeader)
    requires
        b.len() >= HEADER_BYTES_READ,
        decodes_to(b, Ok::<DiskHeader, ParseError>(h)),
    ensures
        b.subrange(0, 16) == spec_encode(h).subrange(0, 16),
        b.subrange(64, 100) == spec_encode(h).subrange(64, 100),
        b.subrange(128, 146) == spec_encode(h).subrange(128, 146),
{
    let e = spec_encode(h);
    lemma_encode_fields(h);
    let w = from_le32(b.subrange(12, 16));
    let n = from_le16(b.subrange(66, 68));
    let m = from_le64(b.subrange(136, 144));
    lemma_le32(h.version_number, b.subrange(8, 12));
    lemma_le32(w, b.subrange(12, 16));
    lemma_le16(cipher_code(h.cipher), b.subrange(64, 66));
    lemma_le16(n, b.subrange(66, 68));
    lemma_le64(h.state_block_address, b.subrange(128, 136));
    lemma_le64(m, b.subrange(136, 144));
    lemma_compatible_version_is_current(h.version_number);
    lemma_negation_inverse(
        h.version_number,
        w,
        cipher_code(h.cipher),
        n,
        h.state_block_address,
        m,
        b[144],
        b[145],
    );
    assert(b.subrange(0, 16) =~= b.subrange(0, 8) + b.subrange(8, 12) + b.subrange(12, 16));
    assert(e.subrange(0, 16) =~= e.subrange(0, 8) + e.subrange(8, 12) + e.subrange(12, 16));
    assert(b.subrange(64, 100) =~= b.subrange(64, 66) + b.subrange(66, 68) + b.subrange(68, 84)
        + b.subrange(84, 100));
    assert(e.subrange(64, 100) =~= e.subrange(64, 66) + e.subrange(66, 68) + e.subrange(68, 84)
        + e.subrange(84, 100));
    assert(b.subrange(128, 146) =~= b.subrange(128, 136) + b.subrange(136, 144) + seq![b[144], b[145]]);
    assert(e.subrange(128, 146) =~= e.subrange(128, 136) + e.subrange(136, 144) + seq![e[144], e[145]]);
}

/// In a sector that decodes, each stored copy is the byte-wise negation of its field.
pub proof fn lemma_accepted_copies_are_negations(b: Seq<u8>)
    requires
        b.len() >= HEADER_BYTES_READ,
        header_check(b) == Ok::<(), ParseError>(()),
    ensures
        b.subrange(12, 16) == negated(b.subrange(8, 12)),
        b.subrange(66, 68) == negated(b.subrange(64, 66)),
        b.subrange(84, 100) == negated(b.subrange(68, 84)),
        b.subrange(136, 144) == negated(b.subrange(128, 136)),
        b[145] == !b[144],
{
    let v = from_le32(b.subrange(8, 12));
    let w = from_le32(b.subrange(12, 16));
    let c = from_le16(b.subrange(64, 66));
    let n = from_le16(b.subrange(66, 68));
    let a = from_le64(b.subrange(128, 136));
    let m = from_le64(b.subrange(136, 144));
    lemma_le32(v, b.subrange(8, 12));
    lemma_le32(w, b.subrange(12, 16));
    lemma_le16(c, b.subrange(64, 66));
    lemma_le16(n, b.subrange(66, 68));
    lemma_le64(a, b.subrange(128, 136));
    lemma_le64(m, b.subrange(136, 144));
    lemma_negation_inverse(v, w, c, n, a, m, b[144], b[145]);
}

/// In an encoded header, each stored copy is the byte-wise negation of its field; for the version
/// number this holds when the header has the current version.
pub proof fn lemma_encode_copies_are_negations(h: DiskHeader)
    ensures
        h.version_number == VERSION_NUMBER ==> spec_encode(h).subrange(12, 16) == negated(
            spec_encode(h).subrange(8, 12),
        ),
        spec_encode(h).subrange(66, 68) == negated(spec_encode(h).subrange(64, 66)),
        spec_encode(h).subrange(84, 100) == negated(spec_encode(h).subrange(68, 84)),
        spec_encode(h).subrange(136, 144) == negated(spec_encode(h).subrange(128, 136)),
        spec_encode(h)[145] == !spec_encode(h)[144],
{
    lemma_encode_fields(h);
    lemma_le32(VERSION_NUMBER, seq![]);
    lemma_le16(cipher_code(h.cipher), seq![]);
    lemma_le64(h.state_block_address, seq![]);
}

/// Overwriting one byte of a sequence changes a window of it only where the window covers that
/// byte.
proof fn lemma_update_window(e: Seq<u8>, i: int, x: u8, lo: int, hi: int)
    requires
        0 <= lo <= hi <= e.len(),
        0 <= i < e.len(),
    ensures
        i < lo || hi <= i ==> e.update(i, x).subrange(lo, hi) == e.subrange(lo, hi),
        lo <= i < hi ==> e.update(i, x).subrange(lo, hi) == e.subrange(lo, hi).update(i - lo, x),
        lo <= i < hi && x != e[i] ==> e.update(i, x).subrange(lo, hi) != e.subrange(lo, hi),
{
    if i < lo || hi <= i {
        assert(e.update(i, x).subrange(lo, hi) =~= e.subrange(lo, hi));
    } else {
        assert(e.update(i, x).subrange(lo, hi) =~= e.subrange(lo, hi).update(i - lo, x));
        if x != e[i] {
            assert(e.update(i, x).subrange(lo, hi)[i - lo] != e.subrange(lo, hi)[i - lo]);
        }
    }
}

/// Distinct little-endian byte strings stand for distinct integers.
proof fn lemma_le_injective(s1: Seq<u8>, s2: Seq<u8>)
    requires
        s1 != s2,
    ensures
        s1.len() == 2 && s2.len() == 2 ==> from_le16(s1) != from_le16(s2),
        s1.len() == 4 && s2.len() == 4 ==> from_le32(s1) != from_le32(s2),
        s1.len() == 8 && s2.len() == 8 ==> from_le64(s1) != from_le64(s2),
{
    lemma_le16(from_le16(s1), s1);
    lemma_le16(from_le16(s2), s2);
    lemma_le32(from_le32(s1), s1);
    lemma_le32(from_le32(s2), s2);
    lemma_le64(from_le64(s1), s1);
    lemma_le64(from_le64(s2), s2);
}

/// Overwriting any single byte that decoding reads, in the encoding of a header that decodes,
/// makes decoding fail, with the error of the field that byte belongs to. The one exception is
/// turning the last byte of one magic number into that of the other.
pub proof fn lemma_single_byte_corruption_detected(h: DiskHeader, i: int, x: u8)
    requires
        version_compatible(h.version_number),
        (0 <= i < 16) || (64 <= i < 100) || (128 <= i < HEADER_BYTES_READ),
        x != spec_encode(h)[i],
        i == 7 ==> x != 0x20 && x != 0x7e,
    ensures
        header_check(spec_encode(h).update(i, x)) is Err,
        0 <= i < 8 ==> header_check(spec_encode(h).update(i, x)) == Err::<(), ParseError>(
            ParseError::UnknownFormat,
        ),
        8 <= i < 12 ==> header_check(spec_encode(h).update(i, x)) == Err::<(), ParseError>(
            ParseError::IncompatibleVersion,
        ),
        12 <= i < 16 ==> header_check(spec_encode(h).update(i, x)) == Err::<(), ParseError>(
            ParseError::CorruptVersionNumber,
        ),
        64 <= i < 68 ==> {
            ||| header_check(spec_encode(h).update(i, x)) == Err::<(), ParseError>(
                ParseError::UnknownCipher,
            )
            ||| header_check(spec_encode(h).update(i, x)) == Err::<(), ParseError>(
                ParseError::InvalidCipher,
            )
            ||| header_check(spec_encode(h).update(i, x)) == Err::<(), ParseError>(
                ParseError::CorruptCipher,
            )
        },
        68 <= i < 100 ==> header_check(spec_encode(h).update(i, x)) == Err::<(), ParseError>(
            ParseError::CorruptEncryptionParameters,
        ),
        128 <= i < 144 ==> header_check(spec_encode(h).update(i, x)) == Err::<(), ParseError>(
            ParseError::CorruptStateBlockAddress,
        ),
        i == 144 ==> {
            ||| header_check(spec_encode(h).update(i, x)) == Err::<(), ParseError>(
                ParseError::UnknownStateFlag,
            )
            ||| header_check(spec_encode(h).update(i, x)) == Err::<(), ParseError>(
                ParseError::CorruptStateFlag,
            )
        },
        i == 145 ==> header_check(spec_encode(h).update(i, x)) == Err::<(), ParseError>(
            ParseError::CorruptStateFlag,
        ),
{
    let e = spec_encode(h);
    let b = e.update(i, x);
    lemma_encode_fields(h);
    lemma_decode_encode(h);
    lemma_magic_numbers_differ_in_last_byte();
    lemma_compatible_version_is_current(h.version_number);
    lemma_update_window(e, i, x, 0, 8);
    lemma_update_window(e, i, x, 8, 12);
    lemma_update_window(e, i, x, 12, 16);
    lemma_update_window(e, i, x, 64, 66);
    lemma_update_window(e, i, x, 66, 68);
    lemma_update_window(e, i, x, 68, 84);
    lemma_update_window(e, i, x, 84, 100);
    lemma_update_window(e, i, x, 128, 136);
    lemma_update_window(e, i, x, 136, 144);
    let v = h.version_number;
    let c = cipher_code(h.cipher);
    let a = h.state_block_address;
    let f = state_flag_code(h.consistency_flag);
    lemma_le32(v, seq![]);
    lemma_le32(!VERSION_NUMBER, seq![]);
    lemma_le16(c, seq![]);
    lemma_le16(!c, seq![]);
    lemma_le64(a, seq![]);
    lemma_le64(!a, seq![]);
    lemma_negation_inverse(
        v,
        from_le32(b.subrange(12, 16)),
        c,
        from_le16(b.subrange(66, 68)),
        a,
        from_le64(b.subrange(136, 144)),
        b[144],
        b[145],
    );
    if 0 <= i < 8 {
        let own = magic_bytes(h.magic_number);
        if i == 7 {
            assert(b.subrange(0, 8)[7] == x);
        } else {
            assert(b.subrange(0, 8)[7] == own[7]);
        }
        assert(b.subrange(0, 8) != partial_compatibility_magic());
        assert(b.subrange(0, 8) != total_compatibility_magic());
    } else if 8 <= i < 12 {
        lemma_le_injective(b.subrange(8, 12), e.subrange(8, 12));
    } else if 12 <= i < 16 {
        lemma_le_injective(b.subrange(12, 16), e.subrange(12, 16));
    } else if 64 <= i < 66 {
        lemma_le_injective(b.subrange(64, 66), e.subrange(64, 66));
        assert(!(!c) == c) by (bit_vector);
    } else if 66 <= i < 68 {
        lemma_le_injective(b.subrange(66, 68), e.subrange(66, 68));
    } else if 68 <= i < 84 {
        let p = h.encryption_parameters@;
        let k = i - 68;
        let y = p[k];
        assert(x != y ==> !x != !y) by (bit_vector);
        assert(negated(b.subrange(68, 84))[k] != negated(p)[k]);
    } else if 84 <= i < 100 {
        assert(b.subrange(84, 100)[i - 84] != negated(b.subrange(68, 84))[i - 84]);
    } else if 128 <= i < 136 {
        lemma_le_injective(b.subrange(128, 136), e.subrange(128, 136));
        assert(!(!a) == a) by (bit_vector);
    } else if 136 <= i < 144 {
        lemma_le_injective(b.subrange(136, 144), e.subrange(136, 144));
    } else if i == 144 {
        assert(!(!f) == f) by (bit_vector);
    } else {
    }
}

/// Opening a disk whose header sector was written by `encode` does what opening that header
/// does; a header of a version this implementation cannot read is refused.
pub proof fn lemma_open_encoded(h: DiskHeader)
    ensures
        version_compatible(h.version_number) ==> spec_open_sector(spec_encode(h)) == spec_opened(h),
        !version_compatible(h.version_number) ==> spec_open_sector(spec_encode(h)) == Err::<
            DiskHeader,
            OpenError,
        >(OpenError::Parse(ParseError::IncompatibleVersion)),
{
    lemma_decode_encode(h);
    let b = spec_encode(h);
    if version_compatible(h.version_number) {
        let c = choose|g: DiskHeader| holds_header(b, g);
        lemma_holds_header_unique(b, h, c);
    }
}

/// A freshly initialized disk opens, and is then marked open.
pub proof fn lemma_fresh_disk_opens(h: DiskHeader)
    requires
        is_default_header(h),
    ensures
        spec_open_sector(spec_encode(h)) == Ok::<DiskHeader, OpenError>(
            DiskHeader { consistency_flag: StateFlag::Open, ..h },
        ),
{
    lemma_open_encoded(h);
}

/// A disk that was closed properly opens again with its header unchanged but for the state flag,
/// which is then open.
pub proof fn lemma_reopen_after_close(h: DiskHeader)
    requires
        version_compatible(h.version_number),
    ensures
        spec_open_sector(spec_encode(spec_closed(h))) == Ok::<DiskHeader, OpenError>(
            DiskHeader { consistency_flag: StateFlag::Open, version_number: VERSION_NUMBER, ..h },
        ),
{
    lemma_open_encoded(spec_closed(h));
}

/// A disk marked inconsistent is refused, whatever else its header says.
pub proof fn lemma_inconsistent_disk_refused(h: DiskHeader)
    requires
        version_compatible(h.version_number),
        h.consistency_flag == StateFlag::Inconsistent,
    ensures
        spec_open_sector(spec_encode(h)) == Err::<DiskHeader, OpenError>(
            OpenError::InconsistentState,
        ),
{
    lemma_open_encoded(h);
}

/// No sector of the driver is a header sector, and distinct sectors of the driver are distinct
/// sectors of the inner disk.
pub proof fn lemma_driver_sectors_avoid_header(s1: u64, s2: u64)
    ensures
        spec_inner_sector(s1) matches Some(t) ==> t >= HEADER_SECTORS && t != 0,
        s1 != s2 && spec_inner_sector(s1) is Some && spec_inner_sector(s2) is Some
            ==> spec_inner_sector(s1) != spec_inner_sector(s2),
{
}

/// Every sector of the driver on an inner disk of `inner` sectors lies on that disk, and the
/// driver has every sector of the disk after the header.
pub proof fn lemma_driver_sectors_on_disk(inner: u64, s: u64)
    ensures
        s < spec_visible_sectors(inner) ==> (spec_inner_sector(s) matches Some(t) && t < inner),
        HEADER_SECTORS <= inner ==> spec_visible_sectors(inner) + HEADER_SECTORS == inner,
{
}

/// Magic numbers and their bytes: a byte string reads as a magic number exactly when it is that
/// number's bytes, `"TFS fmt "` for total and `"TFS fmt~"` for partial compatibility; any other
/// string is of an unknown format.
pub proof fn lemma_magic_codes(s: Seq<u8>, m: MagicNumber)
    ensures
        (spec_magic_from_bytes(s) == Ok::<MagicNumber, ParseError>(m)) == (magic_bytes(m) == s),
        magic_bytes(MagicNumber::TotalCompatibility) == total_magic_literal(),
        magic_bytes(MagicNumber::PartialCompatibility) == partial_magic_literal(),
        s != total_magic_literal() && s != partial_magic_literal() ==> spec_magic_from_bytes(s)
            == Err::<MagicNumber, ParseError>(ParseError::UnknownFormat),
{
    lemma_magic_roundtrip(m);
}

/// Cipher options and their codes: a code reads as an option exactly when it is that option's
/// code, 0 for none and 1 for SPECK; codes from `1 << 15` up are unknown, the others invalid.
pub proof fn lemma_cipher_codes(code: u16, c: Cipher)
    ensures
        (spec_cipher_from_code(code) == Ok::<Cipher, ParseError>(c)) == (cipher_code(c) == code),
        cipher_code(Cipher::Identity) == 0,
        cipher_code(Cipher::Speck128) == 1,
        (spec_cipher_from_code(code) == Err::<Cipher, ParseError>(ParseError::UnknownCipher)) == (
        code >= 0x8000),
        (spec_cipher_from_code(code) == Err::<Cipher, ParseError>(ParseError::InvalidCipher)) == (2
            <= code < 0x8000),
{
}

/// State flags and their codes: a code reads as a flag exactly when it is that flag's code, 0 for
/// closed, 1 for open and 2 for inconsistent; any other code is unknown.
pub proof fn lemma_state_flag_codes(code: u8, f: StateFlag)
    ensures
        (spec_state_flag_from_code(code) == Ok::<StateFlag, ParseError>(f)) == (state_flag_code(f)
            == code),
        state_flag_code(StateFlag::Closed) == 0,
        state_flag_code(StateFlag::Open) == 1,
        state_flag_code(StateFlag::Inconsistent) == 2,
        (spec_state_flag_from_code(code) is Err) == (code > 2),
        spec_state_flag_from_code(code) is Err ==> spec_state_flag_from_code(code) == Err::<
            StateFlag,
            ParseError,
        >(ParseError::UnknownStateFlag),
{
}

/// Opening refuses exactly the disks marked inconsistent; every other disk, open or closed,
/// opens marked open at the current version, with every other field kept.
pub proof fn lemma_open_refuses_only_inconsistent(h: DiskHeader)
    ensures
        (spec_opened(h) is Err) == (h.consistency_flag == StateFlag::Inconsistent),
        spec_opened(h) is Err ==> spec_opened(h) == Err::<DiskHeader, OpenError>(
            OpenError::InconsistentState,
        ),
        spec_opened(h) matches Ok(g) ==> {
            &&& g.consistency_flag == StateFlag::Open
            &&& g.version_number == VERSION_NUMBER
            &&& g.magic_number == h.magic_number
            &&& g.cipher == h.cipher
            &&& g.encryption_parameters == h.encryption_parameters
            &&& g.state_block_address == h.state_block_address
        },
{
}

/// Closing marks every disk closed and keeps every other field.
pub proof fn lemma_close_marks_closed(h: DiskHeader)
    ensures
        spec_closed(h).consistency_flag == StateFlag::Closed,
        spec_closed(h).magic_number == h.magic_number,
        spec_closed(h).version_number == h.version_number,
        spec_closed(h).cipher == h.cipher,
        spec_closed(h).encryption_parameters == h.encryption_parameters,
        spec_closed(h).state_block_address == h.state_block_address,
{
}

} // verus!
