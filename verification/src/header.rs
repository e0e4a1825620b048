//! Disk header parsing.
//!
//! The disk header provides information on how to read a TFS disk. This module parses and
//! interprets the disk header so it is meaningful to the programmer.
//!
//! Layout of the header sector (all integers little endian):
//!
//! | bytes     | content                                   |
//! |-----------|-------------------------------------------|
//! | 0..8      | magic number                              |
//! | 8..12     | version number                            |
//! | 12..16    | `VERSION_NUMBER`, bitwise negated         |
//! | 64..66    | cipher option                             |
//! | 66..68    | cipher option, bitwise negated            |
//! | 68..84    | encryption parameters                     |
//! | 84..100   | encryption parameters, bitwise negated    |
//! | 128..136  | state block address                       |
//! | 136..144  | state block address, bitwise negated      |
//! | 144       | state flag                                |
//! | 145       | state flag, bitwise negated               |
//!
//! Every other byte of the sector is zero.
//!
//! Bytes 12..16 hold the negation of the version this implementation writes, `VERSION_NUMBER`,
//! rather than that of the header's own version number: the two agree on every header that this
//! implementation can read back, and a header of any other version is refused as incompatible
//! before its copy is looked at.
//!
//! The cipher option takes two bytes, followed by two bytes of its negation: codes from
//! `1 << 15` up are set aside for implementation-specific ciphers, so a code does not fit in one
//! byte.
//!
//! The two magic numbers, `"TFS fmt "` (total compatibility) and `"TFS fmt~"` (partial
//! compatibility), differ in their last byte only.
use crate::le::{
    from_le16, from_le32, from_le64, le16, le32, le64, lemma_le16, lemma_le32, lemma_le64, negated,
    push_u16, push_u32, push_u64, read_u16, read_u32, read_u64,
};
use vstd::prelude::*;
use vstd::slice::slice_subrange;

verus! {

/// The size of a disk sector.
pub const SECTOR_SIZE: usize = 512;

/// The size of the disk header.
///
/// This should be a multiple of the cluster size.
pub const DISK_HEADER_SIZE: usize = 4096;

/// The current version number.
///
/// The versioning scheme divides this number into two parts. The 16 most significant bits identify
/// breaking changes. For two version A to be able to read an image written by version B, two
/// requirements must hold true:
///
/// 1. A must be greater than or equal to B.
/// 2. A and B must have equal higher parts.
pub const VERSION_NUMBER: u32 = 0;

/// The number of leading bytes of a sector that the decoder reads.
pub const HEADER_BYTES_READ: usize = 146;

/// A disk header reading error.
#[derive(PartialEq, Eq, Structural, Clone, Copy, Debug)]
pub enum ParseError {
    /// Unknown format (not TFS).
    UnknownFormat,
    /// The state flag is corrupt.
    CorruptStateFlag,
    /// The cipher field is corrupt.
    CorruptCipher,
    /// The encryption parameters are corrupt.
    CorruptEncryptionParameters,
    /// The state block address is corrupt.
    CorruptStateBlockAddress,
    /// The version number is corrupt.
    CorruptVersionNumber,
    /// The version is incompatible with this implementation.
    ///
    /// The version number is given by some integer. If the higher half of the integer does not
    /// match, the versions are incompatible and this error is returned.
    IncompatibleVersion,
    /// Unknown/unsupported (implementation-specific) cipher option.
    UnknownCipher,
    /// Invalid/nonexistent cipher option.
    ///
    /// Note that this is different from `UnknownCipher`, as it is necessarily invalid and not just
    /// implementation-specific.
    InvalidCipher,
    /// Unknown state flag value.
    UnknownStateFlag,
}

impl ParseError {
    /// A short human-readable description of the error.
    pub fn description(&self) -> (r: &'static str)
        ensures
            r@ == spec_parse_error_description(*self)@,
    {
        match self {
            ParseError::UnknownFormat => "Unknown format (not TFS).",
            ParseError::CorruptStateFlag => "Corrupt state flag.",
            ParseError::CorruptCipher => "Corrupt cipher option.",
            ParseError::CorruptEncryptionParameters => "Corrupt encryption paramters.",
            ParseError::CorruptStateBlockAddress => "Corrupt state block address.",
            ParseError::CorruptVersionNumber => "Corrupt version number.",
            ParseError::IncompatibleVersion => "Incompatible version.",
            ParseError::UnknownCipher => "Unknown cipher option.",
            ParseError::InvalidCipher => "Invalid cipher option.",
            ParseError::UnknownStateFlag => "Unknown state flag.",
        }
    }
}

/// The description of each parse error.
pub open spec fn spec_parse_error_description(e: ParseError) -> &'static str {
    match e {
        ParseError::UnknownFormat => "Unknown format (not TFS).",
        ParseError::CorruptStateFlag => "Corrupt state flag.",
        ParseError::CorruptCipher => "Corrupt cipher option.",
        ParseError::CorruptEncryptionParameters => "Corrupt encryption paramters.",
        ParseError::CorruptStateBlockAddress => "Corrupt state block address.",
        ParseError::CorruptVersionNumber => "Corrupt version number.",
        ParseError::IncompatibleVersion => "Incompatible version.",
        ParseError::UnknownCipher => "Unknown cipher option.",
        ParseError::InvalidCipher => "Invalid cipher option.",
        ParseError::UnknownStateFlag => "Unknown state flag.",
    }
}

// ---------------------------------------------------------------------------------------------
// Magic number
// ---------------------------------------------------------------------------------------------

/// TFS magic number.
#[derive(PartialEq, Eq, Structural, Clone, Copy, Debug)]
pub enum MagicNumber {
    /// The image is partially compatible with the official TFS specification.
    PartialCompatibility,
    /// The image is completely compatible with the official TFS specification.
    TotalCompatibility,
}

/// The magic number of images with partial TFS compatibility: `"TFS fmt~"`.
pub open spec fn partial_compatibility_magic() -> Seq<u8> {
    seq![0x54u8, 0x46u8, 0x53u8, 0x20u8, 0x66u8, 0x6du8, 0x74u8, 0x7eu8]
}

/// The magic number of images with total TFS compatibility: `"TFS fmt "`.
pub open spec fn total_compatibility_magic() -> Seq<u8> {
    seq![0x54u8, 0x46u8, 0x53u8, 0x20u8, 0x66u8, 0x6du8, 0x74u8, 0x20u8]
}

/// The bytes that stand for a magic number on disk.
pub open spec fn magic_bytes(m: MagicNumber) -> Seq<u8> {
    match m {
        MagicNumber::PartialCompatibility => partial_compatibility_magic(),
        MagicNumber::TotalCompatibility => total_compatibility_magic(),
    }
}

/// What a byte string stands for as a magic number.
pub open spec fn spec_magic_from_bytes(s: Seq<u8>) -> Result<MagicNumber, ParseError> {
    if s == partial_compatibility_magic() {
        Ok(MagicNumber::PartialCompatibility)
    } else if s == total_compatibility_magic() {
        Ok(MagicNumber::TotalCompatibility)
    } else {
        Err(ParseError::UnknownFormat)
    }
}

/// Whether two byte strings are equal.
fn bytes_equal(a: &[u8], b: &[u8]) -> (r: bool)
    ensures
        r == (a@ == b@),
{
    if a.len() != b.len() {
        return false;
    }
    let mut i: usize = 0;
    while i < a.len()
        invariant
            a@.len() == b@.len(),
            i <= a@.len(),
            forall|j: int| 0 <= j < i ==> a@[j] == b@[j],
        decreases a@.len() - i,
    {
        if a[i] != b[i] {
            return false;
        }
        i = i + 1;
    }
    assert(a@ =~= b@);
    true
}

impl MagicNumber {
    /// Parse a magic number from the given bytes.
    pub fn try_from(string: &[u8]) -> (r: Result<MagicNumber, ParseError>)
        ensures
            r == spec_magic_from_bytes(string@),
    {
        let partial: [u8; 8] = [0x54, 0x46, 0x53, 0x20, 0x66, 0x6d, 0x74, 0x7e];
        let total: [u8; 8] = [0x54, 0x46, 0x53, 0x20, 0x66, 0x6d, 0x74, 0x20];
        assert(partial@ =~= partial_compatibility_magic());
        assert(total@ =~= total_compatibility_magic());
        if bytes_equal(string, partial.as_slice()) {
            // Partial compatibility.
            Ok(MagicNumber::PartialCompatibility)
        } else if bytes_equal(string, total.as_slice()) {
            // Total compatibility.
            Ok(MagicNumber::TotalCompatibility)
        } else {
            // Unknown format; abort.
            Err(ParseError::UnknownFormat)
        }
    }

    /// The bytes of this magic number as written on disk.
    pub fn into_bytes(self) -> (r: [u8; 8])
        ensures
            r@ == magic_bytes(self),
    {
        match self {
            MagicNumber::TotalCompatibility => {
                let r: [u8; 8] = [0x54, 0x46, 0x53, 0x20, 0x66, 0x6d, 0x74, 0x20];
                assert(r@ =~= total_compatibility_magic());
                r
            },
            MagicNumber::PartialCompatibility => {
                let r: [u8; 8] = [0x54, 0x46, 0x53, 0x20, 0x66, 0x6d, 0x74, 0x7e];
                assert(r@ =~= partial_compatibility_magic());
                r
            },
        }
    }
}

// ---------------------------------------------------------------------------------------------
// Cipher option
// ---------------------------------------------------------------------------------------------

/// Cipher option.
#[derive(PartialEq, Eq, Structural, Clone, Copy, Debug)]
pub enum Cipher {
    /// Disk encryption disabled.
    Identity,
    /// Use the SPECK cipher.
    Speck128,
}

/// The code of a cipher option on disk.
pub open spec fn cipher_code(c: Cipher) -> u16 {
    match c {
        Cipher::Identity => 0,
        Cipher::Speck128 => 1,
    }
}

/// What a cipher code on disk stands for.
///
/// Codes from `1 << 15` up are implementation-specific ciphers, unsupported here; the other
/// unassigned codes are invalid by the current revision.
pub open spec fn spec_cipher_from_code(code: u16) -> Result<Cipher, ParseError> {
    if code == 0 {
        Ok(Cipher::Identity)
    } else if code == 1 {
        Ok(Cipher::Speck128)
    } else if code >= 0x8000 {
        Err(ParseError::UnknownCipher)
    } else {
        Err(ParseError::InvalidCipher)
    }
}

impl Cipher {
    /// Interpret a cipher code read from disk.
    pub fn try_from(from: u16) -> (r: Result<Cipher, ParseError>)
        ensures
            r == spec_cipher_from_code(from),
    {
        match from {
            // Aye aye, encryption is disabled.
            0 => Ok(Cipher::Identity),
            // Wooh! Encryption on.
            1 => Ok(Cipher::Speck128),
            // These are implementation-specific ciphers which are unsupported in this (official)
            // implementation.
            0x8000..=0xffff => Err(ParseError::UnknownCipher),
            // This cipher is invalid by current revision.
            _ => Err(ParseError::InvalidCipher),
        }
    }

    /// The code of this cipher option on disk.
    pub fn code(self) -> (r: u16)
        ensures
            r == cipher_code(self),
    {
        match self {
            Cipher::Identity => 0,
            Cipher::Speck128 => 1,
        }
    }
}

// ---------------------------------------------------------------------------------------------
// State flag
// ---------------------------------------------------------------------------------------------

/// State flag.
///
/// The state flag defines the state of the disk, telling the user if it is in a consistent
/// state or not. It is important for doing non-trivial things like garbage-collection, where the
/// disk needs to enter an inconsistent state for a small period of time.
#[derive(PartialEq, Eq, Structural, Clone, Copy, Debug)]
pub enum StateFlag {
    /// The disk was properly closed and shut down.
    Closed,
    /// The disk is active/was forcibly shut down.
    Open,
    /// The disk is in an inconsistent state.
    ///
    /// Proceed with caution.
    Inconsistent,
}

/// The code of a state flag on disk.
pub open spec fn state_flag_code(f: StateFlag) -> u8 {
    match f {
        StateFlag::Closed => 0,
        StateFlag::Open => 1,
        StateFlag::Inconsistent => 2,
    }
}

/// What a state flag code on disk stands for.
pub open spec fn spec_state_flag_from_code(code: u8) -> Result<StateFlag, ParseError> {
    if code == 0 {
        Ok(StateFlag::Closed)
    } else if code == 1 {
        Ok(StateFlag::Open)
    } else if code == 2 {
        Ok(StateFlag::Inconsistent)
    } else {
        Err(ParseError::UnknownStateFlag)
    }
}

impl StateFlag {
    /// Interpret a state flag code read from disk.
    pub fn try_from(from: u8) -> (r: Result<StateFlag, ParseError>)
        ensures
            r == spec_state_flag_from_code(from),
    {
        match from {
            0 => Ok(StateFlag::Closed),
            1 => Ok(StateFlag::Open),
            2 => Ok(StateFlag::Inconsistent),
            _ => Err(ParseError::UnknownStateFlag),
        }
    }

    /// The code of this state flag on disk.
    pub fn code(self) -> (r: u8)
        ensures
            r == state_flag_code(self),
    {
        match self {
            StateFlag::Closed => 0,
            StateFlag::Open => 1,
            StateFlag::Inconsistent => 2,
        }
    }
}


// ---------------------------------------------------------------------------------------------
// The disk header
// ---------------------------------------------------------------------------------------------

/// The disk header.
#[derive(PartialEq, Eq, Clone, Copy, Debug)]
pub struct DiskHeader {
    /// The magic number.
    pub magic_number: MagicNumber,
    /// The version number.
    pub version_number: u32,
    /// The cipher.
    pub cipher: Cipher,
    /// The encryption paramters.
    ///
    /// These are used as defined by the choice of cipher. Some ciphers might use it for salt or
    /// settings, and others not use it at all.
    pub encryption_parameters: [u8; 16],
    /// The address of the state block.
    pub state_block_address: u64,
    /// The state flag.
    pub consistency_flag: StateFlag,
}

/// `n` zero bytes.
pub open spec fn zeros(n: nat) -> Seq<u8> {
    Seq::new(n, |i: int| 0u8)
}

/// Whether an image written with version `v` can be read by this implementation: the higher
/// halves agree and `v` is not newer than `VERSION_NUMBER`.
pub open spec fn version_compatible(v: u32) -> bool {
    &&& v >> 16u32 == VERSION_NUMBER >> 16u32
    &&& v <= VERSION_NUMBER
}

/// The sector that holds header `h` (see the layout in the module documentation).
pub open spec fn spec_encode(h: DiskHeader) -> Seq<u8> {
    magic_bytes(h.magic_number)
    + le32(h.version_number)
    + le32(!VERSION_NUMBER)
    + zeros(48)
    + le16(cipher_code(h.cipher))
    + le16(!cipher_code(h.cipher))
    + h.encryption_parameters@
    + negated(h.encryption_parameters@)
    + zeros(28)
    + le64(h.state_block_address)
    + le64(!h.state_block_address)
    + seq![state_flag_code(h.consistency_flag), !state_flag_code(h.consistency_flag)]
    + zeros(366)
}

/// The version number field of a header sector.
pub open spec fn version_field(b: Seq<u8>) -> u32 {
    from_le32(b.subrange(8, 12))
}

/// The cipher code field of a header sector.
pub open spec fn cipher_field(b: Seq<u8>) -> u16 {
    from_le16(b.subrange(64, 66))
}

/// The state block address field of a header sector.
pub open spec fn address_field(b: Seq<u8>) -> u64 {
    from_le64(b.subrange(128, 136))
}

/// The checks that a header sector goes through, in order: the first that fails gives the
/// error.
pub open spec fn header_check(b: Seq<u8>) -> Result<(), ParseError> {
    if spec_magic_from_bytes(b.subrange(0, 8)) is Err {
        Err(ParseError::UnknownFormat)
    } else if !version_compatible(version_field(b)) {
        Err(ParseError::IncompatibleVersion)
    } else if version_field(b) != !from_le32(b.subrange(12, 16)) {
        Err(ParseError::CorruptVersionNumber)
    } else if spec_cipher_from_code(cipher_field(b)) is Err {
        Err(spec_cipher_from_code(cipher_field(b))->Err_0)
    } else if cipher_field(b) != !from_le16(b.subrange(66, 68)) {
        Err(ParseError::CorruptCipher)
    } else if b.subrange(84, 100) != negated(b.subrange(68, 84)) {
        Err(ParseError::CorruptEncryptionParameters)
    } else if address_field(b) != !from_le64(b.subrange(136, 144)) {
        Err(ParseError::CorruptStateBlockAddress)
    } else if spec_state_flag_from_code(b[144]) is Err {
        Err(ParseError::UnknownStateFlag)
    } else if b[144] != !b[145] {
        Err(ParseError::CorruptStateFlag)
    } else {
        Ok(())
    }
}

/// Whether the fields of header sector `b` are those of `h`.
pub open spec fn holds_header(b: Seq<u8>, h: DiskHeader) -> bool {
    &&& spec_magic_from_bytes(b.subrange(0, 8)) == Ok::<MagicNumber, ParseError>(h.magic_number)
    &&& h.version_number == version_field(b)
    &&& spec_cipher_from_code(cipher_field(b)) == Ok::<Cipher, ParseError>(h.cipher)
    &&& h.encryption_parameters@ == b.subrange(68, 84)
    &&& h.state_block_address == address_field(b)
    &&& spec_state_flag_from_code(b[144]) == Ok::<StateFlag, ParseError>(h.consistency_flag)
}

/// What decoding header sector `b` gives: the first failed check's error, or else a header with
/// the sector's fields.
pub open spec fn decodes_to(b: Seq<u8>, r: Result<DiskHeader, ParseError>) -> bool {
    match r {
        Ok(h) => header_check(b) == Ok::<(), ParseError>(()) && holds_header(b, h),
        Err(e) => header_check(b) == Err::<(), ParseError>(e),
    }
}

/// A header sector holds at most one header.
pub proof fn lemma_holds_header_unique(b: Seq<u8>, h1: DiskHeader, h2: DiskHeader)
    requires
        holds_header(b, h1),
        holds_header(b, h2),
    ensures
        h1 == h2,
{
    assert(h1.encryption_parameters =~= h2.encryption_parameters);
}

/// Append `n` zero bytes.
fn push_zeros(v: &mut Vec<u8>, n: usize)
    ensures
        final(v)@ == old(v)@ + zeros(n as nat),
{
    let mut i: usize = 0;
    while i < n
        invariant
            i <= n,
            v@ =~= old(v)@ + zeros(i as nat),
        decreases n - i,
    {
        v.push(0);
        i = i + 1;
        assert(v@ =~= old(v)@ + zeros(i as nat));
    }
}

/// Append the given bytes.
fn push_bytes(v: &mut Vec<u8>, s: &[u8])
    ensures
        final(v)@ == old(v)@ + s@,
{
    let mut i: usize = 0;
    while i < s.len()
        invariant
            i <= s@.len(),
            v@ =~= old(v)@ + s@.subrange(0, i as int),
        decreases s@.len() - i,
    {
        v.push(s[i]);
        i = i + 1;
        assert(v@ =~= old(v)@ + s@.subrange(0, i as int));
    }
    assert(s@.subrange(0, s@.len() as int) =~= s@);
}

/// Append the given bytes, each bitwise negated.
fn push_negated(v: &mut Vec<u8>, s: &[u8])
    ensures
        final(v)@ == old(v)@ + negated(s@),
{
    let mut i: usize = 0;
    while i < s.len()
        invariant
            i <= s@.len(),
            v@ =~= old(v)@ + negated(s@.subrange(0, i as int)),
        decreases s@.len() - i,
    {
        v.push(!s[i]);
        i = i + 1;
        assert(v@ =~= old(v)@ + negated(s@.subrange(0, i as int)));
    }
    assert(s@.subrange(0, s@.len() as int) =~= s@);
}

/// Read the encryption parameters (bytes 68..84), provided that the bitwise negation of each
/// follows (bytes 84..100).
fn read_encryption_parameters(buf: &[u8]) -> (r: Option<[u8; 16]>)
    requires
        buf@.len() >= HEADER_BYTES_READ,
    ensures
        r is Some <==> buf@.subrange(84, 100) == negated(buf@.subrange(68, 84)),
        r matches Some(p) ==> p@ == buf@.subrange(68, 84),
{
    let ghost params = buf@.subrange(68, 84);
    let ghost check = buf@.subrange(84, 100);
    let mut encryption_parameters = [0u8; 16];
    let mut i: usize = 0;
    while i < 16
        invariant
            buf@.len() >= HEADER_BYTES_READ,
            params == buf@.subrange(68, 84),
            check == buf@.subrange(84, 100),
            i <= 16,
            forall|j: int| 0 <= j < i ==> encryption_parameters@[j] == #[trigger] params[j],
            forall|j: int| 0 <= j < i ==> #[trigger] check[j] == !params[j],
        decreases 16 - i,
    {
        let byte = buf[68 + i];
        if buf[84 + i] != !byte {
            proof {
                assert(check[i as int] != negated(params)[i as int]);
            }
            return None;
        }
        encryption_parameters[i] = byte;
        i = i + 1;
    }
    assert(check =~= negated(params));
    assert(encryption_parameters@ =~= params);
    Some(encryption_parameters)
}

impl DiskHeader {
    /// Parse the disk header from some sequence of bytes.
    ///
    /// This will construct it into memory while performing error checks on the header to ensure
    /// correctness.
    pub fn decode(buf: &[u8]) -> (r: Result<DiskHeader, ParseError>)
        requires
            buf@.len() >= HEADER_BYTES_READ,
        ensures
            decodes_to(buf@, r),
    {
        // # Introducer Section
        //
        // This section has the purpose of defining the implementation, version, and type of the
        // disk image. It is rarely changed unless updates or reformatting happens.

        // Load the magic number.
        let magic_number = match MagicNumber::try_from(slice_subrange(buf, 0, 8)) {
            Ok(m) => m,
            Err(e) => return Err(e),
        };

        // Load the version number.
        let version_number = read_u32(buf, 8);
        // Check if the version is compatible. If the higher half doesn't match, there were a
        // breaking change. Otherwise, if the version number is lower or equal to the current
        // version, it's compatible.
        if version_number >> 16u32 != VERSION_NUMBER >> 16u32 || version_number > VERSION_NUMBER {
            // The version is not compatible; abort.
            return Err(ParseError::IncompatibleVersion);
        }
        // Right after the version number, the same number follows, but bitwise negated. Make sure
        // that these numbers match (if it is bitwise negated). The reason for using this form
        // rather than just repeating it as-is is that if one overwrites all bytes with a constant
        // value, like zero, it won't be detected.
        if version_number != !read_u32(buf, 12) {
            // The version number is corrupt; abort.
            return Err(ParseError::CorruptVersionNumber);
        }

        // # Encryption section
        //
        // This section contains information about how the disk was encrypted, if at all.

        // Load the encryption algorithm choice.
        let cipher_code = read_u16(buf, 64);
        let cipher = match Cipher::try_from(cipher_code) {
            Ok(c) => c,
            Err(e) => return Err(e),
        };
        // Repeat the bitwise negation.
        if cipher.code() != !read_u16(buf, 66) {
            // The cipher option is corrupt; abort.
            return Err(ParseError::CorruptCipher);
        }

        // Load the encryption parameters (e.g. salt), checking the bitwise negation that follows.
        let encryption_parameters = match read_encryption_parameters(buf) {
            Some(p) => p,
            None => {
                // The encryption parameters are corrupt; abort.
                return Err(ParseError::CorruptEncryptionParameters);
            },
        };

        // # State section
        //
        // This section holds the state of disk and pointers to information on the state of the
        // file system.

        // Load the state block pointer.
        let state_block_address = read_u64(buf, 128);
        // Repeat the bitwise negation.
        if state_block_address != !read_u64(buf, 136) {
            // The state block address is corrupt; abort.
            return Err(ParseError::CorruptStateBlockAddress);
        }

        // Load the state flag.
        let consistency_flag = match StateFlag::try_from(buf[144]) {
            Ok(f) => f,
            Err(e) => return Err(e),
        };
        // Repeat the bitwise negation.
        if consistency_flag.code() != !buf[145] {
            // The state flag is corrupt; abort.
            return Err(ParseError::CorruptStateFlag);
        }

        Ok(DiskHeader {
            magic_number,
            version_number,
            cipher,
            encryption_parameters,
            state_block_address,
            consistency_flag,
        })
    }

    /// Encode the header into a sector-sized buffer.
    pub fn encode(&self) -> (buf: [u8; SECTOR_SIZE])
        ensures
            buf@ == spec_encode(*self),
    {
        let mut v: Vec<u8> = Vec::new();

        // Write the magic number.
        let magic = self.magic_number.into_bytes();
        push_bytes(&mut v, magic.as_slice());

        // Write the version number, then the current version number bitwise negated.
        push_u32(&mut v, self.version_number);
        push_u32(&mut v, !VERSION_NUMBER);
        push_zeros(&mut v, 48);

        // Write the cipher algorithm.
        push_u16(&mut v, self.cipher.code());
        push_u16(&mut v, !self.cipher.code());

        // Write the encryption parameters.
        push_bytes(&mut v, self.encryption_parameters.as_slice());
        push_negated(&mut v, self.encryption_parameters.as_slice());
        push_zeros(&mut v, 28);

        // Write the state block address.
        push_u64(&mut v, self.state_block_address);
        push_u64(&mut v, !self.state_block_address);

        // Write the state flag.
        v.push(self.consistency_flag.code());
        v.push(!self.consistency_flag.code());
        push_zeros(&mut v, 366);

        proof {
            lemma_le16(cipher_code(self.cipher), seq![]);
            lemma_le16(!cipher_code(self.cipher), seq![]);
            lemma_le32(self.version_number, seq![]);
            lemma_le32(!VERSION_NUMBER, seq![]);
            lemma_le64(self.state_block_address, seq![]);
            lemma_le64(!self.state_block_address, seq![]);
            assert(v@ =~= spec_encode(*self));
        }

        // Copy into a sector-sized buffer.
        let mut buf = [0u8; SECTOR_SIZE];
        let mut i: usize = 0;
        while i < SECTOR_SIZE
            invariant
                v@.len() == SECTOR_SIZE,
                i <= SECTOR_SIZE,
                forall|j: int| 0 <= j < i ==> buf@[j] == v@[j],
            decreases SECTOR_SIZE - i,
        {
            buf[i] = v[i];
            i = i + 1;
        }
        assert(buf@ =~= v@);
        buf
    }
}

/// Whether `h` is the header of a freshly initialized disk: total compatibility, the current
/// version, no encryption, zero parameters, state block at address zero, properly closed.
pub open spec fn is_default_header(h: DiskHeader) -> bool {
    &&& h.magic_number == MagicNumber::TotalCompatibility
    &&& h.version_number == VERSION_NUMBER
    &&& h.cipher == Cipher::Identity
    &&& h.encryption_parameters@ == zeros(16)
    &&& h.state_block_address == 0
    &&& h.consistency_flag == StateFlag::Closed
}

impl Default for DiskHeader {
    fn default() -> (h: DiskHeader)
        ensures
            is_default_header(h),
    {
        let h = DiskHeader {
            magic_number: MagicNumber::TotalCompatibility,
            version_number: VERSION_NUMBER,
            cipher: Cipher::Identity,
            encryption_parameters: [0u8; 16],
            state_block_address: 0,
            consistency_flag: StateFlag::Closed,
        };
        assert(h.encryption_parameters@ =~= zeros(16));
        h
    }
}

} // verus!
