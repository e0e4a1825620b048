use tfs_header::header::{
    Cipher, DiskHeader, MagicNumber, ParseError, StateFlag, HEADER_BYTES_READ, SECTOR_SIZE,
    VERSION_NUMBER,
};

fn sample_headers() -> Vec<DiskHeader> {
    let mut out = Vec::new();
    let mut header = DiskHeader::default();
    out.push(header);
    header.cipher = Cipher::Speck128;
    out.push(header);
    header.consistency_flag = StateFlag::Inconsistent;
    out.push(header);
    header.state_block_address = 500;
    out.push(header);
    header.encryption_parameters = [1, 2, 3, 4, 5, 6, 7, 8, 9, 10, 11, 12, 13, 14, 15, 0xFF];
    out.push(header);
    header.magic_number = MagicNumber::PartialCompatibility;
    header.consistency_flag = StateFlag::Open;
    header.state_block_address = u64::MAX;
    out.push(header);
    out
}

#[test]
fn inverse_identity() {
    let mut header = DiskHeader::default();
    assert_eq!(DiskHeader::decode(&header.encode()).unwrap(), header);

    // A header of version 1 does not come back: only `VERSION_NUMBER` is compatible, and a newer
    // version is refused (see `incompatible_version_is_refused`).

    header.cipher = Cipher::Speck128;
    assert_eq!(DiskHeader::decode(&header.encode()).unwrap(), header);

    header.consistency_flag = StateFlag::Inconsistent;
    assert_eq!(DiskHeader::decode(&header.encode()).unwrap(), header);

    header.state_block_address = 500;
    assert_eq!(DiskHeader::decode(&header.encode()).unwrap(), header);
}

#[test]
fn manual_mutation() {
    let mut header = DiskHeader::default();
    let mut sector = header.encode();

    header.magic_number = MagicNumber::PartialCompatibility;
    sector[7] = b'~';

    assert_eq!(sector, header.encode());

    header.version_number |= 0xFF;
    sector[8] = 0xFF;

    assert_eq!(sector, header.encode());

    // The cipher option takes two bytes, followed by two bytes of its negation (see the layout in
    // `header`), so changing it is not a change of bytes 64 and 65 alone; that case is in
    // `encoded_fields_little_endian_with_negation`.

    header.encryption_parameters[0] = 52;
    sector[68] = 52;
    sector[84] = !52;

    assert_eq!(sector, header.encode());

    // A changed state block address changes its negated copy in bytes 136..144 too, so it is not
    // a change of byte 128 alone; that case is in `encoded_fields_little_endian_with_negation`.

    header.consistency_flag = StateFlag::Open;
    sector[144] = 1;
    sector[145] = !1;

    assert_eq!(sector, header.encode());
}

#[test]
fn corrupt_extra() {
    let mut sector = DiskHeader::default().encode();
    sector[12] ^= 2;
    assert_eq!(DiskHeader::decode(&sector), Err(ParseError::CorruptVersionNumber));

    // Byte 65 is the high byte of the two-byte cipher code, not its negated copy: flipping it
    // gives an invalid code (see `cipher_high_byte_flip`).

    let mut sector = DiskHeader::default().encode();
    sector[84] ^= 1;
    assert_eq!(DiskHeader::decode(&sector), Err(ParseError::CorruptEncryptionParameters));

    let mut sector = DiskHeader::default().encode();
    sector[128] ^= 1;
    assert_eq!(DiskHeader::decode(&sector), Err(ParseError::CorruptStateBlockAddress));

    let mut sector = DiskHeader::default().encode();
    sector[145] ^= 1;
    assert_eq!(DiskHeader::decode(&sector), Err(ParseError::CorruptStateFlag));
}

#[test]
fn cipher_high_byte_flip() {
    let mut sector = DiskHeader::default().encode();
    sector[65] ^= 1;
    assert_eq!(DiskHeader::decode(&sector), Err(ParseError::InvalidCipher));
}

#[test]
fn incompatible_version() {
    let mut sector = DiskHeader::default().encode();
    sector[11] = 0xFF;
    assert_eq!(DiskHeader::decode(&sector), Err(ParseError::IncompatibleVersion));
}

#[test]
fn stored_copies_are_bytewise_negations() {
    for header in sample_headers() {
        let sector = header.encode();
        for (field, copy, len) in [(8, 12, 4), (64, 66, 2), (68, 84, 16), (128, 136, 8), (144, 145, 1)] {
            for k in 0..len {
                assert_eq!(sector[copy + k], !sector[field + k], "byte {}", copy + k);
            }
        }
    }
}

#[test]
fn last_magic_byte_switches_compatibility() {
    let header = DiskHeader::default();
    let mut sector = header.encode();
    sector[7] = b'~';
    let mut expected = header;
    expected.magic_number = MagicNumber::PartialCompatibility;
    assert_eq!(DiskHeader::decode(&sector), Ok(expected));
    sector[7] = b'!';
    assert_eq!(DiskHeader::decode(&sector), Err(ParseError::UnknownFormat));
}

#[test]
fn newer_version_written_but_refused() {
    let mut header = DiskHeader::default();
    header.version_number = 0xFF;
    let sector = header.encode();
    assert_eq!(&sector[8..16], &[0xFF, 0, 0, 0, 0xFF, 0xFF, 0xFF, 0xFF]);
    assert_eq!(DiskHeader::decode(&sector), Err(ParseError::IncompatibleVersion));
}

#[test]
fn unknown_format() {
    let mut sector = DiskHeader::default().encode();
    sector[0] = b'A';
    assert_eq!(DiskHeader::decode(&sector), Err(ParseError::UnknownFormat));
}

#[test]
fn wrong_cipher() {
    let mut sector = DiskHeader::default().encode();
    sector[64] = 0xFF;
    assert_eq!(DiskHeader::decode(&sector), Err(ParseError::InvalidCipher));
    sector[65] = 0xFF;
    assert_eq!(DiskHeader::decode(&sector), Err(ParseError::UnknownCipher));
}

#[test]
fn unknown_consistency_flag() {
    let mut sector = DiskHeader::default().encode();
    sector[144] = 6;
    assert_eq!(DiskHeader::decode(&sector), Err(ParseError::UnknownStateFlag));
}

#[test]
fn decode_inverts_encode() {
    for header in sample_headers() {
        assert_eq!(DiskHeader::decode(&header.encode()), Ok(header));
    }
}

#[test]
fn decode_reads_only_the_leading_bytes() {
    let mut header = DiskHeader::default();
    header.state_block_address = 0x0102_0304_0506_0708;
    let sector = header.encode();
    assert_eq!(DiskHeader::decode(&sector[..HEADER_BYTES_READ]), Ok(header));
}

#[test]
fn incompatible_version_is_refused() {
    let mut header = DiskHeader::default();
    header.version_number = 1;
    assert_eq!(DiskHeader::decode(&header.encode()), Err(ParseError::IncompatibleVersion));
    header.version_number = 0x0001_0000;
    assert_eq!(DiskHeader::decode(&header.encode()), Err(ParseError::IncompatibleVersion));
}

#[test]
fn default_header_fields() {
    let header = DiskHeader::default();
    assert_eq!(header.magic_number, MagicNumber::TotalCompatibility);
    assert_eq!(header.version_number, VERSION_NUMBER);
    assert_eq!(header.cipher, Cipher::Identity);
    assert_eq!(header.encryption_parameters, [0u8; 16]);
    assert_eq!(header.state_block_address, 0);
    assert_eq!(header.consistency_flag, StateFlag::Closed);
}

#[test]
fn default_header_sector_bytes() {
    let sector = DiskHeader::default().encode();
    assert_eq!(sector.len(), SECTOR_SIZE);
    let mut expected = [0u8; SECTOR_SIZE];
    expected[..8].copy_from_slice(b"TFS fmt ");
    for i in 12..16 {
        expected[i] = 0xFF;
    }
    for i in 66..68 {
        expected[i] = 0xFF;
    }
    for i in 84..100 {
        expected[i] = 0xFF;
    }
    for i in 136..144 {
        expected[i] = 0xFF;
    }
    expected[145] = 0xFF;
    assert_eq!(sector, expected);
}

#[test]
fn encoded_fields_little_endian_with_negation() {
    let mut header = DiskHeader::default();
    header.magic_number = MagicNumber::PartialCompatibility;
    header.cipher = Cipher::Speck128;
    header.encryption_parameters[0] = 52;
    header.state_block_address = 0x0102_0304_0506_0708;
    header.consistency_flag = StateFlag::Inconsistent;
    let sector = header.encode();
    assert_eq!(&sector[..8], b"TFS fmt~");
    assert_eq!(&sector[64..68], &[1, 0, 0xFE, 0xFF]);
    assert_eq!(sector[68], 52);
    assert_eq!(sector[84], !52u8);
    assert_eq!(&sector[128..136], &[8, 7, 6, 5, 4, 3, 2, 1]);
    assert_eq!(&sector[136..144], &[!8u8, !7u8, !6u8, !5u8, !4u8, !3u8, !2u8, !1u8]);
    assert_eq!(sector[144], 2);
    assert_eq!(sector[145], !2u8);
    assert!(sector[146..].iter().all(|b| *b == 0));
    assert!(sector[16..64].iter().all(|b| *b == 0));
    assert!(sector[100..128].iter().all(|b| *b == 0));
}

#[test]
fn corruption_of_each_field_is_detected() {
    let sector = DiskHeader::default().encode();
    let cases: [(usize, ParseError); 12] = [
        (3, ParseError::UnknownFormat),
        (8, ParseError::IncompatibleVersion),
        (12, ParseError::CorruptVersionNumber),
        (66, ParseError::CorruptCipher),
        (67, ParseError::CorruptCipher),
        (68, ParseError::CorruptEncryptionParameters),
        (84, ParseError::CorruptEncryptionParameters),
        (99, ParseError::CorruptEncryptionParameters),
        (128, ParseError::CorruptStateBlockAddress),
        (136, ParseError::CorruptStateBlockAddress),
        (143, ParseError::CorruptStateBlockAddress),
        (145, ParseError::CorruptStateFlag),
    ];
    for (index, error) in cases.iter() {
        let mut corrupt = sector;
        corrupt[*index] ^= 1;
        assert_eq!(DiskHeader::decode(&corrupt), Err(*error), "byte {}", index);
    }
    // The cipher code itself: 1 is a valid option, so the negation catches it.
    let mut corrupt = sector;
    corrupt[64] = 1;
    assert_eq!(DiskHeader::decode(&corrupt), Err(ParseError::CorruptCipher));
    // The state flag itself: 1 is a valid flag, so the negation catches it.
    let mut corrupt = sector;
    corrupt[144] = 1;
    assert_eq!(DiskHeader::decode(&corrupt), Err(ParseError::CorruptStateFlag));
}

#[test]
fn bytes_outside_the_header_fields_are_ignored() {
    let header = DiskHeader::default();
    let mut sector = header.encode();
    sector[20] = 0xAB;
    sector[110] = 0xCD;
    sector[300] = 0xEF;
    assert_eq!(DiskHeader::decode(&sector), Ok(header));
}

#[test]
fn all_zero_sector_is_unknown_format() {
    let sector = [0u8; SECTOR_SIZE];
    assert_eq!(DiskHeader::decode(&sector), Err(ParseError::UnknownFormat));
}

#[test]
fn magic_number_parsing() {
    assert_eq!(MagicNumber::try_from(b"TFS fmt~"), Ok(MagicNumber::PartialCompatibility));
    assert_eq!(MagicNumber::try_from(b"~TFS fmt"), Err(ParseError::UnknownFormat));
    assert_eq!(MagicNumber::try_from(b"TFS fmt "), Ok(MagicNumber::TotalCompatibility));
    assert_eq!(MagicNumber::try_from(b"TFS fmt"), Err(ParseError::UnknownFormat));
    assert_eq!(MagicNumber::try_from(b"TFS fmt  "), Err(ParseError::UnknownFormat));
    assert_eq!(MagicNumber::try_from(b"tfs fmt "), Err(ParseError::UnknownFormat));
    assert_eq!(&MagicNumber::PartialCompatibility.into_bytes(), b"TFS fmt~");
    assert_eq!(&MagicNumber::TotalCompatibility.into_bytes(), b"TFS fmt ");
}

#[test]
fn cipher_codes() {
    assert_eq!(Cipher::try_from(0), Ok(Cipher::Identity));
    assert_eq!(Cipher::try_from(1), Ok(Cipher::Speck128));
    assert_eq!(Cipher::try_from(2), Err(ParseError::InvalidCipher));
    assert_eq!(Cipher::try_from(0x7FFF), Err(ParseError::InvalidCipher));
    assert_eq!(Cipher::try_from(0x8000), Err(ParseError::UnknownCipher));
    assert_eq!(Cipher::try_from(0xFFFF), Err(ParseError::UnknownCipher));
    assert_eq!(Cipher::Identity.code(), 0);
    assert_eq!(Cipher::Speck128.code(), 1);
}

#[test]
fn state_flag_codes() {
    assert_eq!(StateFlag::try_from(0), Ok(StateFlag::Closed));
    assert_eq!(StateFlag::try_from(1), Ok(StateFlag::Open));
    assert_eq!(StateFlag::try_from(2), Ok(StateFlag::Inconsistent));
    assert_eq!(StateFlag::try_from(3), Err(ParseError::UnknownStateFlag));
    assert_eq!(StateFlag::try_from(0xFF), Err(ParseError::UnknownStateFlag));
    assert_eq!(StateFlag::Closed.code(), 0);
    assert_eq!(StateFlag::Open.code(), 1);
    assert_eq!(StateFlag::Inconsistent.code(), 2);
}

#[test]
fn parse_error_descriptions() {
    assert_eq!(ParseError::UnknownFormat.description(), "Unknown format (not TFS).");
    assert_eq!(ParseError::CorruptStateFlag.description(), "Corrupt state flag.");
    assert_eq!(ParseError::CorruptCipher.description(), "Corrupt cipher option.");
    assert_eq!(
        ParseError::CorruptEncryptionParameters.description(),
        "Corrupt encryption paramters."
    );
    assert_eq!(ParseError::CorruptStateBlockAddress.description(), "Corrupt state block address.");
    assert_eq!(ParseError::CorruptVersionNumber.description(), "Corrupt version number.");
    assert_eq!(ParseError::IncompatibleVersion.description(), "Incompatible version.");
    assert_eq!(ParseError::UnknownCipher.description(), "Unknown cipher option.");
    assert_eq!(ParseError::InvalidCipher.description(), "Invalid cipher option.");
    assert_eq!(ParseError::UnknownStateFlag.description(), "Unknown state flag.");
}
