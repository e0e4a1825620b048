use tfs_header::driver::{
    close_header, inner_sector, open_header, open_sector, visible_sectors, OpenError, HEADER_SECTORS,
};
use tfs_header::header::{DISK_HEADER_SIZE, SECTOR_SIZE};
use tfs_header::header::{Cipher, DiskHeader, ParseError, StateFlag, VERSION_NUMBER};

#[test]
fn fresh_disk_opens() {
    let sector = DiskHeader::default().encode();
    let mut expected = DiskHeader::default();
    expected.consistency_flag = StateFlag::Open;
    assert_eq!(open_sector(&sector), Ok(expected));
}

#[test]
fn reopen_after_close() {
    let mut header = DiskHeader::default();
    header.state_block_address = 77;
    header.cipher = Cipher::Speck128;
    header.consistency_flag = StateFlag::Open;
    let closed = close_header(header);
    assert_eq!(closed.consistency_flag, StateFlag::Closed);
    assert_eq!(open_sector(&closed.encode()), Ok(header));
}

#[test]
fn inconsistent_disk_is_refused() {
    let mut header = DiskHeader::default();
    header.consistency_flag = StateFlag::Inconsistent;
    assert_eq!(open_sector(&header.encode()), Err(OpenError::InconsistentState));
    assert_eq!(open_header(header), Err(OpenError::InconsistentState));
}

#[test]
fn forcibly_shut_down_disk_stays_open() {
    let mut header = DiskHeader::default();
    header.consistency_flag = StateFlag::Open;
    assert_eq!(open_header(header), Ok(header));
}

#[test]
fn opening_updates_the_version() {
    let mut header = DiskHeader::default();
    header.version_number = 0xABCD;
    let opened = open_header(header).unwrap();
    assert_eq!(opened.version_number, VERSION_NUMBER);
    assert_eq!(opened.consistency_flag, StateFlag::Open);
}

#[test]
fn parse_errors_are_passed_on() {
    let mut sector = DiskHeader::default().encode();
    sector[1] = 0;
    assert_eq!(open_sector(&sector), Err(OpenError::Parse(ParseError::UnknownFormat)));
    let mut sector = DiskHeader::default().encode();
    sector[145] = 0;
    assert_eq!(open_sector(&sector), Err(OpenError::Parse(ParseError::CorruptStateFlag)));
}

#[test]
fn plaintext_io_only_without_encryption() {
    let mut header = DiskHeader::default();
    assert!(header.plaintext_io());
    header.cipher = Cipher::Speck128;
    assert!(!header.plaintext_io());
}

#[test]
fn driver_sectors_start_after_the_header() {
    assert_eq!(HEADER_SECTORS as usize * SECTOR_SIZE, DISK_HEADER_SIZE);
    assert_eq!(inner_sector(0), Some(8));
    assert_eq!(inner_sector(41), Some(49));
    assert_eq!(inner_sector(u64::MAX - 8), Some(u64::MAX));
    assert_eq!(inner_sector(u64::MAX - 7), None);
    assert_eq!(inner_sector(u64::MAX), None);
}

#[test]
fn driver_sector_count_excludes_the_header() {
    assert_eq!(visible_sectors(100), 92);
    assert_eq!(visible_sectors(8), 0);
    assert_eq!(visible_sectors(3), 0);
    assert_eq!(visible_sectors(0), 0);
}

#[test]
fn open_error_descriptions() {
    assert_eq!(OpenError::InconsistentState.description(), "The state flag is marked inconsistent.");
    assert_eq!(
        OpenError::Parse(ParseError::UnknownFormat).description(),
        "Disk header parsing error"
    );
}
