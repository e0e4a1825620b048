//! The decisions of the driver that turns a disk into a header-less decrypted disk: what opening
//! a disk does to its header, and what closing it does. Reading and writing the header sector is
//! left to the caller, which hands the sector to these functions and writes back what they give.
//!
//! The disk header takes the first `DISK_HEADER_SIZE` bytes of the disk, `HEADER_SECTORS`
//! sectors. The driver's own sectors are numbered from the first sector after them, so that no
//! read or write through the driver reaches the header.
use crate::header::{
    header_check, holds_header, lemma_holds_header_unique, Cipher, DiskHeader, ParseError,
    StateFlag, DISK_HEADER_SIZE, HEADER_BYTES_READ, SECTOR_SIZE, VERSION_NUMBER,
};
use vstd::prelude::*;

verus! {

/// A driver loading error.
#[derive(PartialEq, Eq, Structural, Clone, Copy, Debug)]
pub enum OpenError {
    /// The state flag was set to "inconsistent".
    InconsistentState,
    /// A disk header parsing error.
    Parse(ParseError),
}

impl OpenError {
    /// A short human-readable description of the error.
    pub fn description(&self) -> (r: &'static str)
        ensures
            r@ == spec_open_error_description(*self)@,
    {
        match self {
            OpenError::InconsistentState => "The state flag is marked inconsistent.",
            OpenError::Parse(_) => "Disk header parsing error",
        }
    }
}

/// The description of each loading error.
pub open spec fn spec_open_error_description(e: OpenError) -> &'static str {
    match e {
        OpenError::InconsistentState => "The state flag is marked inconsistent.",
        OpenError::Parse(_) => "Disk header parsing error",
    }
}

/// The number of sectors that the disk header takes at the start of the disk.
pub const HEADER_SECTORS: u64 = 8;

/// The header sectors hold exactly the disk header.
pub proof fn lemma_header_sectors_hold_the_header()
    ensures
        HEADER_SECTORS * SECTOR_SIZE == DISK_HEADER_SIZE,
{
}

/// The sector of the inner disk that holds sector `sector` of the driver, if there is one.
pub open spec fn spec_inner_sector(sector: u64) -> Option<u64> {
    if sector + HEADER_SECTORS <= u64::MAX {
        Some((sector + HEADER_SECTORS) as u64)
    } else {
        None
    }
}

/// The number of sectors of the driver on an inner disk of `inner` sectors.
pub open spec fn spec_visible_sectors(inner: u64) -> u64 {
    if inner >= HEADER_SECTORS {
        (inner - HEADER_SECTORS) as u64
    } else {
        0
    }
}

/// The sector of the inner disk that holds sector `sector` of the driver: the same sector,
/// counted from the first sector after the header. `None` where that is past the last sector
/// number.
pub fn inner_sector(sector: u64) -> (r: Option<u64>)
    ensures
        r == spec_inner_sector(sector),
{
    sector.checked_add(HEADER_SECTORS)
}

/// The number of sectors of the driver on an inner disk of `inner` sectors: those after the
/// header.
pub fn visible_sectors(inner: u64) -> (r: u64)
    ensures
        r == spec_visible_sectors(inner),
{
    inner.saturating_sub(HEADER_SECTORS)
}

/// What opening a disk with header `h` gives: the header to use (and flush) from then on, or the
/// error. A disk in an inconsistent state is refused; otherwise the disk is marked open and its
/// version is updated to the current one.
pub open spec fn spec_opened(h: DiskHeader) -> Result<DiskHeader, OpenError> {
    match h.consistency_flag {
        StateFlag::Inconsistent => Err(OpenError::InconsistentState),
        _ => Ok(
            DiskHeader { consistency_flag: StateFlag::Open, version_number: VERSION_NUMBER, ..h },
        ),
    }
}

/// What opening a disk whose header sector is `b` gives.
pub open spec fn spec_open_sector(b: Seq<u8>) -> Result<DiskHeader, OpenError> {
    match header_check(b) {
        Err(e) => Err(OpenError::Parse(e)),
        Ok(_) => spec_opened(choose|h: DiskHeader| holds_header(b, h)),
    }
}

/// The header after the disk is closed properly.
pub open spec fn spec_closed(h: DiskHeader) -> DiskHeader {
    DiskHeader { consistency_flag: StateFlag::Closed, ..h }
}

/// Decide what opening a disk with the given (decoded) header does.
pub fn open_header(header: DiskHeader) -> (r: Result<DiskHeader, OpenError>)
    ensures
        r == spec_opened(header),
{
    let mut header = header;
    match header.consistency_flag {
        // Set the state flag to open.
        StateFlag::Closed => header.consistency_flag = StateFlag::Open,
        // The disk was not shut down properly; it stays open.
        StateFlag::Open => {},
        // The state inconsistent; throw an error.
        StateFlag::Inconsistent => return Err(OpenError::InconsistentState),
    }
    // Update the version.
    header.version_number = VERSION_NUMBER;
    Ok(header)
}

/// Decode the header sector of a disk and decide what opening the disk does.
pub fn open_sector(sector: &[u8]) -> (r: Result<DiskHeader, OpenError>)
    requires
        sector@.len() >= HEADER_BYTES_READ,
    ensures
        r == spec_open_sector(sector@),
{
    match DiskHeader::decode(sector) {
        Ok(h) => {
            proof {
                let c = choose|g: DiskHeader| holds_header(sector@, g);
                lemma_holds_header_unique(sector@, h, c);
            }
            open_header(h)
        },
        Err(e) => Err(OpenError::Parse(e)),
    }
}

/// The header to flush when the disk is shut down: the state flag is set to closed so that the
/// next opening knows that it was a proper shutdown.
pub fn close_header(header: DiskHeader) -> (r: DiskHeader)
    ensures
        r == spec_closed(header),
{
    let mut header = header;
    header.consistency_flag = StateFlag::Closed;
    header
}

impl DiskHeader {
    /// Whether reads and writes go to the inner disk unchanged: only when encryption is disabled.
    pub fn plaintext_io(&self) -> (r: bool)
        ensures
            r == (self.cipher == Cipher::Identity),
    {
        match self.cipher {
            Cipher::Identity => true,
            _ => false,
        }
    }
}

} // verus!
