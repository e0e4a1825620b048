# tfs_header

The disk header of a TFS disk image, verified with Verus.

- `src/header.rs`: the header's types, the sector layout as spec functions, and the verified
  `DiskHeader::decode` / `DiskHeader::encode`.
- `src/driver.rs`: what opening and closing a disk does to its header.
- `src/le.rs`: little-endian integers as bytes, and byte-wise negation.
- `src/laws.rs`: proved properties across these functions.
- `app/lib.rs`: the disk driver that does the I/O around the verified decisions.
- `tests/`: executable tests.
