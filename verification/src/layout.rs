//! Where the volume keeps what, and what the bytes found there say.

use vstd::prelude::*;

verus! {

/// Where the volume header starts on the device.
pub const OFFSET_VOLUME_HEADER: u64 = 1024;

/// The length of the volume header: its fields, then five fork records.
pub const SIZE_VOLUME_HEADER: u64 = OFFSET_VOLUME_HEADER_FORKS + 5 * SIZE_FORK_DATA;

/// Where the first fork record starts in the volume header.
pub const OFFSET_VOLUME_HEADER_FORKS: u64 = 112;

/// Where the extent descriptors start in a fork record.
pub const OFFSET_FORK_DATA_EXTENT_RECORD: u64 = 16;

/// The length of an extent descriptor.
pub const SIZE_EXTENT_DESCRIPTOR: u64 = 8;

/// The number of extent descriptors in a fork record.
pub const EXTENTS_PER_FORK: usize = 8;

/// The length of the eight extent descriptors of a fork record.
pub const SIZE_EXTENT_RECORD: u64 = SIZE_EXTENT_DESCRIPTOR * 8;

/// The length of a fork record: its sizes, then its extent descriptors.
pub const SIZE_FORK_DATA: u64 = OFFSET_FORK_DATA_EXTENT_RECORD + SIZE_EXTENT_RECORD;

/// The two bytes that open a volume header: `H+`.
pub open spec fn signature() -> Seq<u8> {
    seq![0x48u8, 0x2bu8]
}

/// The 16-bit number that `contents` holds at `pos`; an I/O failure where it ends before.
pub open spec fn u16_at(contents: Seq<u8>, pos: int) -> Result<u16, crate::error::HFSPErrorKind> {
    if crate::device::holds(contents, pos, 2) {
        Ok(crate::endian::be_value(crate::device::span(contents, pos, 2)) as u16)
    } else {
        Err(crate::error::HFSPErrorKind::IOError)
    }
}

/// The 32-bit number that `contents` holds at `pos`; an I/O failure where it ends before.
pub open spec fn u32_at(contents: Seq<u8>, pos: int) -> Result<u32, crate::error::HFSPErrorKind> {
    if crate::device::holds(contents, pos, 4) {
        Ok(crate::endian::be_value(crate::device::span(contents, pos, 4)) as u32)
    } else {
        Err(crate::error::HFSPErrorKind::IOError)
    }
}

/// The 64-bit number that `contents` holds at `pos`; an I/O failure where it ends before.
pub open spec fn u64_at(contents: Seq<u8>, pos: int) -> Result<u64, crate::error::HFSPErrorKind> {
    if crate::device::holds(contents, pos, 8) {
        Ok(crate::endian::be_value(crate::device::span(contents, pos, 8)) as u64)
    } else {
        Err(crate::error::HFSPErrorKind::IOError)
    }
}

/// The instant that the 32-bit count of seconds at `pos` stands for.
pub open spec fn date_at(contents: Seq<u8>, pos: int) -> Result<
    crate::date::Timestamp,
    crate::error::HFSPErrorKind,
> {
    match u32_at(contents, pos) {
        Ok(seconds) => Ok(crate::date::instant_of(seconds)),
        Err(kind) => Err(kind),
    }
}

/// Whether `contents` holds `bytes` at `pos`: success where it does, an invalid volume header
/// where it holds other bytes, an I/O failure where it ends before.
pub open spec fn bytes_at(contents: Seq<u8>, pos: int, bytes: Seq<u8>) -> Result<
    (),
    crate::error::HFSPErrorKind,
> {
    if !crate::device::holds(contents, pos, bytes.len() as int) {
        Err(crate::error::HFSPErrorKind::IOError)
    } else if crate::device::span(contents, pos, bytes.len() as int) == bytes {
        Ok(())
    } else {
        Err(crate::error::HFSPErrorKind::InvalidVolumeHeader)
    }
}

/// Without the signature there is no volume header: where the device holds two bytes at the
/// place of the header and they are not the signature, the header is invalid.
pub proof fn lemma_header_needs_signature(contents: Seq<u8>)
    requires
        crate::device::holds(contents, OFFSET_VOLUME_HEADER as int, 2),
        crate::device::span(contents, OFFSET_VOLUME_HEADER as int, 2) != signature(),
    ensures
        bytes_at(contents, OFFSET_VOLUME_HEADER as int, signature()) == Err::<
            (),
            crate::error::HFSPErrorKind,
        >(crate::error::HFSPErrorKind::InvalidVolumeHeader),
{
}

} // verus!
