//! Reading the files of an HFS+ volume straight from the bytes of its image.
//!
//! A [`FileSystem`] stands on a [`Device`], the bytes of the volume: a [`MemoryDevice`], a
//! [`FileSlice`] of another device, or any [`Source`] taken as [`Untrusted`]. From the volume
//! comes its [`VolumeHeader`], from the header its five [`ForkData`] records, and from a fork
//! record an [`HFSFile`], which lays the extents of the fork end to end and reads them as one
//! file.
//!
//! What is read is stated over the bytes of the device, and holds where the device is reliable:
//! where it hands out what it holds, whenever it is asked.

pub mod date;
pub mod device;
pub mod endian;
pub mod error;
pub mod file_slice;
pub mod filesystem;
pub mod hfs_file;
pub mod layout;
pub mod seek;

pub use date::Timestamp;
pub use device::{Device, MemoryDevice, Source, Untrusted};
pub use error::{HFSPError, HFSPErrorKind};
pub use file_slice::FileSlice;
pub use filesystem::{ExtentDescriptor, FileSystem, ForkData, Structure, VolumeHeader};
pub use hfs_file::HFSFile;
pub use seek::SeekFrom;
