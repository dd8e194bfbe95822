//! The volume, and the records on it that say where its files lie.

use crate::date::Timestamp;
use crate::device::{read_exact_at, Device};
use crate::endian::{decode_u16, decode_u32, decode_u64};
use crate::error::HFSPError;
use crate::hfs_file::HFSFile;
use crate::layout::{
    OFFSET_FORK_DATA_EXTENT_RECORD, OFFSET_VOLUME_HEADER, OFFSET_VOLUME_HEADER_FORKS,
    SIZE_EXTENT_DESCRIPTOR, SIZE_FORK_DATA, SIZE_VOLUME_HEADER,
};
use vstd::prelude::*;

verus! {

/// A volume: the one device that everything on it is read from.
#[derive(Debug)]
pub struct FileSystem<F> {
    file: F,
}

/// The 16-bit number that the volume holds `offset` bytes into `structure`.
pub open spec fn u16_in<F: Device, S: Structure<F>>(structure: &S, offset: int) -> Result<
    u16,
    crate::error::HFSPErrorKind,
> {
    crate::layout::u16_at(structure.volume().contents(), structure.base() + offset)
}

/// The 32-bit number that the volume holds `offset` bytes into `structure`.
pub open spec fn u32_in<F: Device, S: Structure<F>>(structure: &S, offset: int) -> Result<
    u32,
    crate::error::HFSPErrorKind,
> {
    crate::layout::u32_at(structure.volume().contents(), structure.base() + offset)
}

/// The 64-bit number that the volume holds `offset` bytes into `structure`.
pub open spec fn u64_in<F: Device, S: Structure<F>>(structure: &S, offset: int) -> Result<
    u64,
    crate::error::HFSPErrorKind,
> {
    crate::layout::u64_at(structure.volume().contents(), structure.base() + offset)
}

/// The instant that the volume holds, as a count of seconds, `offset` bytes into `structure`.
pub open spec fn date_in<F: Device, S: Structure<F>>(structure: &S, offset: int) -> Result<
    Timestamp,
    crate::error::HFSPErrorKind,
> {
    crate::layout::date_at(structure.volume().contents(), structure.base() + offset)
}

/// Something that lies at a known place of a volume and is read from there, field by field,
/// whenever it is asked: nothing is kept between two reads.
pub trait Structure<F: Device>: Sized {
    /// Where the structure starts on the device.
    spec fn base(&self) -> u64;

    /// The volume that the structure lies on.
    spec fn volume(&self) -> &FileSystem<F>;

    /// Where the structure starts on the device.
    fn get_offset(&self) -> (offset: u64)
        ensures
            offset == self.base(),
    ;

    /// The volume that the structure lies on.
    fn get_filesystem(&self) -> (fs: &FileSystem<F>)
        ensures
            fs == self.volume(),
    ;

    /// Up to `len` bytes that lie `offset` bytes into the structure, in one read of the device.
    fn read(&self, offset: u64, len: usize) -> (r: Result<Vec<u8>, std::io::Error>)
        ensures
            r matches Ok(data) ==> data@.len() <= len,
            self.volume().reliable() ==> r is Ok && r->Ok_0@ == crate::device::span(
                self.volume().contents(),
                self.base() + offset,
                len as int,
            ),
    {
        let fs = self.get_filesystem();
        proof {
            fs.file.lemma_contents_fit();
        }
        match self.get_offset().checked_add(offset) {
            Some(pos) => fs.file.read_at(pos, len),
            None => Ok(Vec::new()),
        }
    }

    /// The `len` bytes that lie `offset` bytes into the structure, all of them or a failure.
    fn read_exact(&self, offset: u64, len: usize) -> (r: Result<Vec<u8>, std::io::Error>)
        ensures
            r matches Ok(data) ==> data@.len() == len,
            self.volume().reliable() ==> match r {
                Ok(data) => {
                    &&& crate::device::holds(
                        self.volume().contents(),
                        self.base() + offset,
                        len as int,
                    )
                    &&& data@ == crate::device::span(
                        self.volume().contents(),
                        self.base() + offset,
                        len as int,
                    )
                },
                Err(_) => !crate::device::holds(
                    self.volume().contents(),
                    self.base() + offset,
                    len as int,
                ),
            },
    {
        let fs = self.get_filesystem();
        proof {
            fs.file.lemma_contents_fit();
        }
        match self.get_offset().checked_add(offset) {
            Some(pos) => read_exact_at(&fs.file, pos, len),
            None => if len == 0 {
                Ok(Vec::new())
            } else {
                Err(crate::error::unexpected_eof())
            },
        }
    }

    /// The 16-bit number that lies `offset` bytes into the structure.
    fn read_u16(&self, offset: usize) -> (r: Result<u16, HFSPError>)
        ensures
            crate::error::reads(
                r,
                crate::layout::u16_at(self.volume().contents(), self.base() + offset),
                self.volume().reliable(),
            ),
    {
        match self.read_exact(offset as u64, 2) {
            Ok(data) => Ok(decode_u16(data.as_slice())),
            Err(error) => Err(HFSPError::IOError(error)),
        }
    }

    /// The 32-bit number that lies `offset` bytes into the structure.
    fn read_u32(&self, offset: usize) -> (r: Result<u32, HFSPError>)
        ensures
            crate::error::reads(
                r,
                crate::layout::u32_at(self.volume().contents(), self.base() + offset),
                self.volume().reliable(),
            ),
    {
        match self.read_exact(offset as u64, 4) {
            Ok(data) => Ok(decode_u32(data.as_slice())),
            Err(error) => Err(HFSPError::IOError(error)),
        }
    }

    /// The 64-bit number that lies `offset` bytes into the structure.
    fn read_u64(&self, offset: usize) -> (r: Result<u64, HFSPError>)
        ensures
            crate::error::reads(
                r,
                crate::layout::u64_at(self.volume().contents(), self.base() + offset),
                self.volume().reliable(),
            ),
    {
        match self.read_exact(offset as u64, 8) {
            Ok(data) => Ok(decode_u64(data.as_slice())),
            Err(error) => Err(HFSPError::IOError(error)),
        }
    }

    /// The instant that the 32-bit count of seconds `offset` bytes into the structure stands
    /// for. The count runs from the start of 1904, read as a time in UTC or, with `is_local`,
    /// as a local one; both readings give the same instant.
    #[allow(unused_variables)]
    fn read_date(&self, offset: usize, is_local: bool) -> (r: Result<Timestamp, HFSPError>)
        ensures
            crate::error::reads(
                r,
                crate::layout::date_at(self.volume().contents(), self.base() + offset),
                self.volume().reliable(),
            ),
    {
        match self.read_u32(offset) {
            Ok(seconds) => Ok(Timestamp::from_volume_seconds(seconds)),
            Err(error) => Err(error),
        }
    }
}

impl<F: Device> Structure<F> for FileSystem<F> {
    open spec fn base(&self) -> u64 {
        0
    }

    open spec fn volume(&self) -> &FileSystem<F> {
        self
    }

    fn get_offset(&self) -> (offset: u64) {
        0
    }

    fn get_filesystem(&self) -> (fs: &FileSystem<F>) {
        self
    }
}

impl<F: Device> FileSystem<F> {
    /// The device under the volume.
    pub closed spec fn device(&self) -> &F {
        &self.file
    }

    /// The bytes of the volume.
    pub open spec fn contents(&self) -> Seq<u8> {
        self.device().contents()
    }

    /// Whether the device under the volume answers every request, and in full.
    pub open spec fn reliable(&self) -> bool {
        self.device().reliable()
    }

    /// The volume on the device `file`.
    pub fn new(file: F) -> (fs: FileSystem<F>)
        ensures
            *fs.device() == file,
    {
        FileSystem { file }
    }

    /// The volume header, once the two bytes at its start have been found to be its signature.
    /// Without them there is no header, and so no way to any of its fields.
    pub fn get_volume_header<'a>(&'a self) -> (r: Result<VolumeHeader<'a, F>, HFSPError>)
        ensures
            self.reliable() ==> crate::error::fails_as(
                r,
                crate::layout::bytes_at(
                    self.contents(),
                    OFFSET_VOLUME_HEADER as int,
                    crate::layout::signature(),
                ),
            ),
            r matches Ok(header) ==> header.volume() == self && header.base()
                == OFFSET_VOLUME_HEADER,
            r matches Err(error) ==> error is IOError || error is InvalidVolumeHeader,
    {
        let result = VolumeHeader::new(self, OFFSET_VOLUME_HEADER);
        match result.validate() {
            Ok(()) => Ok(result),
            Err(error) => Err(error),
        }
    }

    /// Compares what the device holds at `offset` with `bytes`.
    fn validate_bytes(&self, offset: u64, bytes: &[u8]) -> (r: Result<(), HFSPError>)
        ensures
            r matches Err(error) ==> error is IOError || error is InvalidVolumeHeader,
            self.reliable() ==> crate::error::answers(
                r,
                crate::layout::bytes_at(self.contents(), offset as int, bytes@),
            ),
    {
        let data = match self.read_exact(offset, bytes.len()) {
            Ok(data) => data,
            Err(error) => {
                return Err(HFSPError::IOError(error));
            },
        };
        let mut i: usize = 0;
        while i < bytes.len()
            invariant
                i <= bytes@.len(),
                data@.len() == bytes@.len(),
                data@.take(i as int) == bytes@.take(i as int),
                self.reliable() ==> crate::device::holds(
                    self.contents(),
                    offset as int,
                    bytes@.len() as int,
                ),
                self.reliable() ==> data@ == crate::device::span(
                    self.contents(),
                    offset as int,
                    bytes@.len() as int,
                ),
            decreases bytes@.len() - i,
        {
            if bytes[i] != data[i] {
                return Err(HFSPError::InvalidVolumeHeader);
            }
            proof {
                assert(data@.take(i + 1) =~= data@.take(i as int).push(data@[i as int]));
                assert(bytes@.take(i + 1) =~= bytes@.take(i as int).push(bytes@[i as int]));
            }
            i += 1;
        }
        proof {
            assert(data@ =~= data@.take(i as int));
            assert(bytes@ =~= bytes@.take(i as int));
        }
        Ok(())
    }
}

/// The volume header: the counts and sizes of the volume, and the fork records of its five
/// special files.
#[derive(Debug)]
pub struct VolumeHeader<'a, F> {
    parent: &'a FileSystem<F>,
    offset: u64,
}

impl<'a, F> VolumeHeader<'a, F> {
    #[verifier::type_invariant]
    spec fn fits(&self) -> bool {
        self.offset + SIZE_VOLUME_HEADER <= u64::MAX
    }
}

impl<'a, F: Device> Structure<F> for VolumeHeader<'a, F> {
    closed spec fn base(&self) -> u64 {
        self.offset
    }

    closed spec fn volume(&self) -> &FileSystem<F> {
        self.parent
    }

    fn get_offset(&self) -> (offset: u64) {
        self.offset
    }

    fn get_filesystem(&self) -> (fs: &FileSystem<F>) {
        self.parent
    }
}

impl<'a, F: Device> VolumeHeader<'a, F> {
    /// The header that lies at `offset`, signature or not.
    fn new(parent: &'a FileSystem<F>, offset: u64) -> (header: VolumeHeader<'a, F>)
        requires
            offset + SIZE_VOLUME_HEADER <= u64::MAX,
        ensures
            header.volume() == parent,
            header.base() == offset,
    {
        VolumeHeader { parent: parent, offset: offset }
    }

    /// Looks for the signature at the start of the header.
    fn validate(&self) -> (r: Result<(), HFSPError>)
        ensures
            r matches Err(error) ==> error is IOError || error is InvalidVolumeHeader,
            self.volume().reliable() ==> crate::error::answers(
                r,
                crate::layout::bytes_at(
                    self.volume().contents(),
                    self.base() as int,
                    crate::layout::signature(),
                ),
            ),
    {
        let signature: [u8; 2] = [0x48, 0x2b];
        assert(signature@ =~= crate::layout::signature());
        self.parent.validate_bytes(self.offset, signature.as_slice())
    }

    /// The version of the volume format.
    pub fn get_version(&self) -> (r: Result<u16, HFSPError>)
        ensures
            crate::error::reads(r, u16_in(self, 2), self.volume().reliable()),
    {
        self.read_u16(2)
    }

    /// The number of files on the volume.
    pub fn get_file_count(&self) -> (r: Result<u32, HFSPError>)
        ensures
            crate::error::reads(r, u32_in(self, 32), self.volume().reliable()),
    {
        self.read_u32(32)
    }

    /// The number of folders on the volume.
    pub fn get_folder_count(&self) -> (r: Result<u32, HFSPError>)
        ensures
            crate::error::reads(r, u32_in(self, 36), self.volume().reliable()),
    {
        self.read_u32(36)
    }

    /// The size of an allocation block, in bytes.
    pub fn get_block_size(&self) -> (r: Result<u32, HFSPError>)
        ensures
            crate::error::reads(r, u32_in(self, 40), self.volume().reliable()),
    {
        self.read_u32(40)
    }

    /// The number of allocation blocks on the volume.
    pub fn get_total_blocks(&self) -> (r: Result<u32, HFSPError>)
        ensures
            crate::error::reads(r, u32_in(self, 44), self.volume().reliable()),
    {
        self.read_u32(44)
    }

    /// The number of allocation blocks that no file takes up.
    pub fn get_free_blocks(&self) -> (r: Result<u32, HFSPError>)
        ensures
            crate::error::reads(r, u32_in(self, 48), self.volume().reliable()),
    {
        self.read_u32(48)
    }

    /// The date of the last change to the volume.
    pub fn get_modify_date(&self) -> (r: Result<Timestamp, HFSPError>)
        ensures
            crate::error::reads(r, date_in(self, 20), self.volume().reliable()),
    {
        self.read_date(20, false)
    }

    /// The date of the last backup of the volume.
    pub fn get_backup_date(&self) -> (r: Result<Timestamp, HFSPError>)
        ensures
            crate::error::reads(r, date_in(self, 24), self.volume().reliable()),
    {
        self.read_date(24, false)
    }

    /// The date of the last check of the volume, which is read from the place of the backup
    /// date.
    pub fn get_checked_date(&self) -> (r: Result<Timestamp, HFSPError>)
        ensures
            crate::error::reads(r, date_in(self, 24), self.volume().reliable()),
    {
        self.read_date(24, false)
    }

    /// The fork record in place `index` of the five that the header holds.
    fn fork_data(&self, index: u64) -> (fork: ForkData<'a, F>)
        requires
            index < 5,
        ensures
            fork.volume() == self.volume(),
            fork.base() == self.base() + OFFSET_VOLUME_HEADER_FORKS + SIZE_FORK_DATA * index,
    {
        proof {
            use_type_invariant(self);
        }
        ForkData::new(
            self.parent,
            self.offset + OFFSET_VOLUME_HEADER_FORKS + SIZE_FORK_DATA * index,
        )
    }

    /// The file, before its first read, of the fork record in place `index` of the header.
    pub open spec fn file_plan(&self, index: int) -> Result<
        crate::hfs_file::HFSFileView,
        crate::error::HFSPErrorKind,
    > {
        crate::hfs_file::file_plan(
            self.volume().contents(),
            self.volume().contents(),
            self.base() + OFFSET_VOLUME_HEADER_FORKS + SIZE_FORK_DATA * index,
        )
    }

    /// The allocation file.
    pub fn get_file_allocation(&self) -> (r: Result<HFSFile<'a, F>, HFSPError>)
        ensures
            crate::hfs_file::opens(r, self.volume()),
            self.volume().reliable() ==> crate::error::answers(
                crate::hfs_file::view_of(r),
                self.file_plan(0),
            ),
    {
        HFSFile::new(self.parent, self.get_fork_data_allocation())
    }

    /// The extents overflow file.
    pub fn get_file_extents(&self) -> (r: Result<HFSFile<'a, F>, HFSPError>)
        ensures
            crate::hfs_file::opens(r, self.volume()),
            self.volume().reliable() ==> crate::error::answers(
                crate::hfs_file::view_of(r),
                self.file_plan(1),
            ),
    {
        HFSFile::new(self.parent, self.get_fork_data_extents())
    }

    /// The catalog file.
    pub fn get_file_catalog(&self) -> (r: Result<HFSFile<'a, F>, HFSPError>)
        ensures
            crate::hfs_file::opens(r, self.volume()),
            self.volume().reliable() ==> crate::error::answers(
                crate::hfs_file::view_of(r),
                self.file_plan(2),
            ),
    {
        HFSFile::new(self.parent, self.get_fork_data_catalog())
    }

    /// The attributes file.
    pub fn get_file_attributes(&self) -> (r: Result<HFSFile<'a, F>, HFSPError>)
        ensures
            crate::hfs_file::opens(r, self.volume()),
            self.volume().reliable() ==> crate::error::answers(
                crate::hfs_file::view_of(r),
                self.file_plan(3),
            ),
    {
        HFSFile::new(self.parent, self.get_fork_data_attributes())
    }

    /// The startup file.
    pub fn get_file_startup(&self) -> (r: Result<HFSFile<'a, F>, HFSPError>)
        ensures
            crate::hfs_file::opens(r, self.volume()),
            self.volume().reliable() ==> crate::error::answers(
                crate::hfs_file::view_of(r),
                self.file_plan(4),
            ),
    {
        HFSFile::new(self.parent, self.get_fork_data_startup())
    }

    /// The fork record of the allocation file.
    pub fn get_fork_data_allocation(&self) -> (fork: ForkData<'a, F>)
        ensures
            fork.volume() == self.volume(),
            fork.base() == self.base() + OFFSET_VOLUME_HEADER_FORKS,
    {
        self.fork_data(0)
    }

    /// The fork record of the extents overflow file.
    pub fn get_fork_data_extents(&self) -> (fork: ForkData<'a, F>)
        ensures
            fork.volume() == self.volume(),
            fork.base() == self.base() + OFFSET_VOLUME_HEADER_FORKS + SIZE_FORK_DATA,
    {
        self.fork_data(1)
    }

    /// The fork record of the catalog file.
    pub fn get_fork_data_catalog(&self) -> (fork: ForkData<'a, F>)
        ensures
            fork.volume() == self.volume(),
            fork.base() == self.base() + OFFSET_VOLUME_HEADER_FORKS + SIZE_FORK_DATA * 2,
    {
        self.fork_data(2)
    }

    /// The fork record of the attributes file.
    pub fn get_fork_data_attributes(&self) -> (fork: ForkData<'a, F>)
        ensures
            fork.volume() == self.volume(),
            fork.base() == self.base() + OFFSET_VOLUME_HEADER_FORKS + SIZE_FORK_DATA * 3,
    {
        self.fork_data(3)
    }

    /// The fork record of the startup file.
    pub fn get_fork_data_startup(&self) -> (fork: ForkData<'a, F>)
        ensures
            fork.volume() == self.volume(),
            fork.base() == self.base() + OFFSET_VOLUME_HEADER_FORKS + SIZE_FORK_DATA * 4,
    {
        self.fork_data(4)
    }
}

/// A fork record: the length of one file of the volume, and the first eight of the extents that
/// hold it.
#[derive(Debug)]
pub struct ForkData<'a, F> {
    parent: &'a FileSystem<F>,
    offset: u64,
}

impl<'a, F> ForkData<'a, F> {
    #[verifier::type_invariant]
    spec fn fits(&self) -> bool {
        self.offset + SIZE_FORK_DATA <= u64::MAX
    }
}

impl<'a, F: Device> Structure<F> for ForkData<'a, F> {
    closed spec fn base(&self) -> u64 {
        self.offset
    }

    closed spec fn volume(&self) -> &FileSystem<F> {
        self.parent
    }

    fn get_offset(&self) -> (offset: u64) {
        self.offset
    }

    fn get_filesystem(&self) -> (fs: &FileSystem<F>) {
        self.parent
    }
}

impl<'a, F: Device> ForkData<'a, F> {
    /// The fork record that lies at `offset`.
    fn new(parent: &'a FileSystem<F>, offset: u64) -> (fork: ForkData<'a, F>)
        requires
            offset + SIZE_FORK_DATA <= u64::MAX,
        ensures
            fork.volume() == parent,
            fork.base() == offset,
    {
        ForkData { parent: parent, offset: offset }
    }

    /// The length of the file, in bytes.
    pub fn get_logical_size(&self) -> (r: Result<u64, HFSPError>)
        ensures
            crate::error::reads(r, u64_in(self, 0), self.volume().reliable()),
    {
        self.read_u64(0)
    }

    /// The number of bytes by which the file grows at a time.
    pub fn get_clump_size(&self) -> (r: Result<u32, HFSPError>)
        ensures
            crate::error::reads(r, u32_in(self, 8), self.volume().reliable()),
    {
        self.read_u32(8)
    }

    /// The number of allocation blocks that the file takes up, over all its extents.
    pub fn get_total_blocks(&self) -> (r: Result<u32, HFSPError>)
        ensures
            crate::error::reads(r, u32_in(self, 12), self.volume().reliable()),
    {
        self.read_u32(12)
    }

    /// The number of extent descriptors in the record, filled or not.
    pub fn num_extent_descriptors(&self) -> (count: usize)
        ensures
            count == crate::layout::EXTENTS_PER_FORK,
    {
        crate::layout::EXTENTS_PER_FORK
    }

    /// The extent descriptor in place `index` of the record.
    pub fn get_extent_descriptor(&self, index: usize) -> (extent: ExtentDescriptor<'a, F>)
        requires
            index < crate::layout::EXTENTS_PER_FORK,
        ensures
            extent.volume() == self.volume(),
            extent.base() == self.base() + OFFSET_FORK_DATA_EXTENT_RECORD + SIZE_EXTENT_DESCRIPTOR
                * index,
    {
        proof {
            use_type_invariant(self);
        }
        ExtentDescriptor::new(
            self.parent,
            self.offset + OFFSET_FORK_DATA_EXTENT_RECORD + SIZE_EXTENT_DESCRIPTOR * (index as u64),
        )
    }
}

/// An extent descriptor: a run of allocation blocks, by its first block and its length.
#[derive(Debug)]
pub struct ExtentDescriptor<'a, F> {
    parent: &'a FileSystem<F>,
    offset: u64,
}

impl<'a, F> ExtentDescriptor<'a, F> {
    #[verifier::type_invariant]
    spec fn fits(&self) -> bool {
        self.offset + SIZE_EXTENT_DESCRIPTOR <= u64::MAX
    }
}

impl<'a, F: Device> Structure<F> for ExtentDescriptor<'a, F> {
    closed spec fn base(&self) -> u64 {
        self.offset
    }

    closed spec fn volume(&self) -> &FileSystem<F> {
        self.parent
    }

    fn get_offset(&self) -> (offset: u64) {
        self.offset
    }

    fn get_filesystem(&self) -> (fs: &FileSystem<F>) {
        self.parent
    }
}

impl<'a, F: Device> ExtentDescriptor<'a, F> {
    /// The extent descriptor that lies at `offset`.
    fn new(parent: &'a FileSystem<F>, offset: u64) -> (extent: ExtentDescriptor<'a, F>)
        requires
            offset + SIZE_EXTENT_DESCRIPTOR <= u64::MAX,
        ensures
            extent.volume() == parent,
            extent.base() == offset,
    {
        ExtentDescriptor { parent: parent, offset: offset }
    }

    /// The allocation block that the extent starts with.
    pub fn get_start_block(&self) -> (r: Result<u32, HFSPError>)
        ensures
            crate::error::reads(r, u32_in(self, 0), self.volume().reliable()),
    {
        self.read_u32(0)
    }

    /// The number of allocation blocks in the extent.
    pub fn get_block_count(&self) -> (r: Result<u32, HFSPError>)
        ensures
            crate::error::reads(r, u32_in(self, 4), self.volume().reliable()),
    {
        self.read_u32(4)
    }
}

} // verus!
