//! A file of the volume, put together from the extents that hold it.

use crate::device::Device;
use crate::error::HFSPError;
use crate::filesystem::{FileSystem, ForkData, Structure};
use crate::layout::EXTENTS_PER_FORK;
use crate::seek::SeekFrom;
use vstd::prelude::*;

verus! {

/// The extent that the descriptor in place `index` of the fork record at `fork_base` describes,
/// as its first block and its number of blocks.
pub open spec fn extent_at(contents: Seq<u8>, fork_base: int, index: int) -> Result<
    (u32, u32),
    crate::error::HFSPErrorKind,
> {
    let at = fork_base + crate::layout::OFFSET_FORK_DATA_EXTENT_RECORD
        + crate::layout::SIZE_EXTENT_DESCRIPTOR * index;
    match (crate::layout::u32_at(contents, at), crate::layout::u32_at(contents, at + 4)) {
        (Ok(start), Ok(count)) => Ok((start, count)),
        _ => Err(crate::error::HFSPErrorKind::IOError),
    }
}

/// The eight extents of the fork record at `fork_base`. Where the device ends before a
/// descriptor, the extent counts as one without blocks.
pub open spec fn extent_record(contents: Seq<u8>, fork_base: int) -> Seq<(u32, u32)> {
    Seq::new(
        EXTENTS_PER_FORK as nat,
        |index: int|
            match extent_at(contents, fork_base, index) {
                Ok(extent) => extent,
                Err(_) => (0u32, 0u32),
            },
    )
}

/// The number of blocks in the first `n` of `extents`.
pub open spec fn blocks_in(extents: Seq<(u32, u32)>, n: nat) -> nat
    decreases n,
{
    if n == 0 {
        0
    } else {
        blocks_in(extents, (n - 1) as nat) + extents[n - 1].1 as nat
    }
}

/// The number of bytes that the first `n` of `extents` hold.
pub open spec fn covered(extents: Seq<(u32, u32)>, n: nat, block_size: nat) -> nat {
    blocks_in(extents, n) * block_size
}

/// The number of extents, counted from the first, that it takes to hold `length` bytes, where
/// the first `n` do not; all of them where all do not.
pub open spec fn extents_used_from(
    extents: Seq<(u32, u32)>,
    block_size: nat,
    length: nat,
    n: nat,
) -> nat
    decreases extents.len() - n,
{
    if n >= extents.len() || covered(extents, n, block_size) >= length {
        n
    } else {
        extents_used_from(extents, block_size, length, n + 1)
    }
}

/// The number of extents, counted from the first, that it takes to hold `length` bytes: the
/// least number that covers them, and all of them where all do not.
pub open spec fn extents_used(extents: Seq<(u32, u32)>, block_size: nat, length: nat) -> nat {
    extents_used_from(extents, block_size, length, 0)
}

/// The extent table of a file of `length` bytes that lies in `extents`: one row for each extent
/// used, with the place in the file where the extent starts, in bytes, and the block of the
/// volume where it starts.
pub open spec fn extent_table(extents: Seq<(u32, u32)>, block_size: nat, length: nat) -> Seq<
    (u64, u32),
> {
    Seq::new(
        extents_used(extents, block_size, length),
        |index: int| (covered(extents, index as nat, block_size) as u64, extents[index].0),
    )
}

/// The extent table of the file of `length` bytes whose fork record lies at `fork_base`. The
/// descriptors are read one by one as far as they are needed: the read fails where the device
/// ends before one of those, and a file that the eight of them do not cover is not supported.
pub open spec fn table_plan(
    contents: Seq<u8>,
    fork_base: int,
    length: u64,
    block_size: u32,
) -> Result<Seq<(u64, u32)>, crate::error::HFSPErrorKind> {
    let extents = extent_record(contents, fork_base);
    let used = extents_used(extents, block_size as nat, length as nat);
    if !crate::device::holds(
        contents,
        fork_base + crate::layout::OFFSET_FORK_DATA_EXTENT_RECORD,
        crate::layout::SIZE_EXTENT_DESCRIPTOR * used,
    ) {
        Err(crate::error::HFSPErrorKind::IOError)
    } else if covered(extents, used, block_size as nat) < length {
        Err(crate::error::HFSPErrorKind::ExtentOverflowNotSupported)
    } else {
        Ok(extent_table(extents, block_size as nat, length as nat))
    }
}

/// What a file is: its length and the block size of its volume, both in bytes, its extent table,
/// and the place in the file where the next read starts.
pub struct HFSFileView {
    pub length: u64,
    pub block_size: u64,
    pub extents: Seq<(u64, u32)>,
    pub position: u64,
}

/// The file, before its first read, whose fork record lies at `fork_base` in `fork`, on the
/// volume with the bytes `volume`. Its length comes from the fork record, its block size from
/// the volume header, and then its extent table from the fork record again.
pub open spec fn file_plan(volume: Seq<u8>, fork: Seq<u8>, fork_base: int) -> Result<
    HFSFileView,
    crate::error::HFSPErrorKind,
> {
    let header = crate::layout::OFFSET_VOLUME_HEADER as int;
    match crate::layout::u64_at(fork, fork_base) {
        Err(kind) => Err(kind),
        Ok(length) => match crate::layout::bytes_at(volume, header, crate::layout::signature()) {
            Err(kind) => Err(kind),
            Ok(_) => match crate::layout::u32_at(volume, header + 40) {
                Err(kind) => Err(kind),
                Ok(block_size) => file_after(
                    table_plan(fork, fork_base, length, block_size),
                    length,
                    block_size,
                ),
            },
        },
    }
}

/// The file of `length` bytes, before its first read, that has the extent table `table`, where
/// there is one.
pub open spec fn file_after(
    table: Result<Seq<(u64, u32)>, crate::error::HFSPErrorKind>,
    length: u64,
    block_size: u32,
) -> Result<HFSFileView, crate::error::HFSPErrorKind> {
    match table {
        Err(kind) => Err(kind),
        Ok(extents) => Ok(
            HFSFileView { length, block_size: block_size as u64, extents, position: 0 },
        ),
    }
}

/// What holds when the first `read` descriptors of the fork record at `fork_base` have been
/// read and found to fall short of `length`, each before the next: `seen_blocks` is the number
/// of their blocks, `rows` are their rows of the extent table, and the number of extents that
/// the file takes is to be found from there on.
spec fn scanned(
    contents: Seq<u8>,
    fork_base: int,
    length: u64,
    block_size: u32,
    read: nat,
    seen_blocks: nat,
    rows: Seq<(u64, u32)>,
) -> bool {
    let extents = extent_record(contents, fork_base);
    &&& seen_blocks == blocks_in(extents, read)
    &&& extents_used(extents, block_size as nat, length as nat) == extents_used_from(
        extents,
        block_size as nat,
        length as nat,
        read,
    )
    &&& crate::device::holds(
        contents,
        fork_base + crate::layout::OFFSET_FORK_DATA_EXTENT_RECORD,
        crate::layout::SIZE_EXTENT_DESCRIPTOR * read,
    )
    &&& forall|i: int|
        0 <= i < read ==> #[trigger] rows[i] == (
            covered(extents, i as nat, block_size as nat) as u64,
            extents[i].0,
        )
}

/// Whether the rows of `extents` stand in the order of their places in the file.
pub open spec fn ordered(extents: Seq<(u64, u32)>) -> bool {
    forall|i: int, j: int| 0 <= i <= j < extents.len() ==> extents[i].0 <= extents[j].0
}

/// The last row of `extents` that starts at or before `position`, by its index; -1 where there
/// is none.
pub open spec fn floor_index(extents: Seq<(u64, u32)>, position: int) -> int
    decreases extents.len(),
{
    if extents.len() == 0 {
        -1
    } else if extents.last().0 <= position {
        extents.len() - 1
    } else {
        floor_index(extents.drop_last(), position)
    }
}

/// The place on the volume, in bytes, of the byte that the cursor of `file` stands on: as far
/// into the extent that the cursor lies in as the cursor is past the start of that extent.
pub open spec fn physical_offset(file: HFSFileView) -> int {
    let row = file.extents[floor_index(file.extents, file.position as int)];
    row.1 * file.block_size + (file.position - row.0)
}

/// The number of bytes that a read into a buffer of `capacity` bytes asks of the volume: as
/// many as the buffer takes, and no more than lie between the cursor and the end of the file.
pub open spec fn read_size(file: HFSFileView, capacity: int) -> int {
    if capacity < file.length - file.position {
        capacity
    } else {
        file.length - file.position
    }
}

/// The place in the file that a seek to `from` moves the cursor to.
pub open spec fn seek_target(file: HFSFileView, from: SeekFrom) -> int {
    match from {
        SeekFrom::Start(offset) => offset as int,
        SeekFrom::End(offset) => file.length + offset,
        SeekFrom::Current(offset) => file.position + offset,
    }
}

/// Whether `extents` is a table that a file of `length` bytes can have: at most eight rows, in
/// the order of their places in the file, each at a place that the file has, and the first of
/// them, which only an empty file is without, at the start of the file.
pub open spec fn well_laid(extents: Seq<(u64, u32)>, length: u64) -> bool {
    &&& extents.len() <= EXTENTS_PER_FORK
    &&& ordered(extents)
    &&& forall|i: int| 0 <= i < extents.len() ==> (#[trigger] extents[i]).0 < length
    &&& length > 0 ==> extents.len() > 0 && extents[0].0 == 0
}

/// A file of the volume: its extents laid end to end, with a cursor to read from.
#[derive(Debug)]
pub struct HFSFile<'a, F> {
    parent: &'a FileSystem<F>,
    length: u64,
    block_size: u64,
    offsets: Vec<(u64, u32)>,
    offset: u64,
}

impl<'a, F> HFSFile<'a, F> {
    #[verifier::type_invariant]
    spec fn well_formed(&self) -> bool {
        &&& self.block_size <= u32::MAX
        &&& well_laid(self.offsets@, self.length)
    }
}

impl<'a, F: Device> View for HFSFile<'a, F> {
    type V = HFSFileView;

    closed spec fn view(&self) -> HFSFileView {
        HFSFileView {
            length: self.length,
            block_size: self.block_size,
            extents: self.offsets@,
            position: self.offset,
        }
    }
}

/// What came of opening a file, with the file taken for what it is.
pub open spec fn view_of<'a, F: Device>(r: Result<HFSFile<'a, F>, HFSPError>) -> Result<
    HFSFileView,
    HFSPError,
> {
    match r {
        Ok(file) => Ok(file@),
        Err(error) => Err(error),
    }
}

/// What holds of every file as it is opened on `volume`, and of every failure to open one: the
/// file is read from that volume, its cursor is at its start, and its extent table is well
/// laid; the failure is no invalid window.
pub open spec fn opens<'a, F: Device>(
    r: Result<HFSFile<'a, F>, HFSPError>,
    volume: &FileSystem<F>,
) -> bool {
    match r {
        Ok(file) => file.volume() == volume && file@.position == 0 && well_laid(
            file@.extents,
            file@.length,
        ),
        Err(error) => !(error is InvalidFileView),
    }
}

impl<'a, F: Device> HFSFile<'a, F> {
    /// The volume that the file is read from.
    pub closed spec fn volume(&self) -> &FileSystem<F> {
        self.parent
    }

    /// The file of the fork record `fork_data`, on the volume `parent`, with its cursor at the
    /// start. There is no file where a read fails, where the volume has no valid header to take
    /// the block size from, or where the eight extents of the record do not cover the file.
    pub fn new(parent: &'a FileSystem<F>, fork_data: ForkData<'a, F>) -> (r: Result<
        HFSFile<'a, F>,
        HFSPError,
    >)
        ensures
            opens(r, parent),
            parent.reliable() && fork_data.volume().reliable() ==> crate::error::answers(
                view_of(r),
                file_plan(
                    parent.contents(),
                    fork_data.volume().contents(),
                    fork_data.base() as int,
                ),
            ),
    {
        let length: u64 = match fork_data.get_logical_size() {
            Ok(length) => length,
            Err(error) => {
                return Err(error);
            },
        };
        let header = match parent.get_volume_header() {
            Ok(header) => header,
            Err(error) => {
                return Err(error);
            },
        };
        let block_size: u32 = match header.get_block_size() {
            Ok(block_size) => block_size,
            Err(error) => {
                return Err(error);
            },
        };
        let ghost contents = fork_data.volume().contents();
        let ghost base = fork_data.base() as int;
        let ghost reliable = parent.reliable() && fork_data.volume().reliable();
        let ghost plan = file_plan(parent.contents(), contents, base);
        let mut offsets: Vec<(u64, u32)> = Vec::new();
        let mut seen_blocks: u64 = 0;
        let mut end_offset_bytes: u128 = 0;
        let mut idx: usize = 0;
        assert(seen_blocks * block_size == 0) by (nonlinear_arith)
            requires
                seen_blocks == 0,
        ;
        while idx < EXTENTS_PER_FORK && end_offset_bytes < length as u128
            invariant
                idx <= EXTENTS_PER_FORK,
                contents == fork_data.volume().contents(),
                base == fork_data.base(),
                reliable == (parent.reliable() && fork_data.volume().reliable()),
                plan == file_plan(parent.contents(), contents, base),
                reliable ==> plan == file_after(
                    table_plan(contents, base, length, block_size),
                    length,
                    block_size,
                ),
                reliable ==> scanned(
                    contents,
                    base,
                    length,
                    block_size,
                    idx as nat,
                    seen_blocks as nat,
                    offsets@,
                ),
                seen_blocks <= idx * u32::MAX,
                end_offset_bytes == seen_blocks * block_size,
                idx == 0 ==> end_offset_bytes == 0,
                offsets@.len() == idx,
                forall|i: int| 0 <= i < idx ==> (#[trigger] offsets@[i]).0 <= end_offset_bytes,
                forall|i: int| 0 <= i < idx ==> (#[trigger] offsets@[i]).0 < length,
                ordered(offsets@),
                idx > 0 ==> offsets@[0].0 == 0,
            decreases EXTENTS_PER_FORK - idx,
        {
            let descriptor = fork_data.get_extent_descriptor(idx);
            let start: u32 = match descriptor.get_start_block() {
                Ok(start) => start,
                Err(error) => {
                    proof {
                        lemma_extents_used_from_at_least(
                            extent_record(contents, base),
                            block_size as nat,
                            length as nat,
                            idx as nat + 1,
                        );
                    }
                    return Err(error);
                },
            };
            let count: u32 = match descriptor.get_block_count() {
                Ok(count) => count,
                Err(error) => {
                    proof {
                        lemma_extents_used_from_at_least(
                            extent_record(contents, base),
                            block_size as nat,
                            length as nat,
                            idx as nat + 1,
                        );
                    }
                    return Err(error);
                },
            };
            proof {
                if reliable {
                    assert(extent_record(contents, base)[idx as int] == (start, count));
                }
                assert(seen_blocks * block_size <= (seen_blocks + count) * block_size)
                    by (nonlinear_arith);
                assert((seen_blocks + count) * block_size <= 0x8_0000_0000 * 0x1_0000_0000)
                    by (nonlinear_arith)
                    requires
                        seen_blocks + count <= 0x8_0000_0000,
                        block_size <= 0x1_0000_0000,
                ;
            }
            offsets.push((end_offset_bytes as u64, start));
            seen_blocks += count as u64;
            end_offset_bytes = (seen_blocks as u128) * (block_size as u128);
            idx += 1;
        }
        if end_offset_bytes < length as u128 {
            return Err(HFSPError::ExtentOverflowNotSupported);
        }
        proof {
            if reliable {
                assert(offsets@ =~= extent_table(
                    extent_record(contents, base),
                    block_size as nat,
                    length as nat,
                ));
            }
        }
        let result = HFSFile {
            parent: parent,
            block_size: block_size as u64,
            length: length,
            offsets: offsets,
            offset: 0,
        };
        Ok(result)
    }

    /// The length of the file, in bytes.
    pub fn len(&self) -> (length: u64)
        ensures
            length == self@.length,
    {
        self.length
    }

    /// The size of an allocation block of the volume, in bytes.
    pub fn block_size(&self) -> (block_size: u64)
        ensures
            block_size == self@.block_size,
    {
        self.block_size
    }

    /// The extent table: for each extent, where it starts in the file, in bytes, and on the
    /// volume, in blocks.
    pub fn extents(&self) -> (extents: &Vec<(u64, u32)>)
        ensures
            extents@ == self@.extents,
            well_laid(extents@, self@.length),
    {
        proof {
            use_type_invariant(self);
        }
        &self.offsets
    }

    /// The place in the file where the next read starts.
    pub fn position(&self) -> (position: u64)
        ensures
            position == self@.position,
    {
        self.offset
    }

    /// Reads from the cursor on into `buf`, in one read of the volume, and moves the cursor past
    /// what was read. The bytes come from the extent that the cursor lies in, and are taken to go
    /// on from there without a break: the table does not say where an extent ends. A cursor past
    /// the end of the file is not read from.
    pub fn read(&mut self, buf: &mut [u8]) -> (r: Result<usize, std::io::Error>)
        requires
            old(self)@.position <= old(self)@.length,
        ensures
            final(self).volume() == old(self).volume(),
            final(buf)@.len() == old(buf)@.len(),
            match r {
                Ok(count) => {
                    &&& count <= read_size(old(self)@, old(buf)@.len() as int)
                    &&& final(self)@ == (HFSFileView {
                        position: (old(self)@.position + count) as u64,
                        ..old(self)@
                    })
                    &&& final(buf)@.skip(count as int) == old(buf)@.skip(count as int)
                },
                Err(_) => final(self)@ == old(self)@ && final(buf)@ == old(buf)@,
            },
            read_size(old(self)@, old(buf)@.len() as int) == 0 ==> r is Ok,
            old(self).volume().reliable() ==> r is Ok && final(buf)@.take(r->Ok_0 as int)
                == crate::device::span(
                old(self).volume().contents(),
                physical_offset(old(self)@),
                read_size(old(self)@, old(buf)@.len() as int),
            ),
    {
        proof {
            use_type_invariant(&*self);
        }
        let left: u64 = self.length - self.offset;
        let read_size: usize = if (buf.len() as u64) < left {
            buf.len()
        } else {
            left as usize
        };
        if read_size == 0 {
            assert(buf@.take(0) =~= Seq::<u8>::empty());
            assert(buf@.skip(0) =~= buf@);
            return Ok(0);
        }
        let extent_index = floor_search(&self.offsets, self.offset);
        assert(self.offsets@[extent_index as int].1 * self.block_size <= 0xffff_ffff * 0xffff_ffff)
            by (nonlinear_arith)
            requires
                self.offsets@[extent_index as int].1 <= 0xffff_ffff,
                self.block_size <= 0xffff_ffff,
        ;
        let extent_offset: u64 = self.offsets[extent_index].1 as u64 * self.block_size;
        let intra_extent_offset: u64 = self.offset - self.offsets[extent_index].0;
        let data: Vec<u8> = match extent_offset.checked_add(intra_extent_offset) {
            Some(fs_offset) => match self.parent.read(fs_offset, read_size) {
                Ok(data) => data,
                Err(error) => {
                    return Err(error);
                },
            },
            None => {
                proof {
                    self.parent.device().lemma_contents_fit();
                }
                Vec::new()
            },
        };
        let read: usize = data.len();
        let mut i: usize = 0;
        while i < read
            invariant
                i <= read,
                read == data@.len(),
                read <= buf@.len(),
                buf@.len() == old(buf)@.len(),
                forall|j: int| 0 <= j < i ==> buf@[j] == data@[j],
                forall|j: int| i <= j < buf@.len() ==> buf@[j] == old(buf)@[j],
            decreases read - i,
        {
            buf[i] = data[i];
            i += 1;
        }
        proof {
            assert(buf@.take(read as int) =~= data@);
            assert(buf@.skip(read as int) =~= old(buf)@.skip(read as int));
        }
        self.offset += read as u64;
        Ok(read)
    }

    /// Whether a seek to `from` has a place to go: one that is not before the start of the
    /// file, and that a cursor can hold.
    pub fn can_seek(&self, from: SeekFrom) -> (possible: bool)
        ensures
            possible == (0 <= seek_target(self@, from) <= u64::MAX),
    {
        match from {
            SeekFrom::Start(_) => true,
            SeekFrom::End(offset) => self.length.checked_add_signed(offset).is_some(),
            SeekFrom::Current(offset) => self.offset.checked_add_signed(offset).is_some(),
        }
    }

    /// Moves the cursor: to a place counted from the start of the file, from its end, or from
    /// where the cursor stands. The cursor may come to lie past the end of the file. It is not
    /// moved to a place before the start of the file.
    pub fn seek(&mut self, from: SeekFrom) -> (r: Result<u64, std::io::Error>)
        requires
            0 <= seek_target(old(self)@, from) <= u64::MAX,
        ensures
            final(self).volume() == old(self).volume(),
            r matches Ok(position) && position == seek_target(old(self)@, from),
            final(self)@ == (HFSFileView {
                position: seek_target(old(self)@, from) as u64,
                ..old(self)@
            }),
    {
        proof {
            use_type_invariant(&*self);
        }
        match from {
            SeekFrom::Start(offset) => {
                self.offset = offset;
            },
            SeekFrom::End(offset) => {
                if offset >= 0 {
                    self.offset = self.length + (offset as u64);
                } else {
                    let offset_magnitude = magnitude(offset);
                    self.offset = self.length - offset_magnitude;
                }
            },
            SeekFrom::Current(offset) => {
                if offset >= 0 {
                    let offset = offset as u64;
                    self.offset += offset;
                } else {
                    let offset_magnitude = magnitude(offset);
                    self.offset -= offset_magnitude;
                }
            },
        }
        Ok(self.offset)
    }
}

/// How far back a negative offset reaches.
fn magnitude(offset: i64) -> (distance: u64)
    requires
        offset < 0,
    ensures
        distance == -offset,
{
    (-(offset + 1)) as u64 + 1
}

/// The last row of `table` that starts at or before `position`, found by halving the rows that
/// it can still be.
fn floor_search(table: &Vec<(u64, u32)>, position: u64) -> (index: usize)
    requires
        table@.len() > 0,
        ordered(table@),
        table@[0].0 <= position,
    ensures
        index < table@.len(),
        index == floor_index(table@, position as int),
        table@[index as int].0 <= position,
{
    let mut low: usize = 0;
    let mut high: usize = table.len();
    while high - low > 1
        invariant
            low < high <= table@.len(),
            ordered(table@),
            table@[low as int].0 <= position,
            forall|j: int| high <= j < table@.len() ==> (#[trigger] table@[j]).0 > position,
        decreases high - low,
    {
        let middle: usize = low + (high - low) / 2;
        if table[middle].0 <= position {
            low = middle;
        } else {
            high = middle;
        }
    }
    proof {
        lemma_floor_index_is(table@, position as int, low as int);
    }
    low
}

/// The floor index is the one row that starts at or before the position while every later row
/// starts after it.
pub proof fn lemma_floor_index_is(extents: Seq<(u64, u32)>, position: int, index: int)
    requires
        0 <= index < extents.len(),
        extents[index].0 <= position,
        forall|j: int| index < j < extents.len() ==> (#[trigger] extents[j]).0 > position,
    ensures
        floor_index(extents, position) == index,
    decreases extents.len(),
{
    if index < extents.len() - 1 {
        let shorter = extents.drop_last();
        assert(extents.last().0 > position);
        lemma_floor_index_is(shorter, position, index);
    }
}

/// It takes at least `n` extents to hold what the first `n` do not.
proof fn lemma_extents_used_from_at_least(
    extents: Seq<(u32, u32)>,
    block_size: nat,
    length: nat,
    n: nat,
)
    ensures
        extents_used_from(extents, block_size, length, n) >= n,
    decreases extents.len() - n,
{
    if !(n >= extents.len() || covered(extents, n, block_size) >= length) {
        lemma_extents_used_from_at_least(extents, block_size, length, n + 1);
    }
}

/// The more extents, the more bytes they hold.
pub proof fn lemma_covered_grows(extents: Seq<(u32, u32)>, block_size: nat, m: nat, n: nat)
    requires
        m <= n,
    ensures
        covered(extents, m, block_size) <= covered(extents, n, block_size),
    decreases n - m,
{
    if m < n {
        lemma_covered_grows(extents, block_size, m, (n - 1) as nat);
        assert(blocks_in(extents, (n - 1) as nat) * block_size <= blocks_in(extents, n)
            * block_size) by (nonlinear_arith)
            requires
                blocks_in(extents, (n - 1) as nat) <= blocks_in(extents, n),
        ;
    }
}

/// Where no extent before the `n`th covers the file, the number of extents that the file takes
/// is found by looking on from the `n`th.
proof fn lemma_extents_used_skips(extents: Seq<(u32, u32)>, block_size: nat, length: nat, n: nat)
    requires
        n <= extents.len(),
        forall|m: nat| m < n ==> covered(extents, m, block_size) < length,
    ensures
        extents_used(extents, block_size, length) == extents_used_from(
            extents,
            block_size,
            length,
            n,
        ),
    decreases n,
{
    if n > 0 {
        lemma_extents_used_skips(extents, block_size, length, (n - 1) as nat);
    }
}

/// A file that its first `k` extents hold, and no fewer, has an extent table of `k` rows, in
/// the order of the file, and the first of them starts the file.
pub proof fn lemma_extent_table_rows(
    extents: Seq<(u32, u32)>,
    block_size: nat,
    length: nat,
    k: nat,
)
    requires
        k <= extents.len(),
        length <= covered(extents, k, block_size),
        k > 0 ==> covered(extents, (k - 1) as nat, block_size) < length,
        length <= u64::MAX,
    ensures
        extents_used(extents, block_size, length) == k,
        extent_table(extents, block_size, length).len() == k,
        k > 0 ==> extent_table(extents, block_size, length)[0].0 == 0,
        ordered(extent_table(extents, block_size, length)),
        forall|i: int|
            0 <= i < k ==> (#[trigger] extent_table(extents, block_size, length)[i]).1
                == extents[i].0,
{
    let table = extent_table(extents, block_size, length);
    assert forall|m: nat| m < k implies covered(extents, m, block_size) < length by {
        lemma_covered_grows(extents, block_size, m, (k - 1) as nat);
    }
    lemma_extents_used_skips(extents, block_size, length, k);
    assert(blocks_in(extents, 0) * block_size == 0) by (nonlinear_arith)
        requires
            blocks_in(extents, 0) == 0,
    ;
    assert forall|i: int, j: int| 0 <= i <= j < table.len() implies table[i].0 <= table[j].0 by {
        lemma_covered_grows(extents, block_size, i as nat, j as nat);
    }
}

/// Where the extents that a file takes all hold at least one byte, each row of its extent
/// table starts after the row before it. An extent without blocks, or a block size of zero,
/// gives two rows that start at the same place.
pub proof fn lemma_extent_table_rises(
    extents: Seq<(u32, u32)>,
    block_size: nat,
    length: nat,
    k: nat,
)
    requires
        k <= extents.len(),
        length <= covered(extents, k, block_size),
        k > 0 ==> covered(extents, (k - 1) as nat, block_size) < length,
        length <= u64::MAX,
        block_size > 0,
        forall|i: int| 0 <= i < k ==> (#[trigger] extents[i]).1 > 0,
    ensures
        forall|i: int, j: int|
            0 <= i < j < k ==> (#[trigger] extent_table(extents, block_size, length)[i]).0 < (
            #[trigger] extent_table(extents, block_size, length)[j]).0,
{
    let table = extent_table(extents, block_size, length);
    lemma_extent_table_rows(extents, block_size, length, k);
    assert forall|i: int, j: int| 0 <= i < j < k implies (#[trigger] table[i]).0 < (
    #[trigger] table[j]).0 by {
        lemma_covered_grows(extents, block_size, (i + 1) as nat, j as nat);
        lemma_covered_grows(extents, block_size, j as nat, (k - 1) as nat);
        assert(blocks_in(extents, i as nat) * block_size < blocks_in(extents, (i + 1) as nat)
            * block_size) by (nonlinear_arith)
            requires
                blocks_in(extents, i as nat) < blocks_in(extents, (i + 1) as nat),
                block_size > 0,
        ;
    }
}

/// A file that the eight extents of its fork record do not hold has no extent table, and so
/// there is no file: a ninth extent is not supported.
pub proof fn lemma_ninth_extent_not_supported(volume: Seq<u8>, fork: Seq<u8>, fork_base: int)
    requires
        crate::layout::u64_at(fork, fork_base) is Ok,
        crate::layout::bytes_at(
            volume,
            crate::layout::OFFSET_VOLUME_HEADER as int,
            crate::layout::signature(),
        ) is Ok,
        crate::layout::u32_at(volume, crate::layout::OFFSET_VOLUME_HEADER + 40) is Ok,
        crate::device::holds(
            fork,
            fork_base + crate::layout::OFFSET_FORK_DATA_EXTENT_RECORD,
            crate::layout::SIZE_EXTENT_RECORD as int,
        ),
        covered(
            extent_record(fork, fork_base),
            EXTENTS_PER_FORK as nat,
            crate::layout::u32_at(volume, crate::layout::OFFSET_VOLUME_HEADER + 40)->Ok_0 as nat,
        ) < crate::layout::u64_at(fork, fork_base)->Ok_0,
    ensures
        file_plan(volume, fork, fork_base) == Err::<HFSFileView, crate::error::HFSPErrorKind>(
            crate::error::HFSPErrorKind::ExtentOverflowNotSupported,
        ),
{
    let extents = extent_record(fork, fork_base);
    let block_size = crate::layout::u32_at(volume, crate::layout::OFFSET_VOLUME_HEADER + 40)->Ok_0;
    let length = crate::layout::u64_at(fork, fork_base)->Ok_0;
    assert forall|m: nat| m < 8 implies covered(extents, m, block_size as nat) < length by {
        lemma_covered_grows(extents, block_size as nat, m, 8);
    }
    lemma_extents_used_skips(extents, block_size as nat, length as nat, 8);
}

/// Seek, then read: with the cursor moved to the place `p` of the file, which lies in the
/// extent of row `index`, a read asks the volume for the bytes that lie as far into that extent
/// as `p` lies past its start, as many as the buffer takes and the file still has.
pub proof fn lemma_read_after_seek(file: HFSFileView, p: u64, capacity: int, index: int)
    requires
        0 <= index < file.extents.len(),
        ordered(file.extents),
        file.extents[index].0 <= p <= file.length,
        index + 1 < file.extents.len() ==> p < file.extents[index + 1].0,
        0 <= capacity,
    ensures
        seek_target(file, SeekFrom::Start(p)) == p,
        physical_offset(HFSFileView { position: p, ..file }) == file.extents[index].1
            * file.block_size + (p - file.extents[index].0),
        read_size(HFSFileView { position: p, ..file }, capacity) == if capacity < file.length
            - p {
            capacity
        } else {
            file.length - p
        },
{
    if index + 1 < file.extents.len() {
        assert forall|j: int| index < j < file.extents.len() implies (
        #[trigger] file.extents[j]).0 > p by {
            assert(file.extents[index + 1].0 <= file.extents[j].0);
        }
    }
    lemma_floor_index_is(file.extents, p as int, index);
}

/// The end of the file is a place to seek to and to read from, though nothing is read there:
/// a read at the end asks for no bytes. One byte further is a place to seek to as well, but
/// not one to read from.
pub proof fn lemma_seek_to_the_end(file: HFSFileView, capacity: int)
    requires
        0 <= capacity,
    ensures
        seek_target(file, SeekFrom::End(0)) == file.length,
        seek_target(file, SeekFrom::Start(file.length)) == file.length,
        read_size(HFSFileView { position: file.length, ..file }, capacity) == 0,
        seek_target(file, SeekFrom::End(1)) == file.length + 1,
        file.length < u64::MAX ==> (HFSFileView {
            position: seek_target(file, SeekFrom::End(1)) as u64,
            ..file
        }).position > file.length,
{
}

} // verus!
