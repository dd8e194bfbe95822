use hfsplus_rescue::{FileSystem, HFSPErrorKind, MemoryDevice, SeekFrom, Source, Untrusted};

const BLOCK: u32 = 16;

fn put(image: &mut Vec<u8>, at: usize, bytes: &[u8]) {
    image[at..at + bytes.len()].copy_from_slice(bytes);
}

/// An image of `size` bytes, each byte told by its place, with a volume header for blocks of
/// `block_size` bytes and, as its catalog file, a fork of `logical` bytes in `extents`.
fn image(size: usize, block_size: u32, logical: u64, extents: &[(u32, u32)]) -> Vec<u8> {
    let mut image: Vec<u8> = (0..4096usize).map(|place| (place % 251) as u8).collect();
    for place in 1024..1536 {
        image[place] = 0;
    }
    put(&mut image, 1024, b"H+");
    put(&mut image, 1024 + 40, &block_size.to_be_bytes());
    let base = 1024 + 112 + 80 * 2;
    put(&mut image, base, &logical.to_be_bytes());
    for (slot, (start, count)) in extents.iter().enumerate() {
        put(&mut image, base + 16 + 8 * slot, &start.to_be_bytes());
        put(&mut image, base + 16 + 8 * slot + 4, &count.to_be_bytes());
    }
    image.resize(size, 0);
    image
}

fn three_extents(logical: u64) -> Vec<u8> {
    image(4096, BLOCK, logical, &[(128, 2), (200, 1), (150, 3)])
}

/// The place on the volume of the byte at `place` of the file of `three_extents`.
fn on_volume(place: u64) -> usize {
    let (start, block) = if place < 32 {
        (0, 128)
    } else if place < 48 {
        (32, 200)
    } else {
        (48, 150)
    };
    (block * BLOCK as u64 + (place - start)) as usize
}

#[test]
fn table_has_a_row_for_each_extent_that_the_file_takes() {
    let fs = FileSystem::new(MemoryDevice::new(three_extents(96)));
    let file = fs.get_volume_header().unwrap().get_file_catalog().unwrap();
    assert_eq!(file.extents(), &vec![(0u64, 128u32), (32, 200), (48, 150)]);
    assert_eq!(file.len(), 96);
    assert_eq!(file.block_size(), 16);
    assert_eq!(file.position(), 0);
}

#[test]
fn table_stops_with_the_extent_that_covers_the_file() {
    for (logical, rows) in [(1u64, 1usize), (31, 1), (32, 1), (33, 2), (48, 2), (49, 3), (90, 3)] {
        let fs = FileSystem::new(MemoryDevice::new(three_extents(logical)));
        let file = fs.get_volume_header().unwrap().get_file_catalog().unwrap();
        let expected = [(0u64, 128u32), (32, 200), (48, 150)];
        assert_eq!(file.extents().as_slice(), &expected[..rows]);
        assert_eq!(file.extents()[0].0, 0);
        assert!(file.extents().windows(2).all(|pair| pair[0].0 < pair[1].0));
        assert_eq!(file.len(), logical);
    }
}

#[test]
fn eight_extents_are_the_most() {
    let extents: Vec<(u32, u32)> = (0..8).map(|slot| (100 + 2 * slot, 1)).collect();
    let fs = FileSystem::new(MemoryDevice::new(image(4096, BLOCK, 128, &extents)));
    let file = fs.get_volume_header().unwrap().get_file_catalog().unwrap();
    let rows: Vec<(u64, u32)> = (0..8).map(|slot| (16 * slot as u64, 100 + 2 * slot)).collect();
    assert_eq!(file.extents(), &rows);
}

#[test]
fn ninth_extent_is_not_supported() {
    let extents: Vec<(u32, u32)> = (0..8).map(|slot| (100 + 2 * slot, 1)).collect();
    let fs = FileSystem::new(MemoryDevice::new(image(4096, BLOCK, 129, &extents)));
    let error = fs.get_volume_header().unwrap().get_file_catalog().unwrap_err();
    assert_eq!(error.kind(), HFSPErrorKind::ExtentOverflowNotSupported);
    assert_eq!(error.description(), "Extent overflow not supported");
}

#[test]
fn file_that_its_extents_fall_short_of_is_not_supported() {
    let fs = FileSystem::new(MemoryDevice::new(three_extents(97)));
    let error = fs.get_volume_header().unwrap().get_file_catalog().unwrap_err();
    assert_eq!(error.kind(), HFSPErrorKind::ExtentOverflowNotSupported);
}

#[test]
fn empty_file_has_no_extent_and_nothing_to_read() {
    let fs = FileSystem::new(MemoryDevice::new(image(4096, BLOCK, 0, &[(128, 2)])));
    let mut file = fs.get_volume_header().unwrap().get_file_catalog().unwrap();
    assert_eq!(file.len(), 0);
    assert!(file.extents().len() <= 1);
    assert!(file.extents().is_empty());
    let mut buf = [7u8; 8];
    assert_eq!(file.read(&mut buf).unwrap(), 0);
    assert_eq!(file.read(&mut buf[..0]).unwrap(), 0);
    assert_eq!(buf, [7u8; 8]);
    assert_eq!(file.position(), 0);
}

#[test]
fn every_special_file_has_its_fork_record() {
    let mut bytes = image(4096, BLOCK, 0, &[]);
    for index in 0..5usize {
        let base = 1024 + 112 + 80 * index;
        put(&mut bytes, base, &(10 + index as u64).to_be_bytes());
        put(&mut bytes, base + 16, &(130 + index as u32).to_be_bytes());
        put(&mut bytes, base + 20, &1u32.to_be_bytes());
    }
    let fs = FileSystem::new(MemoryDevice::new(bytes));
    let header = fs.get_volume_header().unwrap();
    let files = [
        header.get_file_allocation().unwrap(),
        header.get_file_extents().unwrap(),
        header.get_file_catalog().unwrap(),
        header.get_file_attributes().unwrap(),
        header.get_file_startup().unwrap(),
    ];
    for (index, file) in files.iter().enumerate() {
        assert_eq!(file.len(), 10 + index as u64);
        assert_eq!(file.extents(), &vec![(0u64, 130 + index as u32)]);
    }
}

#[test]
fn file_can_be_made_from_a_fork_record() {
    let fs = FileSystem::new(MemoryDevice::new(three_extents(40)));
    let fork = fs.get_volume_header().unwrap().get_fork_data_catalog();
    let file = hfsplus_rescue::HFSFile::new(&fs, fork).unwrap();
    assert_eq!(file.extents(), &vec![(0u64, 128u32), (32, 200)]);
    assert_eq!(file.len(), 40);
}

#[test]
fn file_takes_its_block_size_from_a_valid_header() {
    let fs = FileSystem::new(MemoryDevice::new(three_extents(40)));
    let mut other = three_extents(40);
    put(&mut other, 1024, b"BD");
    let headless = FileSystem::new(MemoryDevice::new(other));
    let fork = fs.get_volume_header().unwrap().get_fork_data_catalog();
    let error = hfsplus_rescue::HFSFile::new(&headless, fork).unwrap_err();
    assert_eq!(error.kind(), HFSPErrorKind::InvalidVolumeHeader);
    let mut other = three_extents(40);
    put(&mut other, 1024 + 40, &8u32.to_be_bytes());
    let smaller = FileSystem::new(MemoryDevice::new(other));
    let fork = fs.get_volume_header().unwrap().get_fork_data_catalog();
    let file = hfsplus_rescue::HFSFile::new(&smaller, fork).unwrap();
    assert_eq!(file.block_size(), 8);
    assert_eq!(file.extents(), &vec![(0u64, 128u32), (16, 200), (24, 150)]);
}

#[test]
fn read_takes_the_bytes_of_the_extent_under_the_cursor() {
    let bytes = three_extents(90);
    let fs = FileSystem::new(MemoryDevice::new(bytes.clone()));
    let mut file = fs.get_volume_header().unwrap().get_file_catalog().unwrap();
    let mut buf = [0u8; 32];
    assert_eq!(file.read(&mut buf).unwrap(), 32);
    assert_eq!(&buf[..], &bytes[128 * 16..128 * 16 + 32]);
    assert_eq!(file.position(), 32);
    let mut buf = [0u8; 16];
    assert_eq!(file.read(&mut buf).unwrap(), 16);
    assert_eq!(&buf[..], &bytes[200 * 16..200 * 16 + 16]);
    assert_eq!(file.position(), 48);
    let mut buf = [0u8; 64];
    assert_eq!(file.read(&mut buf).unwrap(), 42);
    assert_eq!(&buf[..42], &bytes[150 * 16..150 * 16 + 42]);
    assert_eq!(&buf[42..], &[0u8; 22][..]);
    assert_eq!(file.position(), 90);
    assert_eq!(file.read(&mut buf).unwrap(), 0);
    assert_eq!(file.position(), 90);
}

#[test]
fn seek_then_read_gives_the_bytes_that_the_extent_map_points_to() {
    let bytes = three_extents(90);
    let fs = FileSystem::new(MemoryDevice::new(bytes.clone()));
    let mut file = fs.get_volume_header().unwrap().get_file_catalog().unwrap();
    for place in 0..=90u64 {
        for capacity in [0usize, 1, 5, 16] {
            let in_extent = match place {
                0..=31 => 32 - place,
                32..=47 => 48 - place,
                _ => 90 - place,
            } as usize;
            let capacity = capacity.min(in_extent);
            assert_eq!(file.seek(SeekFrom::Start(place)).unwrap(), place);
            let mut buf = vec![0xEEu8; capacity];
            let count = file.read(&mut buf).unwrap();
            assert_eq!(count, capacity.min((90 - place) as usize));
            let at = on_volume(place);
            assert_eq!(&buf[..count], &bytes[at..at + count]);
            assert_eq!(file.position(), place + count as u64);
        }
    }
}

#[test]
fn read_leaves_the_rest_of_the_buffer_alone() {
    let bytes = three_extents(90);
    let fs = FileSystem::new(MemoryDevice::new(bytes.clone()));
    let mut file = fs.get_volume_header().unwrap().get_file_catalog().unwrap();
    file.seek(SeekFrom::Start(88)).unwrap();
    let mut buf = [0xAAu8; 6];
    assert_eq!(file.read(&mut buf).unwrap(), 2);
    let at = on_volume(88);
    assert_eq!(buf, [bytes[at], bytes[at + 1], 0xAA, 0xAA, 0xAA, 0xAA]);
}

#[test]
fn end_of_the_file_reads_as_nothing() {
    let fs = FileSystem::new(MemoryDevice::new(three_extents(90)));
    let mut file = fs.get_volume_header().unwrap().get_file_catalog().unwrap();
    assert!(file.can_seek(SeekFrom::Start(90)));
    assert_eq!(file.seek(SeekFrom::Start(90)).unwrap(), 90);
    let mut buf = [1u8; 4];
    assert_eq!(file.read(&mut buf[..0]).unwrap(), 0);
    assert_eq!(file.read(&mut buf).unwrap(), 0);
    assert_eq!(buf, [1u8; 4]);
    assert_eq!(file.seek(SeekFrom::End(0)).unwrap(), 90);
    assert_eq!(file.read(&mut buf).unwrap(), 0);
}

#[test]
fn cursor_may_be_put_past_the_end() {
    let fs = FileSystem::new(MemoryDevice::new(three_extents(90)));
    let mut file = fs.get_volume_header().unwrap().get_file_catalog().unwrap();
    assert!(file.can_seek(SeekFrom::End(1)));
    assert_eq!(file.seek(SeekFrom::End(1)).unwrap(), 91);
    assert_eq!(file.position(), 91);
    assert!(file.position() > file.len());
    assert_eq!(file.seek(SeekFrom::Start(u64::MAX)).unwrap(), u64::MAX);
    assert_eq!(file.seek(SeekFrom::End(-90)).unwrap(), 0);
}

#[test]
fn seek_counts_from_the_start_the_end_or_the_cursor() {
    let fs = FileSystem::new(MemoryDevice::new(three_extents(90)));
    let mut file = fs.get_volume_header().unwrap().get_file_catalog().unwrap();
    assert_eq!(file.seek(SeekFrom::Start(40)).unwrap(), 40);
    assert_eq!(file.seek(SeekFrom::Current(5)).unwrap(), 45);
    assert_eq!(file.seek(SeekFrom::Current(-45)).unwrap(), 0);
    assert_eq!(file.seek(SeekFrom::Current(0)).unwrap(), 0);
    assert_eq!(file.seek(SeekFrom::End(-1)).unwrap(), 89);
    assert_eq!(file.seek(SeekFrom::End(-90)).unwrap(), 0);
    assert_eq!(file.seek(SeekFrom::End(10)).unwrap(), 100);
    assert_eq!(file.seek(SeekFrom::Current(-100)).unwrap(), 0);
    assert_eq!(file.seek(SeekFrom::Current(i64::MAX)).unwrap(), i64::MAX as u64);
    assert_eq!(file.seek(SeekFrom::Current(i64::MAX)).unwrap(), u64::MAX - 1);
    assert_eq!(file.seek(SeekFrom::Current(i64::MIN)).unwrap(), i64::MAX as u64 - 1);
    assert_eq!(file.position(), i64::MAX as u64 - 1);
}

#[test]
fn seek_before_the_start_or_past_every_place_is_told_beforehand() {
    let fs = FileSystem::new(MemoryDevice::new(three_extents(90)));
    let mut file = fs.get_volume_header().unwrap().get_file_catalog().unwrap();
    assert!(!file.can_seek(SeekFrom::End(-91)));
    assert!(!file.can_seek(SeekFrom::End(i64::MIN)));
    assert!(!file.can_seek(SeekFrom::Current(-1)));
    assert!(file.can_seek(SeekFrom::Current(0)));
    assert!(file.can_seek(SeekFrom::End(-90)));
    assert!(file.can_seek(SeekFrom::Start(u64::MAX)));
    file.seek(SeekFrom::Start(10)).unwrap();
    assert!(file.can_seek(SeekFrom::Current(-10)));
    assert!(!file.can_seek(SeekFrom::Current(-11)));
    assert!(!file.can_seek(SeekFrom::Current(i64::MIN)));
    file.seek(SeekFrom::Start(u64::MAX)).unwrap();
    assert!(!file.can_seek(SeekFrom::Current(1)));
    assert!(file.can_seek(SeekFrom::Current(-1)));
    assert!(file.can_seek(SeekFrom::End(i64::MAX)));
    assert_eq!(file.position(), u64::MAX);
}

#[test]
fn extent_without_blocks_is_passed_over() {
    let bytes = image(4096, BLOCK, 20, &[(128, 0), (200, 2)]);
    let fs = FileSystem::new(MemoryDevice::new(bytes.clone()));
    let mut file = fs.get_volume_header().unwrap().get_file_catalog().unwrap();
    assert_eq!(file.extents(), &vec![(0u64, 128u32), (0, 200)]);
    let mut buf = [0u8; 20];
    assert_eq!(file.read(&mut buf).unwrap(), 20);
    assert_eq!(&buf[..], &bytes[200 * 16..200 * 16 + 20]);
}

#[test]
fn blocks_without_bytes_cover_nothing() {
    let extents: Vec<(u32, u32)> = (0..8).map(|slot| (100 + slot, 5)).collect();
    let fs = FileSystem::new(MemoryDevice::new(image(4096, 0, 1, &extents)));
    let error = fs.get_volume_header().unwrap().get_file_catalog().unwrap_err();
    assert_eq!(error.kind(), HFSPErrorKind::ExtentOverflowNotSupported);
    let fs = FileSystem::new(MemoryDevice::new(image(4096, 0, 0, &extents)));
    let file = fs.get_volume_header().unwrap().get_file_catalog().unwrap();
    assert!(file.extents().is_empty());
}

#[test]
fn largest_numbers_do_not_wrap() {
    let extents = [(u32::MAX, u32::MAX), (2, u32::MAX)];
    let fs = FileSystem::new(MemoryDevice::new(image(4096, u32::MAX, u64::MAX, &extents)));
    let mut file = fs.get_volume_header().unwrap().get_file_catalog().unwrap();
    let first = (u32::MAX as u64) * (u32::MAX as u64);
    assert_eq!(first, 18_446_744_065_119_617_025);
    assert_eq!(file.extents(), &vec![(0u64, u32::MAX), (first, 2)]);
    assert_eq!(file.len(), u64::MAX);
    let mut buf = [9u8; 4];
    assert_eq!(file.read(&mut buf).unwrap(), 0);
    file.seek(SeekFrom::Start(first - 1)).unwrap();
    assert_eq!(file.read(&mut buf).unwrap(), 0);
    assert_eq!(buf, [9u8; 4]);
    let full: Vec<(u32, u32)> = (0..8).map(|_| (1, u32::MAX)).collect();
    let fs = FileSystem::new(MemoryDevice::new(image(4096, 1, 8 * (u32::MAX as u64), &full)));
    let file = fs.get_volume_header().unwrap().get_file_catalog().unwrap();
    assert_eq!(file.extents()[7], (7 * (u32::MAX as u64), 1));
    let fs = FileSystem::new(MemoryDevice::new(image(4096, 1, 8 * (u32::MAX as u64) + 1, &full)));
    let error = fs.get_volume_header().unwrap().get_file_catalog().unwrap_err();
    assert_eq!(error.kind(), HFSPErrorKind::ExtentOverflowNotSupported);
}

#[test]
fn read_past_the_end_of_the_device_finds_nothing() {
    let fs = FileSystem::new(MemoryDevice::new(image(4096, BLOCK, 64, &[(254, 4)])));
    let mut file = fs.get_volume_header().unwrap().get_file_catalog().unwrap();
    let mut buf = [0u8; 64];
    assert_eq!(file.read(&mut buf).unwrap(), 32);
    assert_eq!(file.position(), 32);
    assert_eq!(file.read(&mut buf).unwrap(), 0);
    assert_eq!(file.position(), 32);
}

#[test]
fn file_on_a_device_that_ends_too_soon_is_an_io_failure() {
    let whole = three_extents(90);
    let base = 1024 + 112 + 80 * 2;
    for size in [base, base + 7, base + 16, base + 16 + 7, base + 16 + 8 + 3, base + 16 + 23] {
        let fs = FileSystem::new(MemoryDevice::new(whole[..size].to_vec()));
        let error = fs.get_volume_header().unwrap().get_file_catalog().unwrap_err();
        assert_eq!(error.kind(), HFSPErrorKind::IOError);
    }
    let fs = FileSystem::new(MemoryDevice::new(whole[..base + 16 + 24].to_vec()));
    let file = fs.get_volume_header().unwrap().get_file_catalog().unwrap();
    assert_eq!(file.extents().len(), 3);
    let short = three_extents(30);
    let fs = FileSystem::new(MemoryDevice::new(short[..base + 16 + 8].to_vec()));
    let file = fs.get_volume_header().unwrap().get_file_catalog().unwrap();
    assert_eq!(file.extents(), &vec![(0u64, 128u32)]);
}

#[derive(Debug)]
struct Flaky {
    bytes: Vec<u8>,
    fails_from: u64,
}

impl Source for Flaky {
    fn size(&self) -> Result<u64, std::io::Error> {
        Ok(self.bytes.len() as u64)
    }

    fn read_at(&self, pos: u64, len: usize) -> Result<Vec<u8>, std::io::Error> {
        if pos >= self.fails_from {
            return Err(std::io::Error::from(std::io::ErrorKind::Other));
        }
        let start = (pos as usize).min(self.bytes.len());
        let end = start.saturating_add(len).min(self.bytes.len());
        Ok(self.bytes[start..end].to_vec())
    }
}

#[test]
fn failed_read_leaves_the_cursor_where_it_was() {
    let fs = FileSystem::new(Untrusted::new(Flaky { bytes: three_extents(90), fails_from: 3000 }));
    let mut file = fs.get_volume_header().unwrap().get_file_catalog().unwrap();
    let mut buf = [0u8; 8];
    assert_eq!(file.read(&mut buf).unwrap(), 8);
    file.seek(SeekFrom::Start(40)).unwrap();
    let mut buf = [5u8; 8];
    assert_eq!(file.read(&mut buf).unwrap_err().kind(), std::io::ErrorKind::Other);
    assert_eq!(file.position(), 40);
    assert_eq!(buf, [5u8; 8]);
}
