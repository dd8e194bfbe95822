//! A window on a device: a partition inside the image of a whole disk.

use crate::device::Device;
use crate::error::HFSPError;
use crate::seek::SeekFrom;
use vstd::prelude::*;

verus! {

/// The window that `offset` and `length` cut out of a device of `size` bytes, as its start and
/// its length; without a length it runs to the end of the device. There is no window that
/// starts or ends past the end of the device.
pub open spec fn window_plan(size: nat, offset: u64, length: Option<u64>) -> Result<
    (u64, u64),
    crate::error::HFSPErrorKind,
> {
    if size < offset {
        Err(crate::error::HFSPErrorKind::InvalidFileView)
    } else {
        match length {
            None => Ok((offset, (size - offset) as u64)),
            Some(length) => if size < offset + length {
                Err(crate::error::HFSPErrorKind::InvalidFileView)
            } else {
                Ok((offset, length))
            },
        }
    }
}

/// The seek on the device under a window from `start` of `length` bytes that stands for the
/// seek to `pos` on the window. A place counted from the start of the window lies `start`
/// further into the device; one counted from the end of the window is counted from `start +
/// length`, and so from the start of the device as well; one counted from the cursor is the
/// same in both. There is none where the place is not one that the device can be asked for.
pub open spec fn seek_within(start: u64, length: u64, pos: SeekFrom) -> Option<SeekFrom> {
    match pos {
        SeekFrom::Start(offset) => if start + offset <= u64::MAX {
            Some(SeekFrom::Start((start + offset) as u64))
        } else {
            None
        },
        SeekFrom::End(offset) => if 0 <= start + length + offset <= u64::MAX {
            Some(SeekFrom::Start((start + length + offset) as u64))
        } else {
            None
        },
        SeekFrom::Current(offset) => Some(SeekFrom::Current(offset)),
    }
}

/// A device that is the part of another from `offset` on, `length` bytes long.
#[derive(Debug)]
pub struct FileSlice<F: Device> {
    offset: u64,
    length: u64,
    file: F,
}

impl<F: Device> FileSlice<F> {
    #[verifier::type_invariant]
    spec fn inside(&self) -> bool {
        &&& self.offset + self.length <= u64::MAX
        &&& self.file.reliable() ==> self.offset + self.length <= self.file.contents().len()
    }

    /// The device that the window is cut out of.
    pub closed spec fn inner(&self) -> &F {
        &self.file
    }

    /// Where the window starts on the device.
    pub closed spec fn start(&self) -> u64 {
        self.offset
    }

    /// The length of the window.
    pub closed spec fn length(&self) -> u64 {
        self.length
    }

    /// The window on `file` that starts at `offset` and is `length` bytes long, or runs to the
    /// end of `file` where no length is given.
    pub fn new(file: F, offset: u64, length: Option<u64>) -> (r: Result<FileSlice<F>, HFSPError>)
        ensures
            r matches Ok(slice) ==> *slice.inner() == file && slice.start() == offset && (
            length matches Some(length) ==> slice.length() == length),
            r matches Err(error) ==> error is IOError || error is InvalidFileView,
            file.reliable() ==> crate::error::answers(
                match r {
                    Ok(slice) => Ok((slice.start(), slice.length())),
                    Err(error) => Err(error),
                },
                window_plan(file.contents().len(), offset, length),
            ),
    {
        let file_length: u64 = match file.size() {
            Ok(file_length) => file_length,
            Err(error) => {
                return Err(HFSPError::IOError(error));
            },
        };
        if file_length < offset {
            return Err(HFSPError::InvalidFileView);
        }
        let length: u64 = match length {
            None => file_length - offset,
            Some(length) => if file_length - offset < length {
                return Err(HFSPError::InvalidFileView);
            } else {
                length
            },
        };
        let result = FileSlice { offset: offset, length: length, file: file };
        Ok(result)
    }

    /// The device that the window is cut out of.
    pub fn get_ref(&self) -> (file: &F)
        ensures
            file == self.inner(),
    {
        &self.file
    }

    /// The seek on the device under the window that stands for the seek to `pos` on the window.
    pub fn seek_request(&self, pos: SeekFrom) -> (request: Option<SeekFrom>)
        ensures
            request == seek_within(self.start(), self.length(), pos),
    {
        proof {
            use_type_invariant(self);
            self.file.lemma_contents_fit();
        }
        match pos {
            SeekFrom::Start(offset) => match offset.checked_add(self.offset) {
                Some(place) => Some(SeekFrom::Start(place)),
                None => None,
            },
            SeekFrom::End(offset) => match (self.offset + self.length).checked_add_signed(
                offset,
            ) {
                Some(place) => Some(SeekFrom::Start(place)),
                None => None,
            },
            SeekFrom::Current(offset) => Some(SeekFrom::Current(offset)),
        }
    }

    /// The place in the window of the place `reached` on the device under it; none for a place
    /// before the window.
    pub fn seek_result(&self, reached: u64) -> (position: Option<u64>)
        ensures
            position == if reached >= self.start() {
                Some((reached - self.start()) as u64)
            } else {
                None
            },
    {
        reached.checked_sub(self.offset)
    }
}

impl<F: Device> Device for FileSlice<F> {
    open spec fn contents(&self) -> Seq<u8> {
        crate::device::span(self.inner().contents(), self.start() as int, self.length() as int)
    }

    open spec fn reliable(&self) -> bool {
        self.inner().reliable()
    }

    proof fn lemma_contents_fit(&self) {
        self.file.lemma_contents_fit();
    }

    fn size(&self) -> (r: Result<u64, std::io::Error>) {
        proof {
            use_type_invariant(self);
        }
        Ok(self.length)
    }

    fn read_at(&self, pos: u64, len: usize) -> (r: Result<Vec<u8>, std::io::Error>) {
        proof {
            use_type_invariant(self);
            self.file.lemma_contents_fit();
        }
        if pos >= self.length {
            let nothing: Vec<u8> = Vec::new();
            assert(nothing@ =~= crate::device::span(self.contents(), pos as int, len as int));
            return Ok(nothing);
        }
        let left: u64 = self.length - pos;
        let count: usize = if (len as u64) < left {
            len
        } else {
            left as usize
        };
        let r = self.file.read_at(self.offset + pos, count);
        proof {
            if self.file.reliable() {
                let inner = crate::device::bytes_from(self.file.contents(), self.offset + pos);
                let outer = crate::device::bytes_from(self.contents(), pos as int);
                assert(outer =~= inner.take(left as int));
                assert(r->Ok_0@ =~= crate::device::span(self.contents(), pos as int, len as int));
            }
        }
        r
    }
}

} // verus!
