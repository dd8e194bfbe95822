//! The bytes under a volume.

use crate::error::unexpected_eof;
use vstd::prelude::*;

verus! {

/// What `contents` holds from `pos` to its end; nothing where `pos` lies outside it.
pub open spec fn bytes_from(contents: Seq<u8>, pos: int) -> Seq<u8> {
    if 0 <= pos <= contents.len() {
        contents.skip(pos)
    } else {
        Seq::empty()
    }
}

/// Whether `contents` holds `len` bytes from `pos` on.
pub open spec fn holds(contents: Seq<u8>, pos: int, len: int) -> bool {
    0 <= len <= bytes_from(contents, pos).len()
}

/// The `len` bytes that `contents` holds from `pos` on, or as many as it holds there.
pub open spec fn span(contents: Seq<u8>, pos: int, len: int) -> Seq<u8> {
    let rest = bytes_from(contents, pos);
    if 0 <= len <= rest.len() {
        rest.take(len)
    } else {
        rest
    }
}

/// A source of bytes that is read by position and never written.
///
/// Each call is one whole transaction: a device that keeps a cursor moves it and reads under its
/// own lock, and one that can be interrupted tries again by itself.
pub trait Device {
    /// The bytes of the device, first to last.
    spec fn contents(&self) -> Seq<u8>;

    /// Whether the device answers every request with the bytes that it holds, all that were
    /// asked for and are there. Of a device that is not reliable nothing is known but that it
    /// hands out no more than it was asked for.
    spec fn reliable(&self) -> bool;

    /// A device holds no more bytes than a position can tell apart.
    proof fn lemma_contents_fit(&self)
        ensures
            self.contents().len() <= u64::MAX,
    ;

    /// The number of bytes on the device.
    fn size(&self) -> (r: Result<u64, std::io::Error>)
        ensures
            self.reliable() ==> r is Ok && r->Ok_0 == self.contents().len(),
    ;

    /// Up to `len` bytes that start at `pos`. Past the end of the device there is nothing to
    /// hand out, which is no failure.
    fn read_at(&self, pos: u64, len: usize) -> (r: Result<Vec<u8>, std::io::Error>)
        ensures
            r matches Ok(data) ==> data@.len() <= len,
            self.reliable() ==> r is Ok && r->Ok_0@ == span(
                self.contents(),
                pos as int,
                len as int,
            ),
    ;
}

/// The first `len` of `bytes`, or all of them where there are no more.
pub open spec fn cut(bytes: Seq<u8>, len: int) -> Seq<u8> {
    if 0 <= len < bytes.len() {
        bytes.take(len)
    } else {
        bytes
    }
}

/// A source of bytes of which nothing is known or promised: a file, a disk, whatever can be
/// read by position. One call is one transaction, as for a [`Device`].
pub trait Source {
    /// The number of bytes that can be read.
    fn size(&self) -> Result<u64, std::io::Error>;

    /// Up to `len` bytes that start at `pos`.
    fn read_at(&self, pos: u64, len: usize) -> Result<Vec<u8>, std::io::Error>;
}

/// A [`Source`] taken as a device. It is not reliable: its size is what the source says, and
/// what is read from it is what the source gives for the same place and length, cut to that
/// length. All of it is worth what the source is worth.
#[derive(Debug)]
pub struct Untrusted<S> {
    source: S,
}

impl<S: Source> Untrusted<S> {
    /// The source under the device.
    pub closed spec fn source(&self) -> &S {
        &self.source
    }

    /// The device that hands on what `source` gives.
    pub fn new(source: S) -> (device: Untrusted<S>)
        ensures
            *device.source() == source,
            !device.reliable(),
    {
        Untrusted { source }
    }

    /// The source under the device.
    pub fn get_ref(&self) -> (source: &S)
        ensures
            source == self.source(),
    {
        &self.source
    }
}

impl<S: Source> Device for Untrusted<S> {
    closed spec fn contents(&self) -> Seq<u8> {
        Seq::empty()
    }

    open spec fn reliable(&self) -> bool {
        false
    }

    proof fn lemma_contents_fit(&self) {
    }

    fn size(&self) -> (r: Result<u64, std::io::Error>)
        ensures
            call_ensures(S::size, (self.source(),), r),
    {
        self.source.size()
    }

    fn read_at(&self, pos: u64, len: usize) -> (r: Result<Vec<u8>, std::io::Error>)
        ensures
            match r {
                Ok(data) => exists|given: Vec<u8>|
                    #[trigger] call_ensures(
                        S::read_at,
                        (self.source(), pos, len),
                        Ok::<Vec<u8>, std::io::Error>(given),
                    ) && data@ == cut(given@, len as int),
                Err(error) => call_ensures(
                    S::read_at,
                    (self.source(), pos, len),
                    Err::<Vec<u8>, std::io::Error>(error),
                ),
            },
    {
        match self.source.read_at(pos, len) {
            Ok(mut data) => {
                let ghost given = data;
                data.truncate(len);
                assert(data@ =~= cut(given@, len as int));
                Ok(data)
            },
            Err(error) => Err(error),
        }
    }
}

/// A device whose bytes lie in memory. It is reliable.
#[derive(Debug)]
pub struct MemoryDevice {
    bytes: Vec<u8>,
}

impl MemoryDevice {
    /// The device that holds `bytes`.
    pub fn new(bytes: Vec<u8>) -> (device: MemoryDevice)
        ensures
            device.contents() == bytes@,
            device.reliable(),
    {
        MemoryDevice { bytes }
    }
}

impl Device for MemoryDevice {
    closed spec fn contents(&self) -> Seq<u8> {
        self.bytes@
    }

    open spec fn reliable(&self) -> bool {
        true
    }

    proof fn lemma_contents_fit(&self) {
        assert(self.bytes.len() == self.bytes@.len());
    }

    fn size(&self) -> (r: Result<u64, std::io::Error>) {
        Ok(self.bytes.len() as u64)
    }

    fn read_at(&self, pos: u64, len: usize) -> (r: Result<Vec<u8>, std::io::Error>) {
        let total: usize = self.bytes.len();
        let mut data: Vec<u8> = Vec::new();
        if pos >= total as u64 {
            assert(data@ =~= span(self.contents(), pos as int, len as int));
            return Ok(data);
        }
        let start: usize = pos as usize;
        let count: usize = if len < total - start { len } else { total - start };
        let mut i: usize = 0;
        while i < count
            invariant
                i <= count,
                start + count <= total,
                total == self.bytes@.len(),
                data@ == self.bytes@.subrange(start as int, start + i),
            decreases count - i,
        {
            data.push(self.bytes[start + i]);
            i += 1;
        }
        assert(data@ =~= span(self.contents(), pos as int, len as int));
        Ok(data)
    }
}

/// Exactly `len` bytes that start at `pos`, gathered from as many reads as it takes. A device
/// that ends before the last of them fails the read.
pub fn read_exact_at<D: Device>(device: &D, pos: u64, len: usize) -> (r: Result<
    Vec<u8>,
    std::io::Error,
>)
    ensures
        r matches Ok(data) ==> data@.len() == len,
        device.reliable() ==> match r {
            Ok(data) => holds(device.contents(), pos as int, len as int) && data@ == span(
                device.contents(),
                pos as int,
                len as int,
            ),
            Err(_) => !holds(device.contents(), pos as int, len as int),
        },
{
    let ghost rest = bytes_from(device.contents(), pos as int);
    let mut data: Vec<u8> = Vec::new();
    while data.len() < len
        invariant
            data@.len() <= len,
            device.reliable() ==> data@.is_prefix_of(rest),
            rest == bytes_from(device.contents(), pos as int),
        decreases len - data@.len(),
    {
        proof {
            device.lemma_contents_fit();
        }
        let at: u64 = match pos.checked_add(data.len() as u64) {
            Some(at) => at,
            None => {
                return Err(unexpected_eof());
            },
        };
        let mut chunk: Vec<u8> = match device.read_at(at, len - data.len()) {
            Ok(chunk) => chunk,
            Err(error) => {
                return Err(error);
            },
        };
        if chunk.len() == 0 {
            return Err(unexpected_eof());
        }
        proof {
            if device.reliable() {
                let next = bytes_from(device.contents(), at as int);
                assert(next =~= rest.skip(data@.len() as int));
                assert((data@ + chunk@).is_prefix_of(rest));
            }
        }
        data.append(&mut chunk);
    }
    proof {
        if device.reliable() {
            assert(data@ =~= span(device.contents(), pos as int, len as int));
        }
    }
    Ok(data)
}

} // verus!
