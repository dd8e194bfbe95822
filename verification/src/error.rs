//! What can go wrong while a volume is read.

use vstd::prelude::*;

verus! {

/// `std::io::Error`, handed on as it came: nothing is known of what it holds.
#[verifier::external_type_specification]
#[verifier::external_body]
pub struct ExIoError(std::io::Error);

/// The ways in which reading a volume fails, without what an I/O failure carries.
#[derive(Clone, Copy, Debug, PartialEq, Eq, Structural)]
pub enum HFSPErrorKind {
    /// The device failed, or it ends before the bytes that were asked for.
    IOError,
    /// The volume header does not start with its signature.
    InvalidVolumeHeader,
    /// A window reaches past the end of the device under it.
    InvalidFileView,
    /// A fork needs more than the eight extents that its record holds.
    ExtentOverflowNotSupported,
}

/// A failure to read a volume.
#[derive(Debug)]
pub enum HFSPError {
    /// The device failed, with what it said, or it ends before the bytes that were asked for.
    IOError(std::io::Error),
    /// The volume header does not start with its signature.
    InvalidVolumeHeader,
    /// A window reaches past the end of the device under it.
    InvalidFileView,
    /// A fork needs more than the eight extents that its record holds.
    ExtentOverflowNotSupported,
}

impl HFSPError {
    /// Which failure this is.
    pub open spec fn kind_of(&self) -> HFSPErrorKind {
        match self {
            HFSPError::IOError(_) => HFSPErrorKind::IOError,
            HFSPError::InvalidVolumeHeader => HFSPErrorKind::InvalidVolumeHeader,
            HFSPError::InvalidFileView => HFSPErrorKind::InvalidFileView,
            HFSPError::ExtentOverflowNotSupported => HFSPErrorKind::ExtentOverflowNotSupported,
        }
    }

    /// Which failure this is.
    #[verifier::when_used_as_spec(kind_of)]
    pub fn kind(&self) -> (kind: HFSPErrorKind)
        ensures
            kind == self.kind_of(),
    {
        match self {
            HFSPError::IOError(_) => HFSPErrorKind::IOError,
            HFSPError::InvalidVolumeHeader => HFSPErrorKind::InvalidVolumeHeader,
            HFSPError::InvalidFileView => HFSPErrorKind::InvalidFileView,
            HFSPError::ExtentOverflowNotSupported => HFSPErrorKind::ExtentOverflowNotSupported,
        }
    }

    /// A short text for the failure.
    pub fn description(&self) -> (text: &'static str)
        ensures
            text@ == match self.kind() {
                HFSPErrorKind::IOError => "IO Error"@,
                HFSPErrorKind::InvalidVolumeHeader => "Invalid Volume Header"@,
                HFSPErrorKind::InvalidFileView => "Invalid partition offset or length"@,
                HFSPErrorKind::ExtentOverflowNotSupported => "Extent overflow not supported"@,
            },
    {
        match self {
            HFSPError::IOError(_) => "IO Error",
            HFSPError::InvalidVolumeHeader => "Invalid Volume Header",
            HFSPError::InvalidFileView => "Invalid partition offset or length",
            HFSPError::ExtentOverflowNotSupported => "Extent overflow not supported",
        }
    }
}

impl From<std::io::Error> for HFSPError {
    fn from(error: std::io::Error) -> (e: HFSPError) {
        HFSPError::IOError(error)
    }
}

impl vstd::std_specs::convert::FromSpecImpl<std::io::Error> for HFSPError {
    open spec fn obeys_from_spec() -> bool {
        true
    }

    open spec fn from_spec(error: std::io::Error) -> HFSPError {
        HFSPError::IOError(error)
    }
}

/// `std::io::Error::from` on `ErrorKind::UnexpectedEof`: the failure of a read that meets the
/// end of the device before it has all its bytes.
#[verifier::external_body]
pub(crate) fn unexpected_eof() -> std::io::Error {
    std::io::Error::from(std::io::ErrorKind::UnexpectedEof)
}

/// Whether `result` fails as `expected` does, where `expected` is what the bytes of the device
/// call for: both are a success, or both are a failure of one kind.
pub open spec fn fails_as<T, U>(
    result: Result<T, HFSPError>,
    expected: Result<U, HFSPErrorKind>,
) -> bool {
    match result {
        Ok(_) => expected is Ok,
        Err(error) => expected == Err::<U, HFSPErrorKind>(error.kind()),
    }
}

/// Whether `result` is what `expected` calls for: the same value, or a failure of the same kind.
pub open spec fn answers<T>(
    result: Result<T, HFSPError>,
    expected: Result<T, HFSPErrorKind>,
) -> bool {
    match result {
        Ok(value) => expected == Ok::<T, HFSPErrorKind>(value),
        Err(error) => expected == Err::<T, HFSPErrorKind>(error.kind()),
    }
}

/// Whether `result` is what the read of a field that holds `expected` may return. The one way
/// for such a read to fail is an I/O failure; and where the device is reliable, the read returns
/// what the field holds, and fails only where the device ends before the field does.
pub open spec fn reads<T>(
    result: Result<T, HFSPError>,
    expected: Result<T, HFSPErrorKind>,
    reliable: bool,
) -> bool {
    &&& result matches Err(error) ==> error is IOError
    &&& reliable ==> answers(result, expected)
}

/// Reading the same thing twice gives the same thing: two answers to one expectation are the
/// same value, or failures of the same kind.
pub proof fn lemma_answers_agree<T>(
    first: Result<T, HFSPError>,
    second: Result<T, HFSPError>,
    expected: Result<T, HFSPErrorKind>,
)
    requires
        answers(first, expected),
        answers(second, expected),
    ensures
        first is Ok <==> second is Ok,
        first is Ok ==> first->Ok_0 == second->Ok_0,
        first is Err ==> first->Err_0.kind() == second->Err_0.kind(),
{
}

} // verus!
