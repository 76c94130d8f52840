//! Errors surfaced at the system-call boundary.
use vstd::prelude::*;

verus! {

/// Why a request was refused.
#[derive(Clone, Copy, Debug, PartialEq, Eq, Structural)]
pub enum Error {
    /// The image is truncated, has a bad signature or an unsupported
    /// machine or type, or no loadable segment covers its program headers.
    MalformedExecutable,
    /// A length or offset is not page-aligned, or a fixed-address request
    /// names an occupied range.
    InvalidArgument,
    /// The descriptor does not resolve to a mappable object.
    BadFileDescriptor,
    /// The range handed to an insertion is already (partly) mapped.
    AddressRangeInUse,
    /// No free range of the requested size exists.
    OutOfAddressSpace,
    /// A raw value is null or not a user-space address.
    BadAddress,
}

impl Error {
    /// The errno value (positive) that stands for this error.
    pub fn errno(&self) -> (r: i32)
        ensures
            r == match *self {
                Error::MalformedExecutable => 8i32,
                Error::InvalidArgument => 22i32,
                Error::BadFileDescriptor => 9i32,
                Error::AddressRangeInUse => 17i32,
                Error::OutOfAddressSpace => 12i32,
                Error::BadAddress => 14i32,
            },
    {
        match self {
            Error::MalformedExecutable => 8,
            Error::InvalidArgument => 22,
            Error::BadFileDescriptor => 9,
            Error::AddressRangeInUse => 17,
            Error::OutOfAddressSpace => 12,
            Error::BadAddress => 14,
        }
    }
}

} // verus!
