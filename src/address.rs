//! Validated user-space virtual addresses.
use vstd::prelude::*;
use crate::error::Error;

verus! {

/// The first address of the kernel-reserved half of the address space.
pub const KERNEL_BASE_ADDR: u64 = 0xffff_8000_0000_0000;

/// A raw value that names a non-null address of the user half.
pub open spec fn is_user_addr(v: int) -> bool {
    0 < v < KERNEL_BASE_ADDR
}

/// A non-null address below the kernel-reserved range.
#[derive(Clone, Copy, Debug, PartialEq, Eq, Structural)]
pub struct UserVAddr {
    addr: u64,
}

impl View for UserVAddr {
    type V = u64;

    closed spec fn view(&self) -> u64 {
        self.addr
    }
}

impl UserVAddr {
    #[verifier::type_invariant]
    spec fn inv(self) -> bool {
        is_user_addr(self.addr as int)
    }

    /// Validates a raw address.
    pub fn new_nonnull(addr: u64) -> (r: Result<UserVAddr, Error>)
        ensures
            is_user_addr(addr as int) ==> r is Ok && r->Ok_0@ == addr,
            !is_user_addr(addr as int) ==> r == Err::<UserVAddr, Error>(Error::BadAddress),
    {
        if addr == 0 || addr >= KERNEL_BASE_ADDR {
            Err(Error::BadAddress)
        } else {
            Ok(UserVAddr { addr })
        }
    }

    /// The raw address.
    pub fn value(&self) -> (r: u64)
        ensures
            r == self@,
            is_user_addr(r as int),
    {
        proof {
            use_type_invariant(self);
        }
        self.addr
    }
}

} // verus!
