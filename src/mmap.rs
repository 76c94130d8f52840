//! The `mmap` system call: argument checks, backing and address choice.
use vstd::prelude::*;
use crate::address::UserVAddr;
use crate::alignment::{is_aligned, lemma_4096_is_power_of_two};
use crate::error::Error;
use crate::vm::{
    first_fit, lemma_first_fit_found, lemma_first_fit_free, range_free, areas_wf, area_end, overlaps, FileHandle, MMapProt, Vm, VmArea,
    VmAreaType, VM_PAGE_SIZE,
};

verus! {

/// The page size, as a byte count.
const PAGE_BYTES: usize = 4096;

/// Map the exact address given, or fail.
pub const MAP_FIXED: u32 = 0x10;

/// Map fresh zeroed memory instead of a file.
pub const MAP_ANONYMOUS: u32 = 0x20;

/// The flags word of an `mmap` request.
#[derive(Clone, Copy, Debug, PartialEq, Eq, Structural)]
pub struct MMapFlags {
    pub bits: u32,
}

impl MMapFlags {
    pub open spec fn anonymous(self) -> bool {
        self.bits & MAP_ANONYMOUS != 0
    }

    pub open spec fn fixed(self) -> bool {
        self.bits & MAP_FIXED != 0
    }

    /// Whether the mapping is anonymous.
    pub fn is_anonymous(&self) -> (r: bool)
        ensures
            r == self.anonymous(),
    {
        self.bits & MAP_ANONYMOUS != 0
    }

    /// Whether the exact address is demanded.
    pub fn is_fixed(&self) -> (r: bool)
        ensures
            r == self.fixed(),
    {
        self.bits & MAP_FIXED != 0
    }
}

/// A non-null hint that can be used as it stands.
pub open spec fn hint_usable(areas: Seq<VmArea>, hint: int, len: int) -> bool {
    hint != 0 && hint % VM_PAGE_SIZE as int == 0 && range_free(areas, hint, len)
}

/// The address a request ends at, or its error, given the areas mapped
/// before it and the outcome of resolving its descriptor.
pub open spec fn mmap_outcome(
    areas: Seq<VmArea>,
    hint: int,
    len: int,
    flags: MMapFlags,
    file: Result<FileHandle, Error>,
    offset: int,
) -> Result<int, Error> {
    if len % VM_PAGE_SIZE as int != 0 || offset % VM_PAGE_SIZE as int != 0 {
        Err(Error::InvalidArgument)
    } else if !flags.anonymous() && file is Err {
        Err(file->Err_0)
    } else if len == 0 {
        Err(Error::InvalidArgument)
    } else if hint_usable(areas, hint, len) {
        Ok(hint)
    } else if hint != 0 && flags.fixed() {
        Err(Error::InvalidArgument)
    } else {
        match first_fit(areas, len) {
            Some(a) => Ok(a),
            None => Err(Error::OutOfAddressSpace),
        }
    }
}

/// What backs a successful request.
pub open spec fn backing_of(
    flags: MMapFlags,
    file: Result<FileHandle, Error>,
    offset: usize,
    len: usize,
) -> VmAreaType {
    if flags.anonymous() {
        VmAreaType::Anonymous
    } else {
        VmAreaType::File { file: file->Ok_0, offset, file_size: len }
    }
}

/// No range that starts where a mapped area starts is free.
pub proof fn lemma_mapped_start_not_free(areas: Seq<VmArea>, k: int, len: int)
    requires
        0 <= k < areas.len(),
        areas[k].len > 0,
        len > 0,
    ensures
        !range_free(areas, areas[k].start@ as int, len),
{
    assert(overlaps(areas[k], areas[k].start@ as int, len));
}

/// The areas of one address space never overlap, whatever sequence of
/// insertions built it.
pub proof fn lemma_areas_disjoint(vm: Vm)
    requires
        vm.wf(),
    ensures
        forall|i: int, j: int|
            0 <= i < vm@.len() && 0 <= j < vm@.len() && i != j ==> area_end(#[trigger] vm@[i])
                <= (#[trigger] vm@[j]).start@ || area_end(vm@[j]) <= vm@[i].start@,
{
    assert forall|i: int, j: int|
        0 <= i < vm@.len() && 0 <= j < vm@.len() && i != j implies area_end(#[trigger] vm@[i])
            <= (#[trigger] vm@[j]).start@ || area_end(vm@[j]) <= vm@[i].start@ by {
        if i < j {
            assert(area_end(vm@[i]) <= vm@[j].start@);
        } else {
            assert(area_end(vm@[j]) <= vm@[i].start@);
        }
    }
}

/// A request without a hint never returns the start of an area that is
/// still mapped: after a mapping at `a` was recorded, the next hintless
/// request, if it succeeds, lands elsewhere.
pub proof fn lemma_null_hint_never_reuses(
    before: Seq<VmArea>,
    k: int,
    area: VmArea,
    len: int,
    flags: MMapFlags,
    file: Result<FileHandle, Error>,
    offset: int,
)
    requires
        0 <= k <= before.len(),
        area.len > 0,
        0 <= len,
        mmap_outcome(before.insert(k, area), 0, len, flags, file, offset) is Ok,
    ensures
        mmap_outcome(before.insert(k, area), 0, len, flags, file, offset)->Ok_0 != area.start@,
{
    let after = before.insert(k, area);
    assert(after[k] == area);
    assert(len != 0);
    lemma_first_fit_free(after, len);
    lemma_mapped_start_not_free(after, k, len);
}

/// A fixed request for an occupied range is refused; the same request
/// without the fixed flag lands at another address, and succeeds whenever
/// a range of that length is free anywhere in user space.
pub proof fn lemma_fixed_hint_on_mapped_range(
    areas: Seq<VmArea>,
    k: int,
    flags: MMapFlags,
    file: Result<FileHandle, Error>,
    offset: int,
)
    requires
        areas_wf(areas),
        0 <= k < areas.len(),
        offset % VM_PAGE_SIZE as int == 0,
        flags.anonymous() || file is Ok,
    ensures
        ({
            let r = mmap_outcome(
                areas,
                areas[k].start@ as int,
                areas[k].len as int,
                flags,
                file,
                offset,
            );
            &&& flags.fixed() ==> r == Err::<int, Error>(Error::InvalidArgument)
            &&& !flags.fixed() ==> (r is Ok ==> r->Ok_0 != areas[k].start@)
            &&& !flags.fixed() && (exists|s: int| range_free(areas, s, areas[k].len as int))
                ==> r is Ok
        }),
{
    let len = areas[k].len as int;
    lemma_mapped_start_not_free(areas, k, len);
    if exists|s: int| range_free(areas, s, len) {
        let s = choose|s: int| range_free(areas, s, len);
        lemma_first_fit_found(areas, s, len);
    }
    if first_fit(areas, len) is Some {
        lemma_first_fit_free(areas, len);
    }
}

/// The system-call context of the calling process.
pub struct SyscallDispatcher {
    pub vm: Vm,
}

impl SyscallDispatcher {
    /// Maps `len` bytes and returns the base of the new area. `file` is what
    /// the file table answered for the descriptor; it is consulted only when
    /// the mapping is not anonymous. `prot` is recorded in the area, not
    /// enforced. A hint that is not page-aligned is never used as given: it
    /// counts as occupied, so the request fails under `MAP_FIXED` and is
    /// placed elsewhere without it. A zero length is refused once the
    /// alignment and the backing have been checked.
    pub fn sys_mmap(
        &mut self,
        addr_hint: u64,
        len: usize,
        prot: MMapProt,
        flags: MMapFlags,
        file: Result<FileHandle, Error>,
        offset: usize,
    ) -> (r: Result<UserVAddr, Error>)
        requires
            old(self).vm.wf(),
        ensures
            final(self).vm.wf(),
            match mmap_outcome(old(self).vm@, addr_hint as int, len as int, flags, file, offset as int) {
                Ok(a) => r is Ok && r->Ok_0@ == a && exists|k: int|
                    0 <= k <= old(self).vm@.len() && final(self).vm@ == old(self).vm@.insert(
                        k,
                        (VmArea {
                            start: r->Ok_0,
                            len,
                            area_type: backing_of(flags, file, offset, len),
                            prot,
                        }),
                    ),
                Err(e) => r == Err::<UserVAddr, Error>(e) && final(self).vm@ == old(self).vm@,
            },
    {
        proof {
            lemma_4096_is_power_of_two();
        }
        if !is_aligned(len, PAGE_BYTES) || !is_aligned(offset, PAGE_BYTES) {
            return Err(Error::InvalidArgument);
        }
        let area_type = if flags.is_anonymous() {
            VmAreaType::Anonymous
        } else {
            match file {
                Ok(file) => VmAreaType::File { file, offset, file_size: len },
                Err(e) => return Err(e),
            }
        };
        if len == 0 {
            return Err(Error::InvalidArgument);
        }
        let mapped = if addr_hint == 0 {
            match self.vm.alloc_vaddr_range(len) {
                Ok(a) => a,
                Err(e) => return Err(e),
            }
        } else if addr_hint % VM_PAGE_SIZE == 0 && self.vm.is_free_vaddr_range(addr_hint, len) {
            match UserVAddr::new_nonnull(addr_hint) {
                Ok(a) => a,
                Err(e) => return Err(e),
            }
        } else if flags.is_fixed() {
            return Err(Error::InvalidArgument);
        } else {
            match self.vm.alloc_vaddr_range(len) {
                Ok(a) => a,
                Err(e) => return Err(e),
            }
        };
        match self.vm.add_vm_area(mapped, len, area_type, prot) {
            Ok(()) => Ok(mapped),
            Err(e) => Err(e),
        }
    }
}

} // verus!
