//! The areas mapped in one address space, and the search for free ranges.
use vstd::prelude::*;
use crate::address::{is_user_addr, UserVAddr, KERNEL_BASE_ADDR};
use crate::error::Error;

verus! {

/// Granularity of every area's start and length.
pub const VM_PAGE_SIZE: u64 = 4096;

/// Lowest address handed out by [`Vm::alloc_vaddr_range`].
pub const USER_VALLOC_BASE: u64 = 0x0000_000a_0000_0000;

/// End (exclusive) of the range searched by [`Vm::alloc_vaddr_range`].
pub const USER_VALLOC_END: u64 = 0x0000_0fff_0000_0000;

/// An open file object that the file table resolved a descriptor to.
#[derive(Clone, Copy, Debug, PartialEq, Eq, Structural)]
pub struct FileHandle {
    pub id: u64,
}

/// Requested access to a mapping. It is recorded, not enforced.
#[derive(Clone, Copy, Debug, PartialEq, Eq, Structural)]
pub struct MMapProt {
    pub bits: u32,
}

/// What backs an area.
#[derive(Clone, Copy, Debug, PartialEq, Eq, Structural)]
pub enum VmAreaType {
    Anonymous,
    File { file: FileHandle, offset: usize, file_size: usize },
}

/// One mapped region.
#[derive(Clone, Copy, Debug, PartialEq, Eq, Structural)]
pub struct VmArea {
    pub start: UserVAddr,
    pub len: usize,
    pub area_type: VmAreaType,
    pub prot: MMapProt,
}

/// The end (exclusive) of an area.
pub open spec fn area_end(a: VmArea) -> int {
    a.start@ + a.len
}

/// Area `a` shares an address with `[s, s + len)`.
pub open spec fn overlaps(a: VmArea, s: int, len: int) -> bool {
    a.start@ < s + len && s < area_end(a)
}

/// `[s, s + len)` is a non-null user range that no area touches.
pub open spec fn range_free(areas: Seq<VmArea>, s: int, len: int) -> bool {
    &&& 0 < s < KERNEL_BASE_ADDR
    &&& s + len <= KERNEL_BASE_ADDR
    &&& forall|i: int| 0 <= i < areas.len() ==> !overlaps(#[trigger] areas[i], s, len)
}

/// Every area is page-aligned, non-empty and in user space, and the areas
/// are ordered by start without overlapping.
pub open spec fn areas_wf(areas: Seq<VmArea>) -> bool {
    &&& forall|i: int|
        0 <= i < areas.len() ==> {
            &&& is_user_addr(#[trigger] areas[i].start@ as int)
            &&& areas[i].start@ % VM_PAGE_SIZE == 0
            &&& areas[i].len > 0
            &&& areas[i].len as int % VM_PAGE_SIZE as int == 0
            &&& area_end(areas[i]) <= KERNEL_BASE_ADDR
        }
    &&& forall|i: int, j: int|
        0 <= i < j < areas.len() ==> area_end(#[trigger] areas[i]) <= (#[trigger] areas[j]).start@
}

/// `start` and `len` are page multiples, `len` non-zero.
pub open spec fn insertable(start: int, len: int) -> bool {
    start % VM_PAGE_SIZE as int == 0 && len > 0 && len % VM_PAGE_SIZE as int == 0
}

/// `[a, a + len)` is free and lies within `[lo, hi)`.
pub open spec fn fits_in(areas: Seq<VmArea>, len: int, lo: int, hi: int, a: int) -> bool {
    &&& lo <= a
    &&& a + len <= hi
    &&& range_free(areas, a, len)
}

/// `a` is the lowest address of `[lo, hi)` at which `len` bytes fit.
pub open spec fn is_first_fit_in(areas: Seq<VmArea>, len: int, lo: int, hi: int, a: int) -> bool {
    &&& fits_in(areas, len, lo, hi, a)
    &&& forall|b: int| lo <= b < a ==> !fits_in(areas, len, lo, hi, b)
}

/// The lowest address of `[lo, hi)` at which `len` bytes fit, if any.
pub open spec fn first_fit_in(areas: Seq<VmArea>, len: int, lo: int, hi: int) -> Option<int> {
    if exists|a: int| is_first_fit_in(areas, len, lo, hi, a) {
        Some(choose|a: int| is_first_fit_in(areas, len, lo, hi, a))
    } else {
        None
    }
}

/// Where a request for `len` bytes without a usable hint is placed: the
/// lowest fit in the allocation window, or else the lowest page-aligned fit
/// anywhere in user space.
pub open spec fn first_fit(areas: Seq<VmArea>, len: int) -> Option<int> {
    match first_fit_in(areas, len, USER_VALLOC_BASE as int, USER_VALLOC_END as int) {
        Some(a) => Some(a),
        None => first_fit_in(areas, len, VM_PAGE_SIZE as int, KERNEL_BASE_ADDR as int),
    }
}

proof fn lemma_first_fit_unique(areas: Seq<VmArea>, len: int, lo: int, hi: int, a: int)
    requires
        is_first_fit_in(areas, len, lo, hi, a),
    ensures
        first_fit_in(areas, len, lo, hi) == Some(a),
{
    let c = choose|c: int| is_first_fit_in(areas, len, lo, hi, c);
    assert(is_first_fit_in(areas, len, lo, hi, c));
    if c < a {
        assert(!fits_in(areas, len, lo, hi, c));
    } else if a < c {
        assert(!fits_in(areas, len, lo, hi, a));
    }
}

/// Where some address of `[lo, hi)` fits, a lowest one does.
proof fn lemma_least_fit_exists(areas: Seq<VmArea>, len: int, lo: int, hi: int, t: int)
    requires
        fits_in(areas, len, lo, hi, t),
    ensures
        first_fit_in(areas, len, lo, hi) is Some,
    decreases t - lo,
{
    if exists|b: int| lo <= b < t && fits_in(areas, len, lo, hi, b) {
        let b = choose|b: int| lo <= b < t && fits_in(areas, len, lo, hi, b);
        lemma_least_fit_exists(areas, len, lo, hi, b);
    } else {
        assert(is_first_fit_in(areas, len, lo, hi, t));
    }
}

/// Rounding a free start up to the next page keeps the range free, when the
/// areas and the length are page multiples.
proof fn lemma_round_up_free(areas: Seq<VmArea>, s: int, len: int)
    requires
        areas_wf(areas),
        range_free(areas, s, len),
        len > 0,
        len % VM_PAGE_SIZE as int == 0,
    ensures
        ({
            let t = if s % VM_PAGE_SIZE as int == 0 { s } else { s - s % VM_PAGE_SIZE as int
                + VM_PAGE_SIZE };
            &&& VM_PAGE_SIZE <= t
            &&& t % VM_PAGE_SIZE as int == 0
            &&& range_free(areas, t, len)
        }),
{
    let p = VM_PAGE_SIZE as int;
    let m = s - s % p;
    let t = if s % p == 0 { s } else { m + p };
    lemma_page_multiple(m);
    if s % p == 0 {
        lemma_multiples_gap(s, 0);
    } else {
        lemma_page_multiple_sum(m + p, p);
        lemma_page_multiple_sum(m + len, len);
        lemma_multiples_gap(KERNEL_BASE_ADDR as int, m + len);
    }
    assert forall|i: int| 0 <= i < areas.len() implies !overlaps(#[trigger] areas[i], t, len) by {
        assert(!overlaps(areas[i], s, len));
        let st = areas[i].start@ as int;
        if st >= s + len && s % p != 0 {
            lemma_page_multiple_sum(st, len);
            lemma_multiples_gap(st - len, m);
        }
    }
}

proof fn lemma_page_multiple(x: int)
    ensures
        (x - x % 4096) % 4096 == 0,
{
    vstd::arithmetic::div_mod::lemma_fundamental_div_mod(x, 4096);
    vstd::arithmetic::div_mod::lemma_mod_multiples_basic(x / 4096, 4096);
}

proof fn lemma_page_multiple_sum(x: int, y: int)
    requires
        y % 4096 == 0,
    ensures
        (x - y) % 4096 == x % 4096,
{
    vstd::arithmetic::div_mod::lemma_mod_sub_multiples_vanish(x, 4096);
    vstd::arithmetic::div_mod::lemma_fundamental_div_mod(y, 4096);
    vstd::arithmetic::div_mod::lemma_mod_multiples_vanish(-(y / 4096), x, 4096);
}

proof fn lemma_multiples_gap(x: int, y: int)
    requires
        x % 4096 == 0,
        y % 4096 == 0,
        x > y,
    ensures
        x >= y + 4096,
{
    vstd::arithmetic::div_mod::lemma_fundamental_div_mod(x, 4096);
    vstd::arithmetic::div_mod::lemma_fundamental_div_mod(y, 4096);
    assert(x / 4096 > y / 4096) by (nonlinear_arith)
        requires
            x == 4096 * (x / 4096),
            y == 4096 * (y / 4096),
            x > y,
    ;
}

/// The place chosen for a request is free.
pub(crate) proof fn lemma_first_fit_free(areas: Seq<VmArea>, len: int)
    requires
        first_fit(areas, len) is Some,
    ensures
        range_free(areas, first_fit(areas, len)->Some_0, len),
{
    let w = first_fit_in(areas, len, USER_VALLOC_BASE as int, USER_VALLOC_END as int);
    if w is Some {
        let a = choose|a: int| is_first_fit_in(areas, len, USER_VALLOC_BASE as int, USER_VALLOC_END as int, a);
        assert(is_first_fit_in(areas, len, USER_VALLOC_BASE as int, USER_VALLOC_END as int, a));
    } else {
        let a = choose|a: int| is_first_fit_in(areas, len, VM_PAGE_SIZE as int, KERNEL_BASE_ADDR as int, a);
        assert(is_first_fit_in(areas, len, VM_PAGE_SIZE as int, KERNEL_BASE_ADDR as int, a));
    }
}

/// A non-zero page-multiple length that is free anywhere in user space is
/// placed.
pub proof fn lemma_first_fit_found(areas: Seq<VmArea>, s: int, len: int)
    requires
        areas_wf(areas),
        range_free(areas, s, len),
        len > 0,
        len % VM_PAGE_SIZE as int == 0,
    ensures
        first_fit(areas, len) is Some,
{
    lemma_round_up_free(areas, s, len);
    let t = if s % VM_PAGE_SIZE as int == 0 { s } else { s - s % VM_PAGE_SIZE as int
        + VM_PAGE_SIZE };
    lemma_least_fit_exists(areas, len, VM_PAGE_SIZE as int, KERNEL_BASE_ADDR as int, t);
}

/// The address space of one process.
pub struct Vm {
    areas: Vec<VmArea>,
}

impl View for Vm {
    type V = Seq<VmArea>;

    closed spec fn view(&self) -> Seq<VmArea> {
        self.areas@
    }
}

impl Vm {
    /// The invariant every operation keeps.
    pub open spec fn wf(&self) -> bool {
        areas_wf(self@)
    }

    /// An address space with nothing mapped.
    pub fn new() -> (r: Vm)
        ensures
            r@ == Seq::<VmArea>::empty(),
            r.wf(),
    {
        Vm { areas: Vec::new() }
    }

    /// The mapped areas, ordered by start.
    pub fn areas(&self) -> (r: &[VmArea])
        ensures
            r@ == self@,
    {
        self.areas.as_slice()
    }

    /// Whether `[addr, addr + len)` is a non-null user range that no area
    /// touches.
    pub fn is_free_vaddr_range(&self, addr: u64, len: usize) -> (r: bool)
        ensures
            r == range_free(self@, addr as int, len as int),
    {
        if addr == 0 || addr >= KERNEL_BASE_ADDR || len as u64 > KERNEL_BASE_ADDR - addr {
            return false;
        }
        let end = addr + len as u64;
        let mut i: usize = 0;
        while i < self.areas.len()
            invariant
                0 < addr,
                end == addr + len,
                end <= KERNEL_BASE_ADDR,
                i <= self@.len(),
                forall|j: int| 0 <= j < i ==> !overlaps(#[trigger] self@[j], addr as int, len as int),
            decreases self@.len() - i,
        {
            let area = &self.areas[i];
            let start = area.start.value();
            if start < end && (addr < start || addr - start < area.len as u64) {
                return false;
            }
            i = i + 1;
        }
        true
    }
    /// Finds where `len` bytes go: the lowest free address of the
    /// allocation window, or else the lowest free page-aligned address of
    /// user space. Nothing is mapped.
    pub fn alloc_vaddr_range(&self, len: usize) -> (r: Result<UserVAddr, Error>)
        requires
            self.wf(),
        ensures
            match first_fit(self@, len as int) {
                Some(a) => r is Ok && r->Ok_0@ == a && a % VM_PAGE_SIZE as int == 0,
                None => r == Err::<UserVAddr, Error>(Error::OutOfAddressSpace),
            },
            r is Err && len > 0 && len as int % VM_PAGE_SIZE as int == 0 ==> forall|s: int|
                !range_free(self@, s, len as int),
    {
        let found = match self.lowest_fit(len, USER_VALLOC_BASE, USER_VALLOC_END) {
            Some(a) => Some(a),
            None => self.lowest_fit(len, VM_PAGE_SIZE, KERNEL_BASE_ADDR),
        };
        match found {
            Some(a) => UserVAddr::new_nonnull(a),
            None => {
                proof {
                    if len > 0 && len as int % VM_PAGE_SIZE as int == 0 {
                        assert forall|s: int| !range_free(self@, s, len as int) by {
                            if range_free(self@, s, len as int) {
                                lemma_first_fit_found(self@, s, len as int);
                            }
                        }
                    }
                }
                Err(Error::OutOfAddressSpace)
            },
        }
    }

    /// The lowest address of `[lo, hi)` at which `len` bytes are free.
    fn lowest_fit(&self, len: usize, lo: u64, hi: u64) -> (r: Option<u64>)
        requires
            self.wf(),
            0 < lo <= hi <= KERNEL_BASE_ADDR,
            lo % VM_PAGE_SIZE == 0,
        ensures
            match first_fit_in(self@, len as int, lo as int, hi as int) {
                Some(a) => r == Some(a as u64) && a % VM_PAGE_SIZE as int == 0 && is_user_addr(a),
                None => r is None,
            },
    {
        let len64 = len as u64;
        let mut cand: u64 = lo;
        let mut i: usize = 0;
        while i < self.areas.len()
            invariant
                self.wf(),
                0 < lo <= hi <= KERNEL_BASE_ADDR,
                len64 == len,
                i <= self@.len(),
                lo <= cand <= KERNEL_BASE_ADDR,
                cand % VM_PAGE_SIZE == 0,
                forall|j: int| 0 <= j < i ==> area_end(#[trigger] self@[j]) <= cand,
                forall|b: int| lo <= b < cand ==> !fits_in(self@, len as int, lo as int, hi as int, b),
            decreases self@.len() - i,
        {
            let area = &self.areas[i];
            let start = area.start.value();
            assert(area_end(self@[i as int]) <= KERNEL_BASE_ADDR);
            if cand <= start && len64 <= start - cand {
                proof {
                    assert forall|j: int| 0 <= j < self@.len() implies !overlaps(
                        #[trigger] self@[j],
                        cand as int,
                        len as int,
                    ) by {
                        if j > i {
                            assert(area_end(self@[i as int]) <= self@[j].start@);
                        }
                    }
                }
                return self.fit_or_exhausted(cand, len, lo, hi);
            }
            let end = start + area.len as u64;
            proof {
                assert forall|b: int| lo <= b < end implies !fits_in(
                    self@,
                    len as int,
                    lo as int,
                    hi as int,
                    b,
                ) by {
                    if b >= cand {
                        assert(overlaps(self@[i as int], b, len as int));
                    }
                }
            }
            if end > cand {
                cand = end;
            }
            i = i + 1;
        }
        self.fit_or_exhausted(cand, len, lo, hi)
    }

    /// Concludes the search at `cand`, the lowest candidate that every area
    /// leaves free.
    fn fit_or_exhausted(&self, cand: u64, len: usize, lo: u64, hi: u64) -> (r: Option<u64>)
        requires
            0 < lo <= cand <= KERNEL_BASE_ADDR,
            hi <= KERNEL_BASE_ADDR,
            cand % VM_PAGE_SIZE == 0,
            forall|j: int| 0 <= j < self@.len() ==> !overlaps(#[trigger] self@[j], cand as int, len as int),
            forall|b: int| lo <= b < cand ==> !fits_in(self@, len as int, lo as int, hi as int, b),
        ensures
            match first_fit_in(self@, len as int, lo as int, hi as int) {
                Some(a) => r == Some(a as u64) && a % VM_PAGE_SIZE as int == 0 && is_user_addr(a),
                None => r is None,
            },
    {
        if cand < KERNEL_BASE_ADDR && cand <= hi && len as u64 <= hi - cand {
            proof {
                assert(is_first_fit_in(self@, len as int, lo as int, hi as int, cand as int));
                lemma_first_fit_unique(self@, len as int, lo as int, hi as int, cand as int);
            }
            Some(cand)
        } else {
            proof {
                assert forall|a: int| !is_first_fit_in(self@, len as int, lo as int, hi as int, a) by {
                    if lo <= a && a >= cand {
                        assert(!fits_in(self@, len as int, lo as int, hi as int, a));
                    }
                }
            }
            None
        }
    }

    /// Records a new area at `start`. The range is checked again here, so a
    /// caller that skipped the check cannot break the invariant.
    pub fn add_vm_area(
        &mut self,
        start: UserVAddr,
        len: usize,
        area_type: VmAreaType,
        prot: MMapProt,
    ) -> (r: Result<(), Error>)
        requires
            old(self).wf(),
        ensures
            final(self).wf(),
            !insertable(start@ as int, len as int) ==> r == Err::<(), Error>(
                Error::InvalidArgument,
            ) && final(self)@ == old(self)@,
            insertable(start@ as int, len as int) && !range_free(
                old(self)@,
                start@ as int,
                len as int,
            ) ==> r == Err::<(), Error>(Error::AddressRangeInUse) && final(self)@ == old(self)@,
            insertable(start@ as int, len as int) && range_free(
                old(self)@,
                start@ as int,
                len as int,
            ) ==> r is Ok && exists|k: int|
                0 <= k <= old(self)@.len() && final(self)@ == old(self)@.insert(
                    k,
                    (VmArea { start, len, area_type, prot }),
                ),
    {
        let addr = start.value();
        if addr % VM_PAGE_SIZE != 0 || len == 0 || len as u64 % VM_PAGE_SIZE != 0 {
            return Err(Error::InvalidArgument);
        }
        if !self.is_free_vaddr_range(addr, len) {
            return Err(Error::AddressRangeInUse);
        }
        let mut k: usize = 0;
        while k < self.areas.len() && self.areas[k].start.value() < addr
            invariant
                self.wf(),
                k <= self@.len(),
                forall|j: int| 0 <= j < k ==> (#[trigger] self@[j]).start@ < addr,
            decreases self@.len() - k,
        {
            k = k + 1;
        }
        let area = VmArea { start, len, area_type, prot };
        let ghost before = self@;
        self.areas.insert(k, area);
        proof {
            let after = self@;
            assert(after == before.insert(k as int, area));
            assert(k < before.len() ==> before[k as int].start@ >= addr);
            assert forall|j: int| 0 <= j < before.len() implies !overlaps(
                #[trigger] before[j],
                addr as int,
                len as int,
            ) by {}
            assert forall|i: int, j: int|
                0 <= i < j < after.len() implies area_end(#[trigger] after[i]) <= (
                #[trigger] after[j]).start@ by {
                if i < k && j == k {
                    assert(!overlaps(before[i], addr as int, len as int));
                } else if i == k && j > k {
                    assert(!overlaps(before[j - 1], addr as int, len as int));
                    if (k as int) < j - 1 {
                        assert(area_end(before[k as int]) <= before[j - 1].start@);
                    }
                } else if i < k && j > k {
                    assert(area_end(before[i]) <= before[j - 1].start@);
                } else if i > k {
                    assert(area_end(before[i - 1]) <= before[j - 1].start@);
                } else {
                    assert(area_end(before[i]) <= before[j].start@);
                }
            }
        }
        Ok(())
    }
}

} // verus!
