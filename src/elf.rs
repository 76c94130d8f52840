//! Validating views of 64-bit x86-64 ELF images.
//!
//! All multi-byte fields are little-endian. The header occupies the first
//! 64 bytes; the program-header table holds 56-byte entries starting at
//! `e_phoff`.
use vstd::prelude::*;
use vstd::slice::slice_subrange;
use crate::address::{is_user_addr, UserVAddr};
use crate::error::Error;

verus! {

/// The page size: the loosest placement granularity of the address space.
pub const PAGE_SIZE: u64 = 4096;

/// Size of the fixed ELF64 header.
pub const ELF_HEADER_SIZE: usize = 64;

/// Size of one ELF64 program-header entry.
pub const PROGRAM_HEADER_SIZE: usize = 56;

/// `e_machine` of x86-64.
pub const EM_X86_64: u16 = 62;

/// `e_type` of a statically linked executable.
pub const ET_EXEC: u16 = 2;

/// `e_type` of a dynamically loadable image.
pub const ET_DYN: u16 = 3;

/// `p_type` of a loadable segment.
pub const PT_LOAD: u32 = 1;

/// `p_type` of the entry naming the program interpreter.
pub const PT_INTERP: u32 = 3;

/// The fields of the ELF header that loading relies on.
#[derive(Clone, Copy, Debug, PartialEq, Eq, Structural)]
pub struct Header {
    pub e_type: u16,
    pub e_machine: u16,
    pub e_entry: u64,
    pub e_phoff: u64,
    pub e_phnum: u16,
}

/// One program-header entry.
#[derive(Clone, Copy, Debug, PartialEq, Eq, Structural)]
pub struct ProgramHeader {
    pub p_type: u32,
    pub p_flags: u32,
    pub p_offset: u64,
    pub p_vaddr: u64,
    pub p_paddr: u64,
    pub p_filesz: u64,
    pub p_memsz: u64,
    pub p_align: u64,
}

/// A validated image: its header and its program-header table.
pub struct Elf {
    pub header: Header,
    pub program_headers: Vec<ProgramHeader>,
}

pub open spec fn u16_at(b: Seq<u8>, o: int) -> int {
    b[o] + 256 * b[o + 1]
}

pub open spec fn u32_at(b: Seq<u8>, o: int) -> int {
    u16_at(b, o) + 65536 * u16_at(b, o + 2)
}

pub open spec fn u64_at(b: Seq<u8>, o: int) -> int {
    u32_at(b, o) + 4294967296 * u32_at(b, o + 4)
}

/// The header decoded from the first 64 bytes.
pub open spec fn header_of(b: Seq<u8>) -> Header {
    Header {
        e_type: u16_at(b, 16) as u16,
        e_machine: u16_at(b, 18) as u16,
        e_entry: u64_at(b, 24) as u64,
        e_phoff: u64_at(b, 32) as u64,
        e_phnum: u16_at(b, 56) as u16,
    }
}

/// The program-header entry decoded from the 56 bytes at `o`.
pub open spec fn program_header_at(b: Seq<u8>, o: int) -> ProgramHeader {
    ProgramHeader {
        p_type: u32_at(b, o) as u32,
        p_flags: u32_at(b, o + 4) as u32,
        p_offset: u64_at(b, o + 8) as u64,
        p_vaddr: u64_at(b, o + 16) as u64,
        p_paddr: u64_at(b, o + 24) as u64,
        p_filesz: u64_at(b, o + 32) as u64,
        p_memsz: u64_at(b, o + 40) as u64,
        p_align: u64_at(b, o + 48) as u64,
    }
}

/// The first four bytes are `\x7fELF`.
pub open spec fn has_elf_magic(b: Seq<u8>) -> bool {
    b[0] == 0x7f && b[1] == 0x45 && b[2] == 0x4c && b[3] == 0x46
}

/// A complete header with the signature, machine and type this loader takes.
pub open spec fn is_valid_header(b: Seq<u8>) -> bool {
    &&& b.len() >= ELF_HEADER_SIZE
    &&& has_elf_magic(b)
    &&& header_of(b).e_machine == EM_X86_64
    &&& (header_of(b).e_type == ET_EXEC || header_of(b).e_type == ET_DYN)
}

/// The program-header table lies inside the buffer.
pub open spec fn table_in_bounds(b: Seq<u8>) -> bool {
    header_of(b).e_phoff + PROGRAM_HEADER_SIZE * header_of(b).e_phnum <= b.len()
}

/// The first entry at or after index `i` whose type is `t`.
pub open spec fn first_of_type(phs: Seq<ProgramHeader>, t: u32, i: int) -> Option<ProgramHeader>
    decreases phs.len() - i,
{
    if i < 0 || i >= phs.len() {
        None
    } else if phs[i].p_type == t {
        Some(phs[i])
    } else {
        first_of_type(phs, t, i + 1)
    }
}

/// A loadable segment whose file range holds offset `off`. A range whose
/// end passes the largest offset holds nothing.
pub open spec fn covers_offset(p: ProgramHeader, off: u64) -> bool {
    &&& p.p_type == PT_LOAD
    &&& p.p_offset + p.p_filesz <= u64::MAX
    &&& p.p_offset <= off < p.p_offset + p.p_filesz
}

/// The first loadable segment at or after index `i` whose file range holds `off`.
pub open spec fn first_covering(phs: Seq<ProgramHeader>, off: u64, i: int) -> Option<
    ProgramHeader,
>
    decreases phs.len() - i,
{
    if i < 0 || i >= phs.len() {
        None
    } else if covers_offset(phs[i], off) {
        Some(phs[i])
    } else {
        first_covering(phs, off, i + 1)
    }
}

/// The largest alignment among the loadable segments of `phs[..n]`, and at
/// least the page size.
pub open spec fn max_load_align(phs: Seq<ProgramHeader>, n: int) -> u64
    decreases n,
{
    if n <= 0 {
        PAGE_SIZE
    } else {
        let a = max_load_align(phs, n - 1);
        if phs[n - 1].p_type == PT_LOAD && phs[n - 1].p_align > a {
            phs[n - 1].p_align
        } else {
            a
        }
    }
}

/// With no loadable segment aligned more loosely than a page, the image's
/// alignment is exactly the page size.
pub proof fn lemma_max_align_floor(phs: Seq<ProgramHeader>)
    requires
        forall|j: int|
            0 <= j < phs.len() && #[trigger] phs[j].p_type == PT_LOAD ==> phs[j].p_align
                <= PAGE_SIZE,
    ensures
        max_load_align(phs, phs.len() as int) == PAGE_SIZE,
{
    lemma_max_align_floor_prefix(phs, phs.len() as int);
}

proof fn lemma_max_align_floor_prefix(phs: Seq<ProgramHeader>, n: int)
    requires
        0 <= n <= phs.len(),
        forall|j: int|
            0 <= j < phs.len() && #[trigger] phs[j].p_type == PT_LOAD ==> phs[j].p_align
                <= PAGE_SIZE,
    ensures
        max_load_align(phs, n) == PAGE_SIZE,
    decreases n,
{
    if n > 0 {
        lemma_max_align_floor_prefix(phs, n - 1);
    }
}

fn read_u16(b: &[u8], o: usize) -> (r: u16)
    requires
        o + 2 <= b.len(),
    ensures
        r == u16_at(b@, o as int),
{
    b[o] as u16 + 256 * (b[o + 1] as u16)
}

fn read_u32(b: &[u8], o: usize) -> (r: u32)
    requires
        o + 4 <= b.len(),
    ensures
        r == u32_at(b@, o as int),
{
    read_u16(b, o) as u32 + 65536 * (read_u16(b, o + 2) as u32)
}

fn read_u64(b: &[u8], o: usize) -> (r: u64)
    requires
        o + 8 <= b.len(),
    ensures
        r == u64_at(b@, o as int),
{
    read_u32(b, o) as u64 + 4294967296 * (read_u32(b, o + 4) as u64)
}

fn read_program_header(b: &[u8], o: usize) -> (r: ProgramHeader)
    requires
        o + PROGRAM_HEADER_SIZE <= b.len(),
    ensures
        r == program_header_at(b@, o as int),
{
    ProgramHeader {
        p_type: read_u32(b, o),
        p_flags: read_u32(b, o + 4),
        p_offset: read_u64(b, o + 8),
        p_vaddr: read_u64(b, o + 16),
        p_paddr: read_u64(b, o + 24),
        p_filesz: read_u64(b, o + 32),
        p_memsz: read_u64(b, o + 40),
        p_align: read_u64(b, o + 48),
    }
}

impl Elf {
    /// Validates `buf` as an image and decodes its header and its
    /// program-header table. Every refusal is `MalformedExecutable`.
    pub fn parse(buf: &[u8]) -> (r: Result<Elf, Error>)
        ensures
            r is Ok <==> is_valid_header(buf@) && table_in_bounds(buf@),
            buf@.len() < ELF_HEADER_SIZE ==> r == Err::<Elf, Error>(Error::MalformedExecutable),
            buf@.len() >= ELF_HEADER_SIZE && !has_elf_magic(buf@) ==> r == Err::<Elf, Error>(
                Error::MalformedExecutable,
            ),
            r is Err ==> r == Err::<Elf, Error>(Error::MalformedExecutable),
            r matches Ok(elf) ==> {
                &&& elf.header == header_of(buf@)
                &&& elf.program_headers@.len() == elf.header.e_phnum
                &&& forall|i: int|
                    0 <= i < elf.program_headers@.len() ==> #[trigger] elf.program_headers@[i]
                        == program_header_at(buf@, elf.header.e_phoff + PROGRAM_HEADER_SIZE * i)
            },
    {
        if buf.len() < ELF_HEADER_SIZE {
            return Err(Error::MalformedExecutable);
        }
        if buf[0] != 0x7f || buf[1] != 0x45 || buf[2] != 0x4c || buf[3] != 0x46 {
            return Err(Error::MalformedExecutable);
        }
        let header = Header {
            e_type: read_u16(buf, 16),
            e_machine: read_u16(buf, 18),
            e_entry: read_u64(buf, 24),
            e_phoff: read_u64(buf, 32),
            e_phnum: read_u16(buf, 56),
        };
        if header.e_machine != EM_X86_64 {
            return Err(Error::MalformedExecutable);
        }
        if header.e_type != ET_EXEC && header.e_type != ET_DYN {
            return Err(Error::MalformedExecutable);
        }
        let len = buf.len() as u64;
        let table_size = PROGRAM_HEADER_SIZE as u64 * header.e_phnum as u64;
        if header.e_phoff > len || table_size > len - header.e_phoff {
            return Err(Error::MalformedExecutable);
        }
        let phoff = header.e_phoff as usize;
        let phnum = header.e_phnum as usize;
        let mut program_headers: Vec<ProgramHeader> = Vec::new();
        let mut i: usize = 0;
        while i < phnum
            invariant
                i <= phnum,
                phnum == header.e_phnum,
                phoff == header.e_phoff,
                phoff + PROGRAM_HEADER_SIZE * phnum <= buf.len(),
                program_headers@.len() == i,
                forall|j: int|
                    0 <= j < i ==> #[trigger] program_headers@[j] == program_header_at(
                        buf@,
                        phoff + PROGRAM_HEADER_SIZE * j,
                    ),
            decreases phnum - i,
        {
            let entry = read_program_header(buf, phoff + PROGRAM_HEADER_SIZE * i);
            program_headers.push(entry);
            i = i + 1;
        }
        Ok(Elf { header, program_headers })
    }

    /// The decoded header.
    pub fn header(&self) -> (r: &Header)
        ensures
            *r == self.header,
    {
        &self.header
    }

    /// The decoded program-header table.
    pub fn program_headers(&self) -> (r: &[ProgramHeader])
        ensures
            r@ == self.program_headers@,
    {
        self.program_headers.as_slice()
    }

    /// Where the program-header table is mapped: the first loadable segment
    /// whose file range holds `e_phoff` maps it at
    /// `e_phoff - p_offset + p_vaddr`.
    pub fn phdr_vaddr(&self) -> (r: Result<UserVAddr, Error>)
        ensures
            match first_covering(self.program_headers@, self.header.e_phoff, 0) {
                None => r == Err::<UserVAddr, Error>(Error::MalformedExecutable),
                Some(p) => {
                    let v = self.header.e_phoff - p.p_offset + p.p_vaddr;
                    &&& is_user_addr(v) ==> r is Ok && r->Ok_0@ == v
                    &&& !is_user_addr(v) ==> r == Err::<UserVAddr, Error>(Error::BadAddress)
                },
            },
    {
        let phoff = self.header.e_phoff;
        let phs = &self.program_headers;
        let mut i: usize = 0;
        while i < phs.len()
            invariant
                i <= phs@.len(),
                phs@ == self.program_headers@,
                phoff == self.header.e_phoff,
                first_covering(phs@, phoff, 0) == first_covering(phs@, phoff, i as int),
            decreases phs@.len() - i,
        {
            let hdr = &phs[i];
            assert(first_covering(phs@, phoff, i as int) == if covers_offset(*hdr, phoff) {
                Some(*hdr)
            } else {
                first_covering(phs@, phoff, i + 1)
            });
            if hdr.p_type == PT_LOAD && hdr.p_filesz <= u64::MAX - hdr.p_offset && phoff
                >= hdr.p_offset && phoff - hdr.p_offset < hdr.p_filesz {
                let diff = phoff - hdr.p_offset;
                if hdr.p_vaddr > u64::MAX - diff {
                    return Err(Error::BadAddress);
                }
                return UserVAddr::new_nonnull(diff + hdr.p_vaddr);
            }
            i = i + 1;
        }
        Err(Error::MalformedExecutable)
    }

    /// The interpreter path named by the first `PT_INTERP` entry, sliced out
    /// of `buf`; `None` when there is no such entry or its file range does
    /// not lie inside `buf`.
    pub fn interpreter<'a>(&self, buf: &'a [u8]) -> (r: Option<&'a [u8]>)
        ensures
            match first_of_type(self.program_headers@, PT_INTERP, 0) {
                None => r is None,
                Some(p) => if p.p_offset + p.p_filesz <= buf@.len() {
                    r is Some && r->Some_0@ == buf@.subrange(
                        p.p_offset as int,
                        p.p_offset + p.p_filesz,
                    )
                } else {
                    r is None
                },
            },
    {
        let phs = &self.program_headers;
        let mut i: usize = 0;
        while i < phs.len()
            invariant
                i <= phs@.len(),
                phs@ == self.program_headers@,
                first_of_type(phs@, PT_INTERP, 0) == first_of_type(phs@, PT_INTERP, i as int),
            decreases phs@.len() - i,
        {
            let phdr = &phs[i];
            assert(first_of_type(phs@, PT_INTERP, i as int) == if phdr.p_type == PT_INTERP {
                Some(*phdr)
            } else {
                first_of_type(phs@, PT_INTERP, i + 1)
            });
            if phdr.p_type == PT_INTERP {
                let len = buf.len() as u64;
                if phdr.p_offset > len || phdr.p_filesz > len - phdr.p_offset {
                    return None;
                }
                let start = phdr.p_offset as usize;
                let end = (phdr.p_offset + phdr.p_filesz) as usize;
                return Some(slice_subrange(buf, start, end));
            }
            i = i + 1;
        }
        None
    }

    /// The alignment the whole image must be placed with: the largest
    /// alignment of its loadable segments, and never less than a page.
    pub fn max_align(&self) -> (r: u64)
        ensures
            r == max_load_align(self.program_headers@, self.program_headers@.len() as int),
            r >= PAGE_SIZE,
            forall|j: int|
                0 <= j < self.program_headers@.len() && #[trigger] self.program_headers@[j].p_type
                    == PT_LOAD ==> self.program_headers@[j].p_align <= r,
    {
        let phs = &self.program_headers;
        let mut align: u64 = PAGE_SIZE;
        let mut i: usize = 0;
        while i < phs.len()
            invariant
                i <= phs@.len(),
                align == max_load_align(phs@, i as int),
                align >= PAGE_SIZE,
                forall|j: int|
                    0 <= j < i && #[trigger] phs@[j].p_type == PT_LOAD ==> phs@[j].p_align
                        <= align,
            decreases phs@.len() - i,
        {
            let phdr = &phs[i];
            if phdr.p_type == PT_LOAD && phdr.p_align > align {
                align = phdr.p_align;
            }
            i = i + 1;
        }
        align
    }
}

} // verus!
