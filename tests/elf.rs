use kerla_exec::elf::{Elf, ET_DYN, ET_EXEC, PAGE_SIZE, PT_INTERP, PT_LOAD};
use kerla_exec::error::Error;

fn put(buf: &mut [u8], off: usize, value: u64, width: usize) {
    for i in 0..width {
        buf[off + i] = (value >> (8 * i)) as u8;
    }
}

/// An x86-64 image with the program-header table right after the header;
/// each entry is (type, offset, file size, virtual address, alignment).
fn image(e_type: u16, phdrs: &[(u32, u64, u64, u64, u64)], total: usize) -> Vec<u8> {
    let mut buf = vec![0u8; total];
    buf[0] = 0x7f;
    buf[1] = b'E';
    buf[2] = b'L';
    buf[3] = b'F';
    put(&mut buf, 16, e_type as u64, 2);
    put(&mut buf, 18, 62, 2);
    put(&mut buf, 24, 0x40_1000, 8);
    put(&mut buf, 32, 64, 8);
    put(&mut buf, 56, phdrs.len() as u64, 2);
    for (i, &(p_type, offset, filesz, vaddr, align)) in phdrs.iter().enumerate() {
        let o = 64 + 56 * i;
        put(&mut buf, o, p_type as u64, 4);
        put(&mut buf, o + 8, offset, 8);
        put(&mut buf, o + 16, vaddr, 8);
        put(&mut buf, o + 32, filesz, 8);
        put(&mut buf, o + 40, filesz, 8);
        put(&mut buf, o + 48, align, 8);
    }
    buf
}

#[test]
fn parse_rejects_short_buffer() {
    let buf = image(ET_EXEC, &[], 64);
    assert!(matches!(Elf::parse(&buf[..63]), Err(Error::MalformedExecutable)));
    assert!(matches!(Elf::parse(&[]), Err(Error::MalformedExecutable)));
}

#[test]
fn parse_rejects_bad_magic() {
    for i in 0..4 {
        let mut buf = image(ET_EXEC, &[], 64);
        buf[i] ^= 0xff;
        assert!(matches!(Elf::parse(&buf), Err(Error::MalformedExecutable)));
    }
}

#[test]
fn parse_rejects_other_machine_and_type() {
    let mut buf = image(ET_EXEC, &[], 64);
    buf[18] = 40;
    assert!(matches!(Elf::parse(&buf), Err(Error::MalformedExecutable)));
    let buf = image(1, &[], 64);
    assert!(matches!(Elf::parse(&buf), Err(Error::MalformedExecutable)));
}

#[test]
fn parse_rejects_table_past_buffer() {
    let buf = image(ET_EXEC, &[(PT_LOAD, 0, 0x100, 0x40_0000, 0x1000)], 64 + 56);
    assert!(Elf::parse(&buf).is_ok());
    assert!(matches!(Elf::parse(&buf[..64 + 55]), Err(Error::MalformedExecutable)));
}

#[test]
fn parse_decodes_header_and_entries() {
    let buf = image(
        ET_DYN,
        &[(PT_LOAD, 0, 0x200, 0x40_0000, 0x1000), (PT_INTERP, 0x180, 0x1c, 0x40_0180, 1)],
        0x200,
    );
    let elf = Elf::parse(&buf).unwrap();
    assert_eq!(elf.header().e_type, ET_DYN);
    assert_eq!(elf.header().e_machine, 62);
    assert_eq!(elf.header().e_entry, 0x40_1000);
    assert_eq!(elf.header().e_phoff, 64);
    assert_eq!(elf.header().e_phnum, 2);
    let phs = elf.program_headers();
    assert_eq!(phs.len(), 2);
    assert_eq!(phs[0].p_type, PT_LOAD);
    assert_eq!(phs[0].p_vaddr, 0x40_0000);
    assert_eq!(phs[1].p_type, PT_INTERP);
    assert_eq!(phs[1].p_offset, 0x180);
    assert_eq!(phs[1].p_filesz, 0x1c);
}

#[test]
fn interpreter_returns_path_bytes() {
    let path = b"/lib64/ld-linux-x86-64.so.2\0";
    let mut buf = image(ET_DYN, &[(PT_INTERP, 0x180, path.len() as u64, 0, 1)], 0x200);
    buf[0x180..0x180 + path.len()].copy_from_slice(path);
    let elf = Elf::parse(&buf).unwrap();
    assert_eq!(elf.interpreter(&buf), Some(&path[..]));
}

#[test]
fn interpreter_absent_without_entry() {
    let buf = image(ET_EXEC, &[(PT_LOAD, 0, 0x100, 0x40_0000, 0x1000)], 0x100);
    let elf = Elf::parse(&buf).unwrap();
    assert_eq!(elf.interpreter(&buf), None);
}

#[test]
fn interpreter_absent_when_path_is_past_buffer() {
    let buf = image(ET_DYN, &[(PT_INTERP, 0x1f0, 0x20, 0, 1)], 0x200);
    let elf = Elf::parse(&buf).unwrap();
    assert_eq!(elf.interpreter(&buf), None);
}

#[test]
fn max_align_is_page_size_without_loadable_segments() {
    let buf = image(ET_EXEC, &[(PT_INTERP, 0x100, 4, 0, 0x20_0000)], 0x200);
    let elf = Elf::parse(&buf).unwrap();
    assert_eq!(elf.max_align(), PAGE_SIZE);
    let buf = image(ET_EXEC, &[], 64);
    assert_eq!(Elf::parse(&buf).unwrap().max_align(), 4096);
}

#[test]
fn max_align_floors_small_alignments() {
    let buf = image(
        ET_EXEC,
        &[(PT_LOAD, 0, 0x100, 0x40_0000, 16), (PT_LOAD, 0x100, 0x100, 0x40_1000, 0)],
        0x200,
    );
    assert_eq!(Elf::parse(&buf).unwrap().max_align(), 4096);
}

#[test]
fn max_align_takes_largest_loadable() {
    let buf = image(
        ET_EXEC,
        &[(PT_LOAD, 0, 0x100, 0x40_0000, 0x20_0000), (PT_LOAD, 0x100, 0x100, 0x60_0000, 0x1000)],
        0x200,
    );
    assert_eq!(Elf::parse(&buf).unwrap().max_align(), 0x20_0000);
}

#[test]
fn phdr_vaddr_from_covering_segment() {
    let buf = image(ET_EXEC, &[(PT_LOAD, 0, 0x1000, 0x40_0000, 0x1000)], 0x200);
    let elf = Elf::parse(&buf).unwrap();
    assert_eq!(elf.phdr_vaddr().unwrap().value(), 0x40_0040);
}

#[test]
fn phdr_vaddr_skips_non_covering_segments() {
    let buf = image(
        ET_EXEC,
        &[
            (PT_INTERP, 0, 0x1000, 0x10_0000, 1),
            (PT_LOAD, 0x48, 0x10, 0x50_0000, 0x1000),
            (PT_LOAD, 0x20, 0x100, 0x60_0000, 0x1000),
        ],
        0x200,
    );
    let elf = Elf::parse(&buf).unwrap();
    assert_eq!(elf.phdr_vaddr().unwrap().value(), 0x60_0020);
}

#[test]
fn phdr_vaddr_without_covering_segment() {
    let buf = image(ET_EXEC, &[(PT_LOAD, 0x1000, 0x1000, 0x40_0000, 0x1000)], 0x200);
    let elf = Elf::parse(&buf).unwrap();
    assert_eq!(elf.phdr_vaddr(), Err(Error::MalformedExecutable));
}

#[test]
fn phdr_vaddr_rejects_kernel_address() {
    let buf = image(ET_EXEC, &[(PT_LOAD, 0, 0x1000, 0xffff_8000_0000_0000, 0x1000)], 0x200);
    let elf = Elf::parse(&buf).unwrap();
    assert_eq!(elf.phdr_vaddr(), Err(Error::BadAddress));
}

#[test]
fn phdr_vaddr_ignores_segment_whose_range_overflows() {
    let buf = image(ET_EXEC, &[(PT_LOAD, 1, u64::MAX, 0x1000, 0x1000)], 0x200);
    let elf = Elf::parse(&buf).unwrap();
    assert_eq!(elf.phdr_vaddr(), Err(Error::MalformedExecutable));
    let buf = image(
        ET_EXEC,
        &[(PT_LOAD, 1, u64::MAX, 0x1000, 0x1000), (PT_LOAD, 0, 0x1000, 0x40_0000, 0x1000)],
        0x200,
    );
    let elf = Elf::parse(&buf).unwrap();
    assert_eq!(elf.phdr_vaddr().unwrap().value(), 0x40_0040);
}
