use axkernel::addr::VirtAddr;
use axkernel::elf::SegmentEntry;
use axkernel::flags::MappingFlags;

fn put16(v: &mut Vec<u8>, at: usize, x: u16) {
    v[at..at + 2].copy_from_slice(&x.to_le_bytes());
}

fn put32(v: &mut Vec<u8>, at: usize, x: u32) {
    v[at..at + 4].copy_from_slice(&x.to_le_bytes());
}

fn put64(v: &mut Vec<u8>, at: usize, x: u64) {
    v[at..at + 8].copy_from_slice(&x.to_le_bytes());
}

/// A 64-bit ELF image with the given program headers, each given as
/// (type, flags, offset, vaddr, file size, memory size), after 0x100 bytes of
/// payload.
fn elf64(headers: &[(u32, u32, u64, u64, u64, u64)]) -> Vec<u8> {
    let phoff = 64usize;
    let len = phoff + 56 * headers.len() + 0x100;
    let mut v = vec![0u8; len];
    v[0..4].copy_from_slice(&[0x7f, b'E', b'L', b'F']);
    v[4] = 2;
    v[5] = 1;
    v[6] = 1;
    put16(&mut v, 16, 2);
    put16(&mut v, 18, 0x3e);
    put32(&mut v, 20, 1);
    put64(&mut v, 24, 0x40_1000);
    put64(&mut v, 32, phoff as u64);
    put16(&mut v, 52, 64);
    put16(&mut v, 54, 56);
    put16(&mut v, 56, headers.len() as u16);
    for (i, h) in headers.iter().enumerate() {
        let at = phoff + 56 * i;
        put32(&mut v, at, h.0);
        put32(&mut v, at + 4, h.1);
        put64(&mut v, at + 8, h.2);
        put64(&mut v, at + 16, h.3);
        put64(&mut v, at + 24, h.3);
        put64(&mut v, at + 32, h.4);
        put64(&mut v, at + 40, h.5);
        put64(&mut v, at + 48, 0x1000);
    }
    for (i, b) in v.iter_mut().enumerate().skip(len - 0x100) {
        *b = i as u8;
    }
    v
}

#[test]
fn loadable_segments_are_listed() {
    let data = elf64(&[
        (1, 5, 0, 0x40_0000, 0x80, 0x100),
        (4, 4, 0x100, 0x50_0000, 0x10, 0x10),
        (1, 6, 0xb0, 0x60_0000, 0x20, 0x1000),
    ]);
    let segs = SegmentEntry::new(&data).unwrap();
    assert_eq!(segs.len(), 2);
    assert_eq!(segs[0].start_addr, VirtAddr::from(0x40_0000));
    assert_eq!(segs[0].size, 0x100);
    assert_eq!(segs[0].data, &data[0..0x80]);
    assert_eq!(segs[0].flags.bits(), MappingFlags::READ | MappingFlags::EXECUTE);
    assert_eq!(segs[1].start_addr, VirtAddr::from(0x60_0000));
    assert_eq!(segs[1].size, 0x1000);
    assert_eq!(segs[1].data, &data[0xb0..0xd0]);
    assert_eq!(segs[1].flags.bits(), MappingFlags::READ | MappingFlags::WRITE);
}

#[test]
fn not_an_elf_file() {
    let mut data = elf64(&[(1, 4, 0, 0x1000, 0x10, 0x10)]);
    data[1] = b'X';
    assert!(SegmentEntry::new(&data).is_none());
    assert!(SegmentEntry::new(&data[..10]).is_none());
    let short = elf64(&[]);
    assert!(SegmentEntry::new(&short[..40]).is_none());
}

#[test]
fn unknown_segment_type_rejects_the_file() {
    let data = elf64(&[(1, 4, 0, 0x1000, 0x10, 0x10), (0x5000_0000, 4, 0, 0x2000, 0, 0)]);
    assert!(SegmentEntry::new(&data).is_none());
    let fine = elf64(&[(1, 4, 0, 0x1000, 0x10, 0x10), (0x6000_0001, 4, 0, 0x2000, 0, 0)]);
    assert_eq!(SegmentEntry::new(&fine).unwrap().len(), 1);
}

#[test]
fn no_program_headers() {
    let data = elf64(&[]);
    assert_eq!(SegmentEntry::new(&data).unwrap().len(), 0);
}

#[test]
fn out_of_file_segments_are_caught() {
    let mut data = elf64(&[(1, 4, 0, 0x1000, 0x10, 0x10)]);
    assert!(SegmentEntry::new_checked(&data).unwrap().is_some());
    // The segment's bytes run past the end of the file.
    put64(&mut data, 64 + 32, 0x10_0000);
    assert!(SegmentEntry::new_checked(&data).is_none());
    // The header table runs past the end of the file.
    let mut table = elf64(&[(1, 4, 0, 0x1000, 0x10, 0x10)]);
    let near_end = (table.len() - 10) as u64;
    put64(&mut table, 32, near_end);
    assert!(SegmentEntry::new_checked(&table).is_none());
    // An entry size below that of a 64-bit program header cannot be read.
    let mut small = elf64(&[(1, 4, 0, 0x1000, 0x10, 0x10)]);
    put16(&mut small, 54, 32);
    assert!(SegmentEntry::new_checked(&small).is_none());
    // A program header table at an offset not aligned for 64-bit headers.
    let mut odd = elf64(&[(1, 4, 0, 0x1000, 0x10, 0x10)]);
    let len = odd.len();
    odd.insert(64, 0);
    odd.truncate(len);
    put64(&mut odd, 32, 65);
    assert!(SegmentEntry::new_checked(&odd).is_none());
    // A walk that stops at an unknown type never reaches the headers past it.
    let mut stops = elf64(&[(1, 4, 0, 0x1000, 0x10, 0x10)]);
    put16(&mut stops, 56, 100);
    assert!(matches!(SegmentEntry::new_checked(&stops), Some(None)));
    // A table offset of zero means there are no program headers to read.
    let mut none = elf64(&[(1, 4, 0, 0x1000, 0x10, 0x10)]);
    put64(&mut none, 32, 0);
    let r = SegmentEntry::new_checked(&none);
    assert!(matches!(r, Some(None)));
}

/// A 32-bit ELF image with one loadable header.
fn elf32_one_load() -> Vec<u8> {
    let phoff = 52usize;
    let len = phoff + 32 + 0x40;
    let mut v = vec![0u8; len];
    v[0..4].copy_from_slice(&[0x7f, b'E', b'L', b'F']);
    v[4] = 1;
    v[5] = 1;
    v[6] = 1;
    put16(&mut v, 16, 2);
    put16(&mut v, 18, 3);
    put32(&mut v, 20, 1);
    put32(&mut v, 28, phoff as u32);
    put16(&mut v, 40, 52);
    put16(&mut v, 42, 32);
    put16(&mut v, 44, 1);
    put32(&mut v, phoff, 1);
    put32(&mut v, phoff + 4, 0x54);
    put32(&mut v, phoff + 8, 0x8000);
    put32(&mut v, phoff + 12, 0x8000);
    put32(&mut v, phoff + 16, 0x20);
    put32(&mut v, phoff + 20, 0x30);
    put32(&mut v, phoff + 24, 7);
    put32(&mut v, phoff + 28, 4);
    v
}

#[test]
fn thirty_two_bit_file() {
    let data = elf32_one_load();
    let segs = SegmentEntry::new(&data).unwrap();
    assert_eq!(segs.len(), 1);
    assert_eq!(segs[0].start_addr, VirtAddr::from(0x8000));
    assert_eq!(segs[0].size, 0x30);
    assert_eq!(segs[0].data, &data[0x54..0x74]);
    assert_eq!(
        segs[0].flags.bits(),
        MappingFlags::READ | MappingFlags::WRITE | MappingFlags::EXECUTE
    );
}

#[test]
fn unaligned_buffer_is_read() {
    let data = elf64(&[(1, 4, 0, 0x1000, 0x10, 0x10)]);
    let mut shifted = vec![0u8];
    shifted.extend_from_slice(&data);
    let segs = SegmentEntry::new(&shifted[1..]).unwrap();
    assert_eq!(segs.len(), 1);
    assert_eq!(segs[0].data, &data[0..0x10]);
}
