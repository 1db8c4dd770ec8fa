//! Loadable segments of an ELF image.
//!
//! The ELF file is parsed by `xmas_elf`; this module walks its program
//! headers and turns each loadable one into a segment: where it goes in
//! virtual memory, how large it is there, which bytes of the file it holds
//! and with which permissions it is mapped.

use vstd::prelude::*;
use crate::addr::VirtAddr;
use crate::flags::MappingFlags;
use xmas_elf::program::Type;

verus! {

#[verifier::external_type_specification]
#[verifier::external_body]
pub struct ExElfFile<'a>(xmas_elf::ElfFile<'a>);

#[verifier::external_type_specification]
#[verifier::external_body]
pub struct ExProgramHeader<'a>(xmas_elf::program::ProgramHeader<'a>);

/// The type of a program header.
#[derive(Clone, Copy, Debug, PartialEq, Eq, Structural)]
pub enum SegmentType {
    Null,
    Load,
    Dynamic,
    Interp,
    Note,
    ShLib,
    Phdr,
    Tls,
    GnuRelro,
    OsSpecific(u32),
    ProcessorSpecific(u32),
}

/// The bytes start with an ELF header that `xmas_elf` accepts: the magic
/// number, a 32-bit or 64-bit class, and room for the whole header.
pub open spec fn elf_header_ok(d: Seq<u8>) -> bool {
    &&& d.len() >= 16
    &&& d[0] == 0x7f && d[1] == 0x45 && d[2] == 0x4c && d[3] == 0x46
    &&& (d[4] == 1 && d.len() >= 52) || (d[4] == 2 && d.len() >= 64)
}

/// The file is of the 64-bit class.
pub open spec fn elf_is_64(d: Seq<u8>) -> bool {
    d[4] == 2
}

// The header and program-header fields below are read as `xmas_elf`
// reads them: in place, in the byte order of the machine, which for every
// target of this kernel is little-endian. They are opaque to the proofs
// below, which need only that each is a function of the bytes.

/// The unsigned number stored little-endian in the `n` bytes of `d` from
/// offset `at`.
pub open spec fn le_bytes(d: Seq<u8>, at: int, n: nat) -> nat
    decreases n,
{
    if n == 0 {
        0
    } else {
        d[at] as nat + 256 * le_bytes(d, at + 1, (n - 1) as nat)
    }
}

/// The number of program headers that the ELF header of `d` declares: the
/// `e_phnum` field, at offset 56 in the 64-bit layout and 44 in the 32-bit
/// one.
#[verifier::opaque]
pub open spec fn elf_ph_count_of(d: Seq<u8>) -> u16 {
    (if elf_is_64(d) {
        le_bytes(d, 56, 2)
    } else {
        le_bytes(d, 44, 2)
    }) as u16
}

/// The file offset of the program header table that the ELF header of `d`
/// declares: the `e_phoff` field, 8 bytes at offset 32 in the 64-bit layout
/// and 4 bytes at offset 28 in the 32-bit one.
#[verifier::opaque]
pub open spec fn elf_ph_offset_of(d: Seq<u8>) -> u64 {
    (if elf_is_64(d) {
        le_bytes(d, 32, 8)
    } else {
        le_bytes(d, 28, 4)
    }) as u64
}

/// The size of one program header that the ELF header of `d` declares: the
/// `e_phentsize` field, at offset 54 in the 64-bit layout and 42 in the
/// 32-bit one.
#[verifier::opaque]
pub open spec fn elf_ph_entry_size_of(d: Seq<u8>) -> u16 {
    (if elf_is_64(d) {
        le_bytes(d, 54, 2)
    } else {
        le_bytes(d, 42, 2)
    }) as u16
}

/// The offset in `d` at which program header `i` starts.
pub open spec fn ph_entry_start(d: Seq<u8>, i: u16) -> int {
    elf_ph_offset_of(d) + i * elf_ph_entry_size_of(d)
}

/// A field of program header `i` of `d`: `n64` bytes at offset `at64` of
/// the entry in the 64-bit layout, `n32` bytes at `at32` in the 32-bit one.
pub open spec fn ph_field(d: Seq<u8>, i: u16, at64: int, n64: nat, at32: int, n32: nat) -> nat {
    if elf_is_64(d) {
        le_bytes(d, ph_entry_start(d, i) + at64, n64)
    } else {
        le_bytes(d, ph_entry_start(d, i) + at32, n32)
    }
}

/// The type code (`p_type`) of program header `i` of `d`.
#[verifier::opaque]
pub open spec fn ph_type_code_of(d: Seq<u8>, i: u16) -> u32 {
    ph_field(d, i, 0, 4, 0, 4) as u32
}

/// The segment type of a type code, as `xmas_elf` decodes it: the eight
/// standard codes, `PT_GNU_RELRO`, and the ranges reserved for the operating
/// system and the processor; any other code is unknown.
pub open spec fn segment_type_of_code(t: u32) -> Option<SegmentType> {
    if t == 0 {
        Some(SegmentType::Null)
    } else if t == 1 {
        Some(SegmentType::Load)
    } else if t == 2 {
        Some(SegmentType::Dynamic)
    } else if t == 3 {
        Some(SegmentType::Interp)
    } else if t == 4 {
        Some(SegmentType::Note)
    } else if t == 5 {
        Some(SegmentType::ShLib)
    } else if t == 6 {
        Some(SegmentType::Phdr)
    } else if t == 7 {
        Some(SegmentType::Tls)
    } else if t == 0x6474_e552 {
        Some(SegmentType::GnuRelro)
    } else if 0x6000_0000 <= t <= 0x6fff_ffff {
        Some(SegmentType::OsSpecific(t))
    } else if 0x7000_0000 <= t <= 0x7fff_ffff {
        Some(SegmentType::ProcessorSpecific(t))
    } else {
        None
    }
}

/// The type of program header `i` of `d`, if it is a known one.
pub open spec fn ph_type_of(d: Seq<u8>, i: u16) -> Option<SegmentType> {
    segment_type_of_code(ph_type_code_of(d, i))
}

/// The virtual address (`p_vaddr`) of the segment of program header `i`.
#[verifier::opaque]
pub open spec fn ph_virtual_addr_of(d: Seq<u8>, i: u16) -> u64 {
    ph_field(d, i, 16, 8, 8, 4) as u64
}

/// The size in memory (`p_memsz`) of the segment of program header `i`.
#[verifier::opaque]
pub open spec fn ph_mem_size_of(d: Seq<u8>, i: u16) -> u64 {
    ph_field(d, i, 40, 8, 20, 4) as u64
}

/// The file offset (`p_offset`) of the segment of program header `i`.
#[verifier::opaque]
pub open spec fn ph_offset_of(d: Seq<u8>, i: u16) -> u64 {
    ph_field(d, i, 8, 8, 4, 4) as u64
}

/// The size in the file (`p_filesz`) of the segment of program header `i`.
#[verifier::opaque]
pub open spec fn ph_file_size_of(d: Seq<u8>, i: u16) -> u64 {
    ph_field(d, i, 32, 8, 16, 4) as u64
}

/// The permission flags (`p_flags`: `PF_X = 1`, `PF_W = 2`, `PF_R = 4`) of
/// program header `i`.
#[verifier::opaque]
pub open spec fn ph_flags_of(d: Seq<u8>, i: u16) -> u32 {
    ph_field(d, i, 4, 4, 24, 4) as u32
}

/// Program header `i` exists: the index is below the count and the header
/// declares a program header table.
pub open spec fn ph_present(d: Seq<u8>, i: u16) -> bool {
    &&& i < elf_ph_count_of(d)
    &&& elf_ph_offset_of(d) > 0
    &&& elf_ph_entry_size_of(d) > 0
}

/// The size of one program header of the file's class.
pub open spec fn ph_struct_size(d: Seq<u8>) -> int {
    if elf_is_64(d) {
        56
    } else {
        32
    }
}

/// The alignment of a program header of the file's class: 8 for the
/// 64-bit layout, 4 for the 32-bit one.
pub open spec fn ph_struct_align(d: Seq<u8>) -> int {
    if elf_is_64(d) {
        8
    } else {
        4
    }
}

/// Program header `i`, if it exists, lies inside the file, is large enough
/// to be read, and starts at an offset aligned for its fields.
pub open spec fn ph_readable(d: Seq<u8>, i: u16) -> bool {
    ph_present(d, i) ==> {
        &&& elf_ph_offset_of(d) + i * elf_ph_entry_size_of(d) + elf_ph_entry_size_of(d) <= d.len()
        &&& elf_ph_entry_size_of(d) >= ph_struct_size(d)
        &&& (elf_ph_offset_of(d) + i * elf_ph_entry_size_of(d)) % ph_struct_align(d) == 0
    }
}

/// The file bytes of the segment of program header `i` lie inside the file.
pub open spec fn ph_bytes_in_file(d: Seq<u8>, i: u16) -> bool {
    ph_offset_of(d, i) + ph_file_size_of(d, i) <= d.len()
}

/// Program header `i` exists and has a known type.
pub open spec fn ph_passes(d: Seq<u8>, i: u16) -> bool {
    ph_present(d, i) && ph_type_of(d, i) is Some
}

/// Every program header that the walk over the headers reaches can be read
/// (it lies in the file, is large enough and is aligned), and so can the
/// file bytes of every loadable one: the walk stops at the first header that
/// is missing or of an unknown type.
pub open spec fn segments_readable(d: Seq<u8>) -> bool {
    elf_header_ok(d) ==> forall|i: u16|
        #![trigger ph_readable(d, i)]
        i < elf_ph_count_of(d) && (forall|j: u16| j < i ==> #[trigger] ph_passes(d, j)) ==> {
            &&& ph_readable(d, i)
            &&& (ph_present(d, i) && ph_type_of(d, i) == Some(SegmentType::Load)) ==> ph_bytes_in_file(d, i)
        }
}

/// Every program header exists and has a known type.
pub open spec fn all_headers_pass(d: Seq<u8>) -> bool {
    forall|i: u16| i < elf_ph_count_of(d) ==> #[trigger] ph_passes(d, i)
}

/// The mapping flags of ELF permission flags `f`.
pub open spec fn segment_flags(f: u32) -> usize {
    (if f & 4 == 4 { MappingFlags::READ } else { 0 }) | (if f & 2 == 2 {
        MappingFlags::WRITE
    } else {
        0
    }) | (if f & 1 == 1 { MappingFlags::EXECUTE } else { 0 })
}

/// A segment is mapped readable exactly when its ELF flags hold `PF_R`
/// (4), writable exactly when they hold `PF_W` (2), executable exactly when
/// they hold `PF_X` (1), and with no other mapping flag.
pub proof fn lemma_segment_flags_bits(f: u32)
    ensures
        (segment_flags(f) & 1usize == 1usize) <==> (f & 4u32 == 4u32),
        (segment_flags(f) & 2usize == 2usize) <==> (f & 2u32 == 2u32),
        (segment_flags(f) & 4usize == 4usize) <==> (f & 1u32 == 1u32),
        segment_flags(f) & !7usize == 0usize,
{
    let r: usize = if f & 4 == 4 { 1 } else { 0 };
    let w: usize = if f & 2 == 2 { 2 } else { 0 };
    let x: usize = if f & 1 == 1 { 4 } else { 0 };
    assert(segment_flags(f) == r | w | x);
    assert(((r | w | x) & 1usize == 1usize) <==> r == 1usize) by (bit_vector)
        requires
            r == 0usize || r == 1usize,
            w == 0usize || w == 2usize,
            x == 0usize || x == 4usize,
    ;
    assert(((r | w | x) & 2usize == 2usize) <==> w == 2usize) by (bit_vector)
        requires
            r == 0usize || r == 1usize,
            w == 0usize || w == 2usize,
            x == 0usize || x == 4usize,
    ;
    assert(((r | w | x) & 4usize == 4usize) <==> x == 4usize) by (bit_vector)
        requires
            r == 0usize || r == 1usize,
            w == 0usize || w == 2usize,
            x == 0usize || x == 4usize,
    ;
    assert((r | w | x) & !7usize == 0usize) by (bit_vector)
        requires
            r == 0usize || r == 1usize,
            w == 0usize || w == 2usize,
            x == 0usize || x == 4usize,
    ;
}

/// A loadable segment as plain values: start address, size in memory, file
/// bytes and mapping flags.
pub struct SegmentSpec {
    pub start_addr: usize,
    pub size: usize,
    pub data: Seq<u8>,
    pub flags: usize,
}

/// The segment of program header `i` of `d`.
pub open spec fn segment_of(d: Seq<u8>, i: u16) -> SegmentSpec {
    SegmentSpec {
        start_addr: ph_virtual_addr_of(d, i) as usize,
        size: ph_mem_size_of(d, i) as usize,
        data: d.subrange(
            ph_offset_of(d, i) as int,
            (ph_offset_of(d, i) + ph_file_size_of(d, i)) as int,
        ),
        flags: segment_flags(ph_flags_of(d, i)),
    }
}

/// The segments of the loadable headers among the first `n`, in order.
pub open spec fn load_segments(d: Seq<u8>, n: nat) -> Seq<SegmentSpec>
    decreases n,
{
    if n == 0 {
        Seq::empty()
    } else {
        let prev = load_segments(d, (n - 1) as nat);
        if ph_type_of(d, (n - 1) as u16) == Some(SegmentType::Load) {
            prev.push(segment_of(d, (n - 1) as u16))
        } else {
            prev
        }
    }
}

/// The eight bytes of a word as the memory of a little-endian machine holds
/// them, least significant first.
pub open spec fn word_bytes(w: u64) -> Seq<u8> {
    seq![
        w as u8,
        (w >> 8) as u8,
        (w >> 16) as u8,
        (w >> 24) as u8,
        (w >> 32) as u8,
        (w >> 40) as u8,
        (w >> 48) as u8,
        (w >> 56) as u8,
    ]
}

/// The bytes of a sequence of words, eight per word, in order.
pub open spec fn words_bytes(ws: Seq<u64>) -> Seq<u8> {
    Seq::new(8 * ws.len(), |j: int| word_bytes(ws[j / 8])[j % 8])
}

/// Byte `j` of `d`, or 0 past its end.
pub open spec fn byte_or_zero(d: Seq<u8>, j: int) -> u8 {
    if j < d.len() {
        d[j]
    } else {
        0
    }
}

/// A word built from eight bytes, least significant first, takes them
/// apart again into the same bytes.
proof fn lemma_pack_word(b0: u8, b1: u8, b2: u8, b3: u8, b4: u8, b5: u8, b6: u8, b7: u8)
    by (bit_vector)
    ensures
        ({
            let w: u64 = (b0 as u64) | ((b1 as u64) << 8u64) | ((b2 as u64) << 16u64) | ((
            b3 as u64) << 24u64) | ((b4 as u64) << 32u64) | ((b5 as u64) << 40u64) | ((b6 as u64)
                << 48u64) | ((b7 as u64) << 56u64);
            &&& w as u8 == b0
            &&& (w >> 8) as u8 == b1
            &&& (w >> 16) as u8 == b2
            &&& (w >> 24) as u8 == b3
            &&& (w >> 32) as u8 == b4
            &&& (w >> 40) as u8 == b5
            &&& (w >> 48) as u8 == b6
            &&& (w >> 56) as u8 == b7
        }),
{
}

/// The word whose bytes, least significant first, are `b`.
fn pack_word(b: [u8; 8]) -> (w: u64)
    ensures
        word_bytes(w) == b@,
{
    let w: u64 = (b[0] as u64) | ((b[1] as u64) << 8u64) | ((b[2] as u64) << 16u64) | ((
    b[3] as u64) << 24u64) | ((b[4] as u64) << 32u64) | ((b[5] as u64) << 40u64) | ((b[6] as u64)
        << 48u64) | ((b[7] as u64) << 56u64);
    proof {
        lemma_pack_word(b[0], b[1], b[2], b[3], b[4], b[5], b[6], b[7]);
        assert(word_bytes(w) =~= b@);
    }
    w
}

/// Byte `base + t` of `data`, or 0 past its end.
fn byte_or_zero_at(data: &[u8], base: usize, t: usize) -> (r: u8)
    ensures
        r == byte_or_zero(data@, base + t),
{
    if base < data.len() && t < data.len() - base {
        data[base + t]
    } else {
        0
    }
}

/// A parsed ELF file together with the bytes it was parsed from.
struct ElfImage<'a> {
    data: &'a [u8],
    file: xmas_elf::ElfFile<'a>,
}

impl<'a> View for ElfImage<'a> {
    type V = Seq<u8>;

    closed spec fn view(&self) -> Seq<u8> {
        self.data@
    }
}

/// One program header of a parsed ELF file.
struct PhRef<'a> {
    data: &'a [u8],
    index: u16,
    ph: xmas_elf::program::ProgramHeader<'a>,
}

impl<'a> View for PhRef<'a> {
    type V = (Seq<u8>, u16);

    closed spec fn view(&self) -> (Seq<u8>, u16) {
        (self.data@, self.index)
    }
}

/// Parses the ELF header of the first `len` bytes of `words`.
///
/// Trusted: `bytemuck::cast_slice::<u64, u8>` gives the memory of the words
/// as 8 bytes each, in the machine's byte order (stated for a little-endian
/// machine), starting where the words start, so aligned to 8; it cannot
/// fail for these two types. `xmas_elf::ElfFile::new` then succeeds exactly
/// when the bytes hold the 16-byte identification with the magic number and
/// a 32- or 64-bit class, followed by the rest of the header of that class
/// (36 or 48 bytes). It reads that second part in place at offset 16, which
/// needs alignment 4 or 8 and so does not panic here.
#[verifier::external_body]
fn elf_file_new<'b>(words: &'b [u64], len: usize) -> (r: Result<ElfImage<'b>, &'static str>)
    requires
        len <= 8 * words@.len(),
    ensures
        r is Ok <==> elf_header_ok(words_bytes(words@).subrange(0, len as int)),
        r matches Ok(img) ==> img@ == words_bytes(words@).subrange(0, len as int),
{
    let data: &'b [u8] = &bytemuck::cast_slice::<u64, u8>(words)[..len];
    match xmas_elf::ElfFile::new(data) {
        Ok(file) => Ok(ElfImage { data, file }),
        Err(e) => Err(e),
    }
}

/// The magic number of a parsed file.
///
/// Trusted: reads `ElfFile::header.pt1.magic`, the first four bytes of the
/// input.
#[verifier::external_body]
fn elf_magic(img: &ElfImage) -> (r: [u8; 4])
    requires
        elf_header_ok(img@),
    ensures
        r@ == img@.subrange(0, 4),
{
    img.file.header.pt1.magic
}

/// Whether a parsed file is of the 64-bit class.
///
/// Trusted: `HeaderPt1::class` decodes byte 4 of the input, 2 being the
/// 64-bit class.
#[verifier::external_body]
fn elf_is_64_class(img: &ElfImage) -> (r: bool)
    requires
        elf_header_ok(img@),
    ensures
        r == elf_is_64(img@),
{
    match img.file.header.pt1.class() {
        xmas_elf::header::Class::None => false,
        xmas_elf::header::Class::ThirtyTwo => false,
        xmas_elf::header::Class::SixtyFour => true,
        xmas_elf::header::Class::Other(_) => false,
    }
}

/// The number of program headers.
///
/// Trusted: `HeaderPt2::ph_count` reads the field of the header of the
/// file's class in place, in the machine's byte order; stated for a
/// little-endian machine.
#[verifier::external_body]
fn elf_ph_count(img: &ElfImage) -> (r: u16)
    requires
        elf_header_ok(img@),
    ensures
        r == elf_ph_count_of(img@),
{
    img.file.header.pt2.ph_count()
}

/// The offset of the program header table.
///
/// Trusted: `HeaderPt2::ph_offset` reads the field of the header of the
/// file's class in place, in the machine's byte order; stated for a
/// little-endian machine.
#[verifier::external_body]
fn elf_ph_offset(img: &ElfImage) -> (r: u64)
    requires
        elf_header_ok(img@),
    ensures
        r == elf_ph_offset_of(img@),
{
    img.file.header.pt2.ph_offset()
}

/// The size of one program header.
///
/// Trusted: `HeaderPt2::ph_entry_size` reads the field of the header of the
/// file's class in place, in the machine's byte order; stated for a
/// little-endian machine.
#[verifier::external_body]
fn elf_ph_entry_size(img: &ElfImage) -> (r: u16)
    requires
        elf_header_ok(img@),
    ensures
        r == elf_ph_entry_size_of(img@),
{
    img.file.header.pt2.ph_entry_size()
}

/// Program header `index` of a parsed file.
///
/// Trusted: `ElfFile::program_header` fails unless the index is below the
/// count and the header declares a table (offset and entry size not zero);
/// otherwise it reads the entry at `offset + index * entry_size`, which
/// panics unless the entry lies in the input, is at least as large as a
/// program header of the class, and is aligned for its fields (hence the
/// requirement; an `ElfImage` starts aligned to 8, so the entry's alignment
/// is that of its offset).
#[verifier::external_body]
fn elf_program_header<'a>(img: &ElfImage<'a>, index: u16) -> (r: Result<PhRef<'a>, &'static str>)
    requires
        ph_readable(img@, index),
    ensures
        r is Ok <==> ph_present(img@, index),
        r matches Ok(ph) ==> ph@ == (img@, index),
{
    match img.file.program_header(index) {
        Ok(ph) => Ok(PhRef { data: img.data, index, ph }),
        Err(e) => Err(e),
    }
}

/// The type of a program header.
///
/// Trusted: `ProgramHeader::get_type` reads the type code of the entry in
/// place, in the machine's byte order (stated for a little-endian
/// machine), and decodes it; an unknown code is an error.
#[verifier::external_body]
fn ph_get_type(ph: &PhRef) -> (r: Option<SegmentType>)
    requires
        elf_header_ok(ph@.0),
        ph_present(ph@.0, ph@.1),
        ph_readable(ph@.0, ph@.1),
    ensures
        r == ph_type_of(ph@.0, ph@.1),
{
    match ph.ph.get_type() {
        Ok(Type::Null) => Some(SegmentType::Null),
        Ok(Type::Load) => Some(SegmentType::Load),
        Ok(Type::Dynamic) => Some(SegmentType::Dynamic),
        Ok(Type::Interp) => Some(SegmentType::Interp),
        Ok(Type::Note) => Some(SegmentType::Note),
        Ok(Type::ShLib) => Some(SegmentType::ShLib),
        Ok(Type::Phdr) => Some(SegmentType::Phdr),
        Ok(Type::Tls) => Some(SegmentType::Tls),
        Ok(Type::GnuRelro) => Some(SegmentType::GnuRelro),
        Ok(Type::OsSpecific(t)) => Some(SegmentType::OsSpecific(t)),
        Ok(Type::ProcessorSpecific(t)) => Some(SegmentType::ProcessorSpecific(t)),
        Err(_) => None,
    }
}

/// The virtual address of a segment.
///
/// Trusted: `ProgramHeader::virtual_addr` reads the field of the entry of the
/// file's class in place, in the machine's byte order; stated for a
/// little-endian machine.
#[verifier::external_body]
fn ph_virtual_addr(ph: &PhRef) -> (r: u64)
    requires
        elf_header_ok(ph@.0),
        ph_present(ph@.0, ph@.1),
        ph_readable(ph@.0, ph@.1),
    ensures
        r == ph_virtual_addr_of(ph@.0, ph@.1),
{
    ph.ph.virtual_addr()
}

/// The size in memory of a segment.
///
/// Trusted: `ProgramHeader::mem_size` reads the field of the entry of the
/// file's class in place, in the machine's byte order; stated for a
/// little-endian machine.
#[verifier::external_body]
fn ph_mem_size(ph: &PhRef) -> (r: u64)
    requires
        elf_header_ok(ph@.0),
        ph_present(ph@.0, ph@.1),
        ph_readable(ph@.0, ph@.1),
    ensures
        r == ph_mem_size_of(ph@.0, ph@.1),
{
    ph.ph.mem_size()
}

/// The file offset of a segment.
///
/// Trusted: `ProgramHeader::offset` reads the field of the entry of the
/// file's class in place, in the machine's byte order; stated for a
/// little-endian machine.
#[verifier::external_body]
fn ph_offset(ph: &PhRef) -> (r: u64)
    requires
        elf_header_ok(ph@.0),
        ph_present(ph@.0, ph@.1),
        ph_readable(ph@.0, ph@.1),
    ensures
        r == ph_offset_of(ph@.0, ph@.1),
{
    ph.ph.offset()
}

/// The size in the file of a segment.
///
/// Trusted: `ProgramHeader::file_size` reads the field of the entry of the
/// file's class in place, in the machine's byte order; stated for a
/// little-endian machine.
#[verifier::external_body]
fn ph_file_size(ph: &PhRef) -> (r: u64)
    requires
        elf_header_ok(ph@.0),
        ph_present(ph@.0, ph@.1),
        ph_readable(ph@.0, ph@.1),
    ensures
        r == ph_file_size_of(ph@.0, ph@.1),
{
    ph.ph.file_size()
}

/// The permission flags of a segment.
///
/// Trusted: `ProgramHeader::flags` reads the field of the entry of the
/// file's class in place, in the machine's byte order (stated for a
/// little-endian machine); `.0` is its raw value.
#[verifier::external_body]
fn ph_flags(ph: &PhRef) -> (r: u32)
    requires
        elf_header_ok(ph@.0),
        ph_present(ph@.0, ph@.1),
        ph_readable(ph@.0, ph@.1),
    ensures
        r == ph_flags_of(ph@.0, ph@.1),
{
    ph.ph.flags().0
}

/// A loadable segment of an ELF file.
pub struct SegmentEntry<'a> {
    /// Where the segment starts in virtual memory.
    pub start_addr: VirtAddr,
    /// The size of the segment in memory.
    pub size: usize,
    /// The bytes of the segment in the file.
    pub data: &'a [u8],
    /// The permissions with which the segment is mapped.
    pub flags: MappingFlags,
}

/// The segment as plain values.
pub open spec fn segment_view(s: SegmentEntry) -> SegmentSpec {
    SegmentSpec { start_addr: s.start_addr@, size: s.size, data: s.data@, flags: s.flags.bits }
}

/// The segments as plain values.
pub open spec fn segments_view(v: Seq<SegmentEntry>) -> Seq<SegmentSpec> {
    v.map_values(|s: SegmentEntry| segment_view(s))
}

/// The mapping flags of ELF permission flags `f`: readable for `PF_R`,
/// writable for `PF_W`, executable for `PF_X`.
fn flags_of_segment(f: u32) -> (r: MappingFlags)
    ensures
        r.bits == segment_flags(f),
{
    let mut flags = MappingFlags::empty();
    if f & 4 == 4 {
        flags.insert(MappingFlags::READ);
    }
    if f & 2 == 2 {
        flags.insert(MappingFlags::WRITE);
    }
    if f & 1 == 1 {
        flags.insert(MappingFlags::EXECUTE);
    }
    proof {
        assert(forall|x: usize| #[trigger] (x | 0usize) == x) by (bit_vector);
        assert(forall|x: usize| #[trigger] (0usize | x) == x) by (bit_vector);
    }
    flags
}

impl<'a> SegmentEntry<'a> {
    /// Reads the loadable segments of an ELF file, or finds that they
    /// cannot be read.
    ///
    /// Returns `None` where a program header that the walk reaches, or the
    /// bytes of a loadable segment, would be read past the end of `data`, or
    /// where such a program header is too small or not aligned for its
    /// class; otherwise `Some` of what [`SegmentEntry::new`] returns.
    pub fn new_checked(data: &'a [u8]) -> (r: Option<Option<Vec<SegmentEntry<'a>>>>)
        ensures
            r is None <==> !segments_readable(data@),
            r matches Some(res) ==> (res is Some <==> elf_header_ok(data@) && all_headers_pass(
                data@,
            )),
            r matches Some(Some(v)) ==> segments_view(v@) == load_segments(
                data@,
                elf_ph_count_of(data@) as nat,
            ),
    {
        let ghost d = data@;
        // The parser reads its structures in place, so it is given a copy of
        // the data in memory aligned to 8.
        let n: usize = data.len() / 8 + 1;
        let mut words: Vec<u64> = Vec::new();
        let mut k: usize = 0;
        while k < n
            invariant
                words@.len() == k,
                k <= n,
                n == data@.len() / 8 + 1,
                d == data@,
                forall|j: int|
                    0 <= j < 8 * k ==> #[trigger] words_bytes(words@)[j] == byte_or_zero(d, j),
            decreases n - k,
        {
            let len: usize = data.len();
            assert(8 * k <= len) by (nonlinear_arith)
                requires
                    k < n,
                    n == len / 8 + 1,
            ;
            let base: usize = 8 * k;
            let b = [
                byte_or_zero_at(data, base, 0),
                byte_or_zero_at(data, base, 1),
                byte_or_zero_at(data, base, 2),
                byte_or_zero_at(data, base, 3),
                byte_or_zero_at(data, base, 4),
                byte_or_zero_at(data, base, 5),
                byte_or_zero_at(data, base, 6),
                byte_or_zero_at(data, base, 7),
            ];
            let ghost before = words@;
            words.push(pack_word(b));
            proof {
                assert forall|j: int| 0 <= j < 8 * (k + 1) implies #[trigger] words_bytes(words@)[j]
                    == byte_or_zero(d, j) by {
                    if j < 8 * k {
                        assert(words@[j / 8] == before[j / 8]);
                        assert(words_bytes(before)[j] == byte_or_zero(d, j));
                    } else {
                        assert(j / 8 == k);
                        assert(words@[j / 8] == words@[k as int]);
                        let t = j - 8 * k;
                        assert(j % 8 == t);
                        assert(b@[t] == byte_or_zero(d, base + t));
                    }
                }
            }
            k = k + 1;
        }
        assert(words_bytes(words@).subrange(0, data@.len() as int) =~= d);
        let elf = match elf_file_new(words.as_slice(), data.len()) {
            Ok(e) => e,
            Err(_) => {
                return Some(None);
            },
        };
        let magic = elf_magic(&elf);
        if magic[0] != 0x7f || magic[1] != 0x45 || magic[2] != 0x4c || magic[3] != 0x46 {
            return Some(None);
        }
        let ph_count = elf_ph_count(&elf);
        let table_offset = elf_ph_offset(&elf);
        let entry_size = elf_ph_entry_size(&elf);
        let is_64 = elf_is_64_class(&elf);
        let mut result: Vec<SegmentEntry<'a>> = Vec::new();
        let mut i: u16 = 0;
        while i < ph_count
            invariant
                d == data@,
                elf@ == d,
                elf_header_ok(d),
                ph_count == elf_ph_count_of(d),
                table_offset == elf_ph_offset_of(d),
                entry_size == elf_ph_entry_size_of(d),
                is_64 == elf_is_64(d),
                i <= ph_count,
                forall|j: u16| j < i ==> #[trigger] ph_walked(d, j),
                segments_view(result@) == load_segments(d, i as nat),
            decreases ph_count - i,
        {
            if table_offset > 0 && entry_size > 0 {
                assert((i as u128) * (entry_size as u128) <= 0xffff * 0xffff) by (nonlinear_arith)
                    requires
                        i <= 0xffff,
                        entry_size <= 0xffff,
                ;
                let end: u128 = table_offset as u128 + (i as u128) * (entry_size as u128)
                    + entry_size as u128;
                let need: u16 = if is_64 {
                    56
                } else {
                    32
                };
                let align: u128 = if is_64 {
                    8
                } else {
                    4
                };
                let entry_start: u128 = table_offset as u128 + (i as u128) * (entry_size as u128);
                if end > data.len() as u128 || entry_size < need || entry_start % align != 0 {
                    assert(!ph_readable(d, i));
                    proof {
                        lemma_walk_unreadable(d, i);
                    }
                    return None;
                }
            }
            assert(ph_readable(d, i));
            let ph = match elf_program_header(&elf, i) {
                Ok(p) => p,
                Err(_) => {
                    proof {
                        lemma_walk_stops_readable(d, i);
                    }
                    return Some(None);
                },
            };
            let ty = ph_get_type(&ph);
            match ty {
                None => {
                    proof {
                        lemma_walk_stops_readable(d, i);
                    }
                    return Some(None);
                },
                Some(SegmentType::Load) => {
                    let off = ph_offset(&ph);
                    let file_size = ph_file_size(&ph);
                    if off as u128 + file_size as u128 > data.len() as u128 {
                        assert(!ph_bytes_in_file(d, i));
                        proof {
                            lemma_walk_unreadable(d, i);
                        }
                        return None;
                    }
                    let start_va = VirtAddr::from(#[verifier::truncate] (ph_virtual_addr(&ph) as usize));
                    let size = #[verifier::truncate] (ph_mem_size(&ph) as usize);
                    let flags = flags_of_segment(ph_flags(&ph));
                    let bytes = &data[off as usize..(off + file_size) as usize];
                    let entry = SegmentEntry { start_addr: start_va, size, data: bytes, flags };
                    assert(segment_view(entry) == segment_of(d, i));
                    let ghost prev = result@;
                    result.push(entry);
                    assert(segments_view(result@) == segments_view(prev).push(segment_view(entry)));
                },
                Some(_) => {},
            }
            assert(((i + 1) as nat - 1) as u16 == i);
            assert(ph_walked(d, i));
            i = i + 1;
        }
        proof {
            lemma_walk_complete_readable(d);
        }
        Some(Some(result))
    }

    /// Reads the loadable segments of an ELF file.
    ///
    /// Returns `None` if the data is not an ELF file, or if a program header
    /// is missing or of an unknown type; otherwise one segment per loadable
    /// program header, in table order. Each program header that is read
    /// must lie inside `data`, be large enough and aligned for its class,
    /// and the bytes of each loadable segment must lie inside `data`.
    pub fn new(data: &'a [u8]) -> (r: Option<Vec<SegmentEntry<'a>>>)
        requires
            segments_readable(data@),
        ensures
            r is Some <==> elf_header_ok(data@) && all_headers_pass(data@),
            r matches Some(v) ==> segments_view(v@) == load_segments(
                data@,
                elf_ph_count_of(data@) as nat,
            ),
    {
        match Self::new_checked(data) {
            Some(res) => res,
            None => None,
        }
    }
}

/// Program header `i` passes, can be read, and so can its file bytes if it
/// is loadable.
pub open spec fn ph_walked(d: Seq<u8>, i: u16) -> bool {
    &&& ph_passes(d, i)
    &&& ph_readable(d, i)
    &&& ph_type_of(d, i) == Some(SegmentType::Load) ==> ph_bytes_in_file(d, i)
}

/// Where the walk reaches program header `i` and cannot read it, or cannot
/// read the file bytes of its loadable segment, the segments are not
/// readable.
proof fn lemma_walk_unreadable(d: Seq<u8>, i: u16)
    requires
        elf_header_ok(d),
        i < elf_ph_count_of(d),
        forall|j: u16| j < i ==> #[trigger] ph_walked(d, j),
        !ph_readable(d, i) || (ph_present(d, i) && ph_type_of(d, i) == Some(SegmentType::Load)
            && !ph_bytes_in_file(d, i)),
    ensures
        !segments_readable(d),
{
    assert forall|j: u16| j < i implies #[trigger] ph_passes(d, j) by {
        assert(ph_walked(d, j));
    }
    assert(!ph_readable(d, i) || !((ph_present(d, i) && ph_type_of(d, i) == Some(SegmentType::Load))
        ==> ph_bytes_in_file(d, i)));
}

/// Where the walk passes over every program header, every header it read
/// was readable and every header passes.
proof fn lemma_walk_complete_readable(d: Seq<u8>)
    requires
        elf_header_ok(d),
        forall|j: u16| j < elf_ph_count_of(d) ==> #[trigger] ph_walked(d, j),
    ensures
        segments_readable(d),
        all_headers_pass(d),
{
    assert forall|k: u16|
        k < elf_ph_count_of(d) && (forall|j: u16| j < k ==> #[trigger] ph_passes(d, j)) implies {
        &&& ph_readable(d, k)
        &&& (ph_present(d, k) && ph_type_of(d, k) == Some(SegmentType::Load)) ==> ph_bytes_in_file(d, k)
    } by {
        assert(ph_walked(d, k));
    }
    assert forall|k: u16| k < elf_ph_count_of(d) implies #[trigger] ph_passes(d, k) by {
        assert(ph_walked(d, k));
    }
}

/// Where the walk over the program headers stops at header `i`, because it
/// is missing or of an unknown type, every header it read was readable.
proof fn lemma_walk_stops_readable(d: Seq<u8>, i: u16)
    requires
        elf_header_ok(d),
        i < elf_ph_count_of(d),
        ph_readable(d, i),
        !ph_passes(d, i),
        forall|j: u16| j < i ==> #[trigger] ph_walked(d, j),
    ensures
        segments_readable(d),
        !all_headers_pass(d),
{
    assert forall|k: u16|
        k < elf_ph_count_of(d) && (forall|j: u16| j < k ==> #[trigger] ph_passes(d, j)) implies {
        &&& ph_readable(d, k)
        &&& (ph_present(d, k) && ph_type_of(d, k) == Some(SegmentType::Load)) ==> ph_bytes_in_file(d, k)
    } by {
        if k > i {
            assert(ph_passes(d, i));
        } else if k == i {
        } else {
            assert(ph_walked(d, k));
        }
    }
    assert(!ph_passes(d, i));
}

} // verus!
