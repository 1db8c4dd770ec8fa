//! x86 trap decoding: which handler a trap vector goes to, what a page-fault
//! error code says about the faulting access, and exception mnemonics.

use vstd::prelude::*;
use crate::flags::MappingFlags;

verus! {

/// The bits of a page-fault error code that `PageFaultErrorCode` defines:
/// protection violation, write, user mode, malformed table, instruction
/// fetch, protection key, shadow stack, SGX and RMP.
pub const PAGE_FAULT_CODE_KNOWN_BITS: u64 = 0x8000_807f;

/// Keeps the bits of `bits` that `PageFaultErrorCode` defines.
///
/// Trusted: `x86_64::structures::idt::PageFaultErrorCode::from_bits_truncate`
/// masks its argument with the union of the defined flags (bits 0 to 6, 15
/// and 31 in the version used); `bits` reads the mask back.
#[verifier::external_body]
fn page_fault_code_truncate(bits: u64) -> (r: u64)
    ensures
        r == bits & PAGE_FAULT_CODE_KNOWN_BITS,
{
    x86_64::structures::idt::PageFaultErrorCode::from_bits_truncate(bits).bits()
}

/// The error-code bit of a write access.
///
/// Trusted: reads `x86_64::structures::idt::PageFaultErrorCode::CAUSED_BY_WRITE`,
/// which the crate defines as `1 << 1`.
#[verifier::external_body]
fn page_fault_caused_by_write() -> (r: u64)
    ensures
        r == 2,
{
    x86_64::structures::idt::PageFaultErrorCode::CAUSED_BY_WRITE.bits()
}

/// The error-code bit of an access made in user mode.
///
/// Trusted: reads `x86_64::structures::idt::PageFaultErrorCode::USER_MODE`,
/// which the crate defines as `1 << 2`.
#[verifier::external_body]
fn page_fault_user_mode() -> (r: u64)
    ensures
        r == 4,
{
    x86_64::structures::idt::PageFaultErrorCode::USER_MODE.bits()
}

/// The error-code bit of a page-protection violation.
///
/// Trusted: reads `x86_64::structures::idt::PageFaultErrorCode::PROTECTION_VIOLATION`,
/// which the crate defines as `1`.
#[verifier::external_body]
fn page_fault_protection_violation() -> (r: u64)
    ensures
        r == 1,
{
    x86_64::structures::idt::PageFaultErrorCode::PROTECTION_VIOLATION.bits()
}

/// A page-fault error code is understood: of the defined bits it sets only
/// write, user mode and protection violation.
pub open spec fn page_fault_code_ok(error_code: u64) -> bool {
    error_code & (PAGE_FAULT_CODE_KNOWN_BITS & !7u64) == 0
}

/// The access flags that a page-fault error code stands for: a write or a
/// read, from user mode or not, and execute for a protection violation.
pub open spec fn page_fault_flags_spec(error_code: u64) -> usize {
    (if error_code & 2 != 0 { MappingFlags::WRITE } else { MappingFlags::READ })
        | (if error_code & 4 != 0 { MappingFlags::USER } else { 0 })
        | (if error_code & 1 != 0 { MappingFlags::EXECUTE } else { 0 })
}

/// Every page fault is either a read or a write, never both, and is
/// user-mode exactly when the error code says so.
pub proof fn lemma_page_fault_access_kind(error_code: u64)
    ensures
        (page_fault_flags_spec(error_code) & MappingFlags::READ != 0) != (page_fault_flags_spec(
            error_code,
        ) & MappingFlags::WRITE != 0),
        (page_fault_flags_spec(error_code) & MappingFlags::USER != 0) == (error_code & 4 != 0),
        (page_fault_flags_spec(error_code) & MappingFlags::WRITE != 0) == (error_code & 2 != 0),
        (page_fault_flags_spec(error_code) & MappingFlags::EXECUTE != 0) == (error_code & 1 != 0),
{
    let w = error_code & 2 != 0;
    let u = error_code & 4 != 0;
    let p = error_code & 1 != 0;
    let f: usize = (if w { 2usize } else { 1usize }) | (if u { 8usize } else { 0usize }) | (if p {
        4usize
    } else {
        0usize
    });
    assert(f == page_fault_flags_spec(error_code));
    assert((f & 1 != 0) != (f & 2 != 0)) by (bit_vector)
        requires
            f == (if w { 2usize } else { 1usize }) | (if u { 8usize } else { 0usize }) | (if p {
                4usize
            } else {
                0usize
            }),
    ;
    assert((f & 8 != 0) == u && (f & 2 != 0) == w && (f & 4 != 0) == p) by (bit_vector)
        requires
            f == (if w { 2usize } else { 1usize }) | (if u { 8usize } else { 0usize }) | (if p {
                4usize
            } else {
                0usize
            }),
    ;
}

/// Checks that a page-fault error code sets no defined bit beyond write,
/// user mode and protection violation.
pub fn page_fault_code_valid(error_code: u64) -> (r: bool)
    ensures
        r == page_fault_code_ok(error_code),
{
    let reserved_bits = page_fault_code_truncate(
        !(page_fault_caused_by_write() | page_fault_user_mode() | page_fault_protection_violation()),
    );
    let code = page_fault_code_truncate(error_code);
    assert((error_code & 0x8000_807fu64) & ((!(2u64 | 4u64 | 1u64)) & 0x8000_807fu64) == 0
        <==> error_code & (0x8000_807fu64 & !7u64) == 0) by (bit_vector);
    code & reserved_bits == 0
}

/// Decodes a page-fault error code into the access flags of the fault.
///
/// A code that sets another defined bit is invalid; the kernel stops on it,
/// so it is left out.
pub fn get_page_fault_flags(error_code: u64) -> (r: MappingFlags)
    requires
        page_fault_code_ok(error_code),
    ensures
        r.bits == page_fault_flags_spec(error_code),
{
    let write = page_fault_caused_by_write();
    let user = page_fault_user_mode();
    let protection = page_fault_protection_violation();
    let code = page_fault_code_truncate(error_code);
    let mut flags = MappingFlags::empty();
    proof {
        assert(code & 2 == 2 <==> error_code & 2 != 0) by (bit_vector)
            requires code == error_code & 0x8000_807fu64;
        assert(code & 4 == 4 <==> error_code & 4 != 0) by (bit_vector)
            requires code == error_code & 0x8000_807fu64;
        assert(code & 1 == 1 <==> error_code & 1 != 0) by (bit_vector)
            requires code == error_code & 0x8000_807fu64;
    }
    if code & write == write {
        flags.insert(MappingFlags::WRITE);
    } else {
        flags.insert(MappingFlags::READ);
    }
    if code & user == user {
        flags.insert(MappingFlags::USER);
    }
    if code & protection == protection {
        flags.insert(MappingFlags::EXECUTE);
    }
    proof {
        assert(forall|x: usize| #[trigger] (x | 0usize) == x) by (bit_vector);
        assert(forall|x: usize| #[trigger] (0usize | x) == x) by (bit_vector);
    }
    flags
}

/// A mnemonic of the form `#ab`.
pub open spec fn hash_mnemonic(a: char, b: char) -> Seq<char> {
    seq!['#', a, b]
}

/// The mnemonic of the x86 exception with vector `index`: `"#PF"` for a
/// page fault, `"NMI"` for the nonmaskable interrupt, the empty string for
/// a reserved vector.
pub open spec fn exception_mnemonic_text(index: usize) -> Seq<char> {
    if index == 0 {
        hash_mnemonic('D', 'E')
    } else if index == 1 {
        hash_mnemonic('D', 'B')
    } else if index == 2 {
        seq!['N', 'M', 'I']
    } else if index == 3 {
        hash_mnemonic('B', 'P')
    } else if index == 4 {
        hash_mnemonic('O', 'F')
    } else if index == 5 {
        hash_mnemonic('B', 'R')
    } else if index == 6 {
        hash_mnemonic('U', 'D')
    } else if index == 7 {
        hash_mnemonic('N', 'M')
    } else if index == 8 {
        hash_mnemonic('D', 'F')
    } else if index == 10 {
        hash_mnemonic('T', 'S')
    } else if index == 11 {
        hash_mnemonic('N', 'P')
    } else if index == 12 {
        hash_mnemonic('S', 'S')
    } else if index == 13 {
        hash_mnemonic('G', 'P')
    } else if index == 14 {
        hash_mnemonic('P', 'F')
    } else if index == 16 {
        hash_mnemonic('M', 'F')
    } else if index == 17 {
        hash_mnemonic('A', 'C')
    } else if index == 18 {
        hash_mnemonic('M', 'C')
    } else if index == 19 {
        hash_mnemonic('X', 'M')
    } else if index == 20 {
        hash_mnemonic('V', 'E')
    } else {
        Seq::empty()
    }
}

/// The mnemonic of exception vector `index`.
///
/// Trusted: reads `x86::irq::EXCEPTIONS[index].mnemonic`; the table has 32
/// entries, one per exception vector, so every index below 32 is in bounds,
/// and holds the mnemonics that `exception_mnemonic_text` lists.
#[verifier::external_body]
fn exception_mnemonic(index: usize) -> (r: &'static str)
    requires
        index < 32,
    ensures
        r@ == exception_mnemonic_text(index),
{
    x86::irq::EXCEPTIONS[index].mnemonic
}

/// The vector number of a page fault.
///
/// Trusted: reads `x86::irq::PAGE_FAULT_VECTOR`, defined as 14.
#[verifier::external_body]
fn page_fault_vector() -> (r: u8)
    ensures
        r == 14,
{
    x86::irq::PAGE_FAULT_VECTOR
}

/// The vector number of a breakpoint.
///
/// Trusted: reads `x86::irq::BREAKPOINT_VECTOR`, defined as 3.
#[verifier::external_body]
fn breakpoint_vector() -> (r: u8)
    ensures
        r == 3,
{
    x86::irq::BREAKPOINT_VECTOR
}

/// The vector number of a general protection fault.
///
/// Trusted: reads `x86::irq::GENERAL_PROTECTION_FAULT_VECTOR`, defined as 13.
#[verifier::external_body]
fn general_protection_fault_vector() -> (r: u8)
    ensures
        r == 13,
{
    x86::irq::GENERAL_PROTECTION_FAULT_VECTOR
}

/// The first vector used for external interrupts.
pub const IRQ_VECTOR_START: u8 = 0x20;

/// The last vector used for external interrupts.
pub const IRQ_VECTOR_END: u8 = 0xff;

/// The vector of the legacy `int 0x80` system call entry.
pub const LEGACY_SYSCALL_VECTOR: u8 = 0x80;

/// The name of a trap vector for diagnostics: its exception mnemonic below
/// 32, `"Unknown"` from there on.
pub fn vec_to_str(vec: u64) -> (r: &'static str)
    ensures
        vec < 32 ==> r@ == exception_mnemonic_text(vec as usize),
        vec >= 32 ==> r@ == "Unknown"@,
{
    if vec < 32 {
        exception_mnemonic(vec as usize)
    } else {
        "Unknown"
    }
}

/// What the trap handler does for a trap vector.
#[derive(Clone, Copy, Debug, PartialEq, Eq, Structural)]
pub enum TrapAction {
    /// Read the faulting address, decode the error code and hand the fault
    /// to the page-fault handler; stop the kernel if it is not handled.
    PageFault,
    /// Log the breakpoint and return.
    Breakpoint,
    /// Stop the kernel: general protection fault.
    GeneralProtectionFault,
    /// Hand the system call to the syscall handler and return its result
    /// in the trap frame.
    Syscall,
    /// Dispatch the external interrupt with this number.
    Irq(usize),
    /// Stop the kernel: no handler for this vector.
    Unhandled,
}

/// How the trap entry ends after a page fault.
#[derive(Clone, Copy, Debug, PartialEq, Eq, Structural)]
pub enum PageFaultEnd {
    /// The fault was handled: return to the interrupted code.
    Resume,
    /// The fault was not handled: stop the kernel.
    Stop,
}

/// Decides how a page fault ends from what the page-fault handler
/// answered: the kernel stops exactly when the handler did not handle it.
pub fn page_fault_end(handled: bool) -> (r: PageFaultEnd)
    ensures
        r == (if handled {
            PageFaultEnd::Resume
        } else {
            PageFaultEnd::Stop
        }),
{
    if handled {
        PageFaultEnd::Resume
    } else {
        PageFaultEnd::Stop
    }
}

/// The runtime's page-fault policy: a fault taken in user mode counts as
/// handled, one taken in the kernel is fatal.
pub fn runtime_handles_page_fault(is_user: bool) -> (r: bool)
    ensures
        r == is_user,
{
    is_user
}

/// The action for the low byte of a trap vector; `uspace` tells whether
/// the kernel is built with user space support, which takes the legacy
/// system call vector out of the interrupt range.
pub open spec fn trap_action_spec(vector: u64, uspace: bool) -> TrapAction {
    let v = vector as u8;
    if v == 14 {
        TrapAction::PageFault
    } else if v == 3 {
        TrapAction::Breakpoint
    } else if v == 13 {
        TrapAction::GeneralProtectionFault
    } else if uspace && v == LEGACY_SYSCALL_VECTOR {
        TrapAction::Syscall
    } else if IRQ_VECTOR_START <= v && v <= IRQ_VECTOR_END {
        TrapAction::Irq(vector as usize)
    } else {
        TrapAction::Unhandled
    }
}

/// Only the low byte of the vector selects the handler: vector 14 is a page
/// fault, 3 a breakpoint and 13 a general protection fault, whatever
/// `uspace` says; every other vector below `0x20` is unhandled, and every
/// vector from `0x20` up is an external interrupt numbered by the whole
/// vector, except `0x80` with user space support, which is a system call.
pub proof fn lemma_trap_dispatch(vector: u64, uspace: bool)
    ensures
        trap_action_spec(vector, uspace) == TrapAction::PageFault <==> vector % 256 == 14,
        trap_action_spec(vector, uspace) == TrapAction::Breakpoint <==> vector % 256 == 3,
        trap_action_spec(vector, uspace) == TrapAction::GeneralProtectionFault <==> vector % 256
            == 13,
        trap_action_spec(vector, uspace) == TrapAction::Syscall <==> uspace && vector % 256 == 0x80,
        vector % 256 < 0x20 && vector % 256 != 3 && vector % 256 != 13 && vector % 256 != 14
            ==> trap_action_spec(vector, uspace) == TrapAction::Unhandled,
        vector % 256 >= 0x20 && !(uspace && vector % 256 == 0x80) ==> trap_action_spec(
            vector,
            uspace,
        ) == TrapAction::Irq(vector as usize),
{
    assert((vector as u8) == vector % 256) by (bit_vector);
}

/// Decides how a trap is handled, from the low byte of its vector number:
/// page faults, breakpoints and general protection faults by their own
/// handlers, the legacy system call vector by the syscall handler when the
/// kernel has user space support, vectors from `0x20` up as external
/// interrupts, everything else as unhandled.
pub fn trap_action(vector: u64, uspace: bool) -> (r: TrapAction)
    ensures
        r == trap_action_spec(vector, uspace),
{
    let v = vector as u8;
    if v == page_fault_vector() {
        TrapAction::PageFault
    } else if v == breakpoint_vector() {
        TrapAction::Breakpoint
    } else if v == general_protection_fault_vector() {
        TrapAction::GeneralProtectionFault
    } else if uspace && v == LEGACY_SYSCALL_VECTOR {
        TrapAction::Syscall
    } else if IRQ_VECTOR_START <= v && v <= IRQ_VECTOR_END {
        TrapAction::Irq(vector as usize)
    } else {
        TrapAction::Unhandled
    }
}

} // verus!
