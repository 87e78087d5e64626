//! A process in user mode: its program, its address space, and the way in and
//! out.
use vstd::prelude::*;
use crate::paging::{USER, WRITE};

verus! {

/// Where the program lies.
pub const USER_CODE_BASE: u64 = 0x0040_0000;

/// The page of the stack.
pub const USER_STACK_PAGE: u64 = 0x7FFF_E000;

/// Where the stack begins: the end of its page.
pub const USER_STACK_TOP: u64 = 0x7FFF_F000;

/// Where in the program its message lies.
pub const MESSAGE_AT: usize = 44;

/// The program: it writes its message to the standard output and exits with 0.
pub open spec fn program() -> Seq<u8> {
    // mov rax, 1; mov rdi, 1
    seq![0x48u8, 0xC7u8, 0xC0u8, 0x01u8, 0x00u8, 0x00u8, 0x00u8]
        + seq![0x48u8, 0xC7u8, 0xC7u8, 0x01u8, 0x00u8, 0x00u8, 0x00u8]
        // lea rsi, [rip + 23]; mov rdx, 19
        + seq![0x48u8, 0x8Du8, 0x35u8, 0x17u8, 0x00u8, 0x00u8, 0x00u8]
        + seq![0x48u8, 0xC7u8, 0xC2u8, 0x13u8, 0x00u8, 0x00u8, 0x00u8]
        // syscall
        + seq![0x0Fu8, 0x05u8]
        // mov rax, 60; xor rdi, rdi; syscall
        + seq![0x48u8, 0xC7u8, 0xC0u8, 0x3Cu8, 0x00u8, 0x00u8, 0x00u8]
        + seq![0x48u8, 0x31u8, 0xFFu8] + seq![0x0Fu8, 0x05u8]
        // jmp to itself
        + seq![0xEBu8, 0xFEu8]
        + message()
}

/// The message: `Hello from ring 3!` and a newline.
pub open spec fn message() -> Seq<u8> {
    seq![
        0x48u8, 0x65u8, 0x6Cu8, 0x6Cu8, 0x6Fu8, 0x20u8,
        0x66u8, 0x72u8, 0x6Fu8, 0x6Du8, 0x20u8,
        0x72u8, 0x69u8, 0x6Eu8, 0x67u8, 0x20u8,
        0x33u8, 0x21u8, 0x0Au8,
    ]
}

/// The program.
pub fn user_program() -> (p: [u8; 63])
    ensures
        p@ == program(),
{
    let p: [u8; 63] = [
        0x48, 0xC7, 0xC0, 0x01, 0x00, 0x00, 0x00,
        0x48, 0xC7, 0xC7, 0x01, 0x00, 0x00, 0x00,
        0x48, 0x8D, 0x35, 0x17, 0x00, 0x00, 0x00,
        0x48, 0xC7, 0xC2, 0x13, 0x00, 0x00, 0x00,
        0x0F, 0x05,
        0x48, 0xC7, 0xC0, 0x3C, 0x00, 0x00, 0x00,
        0x48, 0x31, 0xFF,
        0x0F, 0x05,
        0xEB, 0xFE,
        0x48, 0x65, 0x6C, 0x6C, 0x6F, 0x20,
        0x66, 0x72, 0x6F, 0x6D, 0x20,
        0x72, 0x69, 0x6E, 0x67, 0x20,
        0x33, 0x21, 0x0A,
    ];
    assert(p@ =~= program());
    p
}

/// The top table of a new address space: the kernel's half of the current one,
/// and nothing for the user.
pub fn create_user_pml4(current: &[u64; 512]) -> (table: [u64; 512])
    ensures
        forall|i: int| 0 <= i < 256 ==> table@[i] == 0,
        forall|i: int| 256 <= i < 512 ==> table@[i] == current@[i],
        table@ == user_root(current@),
{
    let mut table: [u64; 512] = [0u64; 512];
    let mut i: usize = 256;
    while i < 512
        invariant
            256 <= i <= 512,
            forall|j: int| 0 <= j < 256 ==> table@[j] == 0,
            forall|j: int| 256 <= j < i ==> table@[j] == current@[j],
        decreases 512 - i,
    {
        table[i] = current[i];
        i = i + 1;
    }
    assert(table@ =~= user_root(current@));
    table
}

/// The code page: the program, and zeros behind it.
pub fn code_page() -> (page: Vec<u8>)
    ensures
        page@ == program() + Seq::new(4033, |i: int| 0u8),
{
    let p: [u8; 63] = user_program();
    let mut page: Vec<u8> = Vec::new();
    let mut i: usize = 0;
    while i < 4096
        invariant
            i <= 4096,
            p@ == program(),
            page@.len() == i,
            forall|j: int|
                0 <= j < i ==> page@[j] == if j < 63 {
                    program()[j]
                } else {
                    0
                },
        decreases 4096 - i,
    {
        if i < 63 {
            page.push(p[i]);
        } else {
            page.push(0);
        }
        i = i + 1;
    }
    assert(page@ =~= program() + Seq::new(4033, |i: int| 0u8));
    page
}

/// A page that the process needs.
#[derive(Clone, Copy, PartialEq, Eq, Structural, Debug)]
pub enum Slot {
    /// The top table.
    Tables,
    Code,
    Stack,
}

/// One thing to do to run the process.
#[derive(Clone, Copy, PartialEq, Eq, Structural, Debug)]
pub enum RunOp {
    /// Take a page.
    Take(Slot),
    /// Write the new top table.
    FillTables,
    /// Write the code page.
    FillCode,
    /// Write zeros.
    Clear(Slot),
    /// Map a page in the new address space.
    MapPage { virt: u64, slot: Slot, flags: u64 },
    MaskTimer,
    /// Switch to the new address space; the old one is kept in mind.
    SwitchTables,
    /// Go to user mode, until the process exits.
    Enter,
    /// Switch back to the old address space.
    RestoreTables,
    UnmaskTimer,
    /// Give a page back.
    Free(Slot),
}

/// What is done to run the process, in order.
pub open spec fn run_program() -> Seq<RunOp> {
    seq![
        RunOp::Take(Slot::Tables),
        RunOp::FillTables,
        RunOp::Take(Slot::Code),
        RunOp::FillCode,
        RunOp::MapPage { virt: USER_CODE_BASE, slot: Slot::Code, flags: USER | WRITE },
        RunOp::Take(Slot::Stack),
        RunOp::Clear(Slot::Stack),
        RunOp::MapPage { virt: USER_STACK_PAGE, slot: Slot::Stack, flags: USER | WRITE },
        RunOp::MaskTimer,
        RunOp::SwitchTables,
        RunOp::Enter,
        RunOp::RestoreTables,
        RunOp::UnmaskTimer,
        RunOp::Free(Slot::Code),
        RunOp::Free(Slot::Stack),
        RunOp::Free(Slot::Tables),
    ]
}

/// What is done to run the process, in order.
pub fn run_test() -> (ops: Vec<RunOp>)
    ensures
        ops@ == run_program(),
{
    let ops: Vec<RunOp> = vec![
        RunOp::Take(Slot::Tables),
        RunOp::FillTables,
        RunOp::Take(Slot::Code),
        RunOp::FillCode,
        RunOp::MapPage { virt: USER_CODE_BASE, slot: Slot::Code, flags: USER | WRITE },
        RunOp::Take(Slot::Stack),
        RunOp::Clear(Slot::Stack),
        RunOp::MapPage { virt: USER_STACK_PAGE, slot: Slot::Stack, flags: USER | WRITE },
        RunOp::MaskTimer,
        RunOp::SwitchTables,
        RunOp::Enter,
        RunOp::RestoreTables,
        RunOp::UnmaskTimer,
        RunOp::Free(Slot::Code),
        RunOp::Free(Slot::Stack),
        RunOp::Free(Slot::Tables),
    ];
    assert(ops@ =~= run_program());
    ops
}

/// What the processor pops on the way to user mode.
pub open spec fn entry_words() -> Seq<u64> {
    seq![USER_CODE_BASE, 0x23u64, 0x202u64, USER_STACK_TOP, 0x1Bu64]
}

/// What the processor pops on the way to user mode: instruction pointer, code
/// segment, flags with interrupts on, stack pointer, stack segment.
pub fn entry_frame() -> (f: [u64; 5])
    ensures
        f@ == entry_words(),
        f@ == seq![USER_CODE_BASE, 0x23u64, 0x202u64, USER_STACK_TOP, 0x1Bu64],
{
    let f: [u64; 5] = [USER_CODE_BASE, 0x23, 0x202, USER_STACK_TOP, 0x1B];
    assert(f@ =~= seq![USER_CODE_BASE, 0x23u64, 0x202u64, USER_STACK_TOP, 0x1Bu64]);
    f
}

/// Whether a process runs, and how the last one ended.
#[derive(Clone, Copy, PartialEq, Eq, Structural, Debug)]
pub struct Process {
    pub running: bool,
    pub exit_code: u64,
}

impl Process {
    /// No process yet.
    pub fn new() -> (p: Process)
        ensures
            p == (Process { running: false, exit_code: 0 }),
            p == Process::none(),
    {
        Process { running: false, exit_code: 0 }
    }

    /// Notes that the process enters user mode.
    pub fn entered(&mut self)
        ensures
            *final(self) == (Process { running: true, ..*old(self) }),
            *final(self) == old(self).started(),
    {
        self.running = true;
    }

    /// Notes that the process exits.
    pub fn do_exit(&mut self, code: u64)
        requires
            old(self).running,
        ensures
            *final(self) == (Process { running: false, exit_code: code }),
            *final(self) == old(self).exited(code),
    {
        self.exit_code = code;
        self.running = false;
    }
}

// ── Laws ────────────────────────────────────────────────────────────────────

/// The program's address arithmetic holds: what it loads relative to the end of
/// its third instruction is its message, and the length it gives is the
/// message's.
pub proof fn law_message_found()
    ensures
        program().len() == 63,
        21 + program()[17] == MESSAGE_AT,
        program().skip(MESSAGE_AT as int) == message(),
        program()[24] == message().len(),
{
    assert(program().skip(MESSAGE_AT as int) =~= message());
}

/// The two pages of the process do not overlap, are whole pages, and lie in the
/// user's half.
pub proof fn law_layout()
    ensures
        USER_CODE_BASE % 4096 == 0,
        USER_STACK_PAGE % 4096 == 0,
        USER_CODE_BASE + 4096 <= USER_STACK_PAGE,
        USER_STACK_TOP == USER_STACK_PAGE + 4096,
        crate::paging::index_at(USER_CODE_BASE, 4) < 256,
        crate::paging::index_at(USER_STACK_PAGE, 4) < 256,
{
}

/// While the process is in user mode the timer is masked and its own address
/// space is loaded; afterwards both are as before, and every page that was taken
/// is given back once.
pub proof fn law_run_order(i: int, j: int, slot: Slot)
    requires
        0 <= i < run_program().len(),
        0 <= j < run_program().len(),
        run_program()[i] == RunOp::Enter,
    ensures
        run_program()[j] == RunOp::MaskTimer || run_program()[j] == RunOp::SwitchTables ==> j < i,
        run_program()[j] == RunOp::UnmaskTimer || run_program()[j] == RunOp::RestoreTables ==> j
            > i,
        run_program()[j] is Free ==> j > i,
        run_program().filter(|o: RunOp| o == RunOp::Take(slot)).len() == 1,
        run_program().filter(|o: RunOp| o == RunOp::Free(slot)).len() == 1,
{
    reveal(Seq::filter);
    reveal_with_fuel(Seq::filter, 17);
}

/// `mov` of a small number into a register.
pub open spec fn mov(reg: u8, n: u8) -> Seq<u8> {
    seq![0x48u8, 0xC7u8, (0xC0 + reg) as u8, n, 0u8, 0u8, 0u8]
}

/// The program, instruction by instruction: the number of the call that writes, the
/// standard output, the address of the message, reckoned from the next instruction, and
/// its length; the call; then the number of the call that exits, zero, and the call; and
/// for the case that it comes back, a jump to itself. The message follows.
pub proof fn law_program()
    ensures
        ({
            let rax = 0u8;
            let rdi = 7u8;
            let rdx = 2u8;
            let syscall = seq![0x0Fu8, 0x05u8];
            program() == mov(rax, 1) + mov(rdi, 1) + seq![
                0x48u8, 0x8Du8, 0x35u8, 23u8, 0u8, 0u8, 0u8,
            ] + mov(rdx, 19) + syscall + mov(rax, 60) + seq![0x48u8, 0x31u8, 0xFFu8] + syscall
                + seq![0xEBu8, 0xFEu8] + message()
        }),
        message().map_values(|b: u8| b as char) == "Hello from ring 3!\n"@,
        message().len() == 19,
        mov(2, 19).len() + 2 + mov(0, 60).len() + 3 + 2 + 2 == 23,
{
    reveal_strlit("Hello from ring 3!\n");
    assert(message().map_values(|b: u8| b as char) =~= "Hello from ring 3!\n"@);
}

/// Every page is taken before it is filled or mapped; the tables and the code are filled
/// before the process runs; and each page is mapped at its place, open to user code.
pub proof fn law_run_prepares(i: int, j: int)
    requires
        0 <= i < run_program().len(),
        0 <= j < run_program().len(),
    ensures
        ({
            let p = run_program();
            &&& p[i] == RunOp::Take(Slot::Tables) && (p[j] is FillTables || p[j] is MapPage) ==> i
                < j
            &&& p[i] == RunOp::Take(Slot::Code) && p[j] is FillCode ==> i < j
            &&& p[i] == RunOp::Take(Slot::Stack) && p[j] == RunOp::Clear(Slot::Stack) ==> i < j
            &&& (p[i] is FillTables || p[i] is FillCode || p[i] is MapPage || p[i] is Clear)
                && p[j] is Enter ==> i < j
            &&& p[i] is SwitchTables && p[j] is Enter ==> i < j
            &&& p[i] is RestoreTables && (p[j] is Free || p[j] is UnmaskTimer) ==> i < j
            &&& p[i] matches RunOp::MapPage { virt, slot, flags } ==> flags & USER != 0 && flags
                & WRITE != 0 && (slot == Slot::Code && virt == 0x40_0000 || slot == Slot::Stack
                && virt == 0x7FFF_E000)
            &&& p.contains(RunOp::FillTables) && p.contains(RunOp::FillCode)
        }),
{
    assert((4u64 | 2) & 4 != 0 && (4u64 | 2) & 2 != 0) by (bit_vector);
    assert(run_program()[1] == RunOp::FillTables && run_program()[3] == RunOp::FillCode);
}

/// The process begins at its first instruction with an empty stack, in user mode, with
/// interrupts on.
pub proof fn law_entry()
    ensures
        entry_words()[0] == 0x40_0000,
        entry_words()[1] % 4 == 3,
        entry_words()[4] % 4 == 3,
        (entry_words()[2] / 0x200) % 2 == 1,
        (entry_words()[2] / 2) % 2 == 1,
        entry_words()[3] == 0x7FFF_E000 + 4096,
        entry_words()[1] != entry_words()[4],
{
}

impl Process {
    /// No process yet.
    pub open spec fn none() -> Process {
        Process { running: false, exit_code: 0 }
    }

    /// The process in user mode.
    pub open spec fn started(self) -> Process {
        Process { running: true, ..self }
    }

    /// The process after its exit.
    pub open spec fn exited(self, code: u64) -> Process {
        Process { running: false, exit_code: code }
    }
}

/// The top table of a new address space.
pub open spec fn user_root(current: Seq<u64>) -> Seq<u64> {
    Seq::new(
        512,
        |i: int|
            if i < 256 {
                0
            } else {
                current[i]
            },
    )
}

/// A process runs from when it enters user mode until it exits; then its code is known.
/// Before the first there is none, and entering changes no code.
pub proof fn law_process_runs(p: Process, code: u64)
    ensures
        !Process::none().running,
        Process::none().exit_code == 0,
        p.started().running,
        p.started().exit_code == p.exit_code,
        !p.started().exited(code).running,
        p.started().exited(code).exit_code == code,
{
}

/// A new address space shares the kernel's half with the current one, entry by entry, so
/// that the kernel is where it was; the user's half is empty. Two of them differ nowhere.
pub proof fn law_kernel_shared(current: Seq<u64>, i: int)
    requires
        current.len() == 512,
        0 <= i < 512,
    ensures
        user_root(current).len() == 512,
        i >= 256 ==> user_root(current)[i] == current[i],
        i < 256 ==> user_root(current)[i] == 0,
        user_root(user_root(current)) == user_root(current),
{
    assert(user_root(user_root(current)) =~= user_root(current));
}

} // verus!
