//! The local interrupt controller and its timer, through the x2APIC registers.
use vstd::prelude::*;

verus! {

/// Spurious interrupt vector register.
pub const X2APIC_SIVR: u32 = 0x80F;

/// End of interrupt register.
pub const X2APIC_EOI: u32 = 0x80B;

/// Timer's entry of the local vector table.
pub const X2APIC_LVT_TMR: u32 = 0x832;

/// Timer's initial count.
pub const X2APIC_TMR_ICR: u32 = 0x838;

/// Timer's divider.
pub const X2APIC_TMR_DIV: u32 = 0x83E;

/// The register that switches the controller on.
pub const IA32_APIC_BASE_MSR: u32 = 0x1B;

/// Vector of the timer's interrupt.
pub const TIMER_VECTOR: u8 = 0x20;

/// Vector of spurious interrupts.
pub const SPURIOUS_VECTOR: u8 = 0xFF;

/// About 10 ms at a bus of 1 GHz, divided by 16.
pub const TIMER_COUNT: u32 = 625_000;

/// A write to the processor or to a port.
#[derive(Clone, Copy, PartialEq, Eq, Structural, Debug)]
pub enum ApicStep {
    /// A byte to a port.
    Port { port: u16, byte: u8 },
    /// A value to a model-specific register.
    Msr { msr: u32, value: u64 },
}

/// Bit `n` of a value is set.
pub open spec fn bit(v: u64, n: u64) -> bool {
    v & (1u64 << n) != 0
}

/// Whether the processor has an x2APIC, by what CPUID says of its features.
pub fn has_x2apic(cpuid_ecx1: u32) -> (r: bool)
    ensures
        r == (cpuid_ecx1 & 0x20_0000 != 0),
        r == is_there(cpuid_ecx1),
{
    cpuid_ecx1 & 0x20_0000 != 0
}

/// The writes that start the timer.
pub open spec fn timer_steps(base: u64) -> Seq<ApicStep> {
    seq![
        ApicStep::Port { port: 0x21, byte: 0xFF },
        ApicStep::Port { port: 0xA1, byte: 0xFF },
        ApicStep::Msr { msr: IA32_APIC_BASE_MSR, value: base | 0x400 },
        ApicStep::Msr { msr: X2APIC_SIVR, value: 0x1FF },
        ApicStep::Msr { msr: X2APIC_TMR_DIV, value: 3 },
        ApicStep::Msr { msr: X2APIC_LVT_TMR, value: 0x20020 },
        ApicStep::Msr { msr: X2APIC_TMR_ICR, value: 625_000 },
    ]
}

/// What is written to start the timer, where `base` is what the base register
/// holds: the old interrupt controller is masked, the new one is switched on,
/// and the timer runs periodically. The processor must have an x2APIC.
pub fn init(cpuid_ecx1: u32, base: u64) -> (steps: Vec<ApicStep>)
    requires
        cpuid_ecx1 & 0x20_0000 != 0,
    ensures
        steps@ == timer_steps(base),
{
    let steps: Vec<ApicStep> = vec![
        ApicStep::Port { port: 0x21, byte: 0xFF },
        ApicStep::Port { port: 0xA1, byte: 0xFF },
        ApicStep::Msr { msr: IA32_APIC_BASE_MSR, value: base | 0x400 },
        ApicStep::Msr { msr: X2APIC_SIVR, value: SPURIOUS_VECTOR as u64 + 0x100 },
        ApicStep::Msr { msr: X2APIC_TMR_DIV, value: 3 },
        ApicStep::Msr { msr: X2APIC_LVT_TMR, value: TIMER_VECTOR as u64 + 0x20000 },
        ApicStep::Msr { msr: X2APIC_TMR_ICR, value: TIMER_COUNT as u64 },
    ];
    steps
}

/// What is written to start the timer, by what CPUID says of the processor:
/// nothing where it has no x2APIC.
pub fn start(cpuid_ecx1: u32, base: u64) -> (r: Option<Vec<ApicStep>>)
    ensures
        r is None <==> cpuid_ecx1 & 0x20_0000 == 0,
        r is None <==> !is_there(cpuid_ecx1),
        r matches Some(steps) ==> steps@ == timer_steps(base),
{
    if has_x2apic(cpuid_ecx1) {
        Some(init(cpuid_ecx1, base))
    } else {
        None
    }
}

/// What is written to end an interrupt.
pub fn eoi() -> (step: ApicStep)
    ensures
        step == (ApicStep::Msr { msr: X2APIC_EOI, value: 0 }),
        step == ended(),
{
    ApicStep::Msr { msr: X2APIC_EOI, value: 0 }
}

/// The vector of the timer's interrupt.
pub fn timer_vector() -> (v: u8)
    ensures
        v == TIMER_VECTOR,
        v == 32,
{
    TIMER_VECTOR
}

/// What is written to stop the timer, where `lvt` is its entry.
pub fn mask_timer(lvt: u64) -> (step: ApicStep)
    ensures
        step == (ApicStep::Msr { msr: X2APIC_LVT_TMR, value: lvt | 0x10000 }),
        step == masked(lvt),
{
    ApicStep::Msr { msr: X2APIC_LVT_TMR, value: lvt | 0x10000 }
}

/// What is written to let the timer go on, where `lvt` is its entry.
pub fn unmask_timer(lvt: u64) -> (step: ApicStep)
    ensures
        step == (ApicStep::Msr { msr: X2APIC_LVT_TMR, value: lvt & !0x10000u64 }),
        step == unmasked(lvt),
{
    ApicStep::Msr { msr: X2APIC_LVT_TMR, value: lvt & !0x10000u64 }
}

/// Masking and unmasking the timer changes the mask bit and nothing else, and
/// unmasking undoes masking.
pub proof fn law_mask(lvt: u64, n: u64)
    requires
        n < 64,
    ensures
        bit(lvt | 0x10000, 16),
        !bit(lvt & !0x10000u64, 16),
        n != 16 ==> bit(lvt | 0x10000, n) == bit(lvt, n) && bit(lvt & !0x10000u64, n) == bit(
            lvt,
            n,
        ),
        !bit(lvt, 16) ==> (lvt | 0x10000) & !0x10000u64 == lvt,
{
    assert((lvt | 0x10000) & (1u64 << 16) != 0 && (lvt & !0x10000u64) & (1u64 << 16) == 0 && (n
        != 16 ==> ((lvt | 0x10000) & (1u64 << n) != 0) == (lvt & (1u64 << n) != 0) && ((lvt
        & !0x10000u64) & (1u64 << n) != 0) == (lvt & (1u64 << n) != 0)) && (lvt & (1u64 << 16) == 0
        ==> (lvt | 0x10000) & !0x10000u64 == lvt)) by (bit_vector)
        requires
            n < 64,
    ;
}

/// What a model-specific register holds after the first `n` writes, if it was written.
pub open spec fn msr_after(steps: Seq<ApicStep>, n: int, msr: int) -> Option<u64>
    decreases n,
{
    if n <= 0 {
        None
    } else {
        match steps[n - 1] {
            ApicStep::Msr { msr: m, value } => if m == msr {
                Some(value)
            } else {
                msr_after(steps, n - 1, msr)
            },
            _ => msr_after(steps, n - 1, msr),
        }
    }
}

/// Once started, both old controllers are masked and the new one is on, in its mode for
/// these registers, with what was set in its base register before. Its timer fires again
/// and again at its vector, unmasked, every 625000 ticks of the bus divided by 16; and the
/// count, which sets it going, is written last.
pub proof fn law_timer_started(base: u64)
    ensures
        ({
            let s = timer_steps(base);
            let n = s.len() as int;
            &&& s[0] == (ApicStep::Port { port: 0x21, byte: 0xFF })
            &&& s[1] == (ApicStep::Port { port: 0xA1, byte: 0xFF })
            &&& msr_after(s, n, 0x1B) matches Some(v) && v & 0x400 != 0 && v & base == base && v
                & !0x400u64 == base & !0x400u64
            &&& msr_after(s, n, 0x80F) == Some((0x100 + 0xFF) as u64)
            &&& msr_after(s, n, 0x83E) == Some(3u64)
            &&& msr_after(s, n, 0x832) matches Some(v) && v % 256 == TIMER_VECTOR && (v / 0x10000)
                % 2 == 0 && v / 0x20000 == 1
            &&& msr_after(s, n, 0x838) == Some(625_000u64)
            &&& s.last() matches ApicStep::Msr { msr, value } && msr == 0x838
            &&& s[2] matches ApicStep::Msr { msr, value } && msr == 0x1B
        }),
        TIMER_VECTOR == 0x20,
{
    reveal_with_fuel(msr_after, 8);
    assert((base | 0x400) & 0x400 != 0 && (base | 0x400) & base == base && (base | 0x400)
        & !0x400u64 == base & !0x400u64) by (bit_vector);
}

/// The write that stops the timer, where `lvt` is its entry.
pub open spec fn masked(lvt: u64) -> ApicStep {
    ApicStep::Msr { msr: X2APIC_LVT_TMR, value: lvt | 0x10000 }
}

/// The write that lets the timer go on, where `lvt` is its entry.
pub open spec fn unmasked(lvt: u64) -> ApicStep {
    ApicStep::Msr { msr: X2APIC_LVT_TMR, value: lvt & !0x10000u64 }
}

/// The write that ends an interrupt.
pub open spec fn ended() -> ApicStep {
    ApicStep::Msr { msr: X2APIC_EOI, value: 0 }
}

/// There is an x2APIC, by what CPUID says of the processor's features.
pub open spec fn is_there(cpuid_ecx1: u32) -> bool {
    cpuid_ecx1 & 0x20_0000 != 0
}

/// Stopping the timer and letting it go on write its entry, the same that starts it, with
/// the mask bit set or clear and nothing else changed; the one takes back the other.
pub proof fn law_timer_paused(base: u64, lvt: u64, n: u64)
    requires
        n < 64,
    ensures
        masked(lvt) matches ApicStep::Msr { msr, value } && msr == 0x832 && bit(value, 16) && (n != 16
            ==> bit(value, n) == bit(lvt, n)) && (!bit(lvt, 16) ==> unmasked(value)
            == (ApicStep::Msr { msr: 0x832, value: lvt })),
        unmasked(lvt) matches ApicStep::Msr { msr, value } && msr == 0x832 && !bit(value, 16) && (n
            != 16 ==> bit(value, n) == bit(lvt, n)),
        msr_after(timer_steps(base), 7, 0x832) is Some,
{
    law_mask(lvt, n);
    reveal_with_fuel(msr_after, 8);
}

/// The end of an interrupt is told by a zero in its own register, which nothing else is
/// written to; and the processor has what is needed when the bit for it is set.
pub proof fn law_interrupt_ended(base: u64, cpuid_ecx1: u32)
    ensures
        ended() == (ApicStep::Msr { msr: 0x80B, value: 0 }),
        msr_after(timer_steps(base), 7, 0x80B) is None,
        is_there(cpuid_ecx1) <==> (cpuid_ecx1 / 0x20_0000) % 2 == 1,
{
    reveal_with_fuel(msr_after, 8);
    crate::bytes::lemma_word_bits(cpuid_ecx1);
}

} // verus!
