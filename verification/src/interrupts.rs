use vstd::prelude::*;

verus! {

/// Interrupt vector at which the primary PIC's lines start.
pub const PIC_1_OFFSET: u8 = 32;

/// Interrupt vector at which the secondary PIC's lines start.
pub const PIC_2_OFFSET: u8 = PIC_1_OFFSET + 8;

/// Hardware interrupts that the kernel handles, by PIC line.
#[derive(Debug, Clone, Copy, PartialEq, Eq, Structural)]
pub enum InterruptIndex {
    Timer,
}

/// The interrupt vector of each hardware interrupt.
pub open spec fn vector_of(index: InterruptIndex) -> u8 {
    match index {
        InterruptIndex::Timer => PIC_1_OFFSET,
    }
}

impl From<InterruptIndex> for u8 {
    fn from(index: InterruptIndex) -> (vector: u8) {
        match index {
            InterruptIndex::Timer => PIC_1_OFFSET,
        }
    }
}

impl vstd::std_specs::convert::FromSpecImpl<InterruptIndex> for u8 {
    open spec fn obeys_from_spec() -> bool {
        true
    }

    open spec fn from_spec(index: InterruptIndex) -> u8 {
        vector_of(index)
    }
}

impl From<InterruptIndex> for usize {
    fn from(index: InterruptIndex) -> (vector: usize) {
        let byte = u8::from(index);
        byte as usize
    }
}

impl vstd::std_specs::convert::FromSpecImpl<InterruptIndex> for usize {
    open spec fn obeys_from_spec() -> bool {
        true
    }

    open spec fn from_spec(index: InterruptIndex) -> usize {
        vector_of(index) as usize
    }
}

/// The vectors of the hardware interrupts lie in the primary PIC's range, above the
/// 32 vectors that the CPU reserves for exceptions, and both conversions agree.
pub proof fn lemma_interrupt_vectors(index: InterruptIndex)
    ensures
        PIC_1_OFFSET == 32,
        PIC_2_OFFSET == 40,
        vector_of(InterruptIndex::Timer) == 32,
        32 <= vector_of(index) < PIC_2_OFFSET,
        <u8 as vstd::std_specs::convert::FromSpec<InterruptIndex>>::from_spec(index) == vector_of(index),
        <usize as vstd::std_specs::convert::FromSpec<InterruptIndex>>::from_spec(index) as int
            == vector_of(index) as int,
{
}

} // verus!
