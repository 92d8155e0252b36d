use vstd::prelude::*;

verus! {

/// The number of vectors the CPU reserves for its own exceptions.
pub const EXCEPTION_VECTORS: u8 = 32;

/// The first vector of the primary interrupt controller, just past the
/// exception vectors.
pub const PIC_1_OFFSET: u8 = 32;

/// The first vector of the secondary interrupt controller, after the
/// primary's eight lines.
pub const PIC_2_OFFSET: u8 = 40;

/// The hardware interrupts the kernel handles, by controller line.
#[derive(Debug, Clone, Copy, PartialEq, Eq, Structural)]
pub enum InterruptIndex {
    Timer,
    Keyboard,
}

/// The controller line of an interrupt.
pub open spec fn line_of(i: InterruptIndex) -> u8 {
    match i {
        InterruptIndex::Timer => 0,
        InterruptIndex::Keyboard => 1,
    }
}

impl InterruptIndex {
    /// The vector the interrupt arrives on: its line on the primary
    /// controller, past the exception vectors.
    pub fn as_u8(self) -> (r: u8)
        ensures
            r == PIC_1_OFFSET + line_of(self),
            EXCEPTION_VECTORS <= r < PIC_2_OFFSET,
    {
        match self {
            InterruptIndex::Timer => PIC_1_OFFSET,
            InterruptIndex::Keyboard => PIC_1_OFFSET + 1,
        }
    }

    /// The vector as an index into the descriptor table.
    pub fn as_usize(self) -> (r: usize)
        ensures
            r == PIC_1_OFFSET + line_of(self),
    {
        self.as_u8() as usize
    }
}

/// Where the one-way boot sequence of the interrupt subsystem stands.
#[derive(Debug, Clone, Copy, PartialEq, Eq, Structural)]
pub enum BootStage {
    Unconfigured,
    TablesLoaded,
    Active,
}

impl BootStage {
    /// The stage after the next boot step: the descriptor tables are loaded,
    /// then interrupts are enabled. There is no way back.
    pub fn advance(self) -> (r: Option<BootStage>)
        ensures
            self == BootStage::Unconfigured ==> r == Some(BootStage::TablesLoaded),
            self == BootStage::TablesLoaded ==> r == Some(BootStage::Active),
            self == BootStage::Active ==> r is None,
    {
        match self {
            BootStage::Unconfigured => Some(BootStage::TablesLoaded),
            BootStage::TablesLoaded => Some(BootStage::Active),
            BootStage::Active => None,
        }
    }
}

} // verus!
