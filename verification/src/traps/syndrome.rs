use vstd::prelude::*;

verus! {

/// The cause of an instruction or data abort.
#[derive(Debug, PartialEq, Eq, Copy, Clone, Structural)]
pub enum Fault {
    AddressSize,
    Translation,
    AccessFlag,
    Permission,
    Alignment,
    TlbConflict,
    /// Any other fault, with its six-bit status code.
    Other(u8),
}

/// Why a synchronous exception was taken, as the syndrome register reports it.
#[derive(Debug, PartialEq, Eq, Copy, Clone, Structural)]
pub enum Syndrome {
    Unknown,
    WfiWfe,
    McrMrc,
    McrrMrrc,
    LdcStc,
    SimdFp,
    Vmrs,
    Mrrc,
    IllegalExecutionState,
    /// Supervisor call, with the immediate of the instruction.
    Svc(u16),
    /// Hypervisor call, with the immediate of the instruction.
    Hvc(u16),
    /// Secure monitor call, with the immediate of the instruction.
    Smc(u16),
    MsrMrsSystem,
    InstructionAbort { kind: Fault, level: u8 },
    PCAlignmentFault,
    DataAbort { kind: Fault, level: u8 },
    SpAlignmentFault,
    TrappedFpu,
    SError,
    Breakpoint,
    Step,
    Watchpoint,
    /// Software breakpoint instruction, with its immediate.
    Brk(u16),
    /// A class this decoder does not know, with the raw register value.
    Other(u32),
}

/// The exception class: the top six bits of the syndrome register.
pub open spec fn exception_class(esr: u32) -> int {
    esr as int / 0x400_0000
}

/// The sixteen-bit immediate of a trapping call or breakpoint instruction:
/// the low sixteen bits of the syndrome register.
pub open spec fn immediate(esr: u32) -> u16 {
    (esr as int % 0x1_0000) as u16
}

/// The six-bit fault status code of an abort: the low six bits.
pub open spec fn fault_status(esr: u32) -> u8 {
    (esr as int % 64) as u8
}

/// The translation level of an abort: the low two bits.
pub open spec fn fault_level(esr: u32) -> u8 {
    (esr as int % 4) as u8
}

impl Fault {
    /// The fault that the status code of `esr` names. The upper four bits of
    /// the code select the kind; the lower two are the level, which the
    /// abort carries beside the kind.
    pub open spec fn decode(esr: u32) -> Fault {
        let status = fault_status(esr);
        let kind = status as int / 4;
        if kind == 0 {
            Fault::AddressSize
        } else if kind == 1 {
            Fault::Translation
        } else if kind == 2 {
            Fault::AccessFlag
        } else if kind == 3 {
            Fault::Permission
        } else if kind == 8 {
            Fault::Alignment
        } else if kind == 12 {
            Fault::TlbConflict
        } else {
            Fault::Other(status)
        }
    }
}

impl Syndrome {
    /// The syndrome that the raw register value `esr` stands for.
    pub open spec fn decode(esr: u32) -> Syndrome {
        let class = exception_class(esr);
        if class == 0b000000 {
            Syndrome::Unknown
        } else if class == 0b000001 {
            Syndrome::WfiWfe
        } else if class == 0b000011 || class == 0b000101 {
            Syndrome::McrMrc
        } else if class == 0b000100 {
            Syndrome::McrrMrrc
        } else if class == 0b000110 {
            Syndrome::LdcStc
        } else if class == 0b000111 {
            Syndrome::SimdFp
        } else if class == 0b001000 {
            Syndrome::Vmrs
        } else if class == 0b001100 {
            Syndrome::Mrrc
        } else if class == 0b001110 {
            Syndrome::IllegalExecutionState
        } else if class == 0b010001 || class == 0b010101 {
            Syndrome::Svc(immediate(esr))
        } else if class == 0b010010 || class == 0b010110 {
            Syndrome::Hvc(immediate(esr))
        } else if class == 0b010011 || class == 0b010111 {
            Syndrome::Smc(immediate(esr))
        } else if class == 0b011000 {
            Syndrome::MsrMrsSystem
        } else if class == 0b100000 || class == 0b100001 {
            Syndrome::InstructionAbort { kind: Fault::decode(esr), level: fault_level(esr) }
        } else if class == 0b100010 {
            Syndrome::PCAlignmentFault
        } else if class == 0b100100 || class == 0b100101 {
            Syndrome::DataAbort { kind: Fault::decode(esr), level: fault_level(esr) }
        } else if class == 0b100110 {
            Syndrome::SpAlignmentFault
        } else if class == 0b101000 || class == 0b101100 {
            Syndrome::TrappedFpu
        } else if class == 0b101111 {
            Syndrome::SError
        } else if class == 0b110000 || class == 0b110001 {
            Syndrome::Breakpoint
        } else if class == 0b110010 || class == 0b110011 {
            Syndrome::Step
        } else if class == 0b110100 || class == 0b110101 {
            Syndrome::Watchpoint
        } else if class == 0b111000 || class == 0b111100 {
            Syndrome::Brk(immediate(esr))
        } else {
            Syndrome::Other(esr)
        }
    }
}

impl From<u32> for Fault {
    /// Decodes the fault status of an abort from the raw syndrome value.
    fn from(val: u32) -> (fault: Fault)
        ensures
            fault == Fault::decode(val),
    {
        let status: u8 = (val & 0b111111) as u8;
        assert(val & 0b111111 == val % 64) by (bit_vector);
        assert((val & 0b111111) >> 2 == (val % 64) / 4) by (bit_vector);
        let kind: u32 = (val & 0b111111) >> 2;
        if kind == 0b0000 {
            Fault::AddressSize
        } else if kind == 0b0001 {
            Fault::Translation
        } else if kind == 0b0010 {
            Fault::AccessFlag
        } else if kind == 0b0011 {
            Fault::Permission
        } else if kind == 0b1000 {
            Fault::Alignment
        } else if kind == 0b1100 {
            Fault::TlbConflict
        } else {
            Fault::Other(status)
        }
    }
}

impl vstd::std_specs::convert::FromSpecImpl<u32> for Fault {
    open spec fn obeys_from_spec() -> bool {
        true
    }

    open spec fn from_spec(val: u32) -> Fault {
        Fault::decode(val)
    }
}

/// The low sixteen bits of `esr`.
fn low_half(esr: u32) -> (imm: u16)
    ensures
        imm == immediate(esr),
{
    assert(esr & 0xffff == esr % 0x1_0000) by (bit_vector);
    (esr & 0xffff) as u16
}

/// The low two bits of `esr`.
fn low_pair(esr: u32) -> (level: u8)
    ensures
        level == fault_level(esr),
{
    assert(esr & 0b11 == esr % 4) by (bit_vector);
    (esr & 0b11) as u8
}

impl From<u32> for Syndrome {
    /// Decodes a raw syndrome register value. Every value decodes, and equal
    /// values decode alike; a class without a variant of its own comes back
    /// as `Other` with the raw value.
    fn from(esr: u32) -> (syndrome: Syndrome)
        ensures
            syndrome == Syndrome::decode(esr),
    {
        assert(esr >> 26 == esr / 0x400_0000) by (bit_vector);
        let class: u32 = esr >> 26;
        match class {
            0b000000 => Syndrome::Unknown,
            0b000001 => Syndrome::WfiWfe,
            0b000011 => Syndrome::McrMrc,
            0b000100 => Syndrome::McrrMrrc,
            0b000101 => Syndrome::McrMrc,
            0b000110 => Syndrome::LdcStc,
            0b000111 => Syndrome::SimdFp,
            0b001000 => Syndrome::Vmrs,
            0b001100 => Syndrome::Mrrc,
            0b001110 => Syndrome::IllegalExecutionState,
            0b010001 => Syndrome::Svc(low_half(esr)),
            0b010010 => Syndrome::Hvc(low_half(esr)),
            0b010011 => Syndrome::Smc(low_half(esr)),
            0b010101 => Syndrome::Svc(low_half(esr)),
            0b010110 => Syndrome::Hvc(low_half(esr)),
            0b010111 => Syndrome::Smc(low_half(esr)),
            0b011000 => Syndrome::MsrMrsSystem,
            0b100000 => Syndrome::InstructionAbort { kind: Fault::from(esr), level: low_pair(esr) },
            0b100001 => Syndrome::InstructionAbort { kind: Fault::from(esr), level: low_pair(esr) },
            0b100010 => Syndrome::PCAlignmentFault,
            0b100100 => Syndrome::DataAbort { kind: Fault::from(esr), level: low_pair(esr) },
            0b100101 => Syndrome::DataAbort { kind: Fault::from(esr), level: low_pair(esr) },
            0b100110 => Syndrome::SpAlignmentFault,
            0b101000 => Syndrome::TrappedFpu,
            0b101100 => Syndrome::TrappedFpu,
            0b101111 => Syndrome::SError,
            0b110000 => Syndrome::Breakpoint,
            0b110001 => Syndrome::Breakpoint,
            0b110010 => Syndrome::Step,
            0b110011 => Syndrome::Step,
            0b110100 => Syndrome::Watchpoint,
            0b110101 => Syndrome::Watchpoint,
            0b111000 => Syndrome::Brk(low_half(esr)),
            0b111100 => Syndrome::Brk(low_half(esr)),
            _ => Syndrome::Other(esr),
        }
    }
}

impl vstd::std_specs::convert::FromSpecImpl<u32> for Syndrome {
    open spec fn obeys_from_spec() -> bool {
        true
    }

    open spec fn from_spec(esr: u32) -> Syndrome {
        Syndrome::decode(esr)
    }
}

/// A supervisor call or a software breakpoint carries the low sixteen bits
/// of the raw value unchanged, and nothing else of it.
pub proof fn lemma_immediate_preserved(esr: u32)
    ensures
        Syndrome::decode(esr) matches Syndrome::Svc(n) ==> n as int == esr as int % 0x1_0000,
        Syndrome::decode(esr) matches Syndrome::Brk(n) ==> n as int == esr as int % 0x1_0000,
        Syndrome::decode(esr) matches Syndrome::Svc(n) ==> n == esr & 0xffff,
        Syndrome::decode(esr) matches Syndrome::Brk(n) ==> n == esr & 0xffff,
{
    assert(esr & 0xffff == esr % 0x1_0000) by (bit_vector);
}

/// Decoding looks at nothing but the raw value: two equal values decode to
/// the same syndrome.
pub proof fn lemma_decode_deterministic(a: u32, b: u32)
    requires
        a == b,
    ensures
        Syndrome::decode(a) == Syndrome::decode(b),
{
}

} // verus!
